//! A whole request, run against a virtual machine held in plain values: a
//! heap of tags, and what the machine answers to each service. Every service
//! that the course of the request asks for is done on that heap.
use crate::heap::{bearing, handles_within, lemma_bearing, lemma_tag_first_len, reach, walked};
use crate::heap::{no_instance_is_returned_twice, no_room_returns_nothing, untagged};
use crate::heap::{returns_as_many_as_fit, same_order_returns_the_same};
use crate::heap::second_request_returns_the_same;
use crate::heap::{iterate_over_instances_of_class, tagged_objects};
use crate::pipeline::{environment_available, environment_error_text};
use crate::pipeline::{stages_left, stores_left};
use crate::pipeline::{Action, ActionView, Event, EventView, Session, Stage};
use crate::utils::{jvmti_error_text, JvmtiError};
use crate::walk::INSTANCE_TAG;
use jni_sys::{jint, jlong};
use vstd::prelude::*;

verus! {

/// What the virtual machine answers to the services of a request. A service
/// of the native interface that fails does so with the message held here;
/// a call of the introspection environment answers with the status held here.
#[derive(Clone, Debug, PartialEq, Eq)]
pub struct Answers {
    /// Why the virtual machine cannot be had, if it cannot.
    pub java_vm: Option<String>,
    /// The status of the query for the introspection environment.
    pub environment_status: jint,
    /// The address that the query yields.
    pub environment: usize,
    /// The status of the request for the right to tag objects.
    pub capability_status: JvmtiError,
    /// The status of the walk.
    pub walk_status: JvmtiError,
    /// The status of the retrieval of the tagged objects.
    pub retrieval_status: JvmtiError,
    /// Why no array can be allocated, if none can.
    pub allocation: Option<String>,
    /// Why no object can be stored into the array, if none can.
    pub store: Option<String>,
    /// The status of the release of the buffer of handles.
    pub release_status: JvmtiError,
}

impl Answers {
    /// Whether the request gets hold of an introspection environment.
    pub open spec fn resolves(self) -> bool {
        self.java_vm is None && environment_available(self.environment_status, self.environment)
    }

    /// Whether the request comes to walk the heap.
    pub open spec fn negotiates(self) -> bool {
        self.resolves() && self.capability_status == 0
    }

    /// Whether the request comes to hold the tagged objects.
    pub open spec fn collects(self) -> bool {
        self.negotiates() && self.walk_status == 0 && self.retrieval_status == 0
    }

    /// Whether every service succeeds.
    pub open spec fn works(self) -> bool {
        &&& self.collects()
        &&& self.allocation is None
        &&& self.store is None
        &&& self.release_status == 0
    }

    /// The tags of the heap after the request: those that its walk leaves, if
    /// it comes to walk at all.
    pub open spec fn tags_after(self, tags: Seq<jlong>, order: Seq<usize>, limit: jint) -> Seq<
        jlong,
    > {
        if self.negotiates() {
            walked(tags, order, limit)
        } else {
            tags
        }
    }

    /// How the request ends: with the handles of the objects that bear the
    /// tag after the walk, or with the text of the first failure.
    pub open spec fn outcome(self, tags: Seq<jlong>, order: Seq<usize>, limit: jint) -> Result<
        Seq<usize>,
        Seq<char>,
    > {
        let found = bearing(walked(tags, order, limit), INSTANCE_TAG);
        if self.java_vm is Some {
            Err(self.java_vm->0@)
        } else if !environment_available(self.environment_status, self.environment) {
            Err(environment_error_text(self.environment_status))
        } else if self.capability_status != 0 {
            Err(jvmti_error_text(self.capability_status))
        } else if self.walk_status != 0 {
            Err(jvmti_error_text(self.walk_status))
        } else if self.retrieval_status != 0 {
            Err(jvmti_error_text(self.retrieval_status))
        } else if self.allocation is Some {
            Err(self.allocation->0@)
        } else if found.len() > 0 && self.store is Some {
            Err(self.store->0@)
        } else if self.release_status != 0 {
            Err(jvmti_error_text(self.release_status))
        } else {
            Ok(found)
        }
    }

    /// A virtual machine whose every service succeeds.
    pub fn working() -> (answers: Answers)
        ensures
            answers.works(),
    {
        Answers {
            java_vm: None,
            environment_status: 0,
            environment: 1,
            capability_status: 0,
            walk_status: 0,
            retrieval_status: 0,
            allocation: None,
            store: None,
            release_status: 0,
        }
    }
}

/// Where every service succeeds, the request hands back the objects that
/// bear the tag after its walk.
pub proof fn working_machine_returns_the_tagged(
    answers: Answers,
    tags: Seq<jlong>,
    order: Seq<usize>,
    limit: jint,
)
    requires
        answers.works(),
    ensures
        answers.tags_after(tags, order, limit) == walked(tags, order, limit),
        answers.outcome(tags, order, limit) == Ok::<Seq<usize>, Seq<char>>(
            bearing(walked(tags, order, limit), INSTANCE_TAG),
        ),
{
}

/// A request with a limit of zero or less returns an empty array, on a heap
/// on which no object bore the tag before.
pub proof fn request_without_room_returns_nothing(
    answers: Answers,
    tags: Seq<jlong>,
    order: Seq<usize>,
    limit: jint,
)
    requires
        answers.works(),
        limit <= 0,
        untagged(tags, INSTANCE_TAG),
    ensures
        answers.outcome(tags, order, limit) is Ok,
        answers.outcome(tags, order, limit)->Ok_0.len() == 0,
{
    no_room_returns_nothing(tags, order, limit);
}

/// A request with a limit above zero returns an array as long as the class
/// has live instances, or as long as the limit where that is less, on a heap
/// on which no object bore the tag before.
pub proof fn request_returns_as_many_as_fit(
    answers: Answers,
    tags: Seq<jlong>,
    order: Seq<usize>,
    limit: jint,
)
    requires
        answers.works(),
        limit > 0,
        untagged(tags, INSTANCE_TAG),
        order.no_duplicates(),
        handles_within(order, tags.len()),
    ensures
        answers.outcome(tags, order, limit) is Ok,
        answers.outcome(tags, order, limit)->Ok_0.len() == if order.len() <= limit {
            order.len()
        } else {
            limit as nat
        },
{
    returns_as_many_as_fit(tags, order, limit);
}

/// A second request with the same limit, made on the heap as the first one
/// left it, returns what the first one returned, and so an array of the same
/// length, where every instance that its walk tags bears the tag already. It
/// does so in particular where its walk visits the instances in the order of
/// the first.
pub proof fn repeated_request_returns_the_same(
    answers: Answers,
    tags: Seq<jlong>,
    first: Seq<usize>,
    second: Seq<usize>,
    limit: jint,
)
    requires
        answers.works(),
        handles_within(first, tags.len()),
        handles_within(second, tags.len()),
        second == first || forall|j: int|
            0 <= j < reach(second.len(), limit as int) ==> walked(tags, first, limit)[second[j] as int]
                == INSTANCE_TAG,
    ensures
        answers.outcome(answers.tags_after(tags, first, limit), second, limit) == answers.outcome(
            tags,
            first,
            limit,
        ),
{
    if second == first {
        same_order_returns_the_same(tags, first, limit);
    } else {
        second_request_returns_the_same(tags, first, second, limit);
    }
}

/// No object appears twice in the array that a request returns.
pub proof fn request_returns_no_instance_twice(
    answers: Answers,
    tags: Seq<jlong>,
    order: Seq<usize>,
    limit: jint,
)
    requires
        handles_within(order, tags.len()),
        tags.len() <= usize::MAX,
    ensures
        answers.outcome(tags, order, limit) is Ok ==> answers.outcome(
            tags,
            order,
            limit,
        )->Ok_0.no_duplicates(),
{
    lemma_tag_first_len(tags, order, reach(order.len(), limit as int));
    no_instance_is_returned_twice(walked(tags, order, limit), INSTANCE_TAG);
}

/// Where the environment is had and the right to tag objects is denied, the
/// request ends with an exception that carries the text of that denial, and
/// the heap is as it was: no walk has touched it.
pub proof fn denied_capability_throws_before_any_walk(
    answers: Answers,
    tags: Seq<jlong>,
    order: Seq<usize>,
    limit: jint,
)
    requires
        answers.resolves(),
        answers.capability_status != 0,
    ensures
        answers.outcome(tags, order, limit) == Err::<Seq<usize>, Seq<char>>(
            jvmti_error_text(answers.capability_status),
        ),
        answers.tags_after(tags, order, limit) == tags,
{
}

/// Where the walk succeeds and the retrieval fails, the request ends with an
/// exception whose message is the text of the retrieval's status.
pub proof fn failed_retrieval_throws_its_status(
    answers: Answers,
    tags: Seq<jlong>,
    order: Seq<usize>,
    limit: jint,
)
    requires
        answers.negotiates(),
        answers.walk_status == 0,
        answers.retrieval_status != 0,
    ensures
        answers.outcome(tags, order, limit) == Err::<Seq<usize>, Seq<char>>(
            jvmti_error_text(answers.retrieval_status),
        ),
{
}

/// Whether the heap, the buffer of handles and the array are what a request
/// that has come this far has made of them.
spec fn coherent(
    session: Session,
    action: ActionView,
    tags: Seq<jlong>,
    buffer: Seq<usize>,
    array: Seq<usize>,
    answers: Answers,
    start: Seq<jlong>,
    order: Seq<usize>,
    limit_num: jint,
) -> bool {
    let end = walked(start, order, limit_num);
    let found = bearing(end, INSTANCE_TAG);
    &&& session.limit_num == limit_num
    &&& match (session.stage, action) {
        (Stage::ResolvingVm, ActionView::GetJavaVm) => tags == start,
        (Stage::ResolvingEnvironment, ActionView::GetEnvironment) => {
            &&& tags == start
            &&& answers.java_vm is None
        },
        (Stage::Negotiating { .. }, ActionView::AddCapabilities { .. }) => {
            &&& tags == start
            &&& answers.resolves()
        },
        (Stage::Walking { .. }, ActionView::Walk { limit, .. }) => {
            &&& tags == start
            &&& answers.negotiates()
            &&& limit == limit_num
        },
        (Stage::Collecting { .. }, ActionView::Collect { tag, .. }) => {
            &&& tags == end
            &&& answers.negotiates()
            &&& answers.walk_status == 0
            &&& tag == INSTANCE_TAG
        },
        (Stage::Allocating { tagged, .. }, ActionView::Allocate { length }) => {
            &&& tags == end
            &&& answers.collects()
            &&& buffer == found
            &&& tagged.count == buffer.len()
            &&& length == tagged.count
        },
        (Stage::Filling { tagged, next, .. }, ActionView::Store { index, .. }) => {
            &&& tags == end
            &&& answers.collects()
            &&& answers.allocation is None
            &&& next > 0 ==> answers.store is None
            &&& buffer == found
            &&& tagged.count == buffer.len()
            &&& array.len() == buffer.len()
            &&& index == next
            &&& 0 <= next < tagged.count
            &&& array.take(next as int) == buffer.take(next as int)
        },
        (Stage::Releasing, ActionView::Release { .. }) => {
            &&& tags == end
            &&& answers.collects()
            &&& answers.allocation is None
            &&& found.len() > 0 ==> answers.store is None
            &&& array == found
        },
        (Stage::Returned, ActionView::Return) => {
            &&& tags == end
            &&& answers.negotiates()
            &&& answers.outcome(start, order, limit_num) == Ok::<Seq<usize>, Seq<char>>(array)
        },
        (Stage::Failed, ActionView::Throw { message }) => {
            &&& tags == answers.tags_after(start, order, limit_num)
            &&& answers.outcome(start, order, limit_num) == Err::<Seq<usize>, Seq<char>>(message)
        },
        _ => false,
    }
}

/// An array of `length` slots that hold nothing yet.
fn new_array(length: jint) -> (array: Vec<usize>)
    ensures
        array@.len() == if length > 0 {
            length as int
        } else {
            0
        },
{
    let mut array: Vec<usize> = Vec::new();
    let mut slots: jint = 0;
    while slots < length
        invariant
            array@.len() == slots,
            0 <= slots,
            length > 0 ==> slots <= length,
            length <= 0 ==> slots == 0,
        decreases length - slots,
    {
        array.push(0);
        slots = slots + 1;
    }
    array
}

/// What a service of the native interface answers: that it has done its
/// work, or why it could not.
fn service_answer(failure: &Option<String>) -> (event: Event)
    ensures
        event@ == match *failure {
            Some(message) => EventView::Failure { message: message@ },
            None => EventView::Completed,
        },
{
    match failure {
        Some(message) => Event::Failure { message: message.clone() },
        None => Event::Completed,
    }
}

/// Runs a request for the instances of a class against the heap `tags` of a
/// virtual machine that answers as `answers` says. `instances` holds the
/// handles of the live instances in the order in which the walk visits them.
/// The request tags as many of them as `limit_num` allows and hands back the
/// handles of all objects that then bear the tag, unless a service fails: it
/// then ends at once with the text of that failure.
pub fn get_instances(
    tags: &mut Vec<jlong>,
    answers: &Answers,
    instances: &Vec<usize>,
    limit_num: jint,
) -> (outcome: Result<Vec<usize>, String>)
    requires
        handles_within(instances@, old(tags)@.len()),
        old(tags)@.len() <= jint::MAX,
    ensures
        final(tags)@ == answers.tags_after(old(tags)@, instances@, limit_num),
        match (outcome, answers.outcome(old(tags)@, instances@, limit_num)) {
            (Ok(array), Ok(found)) => array@ == found,
            (Err(message), Err(text)) => message@ == text,
            _ => false,
        },
{
    let (mut session, mut action) = Session::begin(limit_num);
    let mut buffer: Vec<usize> = Vec::new();
    let mut array: Vec<usize> = Vec::new();
    loop
        invariant
            handles_within(instances@, old(tags)@.len()),
            old(tags)@.len() <= jint::MAX,
            tags@.len() == old(tags)@.len(),
            coherent(
                session,
                action@,
                tags@,
                buffer@,
                array@,
                *answers,
                old(tags)@,
                instances@,
                limit_num,
            ),
        decreases stages_left(session), stores_left(session),
    {
        let event = match action {
            Action::GetJavaVm => service_answer(&answers.java_vm),
            Action::GetEnvironment => Event::Environment {
                status: answers.environment_status,
                address: answers.environment,
            },
            Action::AddCapabilities { .. } => Event::Status { code: answers.capability_status },
            Action::Walk { limit, .. } => {
                iterate_over_instances_of_class(tags, instances, limit);
                proof {
                    lemma_tag_first_len(
                        old(tags)@,
                        instances@,
                        reach(instances@.len(), limit as int),
                    );
                }
                Event::Status { code: answers.walk_status }
            },
            Action::Collect { tag, .. } => {
                buffer = tagged_objects(tags, tag);
                proof {
                    lemma_bearing(tags@, tag);
                }
                Event::Retrieved {
                    code: answers.retrieval_status,
                    count: buffer.len() as jint,
                    handles: 1,
                }
            },
            Action::Allocate { length } => {
                array = new_array(length);
                assert(array@.take(0) =~= buffer@.take(0));
                assert(length == 0 ==> array@ =~= buffer@);
                service_answer(&answers.allocation)
            },
            Action::Store { index, .. } => {
                if answers.store.is_none() {
                    let ghost stored = array@;
                    array.set(index as usize, buffer[index as usize]);
                    assert(array@.take(index + 1) =~= buffer@.take(index + 1)) by {
                        assert forall|i: int| 0 <= i < index implies array@[i] == buffer@[i] by {
                            assert(stored.take(index as int)[i] == buffer@.take(index as int)[i]);
                        }
                    }
                    assert(index + 1 == buffer@.len() ==> array@ =~= buffer@) by {
                        assert(array@.take(array@.len() as int) =~= array@);
                        assert(buffer@.take(buffer@.len() as int) =~= buffer@);
                    }
                }
                service_answer(&answers.store)
            },
            Action::Release { .. } => Event::Status { code: answers.release_status },
            Action::Return => {
                return Ok(array);
            },
            Action::Throw { message } => {
                return Err(message);
            },
        };
        let (next, directive) = session.step(event).unwrap();
        session = next;
        action = directive;
    }
}

} // verus!
