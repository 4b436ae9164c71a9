//! The course of one request for the instances of a class: which service of
//! the virtual machine is asked for next, and what each answer leads to.
//!
//! The agent neither calls the virtual machine here nor waits for it. It is
//! told what the machine answered and says what to ask for next, until the
//! request ends with an array handed back or with an exception thrown.
use crate::utils::{jvmti_error_text, result_or_jvmti_err, unit_or_jvmti_err, JvmtiError};
use crate::utils::{append_decimal, failure_text, signed_decimal};
use crate::walk::INSTANCE_TAG;
use jni_sys::{jint, jlong};
use vstd::prelude::*;

verus! {

/// The status by which the virtual machine reports success.
///
/// Not proved: this reads the constant `jni_sys::JNI_OK`, and the contract
/// says what that crate defines it as, zero.
#[verifier::external_body]
fn jni_ok() -> (status: jint)
    ensures
        status == 0,
{
    jni_sys::JNI_OK
}

/// Whether the query for the introspection environment yielded one.
pub open spec fn environment_available(status: jint, address: usize) -> bool {
    status == 0 && address != 0
}

/// The text that reports that no introspection environment could be had.
pub open spec fn environment_error_text(status: jint) -> Seq<char> {
    "No environment, err: "@ + signed_decimal(status as int)
}

/// Decides what the query for the introspection environment yielded: the
/// environment at `address`, unless the query reported a failure or gave no
/// address at all.
pub fn get_jvmti_env_(env_res: jint, address: usize) -> (outcome: Result<usize, String>)
    ensures
        environment_available(env_res, address) ==> outcome == Ok::<usize, String>(address),
        !environment_available(env_res, address) ==> outcome is Err && outcome->Err_0@
            == environment_error_text(env_res),
{
    if env_res == jni_ok() && address != 0 {
        return Ok(address);
    }
    let mut message = String::from_str("No environment, err: ");
    if env_res < 0 {
        message.append("-");
        proof {
            reveal_strlit("-");
            assert("-"@ =~= seq!['-']);
        }
        let magnitude: u32 = (0 - (env_res as i64)) as u32;
        append_decimal(&mut message, magnitude);
        assert(message@ =~= environment_error_text(env_res));
    } else {
        append_decimal(&mut message, env_res as u32);
    }
    Err(message)
}

/// The objects that bear the tag, as the introspection environment hands
/// them over: how many there are, and where their handles lie. The buffer is
/// the caller's to give back.
#[derive(Clone, Copy, Debug, PartialEq, Eq, Structural)]
pub struct TaggedObjectSet {
    pub count: jint,
    pub handles: usize,
}

/// Decides what the retrieval of the tagged objects yielded: the objects, or
/// the failure that its status stands for.
pub fn get_objects_with_tags(status: JvmtiError, count: jint, objects: usize) -> (outcome: Result<
    TaggedObjectSet,
    String,
>)
    ensures
        status == 0 ==> outcome == Ok::<TaggedObjectSet, String>(
            TaggedObjectSet { count, handles: objects },
        ),
        status != 0 ==> outcome is Err && outcome->Err_0@ == jvmti_error_text(status),
{
    result_or_jvmti_err(TaggedObjectSet { count, handles: objects }, status)
}

/// The rights that the agent asks the introspection environment for.
#[derive(Clone, Copy, Debug, PartialEq, Eq, Structural)]
pub struct Capabilities {
    /// The right to set and read the tags of objects.
    pub can_tag_objects: bool,
}

/// Which objects a walk visits, told apart by whether they bear a tag.
#[derive(Clone, Copy, Debug, PartialEq, Eq, Structural)]
pub enum HeapObjectFilter {
    /// Only objects that bear a tag.
    Tagged,
    /// Only objects that bear none.
    Untagged,
    /// Objects of either kind.
    Either,
}

/// How far a request has come. Each stage but the last two waits for the
/// answer to what was asked for last.
#[derive(Clone, Copy, Debug, PartialEq, Eq, Structural)]
pub enum Stage {
    /// Asked for the virtual machine.
    ResolvingVm,
    /// Asked the virtual machine for its introspection environment.
    ResolvingEnvironment,
    /// Asked the environment for the right to tag objects.
    Negotiating { environment: usize },
    /// Asked the environment to walk the instances of the class.
    Walking { environment: usize },
    /// Asked the environment for the objects that bear the tag.
    Collecting { environment: usize },
    /// Asked for an array that holds as many objects as were collected.
    Allocating { environment: usize, tagged: TaggedObjectSet },
    /// Asked to store the object at `next` into the array.
    Filling { environment: usize, tagged: TaggedObjectSet, next: jint },
    /// Asked the environment to take the buffer of handles back.
    Releasing,
    /// The array has been handed back.
    Returned,
    /// An exception has been thrown, and no array is handed back.
    Failed,
}

/// One request: the limit it was made with, and how far it has come.
#[derive(Clone, Copy, Debug, PartialEq, Eq, Structural)]
pub struct Session {
    pub limit_num: jint,
    pub stage: Stage,
}

/// What the virtual machine answered.
#[derive(Clone, Debug, PartialEq, Eq)]
pub enum Event {
    /// A service that yields nothing the agent decides on has done its work:
    /// the virtual machine was found, the array allocated, an object stored.
    Completed,
    /// A service failed before it could answer; `message` describes why.
    Failure { message: String },
    /// The query for the introspection environment answered.
    Environment { status: jint, address: usize },
    /// A call of the introspection environment answered with its status.
    Status { code: JvmtiError },
    /// The retrieval of the tagged objects answered.
    Retrieved { code: JvmtiError, count: jint, handles: usize },
}

/// An answer as contracts see it.
pub enum EventView {
    Completed,
    Failure { message: Seq<char> },
    Environment { status: jint, address: usize },
    Status { code: JvmtiError },
    Retrieved { code: JvmtiError, count: jint, handles: usize },
}

impl Event {
    /// The answer of a service of the native interface that yields nothing
    /// the agent decides on: that it has done its work, or the text of its
    /// failure.
    pub fn of_service<T>(outcome: &Result<T, jni::errors::Error>) -> (event: Event)
        ensures
            match *outcome {
                Ok(_) => event@ == EventView::Completed,
                Err(failure) => event matches Event::Failure { message }
                    && vstd::string::to_string_from_display_ensures::<jni::errors::Error>(
                    &failure,
                    message,
                ),
            },
    {
        match outcome {
            Ok(_) => Event::Completed,
            Err(failure) => Event::Failure { message: failure_text(failure) },
        }
    }
}

impl View for Event {
    type V = EventView;

    open spec fn view(&self) -> EventView {
        match *self {
            Event::Completed => EventView::Completed,
            Event::Failure { message } => EventView::Failure { message: message@ },
            Event::Environment { status, address } => EventView::Environment { status, address },
            Event::Status { code } => EventView::Status { code },
            Event::Retrieved { code, count, handles } => EventView::Retrieved {
                code,
                count,
                handles,
            },
        }
    }
}

/// What to do next.
#[derive(Clone, Debug, PartialEq, Eq)]
pub enum Action {
    /// Ask for the virtual machine.
    GetJavaVm,
    /// Ask the virtual machine for its introspection environment.
    GetEnvironment,
    /// Ask the environment for these rights.
    AddCapabilities { environment: usize, capabilities: Capabilities },
    /// Walk the live instances of the class that pass `filter`, with a fresh
    /// record that allows `limit` instances.
    Walk { environment: usize, filter: HeapObjectFilter, limit: jint },
    /// Ask the environment for the objects that bear `tag`.
    Collect { environment: usize, tag: jlong },
    /// Allocate an array of the class with `length` slots.
    Allocate { length: jint },
    /// Store the object whose handle lies at `index` of the buffer into the
    /// slot `index` of the array.
    Store { handles: usize, index: jint },
    /// Give the buffer of handles back to the environment.
    Release { environment: usize, handles: usize },
    /// Hand the array back. The request is over.
    Return,
    /// Throw an exception with this message and hand back no array. The
    /// request is over.
    Throw { message: String },
}

/// An action as contracts see it.
pub enum ActionView {
    GetJavaVm,
    GetEnvironment,
    AddCapabilities { environment: usize, capabilities: Capabilities },
    Walk { environment: usize, filter: HeapObjectFilter, limit: jint },
    Collect { environment: usize, tag: jlong },
    Allocate { length: jint },
    Store { handles: usize, index: jint },
    Release { environment: usize, handles: usize },
    Return,
    Throw { message: Seq<char> },
}

impl View for Action {
    type V = ActionView;

    open spec fn view(&self) -> ActionView {
        match *self {
            Action::GetJavaVm => ActionView::GetJavaVm,
            Action::GetEnvironment => ActionView::GetEnvironment,
            Action::AddCapabilities { environment, capabilities } => ActionView::AddCapabilities {
                environment,
                capabilities,
            },
            Action::Walk { environment, filter, limit } => ActionView::Walk {
                environment,
                filter,
                limit,
            },
            Action::Collect { environment, tag } => ActionView::Collect { environment, tag },
            Action::Allocate { length } => ActionView::Allocate { length },
            Action::Store { handles, index } => ActionView::Store { handles, index },
            Action::Release { environment, handles } => ActionView::Release {
                environment,
                handles,
            },
            Action::Return => ActionView::Return,
            Action::Throw { message } => ActionView::Throw { message: message@ },
        }
    }
}

impl Session {
    /// The request that has come to `stage`.
    pub open spec fn at(self, stage: Stage) -> Session {
        Session { limit_num: self.limit_num, stage }
    }

    /// The request ends with an exception that carries `message`.
    pub open spec fn fails(self, message: Seq<char>) -> Option<(Session, ActionView)> {
        Some((self.at(Stage::Failed), ActionView::Throw { message }))
    }

    /// The request goes on, or ends, according to the status of a call of the
    /// introspection environment.
    pub open spec fn after_status(self, code: JvmtiError, stage: Stage, action: ActionView)
        -> Option<(Session, ActionView)> {
        if code == 0 {
            Some((self.at(stage), action))
        } else {
            self.fails(jvmti_error_text(code))
        }
    }

    /// What an answer leads to: the request as it stands after the answer,
    /// and what to do next. There is none where the request is over or the
    /// answer is not one to what was asked for.
    pub open spec fn transition(self, event: EventView) -> Option<(Session, ActionView)> {
        match (self.stage, event) {
            (Stage::Returned, _) => None,
            (Stage::Failed, _) => None,
            (_, EventView::Failure { message }) => self.fails(message),
            (Stage::ResolvingVm, EventView::Completed) => Some(
                (self.at(Stage::ResolvingEnvironment), ActionView::GetEnvironment),
            ),
            (Stage::ResolvingEnvironment, EventView::Environment { status, address }) => {
                if environment_available(status, address) {
                    Some(
                        (
                            self.at(Stage::Negotiating { environment: address }),
                            ActionView::AddCapabilities {
                                environment: address,
                                capabilities: Capabilities { can_tag_objects: true },
                            },
                        ),
                    )
                } else {
                    self.fails(environment_error_text(status))
                }
            },
            (Stage::Negotiating { environment }, EventView::Status { code }) => self.after_status(
                code,
                Stage::Walking { environment },
                ActionView::Walk {
                    environment,
                    filter: HeapObjectFilter::Either,
                    limit: self.limit_num,
                },
            ),
            (Stage::Walking { environment }, EventView::Status { code }) => self.after_status(
                code,
                Stage::Collecting { environment },
                ActionView::Collect { environment, tag: INSTANCE_TAG },
            ),
            (
                Stage::Collecting { environment },
                EventView::Retrieved { code, count, handles },
            ) => self.after_status(
                code,
                Stage::Allocating { environment, tagged: TaggedObjectSet { count, handles } },
                ActionView::Allocate { length: count },
            ),
            (Stage::Allocating { environment, tagged }, EventView::Completed) => {
                if 0 < tagged.count {
                    Some(
                        (
                            self.at(Stage::Filling { environment, tagged, next: 0 }),
                            ActionView::Store { handles: tagged.handles, index: 0 },
                        ),
                    )
                } else {
                    Some(
                        (
                            self.at(Stage::Releasing),
                            ActionView::Release { environment, handles: tagged.handles },
                        ),
                    )
                }
            },
            (Stage::Filling { environment, tagged, next }, EventView::Completed) => {
                if next + 1 < tagged.count {
                    Some(
                        (
                            self.at(
                                Stage::Filling { environment, tagged, next: (next + 1) as jint },
                            ),
                            ActionView::Store {
                                handles: tagged.handles,
                                index: (next + 1) as jint,
                            },
                        ),
                    )
                } else {
                    Some(
                        (
                            self.at(Stage::Releasing),
                            ActionView::Release { environment, handles: tagged.handles },
                        ),
                    )
                }
            },
            (Stage::Releasing, EventView::Status { code }) => self.after_status(
                code,
                Stage::Returned,
                ActionView::Return,
            ),
            _ => None,
        }
    }

    /// Whether `outcome` is what `expected` says, the message of an exception
    /// taken by its text.
    pub open spec fn agrees(
        outcome: Option<(Session, Action)>,
        expected: Option<(Session, ActionView)>,
    ) -> bool {
        match (outcome, expected) {
            (Some((session, action)), Some((next, directive))) => session == next && action@
                == directive,
            (None, None) => true,
            _ => false,
        }
    }

    /// Opens a request. The first thing to ask for is the virtual machine.
    pub fn begin(limit_num: jint) -> (start: (Session, Action))
        ensures
            start.0 == (Session { limit_num, stage: Stage::ResolvingVm }),
            start.1@ == ActionView::GetJavaVm,
    {
        (Session { limit_num, stage: Stage::ResolvingVm }, Action::GetJavaVm)
    }

    fn fail(self, message: String) -> (outcome: Option<(Session, Action)>)
        ensures
            Self::agrees(outcome, self.fails(message@)),
    {
        Some((Session { limit_num: self.limit_num, stage: Stage::Failed }, Action::Throw { message }))
    }

    fn proceed(self, status: Result<(), String>, stage: Stage, action: Action) -> (outcome: Option<
        (Session, Action),
    >)
        ensures
            match status {
                Ok(_) => Self::agrees(outcome, Some((self.at(stage), action@))),
                Err(message) => Self::agrees(outcome, self.fails(message@)),
            },
    {
        match status {
            Ok(_) => Some((Session { limit_num: self.limit_num, stage }, action)),
            Err(message) => self.fail(message),
        }
    }

    /// Takes the answer to what was asked for last, and says what to do next.
    /// Every failure ends the request at once with an exception that carries
    /// the failure's text.
    pub fn step(self, event: Event) -> (outcome: Option<(Session, Action)>)
        ensures
            Self::agrees(outcome, self.transition(event@)),
    {
        match (self.stage, event) {
            (Stage::Returned, _) => None,
            (Stage::Failed, _) => None,
            (_, Event::Failure { message }) => self.fail(message),
            (Stage::ResolvingVm, Event::Completed) => Some(
                (
                    Session { limit_num: self.limit_num, stage: Stage::ResolvingEnvironment },
                    Action::GetEnvironment,
                ),
            ),
            (Stage::ResolvingEnvironment, Event::Environment { status, address }) => {
                match get_jvmti_env_(status, address) {
                    Ok(environment) => Some(
                        (
                            Session {
                                limit_num: self.limit_num,
                                stage: Stage::Negotiating { environment },
                            },
                            Action::AddCapabilities {
                                environment,
                                capabilities: Capabilities { can_tag_objects: true },
                            },
                        ),
                    ),
                    Err(message) => self.fail(message),
                }
            },
            (Stage::Negotiating { environment }, Event::Status { code }) => self.proceed(
                unit_or_jvmti_err(code),
                Stage::Walking { environment },
                Action::Walk {
                    environment,
                    filter: HeapObjectFilter::Either,
                    limit: self.limit_num,
                },
            ),
            (Stage::Walking { environment }, Event::Status { code }) => self.proceed(
                unit_or_jvmti_err(code),
                Stage::Collecting { environment },
                Action::Collect { environment, tag: INSTANCE_TAG },
            ),
            (Stage::Collecting { environment }, Event::Retrieved { code, count, handles }) => {
                match get_objects_with_tags(code, count, handles) {
                    Ok(tagged) => Some(
                        (
                            Session {
                                limit_num: self.limit_num,
                                stage: Stage::Allocating { environment, tagged },
                            },
                            Action::Allocate { length: tagged.count },
                        ),
                    ),
                    Err(message) => self.fail(message),
                }
            },
            (Stage::Allocating { environment, tagged }, Event::Completed) => {
                if 0 < tagged.count {
                    Some(
                        (
                            Session {
                                limit_num: self.limit_num,
                                stage: Stage::Filling { environment, tagged, next: 0 },
                            },
                            Action::Store { handles: tagged.handles, index: 0 },
                        ),
                    )
                } else {
                    Some(
                        (
                            Session { limit_num: self.limit_num, stage: Stage::Releasing },
                            Action::Release { environment, handles: tagged.handles },
                        ),
                    )
                }
            },
            (Stage::Filling { environment, tagged, next }, Event::Completed) => {
                if next < jint::MAX && next + 1 < tagged.count {
                    Some(
                        (
                            Session {
                                limit_num: self.limit_num,
                                stage: Stage::Filling { environment, tagged, next: next + 1 },
                            },
                            Action::Store { handles: tagged.handles, index: next + 1 },
                        ),
                    )
                } else {
                    Some(
                        (
                            Session { limit_num: self.limit_num, stage: Stage::Releasing },
                            Action::Release { environment, handles: tagged.handles },
                        ),
                    )
                }
            },
            (Stage::Releasing, Event::Status { code }) => self.proceed(
                unit_or_jvmti_err(code),
                Stage::Returned,
                Action::Return,
            ),
            _ => None,
        }
    }
}

/// How many kinds of service a request has yet to ask for.
pub open spec fn stages_left(session: Session) -> nat {
    match session.stage {
        Stage::ResolvingVm => 8,
        Stage::ResolvingEnvironment => 7,
        Stage::Negotiating { .. } => 6,
        Stage::Walking { .. } => 5,
        Stage::Collecting { .. } => 4,
        Stage::Allocating { .. } => 3,
        Stage::Filling { .. } => 2,
        Stage::Releasing => 1,
        Stage::Returned => 0,
        Stage::Failed => 0,
    }
}

/// How many objects a request has yet to store into the array.
pub open spec fn stores_left(session: Session) -> nat {
    match session.stage {
        Stage::Filling { tagged, next, .. } => if next < tagged.count {
            (tagged.count - next) as nat
        } else {
            0
        },
        _ => 0,
    }
}

/// Every answer brings a request nearer to its end: no stage is entered
/// twice, and the only service asked for again is the next store.
pub proof fn every_step_nears_the_end(session: Session, event: EventView)
    requires
        session.transition(event) is Some,
    ensures
        stages_left(session.transition(event)->Some_0.0) < stages_left(session) || (stages_left(
            session.transition(event)->Some_0.0,
        ) == stages_left(session) && stores_left(session.transition(event)->Some_0.0)
            < stores_left(session)),
{
}

/// A denied right to tag objects ends the request at once: an exception with
/// the text of the denial is thrown, and no answer leads any further.
pub proof fn denied_capability_ends_the_request(
    session: Session,
    environment: usize,
    code: JvmtiError,
    later: EventView,
)
    requires
        session.stage == (Stage::Negotiating { environment }),
        code != 0,
    ensures
        session.transition(EventView::Status { code }) == Some(
            (session.at(Stage::Failed), ActionView::Throw { message: jvmti_error_text(code) }),
        ),
        session.at(Stage::Failed).transition(later) is None,
{
}

/// A walk is asked for in one case only: in answer to the grant of the right
/// to tag objects.
pub proof fn walk_follows_the_grant(session: Session, event: EventView)
    requires
        session.transition(event) is Some,
        session.transition(event)->Some_0.1 is Walk,
    ensures
        session.stage is Negotiating,
        event == (EventView::Status { code: 0 }),
{
}

/// A failed retrieval ends the request with an exception whose message is
/// the text of the retrieval's status, the text that
/// [`get_objects_with_tags`] returns for it.
pub proof fn failed_retrieval_ends_the_request(
    session: Session,
    environment: usize,
    code: JvmtiError,
    count: jint,
    handles: usize,
)
    requires
        session.stage == (Stage::Collecting { environment }),
        code != 0,
    ensures
        session.transition(EventView::Retrieved { code, count, handles }) == Some(
            (session.at(Stage::Failed), ActionView::Throw { message: jvmti_error_text(code) }),
        ),
{
}

/// What is given back is the buffer of the tagged objects that the request
/// holds, and it is given back to the environment that the request holds.
pub proof fn release_returns_the_buffer(session: Session, event: EventView)
    requires
        session.transition(event) is Some,
        session.transition(event)->Some_0.1 is Release,
    ensures
        match session.stage {
            Stage::Allocating { environment, tagged } => session.transition(event)->Some_0.1
                == (ActionView::Release { environment, handles: tagged.handles }),
            Stage::Filling { environment, tagged, .. } => session.transition(event)->Some_0.1
                == (ActionView::Release { environment, handles: tagged.handles }),
            _ => false,
        },
{
}

} // verus!
