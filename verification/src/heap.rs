//! A heap as the introspection interface shows it, held in plain values: one
//! tag for every object, found by the object's handle.
//!
//! The walk and the retrieval below do to such a heap what the virtual
//! machine does to its own, so that what a request returns can be stated and
//! proved for every heap, every order of visits and every limit.
use crate::walk::{jvmti_heap_object_callback, CallbackParam, IterationControl, WalkState};
use crate::walk::INSTANCE_TAG;
use jni_sys::{jint, jlong};
use vstd::prelude::*;

verus! {

/// Whether every handle names an object of a heap that holds `objects`
/// objects.
pub open spec fn handles_within(handles: Seq<usize>, objects: nat) -> bool {
    forall|j: int| 0 <= j < handles.len() ==> handles[j] < objects
}

/// Whether no object of the heap bears `tag`.
pub open spec fn untagged(tags: Seq<jlong>, tag: jlong) -> bool {
    forall|h: int| 0 <= h < tags.len() ==> tags[h] != tag
}

/// How many instances a walk tags when it is shown `instances` instances and
/// may tag `limit` of them: all of them, or as many as the limit allows.
pub open spec fn reach(instances: nat, limit: int) -> nat {
    if limit <= 0 {
        0
    } else if instances <= limit {
        instances
    } else {
        limit as nat
    }
}

/// The tags of the heap once the first `visits` instances of `order` have
/// been tagged.
pub open spec fn tag_first(tags: Seq<jlong>, order: Seq<usize>, visits: nat) -> Seq<jlong>
    decreases visits,
{
    if visits == 0 {
        tags
    } else {
        tag_first(tags, order, (visits - 1) as nat).update(
            order[visits - 1] as int,
            INSTANCE_TAG,
        )
    }
}

/// The tags of the heap after a walk that visits the instances in `order`
/// and may tag `limit` of them.
pub open spec fn walked(tags: Seq<jlong>, order: Seq<usize>, limit: jint) -> Seq<jlong> {
    tag_first(tags, order, reach(order.len(), limit as int))
}

/// The handles of the objects that bear `tag`, in ascending order.
pub open spec fn bearing(tags: Seq<jlong>, tag: jlong) -> Seq<usize>
    decreases tags.len(),
{
    if tags.len() == 0 {
        Seq::empty()
    } else if tags.last() == tag {
        bearing(tags.drop_last(), tag).push((tags.len() - 1) as usize)
    } else {
        bearing(tags.drop_last(), tag)
    }
}

/// Walks the live instances of a class on the heap `tags`. `instances` holds
/// their handles in the order of the visits. Every visit is one call of
/// [`jvmti_heap_object_callback`] with the record of this walk, and the walk
/// ends with the first visit that signals so, or when no instance is left.
pub fn iterate_over_instances_of_class(
    tags: &mut Vec<jlong>,
    instances: &Vec<usize>,
    limit_num: jint,
) -> (user_data: CallbackParam)
    requires
        handles_within(instances@, old(tags)@.len()),
    ensures
        final(tags)@ == walked(old(tags)@, instances@, limit_num),
        user_data@ == (WalkState {
            instance_count: reach(instances@.len(), limit_num as int) as int,
            max_instances: limit_num as int,
        }),
{
    let mut user_data = CallbackParam::new(limit_num);
    let mut visited: usize = 0;
    while visited < instances.len()
        invariant_except_break
            visited <= instances.len(),
            visited > 0 ==> user_data@.has_room(),
            user_data@.instance_count == reach(visited as nat, limit_num as int),
        invariant
            handles_within(instances@, old(tags)@.len()),
            tags@.len() == old(tags)@.len(),
            user_data@.max_instances == limit_num,
            user_data@.instance_count <= instances@.len(),
            tags@ == tag_first(old(tags)@, instances@, user_data@.instance_count as nat),
        ensures
            user_data@.instance_count == reach(instances@.len(), limit_num as int),
        decreases instances.len() - visited,
    {
        let handle = instances[visited];
        let mut slot = tags[handle];
        let control = jvmti_heap_object_callback(0, 0, &mut slot, &mut user_data);
        tags.set(handle, slot);
        visited = visited + 1;
        proof {
            let before = tag_first(old(tags)@, instances@, (visited - 1) as nat);
            if user_data@.instance_count == visited {
                assert(tags@ =~= before.update(handle as int, INSTANCE_TAG));
            } else {
                assert(tags@ =~= before);
            }
        }
        if control == IterationControl::Abort {
            break ;
        }
    }
    user_data
}

/// Retrieves the objects of the heap `tags` that bear `tag`: their handles,
/// in ascending order.
pub fn tagged_objects(tags: &Vec<jlong>, tag: jlong) -> (handles: Vec<usize>)
    ensures
        handles@ == bearing(tags@, tag),
{
    let mut handles: Vec<usize> = Vec::new();
    let mut handle: usize = 0;
    while handle < tags.len()
        invariant
            handle <= tags.len(),
            handles@ == bearing(tags@.take(handle as int), tag),
        decreases tags.len() - handle,
    {
        if tags[handle] == tag {
            handles.push(handle);
        }
        handle = handle + 1;
        assert(tags@.take(handle as int).drop_last() =~= tags@.take(handle - 1));
    }
    assert(tags@.take(handle as int) =~= tags@);
    handles
}

/// A request that may tag no instance leaves the heap as it was, and where
/// no object bore the tag before, it hands none back.
pub proof fn no_room_returns_nothing(tags: Seq<jlong>, order: Seq<usize>, limit: jint)
    requires
        limit <= 0,
        untagged(tags, INSTANCE_TAG),
    ensures
        walked(tags, order, limit) == tags,
        bearing(walked(tags, order, limit), INSTANCE_TAG).len() == 0,
{
    lemma_untagged_bears_nothing(tags, INSTANCE_TAG);
}

/// A request that may tag some instances hands back as many objects as the
/// class has live instances, or as many as the limit allows where that is
/// fewer. This holds of a heap on which no object bore the tag before.
pub proof fn returns_as_many_as_fit(tags: Seq<jlong>, order: Seq<usize>, limit: jint)
    requires
        limit > 0,
        untagged(tags, INSTANCE_TAG),
        order.no_duplicates(),
        handles_within(order, tags.len()),
    ensures
        bearing(walked(tags, order, limit), INSTANCE_TAG).len() == if order.len() <= limit {
            order.len()
        } else {
            limit as nat
        },
{
    lemma_tag_first_counts(tags, order, reach(order.len(), limit as int));
}

/// On a heap on which no object bore the tag before, every object handed
/// back is one of the instances that the walk was shown.
pub proof fn returns_instances_of_the_class(tags: Seq<jlong>, order: Seq<usize>, limit: jint)
    requires
        untagged(tags, INSTANCE_TAG),
        handles_within(order, tags.len()),
        tags.len() <= usize::MAX,
    ensures
        forall|i: int|
            0 <= i < bearing(walked(tags, order, limit), INSTANCE_TAG).len() ==> order.contains(
                #[trigger] bearing(walked(tags, order, limit), INSTANCE_TAG)[i],
            ),
{
    let visits = reach(order.len(), limit as int);
    let after = walked(tags, order, limit);
    lemma_tag_first_len(tags, order, visits);
    lemma_bearing(after, INSTANCE_TAG);
    assert forall|i: int| 0 <= i < bearing(after, INSTANCE_TAG).len() implies order.contains(
        #[trigger] bearing(after, INSTANCE_TAG)[i],
    ) by {
        let handle = bearing(after, INSTANCE_TAG)[i];
        lemma_tag_first_at(tags, order, visits, handle as int);
        let j = choose|j: int| 0 <= j < visits && order[j] == handle;
        assert(order[j] == handle);
    }
}

/// A second request leaves the heap as the first one left it, and so hands
/// back the very same objects, where every instance that its walk tags bears
/// the tag already.
pub proof fn second_request_returns_the_same(
    tags: Seq<jlong>,
    first: Seq<usize>,
    second: Seq<usize>,
    limit: jint,
)
    requires
        handles_within(first, tags.len()),
        handles_within(second, tags.len()),
        forall|j: int|
            0 <= j < reach(second.len(), limit as int) ==> walked(tags, first, limit)[second[j] as int]
                == INSTANCE_TAG,
    ensures
        walked(walked(tags, first, limit), second, limit) == walked(tags, first, limit),
        bearing(walked(walked(tags, first, limit), second, limit), INSTANCE_TAG) == bearing(
            walked(tags, first, limit),
            INSTANCE_TAG,
        ),
{
    let once = walked(tags, first, limit);
    lemma_tag_first_len(tags, first, reach(first.len(), limit as int));
    lemma_retagging(once, second, reach(second.len(), limit as int));
}

/// A second request whose walk tags an instance that the first one left
/// without the tag hands back more objects than the first.
pub proof fn second_request_returns_more(
    tags: Seq<jlong>,
    first: Seq<usize>,
    second: Seq<usize>,
    limit: jint,
)
    requires
        handles_within(first, tags.len()),
        handles_within(second, tags.len()),
        exists|j: int|
            0 <= j < reach(second.len(), limit as int) && walked(tags, first, limit)[second[j] as int]
                != INSTANCE_TAG,
    ensures
        bearing(walked(walked(tags, first, limit), second, limit), INSTANCE_TAG).len() > bearing(
            walked(tags, first, limit),
            INSTANCE_TAG,
        ).len(),
{
    let once = walked(tags, first, limit);
    lemma_tag_first_len(tags, first, reach(first.len(), limit as int));
    lemma_tagging_adds(once, second, reach(second.len(), limit as int));
}

/// A second request whose walk visits the instances in the order of the
/// first hands back the very same objects.
pub proof fn same_order_returns_the_same(tags: Seq<jlong>, order: Seq<usize>, limit: jint)
    requires
        handles_within(order, tags.len()),
    ensures
        walked(walked(tags, order, limit), order, limit) == walked(tags, order, limit),
        bearing(walked(walked(tags, order, limit), order, limit), INSTANCE_TAG) == bearing(
            walked(tags, order, limit),
            INSTANCE_TAG,
        ),
{
    let visits = reach(order.len(), limit as int);
    assert forall|j: int| 0 <= j < visits implies walked(tags, order, limit)[order[j] as int]
        == INSTANCE_TAG by {
        lemma_tag_first_at(tags, order, visits, order[j] as int);
    }
    second_request_returns_the_same(tags, order, order, limit);
}

/// No object is handed back twice.
pub proof fn no_instance_is_returned_twice(tags: Seq<jlong>, tag: jlong)
    requires
        tags.len() <= usize::MAX,
    ensures
        bearing(tags, tag).no_duplicates(),
{
    lemma_bearing(tags, tag);
}

/// Tagging leaves the heap as large as it was.
pub proof fn lemma_tag_first_len(tags: Seq<jlong>, order: Seq<usize>, visits: nat)
    requires
        handles_within(order, tags.len()),
        visits <= order.len(),
    ensures
        tag_first(tags, order, visits).len() == tags.len(),
    decreases visits,
{
    if visits > 0 {
        lemma_tag_first_len(tags, order, (visits - 1) as nat);
    }
}

/// After the first `visits` instances have been tagged, an object bears the
/// tag if it is one of them, and the tag it had before if it is not.
pub proof fn lemma_tag_first_at(tags: Seq<jlong>, order: Seq<usize>, visits: nat, handle: int)
    requires
        handles_within(order, tags.len()),
        visits <= order.len(),
        0 <= handle < tags.len(),
    ensures
        tag_first(tags, order, visits)[handle] == if exists|j: int|
            0 <= j < visits && order[j] == handle {
            INSTANCE_TAG
        } else {
            tags[handle]
        },
    decreases visits,
{
    if visits > 0 {
        let before = (visits - 1) as nat;
        lemma_tag_first_len(tags, order, before);
        lemma_tag_first_at(tags, order, before, handle);
        if order[before as int] == handle {
            assert(0 <= before < visits && order[before as int] == handle);
        } else if exists|j: int| 0 <= j < visits && order[j] == handle {
            let j = choose|j: int| 0 <= j < visits && order[j] == handle;
            assert(0 <= j < before && order[j] == handle);
        }
    }
}

/// The handles that bear a tag are handles of the heap, each names an object
/// with that tag, none is left out, and they ascend.
pub proof fn lemma_bearing(tags: Seq<jlong>, tag: jlong)
    requires
        tags.len() <= usize::MAX,
    ensures
        forall|i: int|
            0 <= i < bearing(tags, tag).len() ==> 0 <= #[trigger] bearing(tags, tag)[i]
                < tags.len() && tags[bearing(tags, tag)[i] as int] == tag,
        forall|h: int|
            0 <= h < tags.len() && tags[h] == tag ==> bearing(tags, tag).contains(h as usize),
        forall|i: int, j: int|
            0 <= i < j < bearing(tags, tag).len() ==> bearing(tags, tag)[i] < bearing(
                tags,
                tag,
            )[j],
        bearing(tags, tag).len() <= tags.len(),
    decreases tags.len(),
{
    if tags.len() > 0 {
        let front = tags.drop_last();
        let rest = bearing(front, tag);
        lemma_bearing(front, tag);
        let all = bearing(tags, tag);
        assert forall|h: int| 0 <= h < tags.len() && tags[h] == tag implies all.contains(
            h as usize,
        ) by {
            if h < front.len() {
                assert(front[h] == tag);
                assert(rest.contains(h as usize));
                let i = choose|i: int| 0 <= i < rest.len() && rest[i] == h as usize;
                assert(all[i] == h as usize);
            } else {
                assert(all[all.len() - 1] == h as usize);
            }
        }
    }
}

/// Tagging one object that did not bear the tag adds one to the objects that
/// bear it.
pub proof fn lemma_bearing_grows(tags: Seq<jlong>, handle: int, tag: jlong)
    requires
        0 <= handle < tags.len(),
        tags[handle] != tag,
    ensures
        bearing(tags.update(handle, tag), tag).len() == bearing(tags, tag).len() + 1,
    decreases tags.len(),
{
    let marked = tags.update(handle, tag);
    if handle == tags.len() - 1 {
        assert(marked.drop_last() =~= tags.drop_last());
    } else {
        assert(marked.drop_last() =~= tags.drop_last().update(handle, tag));
        lemma_bearing_grows(tags.drop_last(), handle, tag);
    }
}

/// A heap without the tag hands no object back.
pub proof fn lemma_untagged_bears_nothing(tags: Seq<jlong>, tag: jlong)
    requires
        untagged(tags, tag),
    ensures
        bearing(tags, tag).len() == 0,
    decreases tags.len(),
{
    if tags.len() > 0 {
        lemma_untagged_bears_nothing(tags.drop_last(), tag);
    }
}

/// On a heap without the tag, tagging the first `visits` of a run of distinct
/// instances leaves exactly `visits` objects with the tag.
pub proof fn lemma_tag_first_counts(tags: Seq<jlong>, order: Seq<usize>, visits: nat)
    requires
        untagged(tags, INSTANCE_TAG),
        order.no_duplicates(),
        handles_within(order, tags.len()),
        visits <= order.len(),
    ensures
        bearing(tag_first(tags, order, visits), INSTANCE_TAG).len() == visits,
    decreases visits,
{
    if visits == 0 {
        lemma_untagged_bears_nothing(tags, INSTANCE_TAG);
    } else {
        let before = (visits - 1) as nat;
        let handle = order[before as int] as int;
        lemma_tag_first_counts(tags, order, before);
        lemma_tag_first_len(tags, order, before);
        lemma_tag_first_at(tags, order, before, handle);
        lemma_bearing_grows(tag_first(tags, order, before), handle, INSTANCE_TAG);
    }
}

/// Tagging takes the tag from no object, and adds an object to those that
/// bear it where one of the instances did not bear it before.
proof fn lemma_tagging_adds(tags: Seq<jlong>, order: Seq<usize>, visits: nat)
    requires
        handles_within(order, tags.len()),
        visits <= order.len(),
    ensures
        bearing(tag_first(tags, order, visits), INSTANCE_TAG).len() >= bearing(
            tags,
            INSTANCE_TAG,
        ).len(),
        (exists|j: int| 0 <= j < visits && tags[order[j] as int] != INSTANCE_TAG) ==> bearing(
            tag_first(tags, order, visits),
            INSTANCE_TAG,
        ).len() > bearing(tags, INSTANCE_TAG).len(),
    decreases visits,
{
    if visits > 0 {
        let before = (visits - 1) as nat;
        let earlier = tag_first(tags, order, before);
        let handle = order[before as int] as int;
        lemma_tagging_adds(tags, order, before);
        lemma_tag_first_len(tags, order, before);
        lemma_tag_first_at(tags, order, before, handle);
        if earlier[handle] != INSTANCE_TAG {
            lemma_bearing_grows(earlier, handle, INSTANCE_TAG);
        } else {
            assert(earlier.update(handle, INSTANCE_TAG) =~= earlier);
            if exists|j: int| 0 <= j < visits && tags[order[j] as int] != INSTANCE_TAG {
                let j = choose|j: int| 0 <= j < visits && tags[order[j] as int] != INSTANCE_TAG;
                if j == before {
                    let i = choose|i: int| 0 <= i < before && order[i] == handle;
                    assert(0 <= i < before && tags[order[i] as int] != INSTANCE_TAG);
                } else {
                    assert(0 <= j < before && tags[order[j] as int] != INSTANCE_TAG);
                }
            }
        }
    }
}

/// Tagging instances that bear the tag already changes nothing.
proof fn lemma_retagging(tags: Seq<jlong>, order: Seq<usize>, visits: nat)
    requires
        handles_within(order, tags.len()),
        visits <= order.len(),
        forall|j: int| 0 <= j < visits ==> tags[order[j] as int] == INSTANCE_TAG,
    ensures
        tag_first(tags, order, visits) == tags,
    decreases visits,
{
    if visits > 0 {
        lemma_retagging(tags, order, (visits - 1) as nat);
        assert(tags.update(order[visits - 1] as int, INSTANCE_TAG) =~= tags);
    }
}

} // verus!
