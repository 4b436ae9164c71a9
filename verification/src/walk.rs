//! The state of one heap walk, and what the agent decides each time the
//! virtual machine shows it a live instance.
use jni_sys::{jint, jlong};
use vstd::prelude::*;

verus! {

/// The tag that marks an instance as counted by the walk.
pub const INSTANCE_TAG: jlong = 1;

/// What the agent tells the virtual machine after a visit.
#[derive(Clone, Copy, Debug, PartialEq, Eq, Structural)]
pub enum IterationControl {
    /// Go on to the next instance.
    Continue,
    /// Stop the walk.
    Abort,
}

/// A walk as contracts see it: how many instances it has tagged, and how many
/// it may tag at most.
pub struct WalkState {
    pub instance_count: int,
    pub max_instances: int,
}

impl WalkState {
    /// Whether the walk may tag one more instance.
    pub open spec fn has_room(self) -> bool {
        self.instance_count < self.max_instances
    }

    /// The walk after it has tagged one more instance.
    pub open spec fn counted(self) -> WalkState {
        WalkState { instance_count: self.instance_count + 1, max_instances: self.max_instances }
    }

    /// The walk after one visit: an instance is counted while there is room.
    pub open spec fn visited(self) -> WalkState {
        if self.has_room() {
            self.counted()
        } else {
            self
        }
    }

    /// The signal after one visit: the walk goes on only while there is room
    /// for yet another instance.
    pub open spec fn signal(self) -> IterationControl {
        if self.visited().has_room() {
            IterationControl::Continue
        } else {
            IterationControl::Abort
        }
    }

    /// A walk has tagged no more instances than its limit allows, and none
    /// where the limit allows none.
    pub open spec fn wf(self) -> bool {
        0 <= self.instance_count <= if self.max_instances > 0 {
            self.max_instances
        } else {
            0
        }
    }
}

/// The record that the virtual machine hands to every visit of one walk.
#[derive(Debug)]
pub struct CallbackParam {
    instance_count: i32,
    max_instances: i32,
}

impl View for CallbackParam {
    type V = WalkState;

    closed spec fn view(&self) -> WalkState {
        WalkState {
            instance_count: self.instance_count as int,
            max_instances: self.max_instances as int,
        }
    }
}

impl CallbackParam {
    /// The record of a walk that has tagged nothing yet.
    pub fn new(max_instances: jint) -> (param: CallbackParam)
        ensures
            param@ == (WalkState { instance_count: 0, max_instances: max_instances as int }),
            param@.wf(),
    {
        CallbackParam { instance_count: 0, max_instances }
    }

    /// How many instances the walk has tagged.
    pub fn instance_count(&self) -> (count: jint)
        ensures
            count == self@.instance_count,
    {
        self.instance_count
    }

    /// How many instances the walk may tag at most.
    pub fn max_instances(&self) -> (limit: jint)
        ensures
            limit == self@.max_instances,
    {
        self.max_instances
    }
}

/// One visit of a live instance. While the walk has room the instance gets
/// the tag and is counted; the walk goes on only if there is room for another
/// one after that. A walk without room leaves the instance as it is and stops.
pub fn jvmti_heap_object_callback(
    _class_tag: jlong,
    _size: jlong,
    tag: &mut jlong,
    user_data: &mut CallbackParam,
) -> (control: IterationControl)
    ensures
        final(user_data)@ == old(user_data)@.visited(),
        *final(tag) == if old(user_data)@.has_room() {
            INSTANCE_TAG
        } else {
            *old(tag)
        },
        control == old(user_data)@.signal(),
        old(user_data)@.wf() ==> final(user_data)@.wf(),
{
    if user_data.instance_count >= user_data.max_instances {
        return IterationControl::Abort;
    }
    user_data.instance_count = user_data.instance_count + 1;
    *tag = INSTANCE_TAG;
    if user_data.instance_count >= user_data.max_instances {
        return IterationControl::Abort;
    }
    IterationControl::Continue
}

} // verus!
