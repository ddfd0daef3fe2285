//! The pairwise joints: joints between two bodies that are solved one by
//! one, outside any multibody.

use crate::arena::{Arena, Index};
use crate::body::RigidBodyHandle;
use crate::generic_joint::GenericJoint;
use vstd::prelude::*;

verus! {

/// The handle of a pairwise joint.
#[derive(Clone, Copy, Debug, PartialEq, Eq, Hash, Structural)]
pub struct ImpulseJointHandle(pub Index);

/// A joint together with the two bodies that it ties.
#[derive(Clone, Copy, Debug, PartialEq, Eq)]
pub struct ImpulseJoint {
    /// The first body: `data.local_anchor1` lies in its frame.
    pub body1: RigidBodyHandle,
    /// The second body: `data.local_anchor2` lies in its frame.
    pub body2: RigidBodyHandle,
    /// The joint.
    pub data: GenericJoint,
}

/// The pairwise joints of a world, each under its handle.
///
/// The set keeps the handles of the bodies and never looks them up: a joint
/// whose body was removed stays until it is removed itself.
#[derive(Debug)]
pub struct ImpulseJointSet {
    joints: Arena<ImpulseJoint>,
}

impl View for ImpulseJointSet {
    type V = Map<ImpulseJointHandle, ImpulseJoint>;

    /// The joints of the set, by their handles.
    closed spec fn view(&self) -> Map<ImpulseJointHandle, ImpulseJoint> {
        Map::new(
            |h: ImpulseJointHandle| self.joints@.contains_key(h.0),
            |h: ImpulseJointHandle| self.joints@[h.0],
        )
    }
}

impl ImpulseJointSet {
    /// The handle stood for a joint of this set that has since been
    /// removed.
    pub closed spec fn was_removed(&self, handle: ImpulseJointHandle) -> bool {
        self.joints.was_removed(handle.0)
    }

    /// The set without any joint.
    pub fn new() -> (set: ImpulseJointSet)
        ensures
            set@ == Map::<ImpulseJointHandle, ImpulseJoint>::empty(),
            forall|handle: ImpulseJointHandle| !set.was_removed(handle),
    {
        let set = ImpulseJointSet { joints: Arena::new() };
        assert(set@ =~= Map::<ImpulseJointHandle, ImpulseJoint>::empty());
        set
    }

    /// The handle of a removed joint stands for no joint.
    pub proof fn lemma_removed_is_absent(&self, handle: ImpulseJointHandle)
        requires
            self.was_removed(handle),
        ensures
            !self@.contains_key(handle),
    {
        self.joints.lemma_removed_is_absent(handle.0);
    }

    /// Adds a joint between two bodies and gives its handle: one that
    /// stands for no other joint and never stood for one.
    pub fn insert(&mut self, body1: RigidBodyHandle, body2: RigidBodyHandle, data: GenericJoint) -> (handle:
        ImpulseJointHandle)
        ensures
            !old(self)@.contains_key(handle),
            !old(self).was_removed(handle),
            final(self)@ == old(self)@.insert(handle, ImpulseJoint { body1, body2, data }),
            forall|other: ImpulseJointHandle|
                final(self).was_removed(other) == old(self).was_removed(other),
    {
        let joint = ImpulseJoint { body1, body2, data };
        let handle = ImpulseJointHandle(self.joints.insert(joint));
        assert(self@ =~= old(self)@.insert(handle, joint));
        handle
    }

    /// The joint that the handle stands for, if it stands for one.
    pub fn get(&self, handle: ImpulseJointHandle) -> (joint: Option<ImpulseJoint>)
        ensures
            joint == self@.get(handle),
    {
        self.joints.get(handle.0)
    }

    /// Whether the handle stands for a joint.
    pub fn contains(&self, handle: ImpulseJointHandle) -> (r: bool)
        ensures
            r == self@.contains_key(handle),
    {
        self.joints.contains(handle.0)
    }

    /// Replaces the joint data under a handle, between the same two bodies,
    /// and tells whether the handle stands for a joint.
    pub fn set_data(&mut self, handle: ImpulseJointHandle, data: GenericJoint) -> (found: bool)
        ensures
            found == old(self)@.contains_key(handle),
            final(self)@ == if found {
                old(self)@.insert(handle, ImpulseJoint { data, ..old(self)@[handle] })
            } else {
                old(self)@
            },
            forall|other: ImpulseJointHandle|
                final(self).was_removed(other) == old(self).was_removed(other),
    {
        match self.joints.get(handle.0) {
            Some(joint) => {
                let replaced = ImpulseJoint { body1: joint.body1, body2: joint.body2, data };
                self.joints.set(handle.0, replaced);
                assert(self@ =~= old(self)@.insert(handle, replaced));
                true
            },
            None => false,
        }
    }

    /// Removes a joint and gives it, if the handle stands for one.
    pub fn remove(&mut self, handle: ImpulseJointHandle) -> (joint: Option<ImpulseJoint>)
        ensures
            joint == old(self)@.get(handle),
            final(self)@ == old(self)@.remove(handle),
            forall|other: ImpulseJointHandle|
                final(self).was_removed(other) == (old(self).was_removed(other) || (other == handle
                    && old(self)@.contains_key(handle))),
    {
        let joint = self.joints.remove(handle.0);
        assert(self@ =~= old(self)@.remove(handle));
        joint
    }
}

} // verus!
