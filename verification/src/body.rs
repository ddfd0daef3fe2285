//! Handles of rigid bodies, and the set that hands them out.
//!
//! The joint model never looks inside a body: it only needs to know which
//! handles stand for a body at the moment.

use crate::arena::{Arena, Index};
use crate::multibody::MultibodyJointSet;
use vstd::prelude::*;

verus! {

/// The handle of a rigid body.
#[derive(Clone, Copy, Debug, PartialEq, Eq, Hash, Structural)]
pub struct RigidBodyHandle(pub Index);

impl RigidBodyHandle {
    /// The handle of the body in slot `index` in generation `generation`.
    pub fn from_raw_parts(index: usize, generation: u32) -> (handle: RigidBodyHandle)
        ensures
            handle == RigidBodyHandle(Index { index, generation }),
    {
        RigidBodyHandle(Index { index, generation })
    }

    /// The slot and the generation of the handle.
    pub fn into_raw_parts(self) -> (parts: (usize, u32))
        ensures
            parts == (self.0.index, self.0.generation),
    {
        (self.0.index, self.0.generation)
    }
}

/// How a body takes part in the simulation.
#[derive(Clone, Copy, Debug, PartialEq, Eq, Hash, Structural)]
pub enum RigidBodyType {
    /// The body moves under forces and joints.
    Dynamic,
    /// The body never moves.
    Fixed,
}

/// The bodies that exist, each under its handle.
///
/// The handle of a removed body never stands for a body again.
#[derive(Debug)]
pub struct RigidBodySet {
    bodies: Arena<RigidBodyType>,
}

impl View for RigidBodySet {
    type V = Map<RigidBodyHandle, RigidBodyType>;

    /// The bodies that exist, by their handles.
    closed spec fn view(&self) -> Map<RigidBodyHandle, RigidBodyType> {
        Map::new(
            |h: RigidBodyHandle| self.bodies@.contains_key(h.0),
            |h: RigidBodyHandle| self.bodies@[h.0],
        )
    }
}

impl RigidBodySet {
    /// The handle stood for a body of this set that has since been removed.
    pub closed spec fn was_removed(&self, handle: RigidBodyHandle) -> bool {
        self.bodies.was_removed(handle.0)
    }

    /// The set without any body.
    pub fn new() -> (set: RigidBodySet)
        ensures
            set@ == Map::<RigidBodyHandle, RigidBodyType>::empty(),
            forall|handle: RigidBodyHandle| !set.was_removed(handle),
    {
        let set = RigidBodySet { bodies: Arena::new() };
        assert(set@ =~= Map::<RigidBodyHandle, RigidBodyType>::empty());
        set
    }

    /// The handle of a removed body stands for no body.
    pub proof fn lemma_removed_is_absent(&self, handle: RigidBodyHandle)
        requires
            self.was_removed(handle),
        ensures
            !self@.contains_key(handle),
    {
        self.bodies.lemma_removed_is_absent(handle.0);
    }

    /// Adds a body and gives its handle: one that stands for no other body
    /// and never stood for one.
    pub fn insert(&mut self, body_type: RigidBodyType) -> (handle: RigidBodyHandle)
        ensures
            !old(self)@.contains_key(handle),
            !old(self).was_removed(handle),
            final(self)@ == old(self)@.insert(handle, body_type),
            forall|other: RigidBodyHandle|
                final(self).was_removed(other) == old(self).was_removed(other),
    {
        let handle = RigidBodyHandle(self.bodies.insert(body_type));
        assert(self@ =~= old(self)@.insert(handle, body_type));
        handle
    }

    /// Takes a body out of the set and tells of what type it was, if the
    /// handle stands for a body. The joints of the body are not looked at:
    /// `remove` takes them out too.
    pub fn take(&mut self, handle: RigidBodyHandle) -> (body_type: Option<RigidBodyType>)
        ensures
            body_type == old(self)@.get(handle),
            final(self)@ == old(self)@.remove(handle),
            forall|other: RigidBodyHandle|
                final(self).was_removed(other) == (old(self).was_removed(other) || (other == handle
                    && old(self)@.contains_key(handle))),
    {
        let body_type = self.bodies.remove(handle.0);
        assert(self@ =~= old(self)@.remove(handle));
        body_type
    }

    /// Removes a body from the set and from the forest of joints, and tells
    /// of what type it was. With the body go its edge and the subtree that
    /// hangs on it, or its whole multibody where the body is a root. Where
    /// the handle stands for no body, nothing changes.
    pub fn remove(&mut self, handle: RigidBodyHandle, joints: &mut MultibodyJointSet) -> (body_type:
        Option<RigidBodyType>)
        requires
            old(joints).wf(),
        ensures
            final(joints).wf(),
            body_type == old(self)@.get(handle),
            final(self)@ == old(self)@.remove(handle),
            forall|other: RigidBodyHandle|
                final(self).was_removed(other) == (old(self).was_removed(other) || (other == handle
                    && old(self)@.contains_key(handle))),
            final(joints)@ == if body_type is Some {
                old(joints)@.remove_body(handle)
            } else {
                old(joints)@
            },
    {
        let body_type = self.take(handle);
        if body_type.is_some() {
            joints.remove_body(handle);
        }
        body_type
    }

    /// Whether the handle stands for a body.
    pub fn contains(&self, handle: RigidBodyHandle) -> (r: bool)
        ensures
            r == self@.contains_key(handle),
    {
        self.bodies.contains(handle.0)
    }

    /// The type of the body that the handle stands for, if it stands for
    /// one.
    pub fn get(&self, handle: RigidBodyHandle) -> (body_type: Option<RigidBodyType>)
        ensures
            body_type == self@.get(handle),
    {
        self.bodies.get(handle.0)
    }
}

} // verus!
