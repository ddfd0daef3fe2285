//! Slots with generations: storage whose handles go stale instead of
//! dangling.

use vstd::prelude::*;

verus! {

/// The handle of a value in an arena: the slot that the value occupies, and
/// the generation of that slot when the value was put there.
#[derive(Clone, Copy, Debug, PartialEq, Eq, Hash, Structural)]
pub struct Index {
    pub index: usize,
    pub generation: u32,
}

impl Index {
    /// The handle of slot `index` in generation `generation`.
    pub fn from_raw_parts(index: usize, generation: u32) -> (handle: Index)
        ensures
            handle == (Index { index, generation }),
    {
        Index { index, generation }
    }

    /// The slot and the generation of the handle.
    pub fn into_raw_parts(self) -> (parts: (usize, u32))
        ensures
            parts == (self.index, self.generation),
    {
        (self.index, self.generation)
    }
}

#[derive(Clone, Copy, Debug)]
struct Slot<T> {
    generation: u32,
    value: Option<T>,
}

/// Values under handles.
///
/// A slot that a removed value leaves behind is used again under the next
/// generation, so the handle of a removed value never stands for a value
/// again. Whether a handle is stale is found by one look at its slot.
#[derive(Debug)]
pub struct Arena<T> {
    slots: Vec<Slot<T>>,
}

impl<T> View for Arena<T> {
    type V = Map<Index, T>;

    /// The values of the arena, by their handles.
    closed spec fn view(&self) -> Map<Index, T> {
        Map::new(
            |h: Index|
                h.index < self.slots.len() && self.slots[h.index as int].generation == h.generation
                    && self.slots[h.index as int].value is Some,
            |h: Index| self.slots[h.index as int].value.unwrap(),
        )
    }
}

impl<T: Copy> Arena<T> {
    /// The handle stood for a value of this arena that has since been
    /// removed.
    pub closed spec fn was_removed(&self, handle: Index) -> bool {
        &&& handle.index < self.slots.len()
        &&& {
            let slot = self.slots[handle.index as int];
            handle.generation < slot.generation || (handle.generation == slot.generation
                && slot.value is None)
        }
    }

    /// The arena without any value.
    pub fn new() -> (arena: Arena<T>)
        ensures
            arena@ == Map::<Index, T>::empty(),
            forall|handle: Index| !arena.was_removed(handle),
    {
        let arena = Arena { slots: Vec::new() };
        assert(arena@ =~= Map::<Index, T>::empty());
        arena
    }

    /// The handle of a removed value stands for no value.
    pub proof fn lemma_removed_is_absent(&self, handle: Index)
        requires
            self.was_removed(handle),
        ensures
            !self@.contains_key(handle),
    {
    }

    /// Adds a value and gives its handle: one that stands for no other
    /// value and never stood for one.
    pub fn insert(&mut self, value: T) -> (handle: Index)
        ensures
            !old(self)@.contains_key(handle),
            !old(self).was_removed(handle),
            final(self)@ == old(self)@.insert(handle, value),
            forall|other: Index| final(self).was_removed(other) == old(self).was_removed(other),
    {
        let mut i: usize = 0;
        while i < self.slots.len()
            invariant
                i <= self.slots.len(),
                *self == *old(self),
            decreases self.slots.len() - i,
        {
            let slot = self.slots[i];
            if slot.value.is_none() && slot.generation < u32::MAX {
                let generation: u32 = slot.generation + 1;
                self.slots[i] = Slot { generation, value: Some(value) };
                let handle = Index { index: i, generation };
                assert(self@ =~= old(self)@.insert(handle, value));
                return handle;
            }
            i += 1;
        }
        let handle = Index { index: self.slots.len(), generation: 0 };
        self.slots.push(Slot { generation: 0, value: Some(value) });
        assert(self@ =~= old(self)@.insert(handle, value));
        handle
    }

    /// Takes a value out of the arena and gives it, if the handle stands
    /// for one.
    pub fn remove(&mut self, handle: Index) -> (value: Option<T>)
        ensures
            value == old(self)@.get(handle),
            final(self)@ == old(self)@.remove(handle),
            forall|other: Index|
                final(self).was_removed(other) == (old(self).was_removed(other) || (other == handle
                    && old(self)@.contains_key(handle))),
    {
        if handle.index < self.slots.len() {
            let slot = self.slots[handle.index];
            if slot.generation == handle.generation && slot.value.is_some() {
                self.slots[handle.index] = Slot { generation: slot.generation, value: None };
                assert(self@ =~= old(self)@.remove(handle));
                return slot.value;
            }
        }
        assert(self@ =~= old(self)@.remove(handle));
        None
    }

    /// Whether the handle stands for a value.
    pub fn contains(&self, handle: Index) -> (r: bool)
        ensures
            r == self@.contains_key(handle),
    {
        handle.index < self.slots.len() && self.slots[handle.index].generation == handle.generation
            && self.slots[handle.index].value.is_some()
    }

    /// The value that the handle stands for, if it stands for one.
    pub fn get(&self, handle: Index) -> (value: Option<T>)
        ensures
            value == self@.get(handle),
    {
        if self.contains(handle) {
            self.slots[handle.index].value
        } else {
            None
        }
    }

    /// Puts a value in the place of the one that the handle stands for, and
    /// tells whether the handle stands for one.
    pub fn set(&mut self, handle: Index, value: T) -> (found: bool)
        ensures
            found == old(self)@.contains_key(handle),
            final(self)@ == if found {
                old(self)@.insert(handle, value)
            } else {
                old(self)@
            },
            forall|other: Index| final(self).was_removed(other) == old(self).was_removed(other),
    {
        if self.contains(handle) {
            self.slots[handle.index] = Slot { generation: handle.generation, value: Some(value) };
            assert(self@ =~= old(self)@.insert(handle, value));
            true
        } else {
            false
        }
    }
}

} // verus!
