//! An append-only arena: values are stored once and addressed by stable
//! opaque indices that never invalidate.

use vstd::prelude::*;

verus! {

/// An opaque handle into an [`Arena`]. The generation tag distinguishes
/// handles minted by the arena (generation 0) from synthetic handles such as
/// definition ids mapped into the same index space.
#[derive(Clone, Copy, PartialEq, Eq, Structural, Debug)]
pub struct Index {
    pub index: usize,
    pub generation: u64,
}

impl Index {
    pub fn from_raw_parts(index: usize, generation: u64) -> (r: Index)
        ensures
            r == (Index { index, generation }),
    {
        Index { index, generation }
    }

    pub fn into_raw_parts(self) -> (r: (usize, u64))
        ensures
            r == (self.index, self.generation),
    {
        (self.index, self.generation)
    }
}

/// Append-only storage. Slots are never removed, so an index handed out by
/// `insert` resolves to a value forever; `set` replaces a value in place
/// without invalidating any index.
pub struct Arena<T> {
    pub items: Vec<T>,
}

impl<T> Arena<T> {
    /// True when `index` addresses a live slot of this arena.
    pub open spec fn spec_valid(self, index: Index) -> bool {
        index.generation == 0 && index.index < self.items@.len()
    }

    pub fn new() -> (r: Arena<T>)
        ensures
            r.items@.len() == 0,
    {
        Arena { items: Vec::new() }
    }

    pub fn len(&self) -> (r: usize)
        ensures
            r == self.items@.len(),
    {
        self.items.len()
    }

    /// Appends a value and returns its permanent index.
    pub fn insert(&mut self, value: T) -> (r: Index)
        ensures
            final(self).items@ == old(self).items@.push(value),
            r.index == old(self).items@.len(),
            r.generation == 0,
    {
        let i = self.items.len();
        self.items.push(value);
        Index { index: i, generation: 0 }
    }

    pub fn get(&self, index: Index) -> (r: Option<&T>)
        ensures
            r is Some <==> self.spec_valid(index),
            r is Some ==> *r->0 == self.items@[index.index as int],
    {
        if index.generation == 0 && index.index < self.items.len() {
            Some(&self.items[index.index])
        } else {
            None
        }
    }

    /// Replaces the value in a live slot.
    pub fn set(&mut self, index: Index, value: T)
        requires
            old(self).spec_valid(index),
        ensures
            final(self).items@ == old(self).items@.update(index.index as int, value),
    {
        self.items[index.index] = value;
    }
}

} // verus!
