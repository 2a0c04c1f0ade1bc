//! A data model for incrementally updated caches.

use vstd::prelude::*;

verus! {

/// The changes that updating an ordered container made: the positions whose
/// element was replaced (with the element before and after), and what happened
/// at the tail.
pub struct ChangeSet<E> {
    updated: Vec<(usize, (E, E))>,
    tail: TailChange<E>,
}

/// What happened at the end of an ordered container: elements were added
/// from `start` on, or the elements from `start` on were removed.
pub enum TailChange<E> {
    Added(usize, Vec<E>),
    Removed(usize, Vec<E>),
}

impl<E> TailChange<E> {
    /// Where the changed tail begins.
    pub open spec fn spec_start(&self) -> usize {
        match self {
            TailChange::Added(start, _) => *start,
            TailChange::Removed(start, _) => *start,
        }
    }

    /// The length of the container when the change is applied.
    pub open spec fn spec_end_applied(&self) -> int {
        match self {
            TailChange::Added(start, added) => *start + added@.len(),
            TailChange::Removed(start, _) => *start as int,
        }
    }

    pub fn end_applied(&self) -> (end: usize)
        requires
            self.spec_end_applied() <= usize::MAX,
        ensures
            end == self.spec_end_applied(),
    {
        match self {
            TailChange::Added(start, v) => *start + v.len(),
            TailChange::Removed(start, _) => *start,
        }
    }

    pub fn start(&self) -> (start: usize)
        ensures
            start == self.spec_start(),
    {
        match self {
            TailChange::Added(start, _) => *start,
            TailChange::Removed(start, _) => *start,
        }
    }
}

impl<E> ChangeSet<E> {
    /// The replaced positions, each with the element before and the element after.
    pub closed spec fn updates(&self) -> Seq<(usize, (E, E))> {
        self.updated@
    }

    /// The change at the tail.
    pub closed spec fn tail_change(&self) -> TailChange<E> {
        self.tail
    }

    pub(crate) fn new(updated: Vec<(usize, (E, E))>, tail: TailChange<E>) -> (change_set: Self)
        ensures
            change_set.updates() == updated@,
            change_set.tail_change() == tail,
    {
        Self { updated, tail }
    }

    /// Length of the set when all the changes are applied.
    pub fn len_applied(&self) -> (len: usize)
        requires
            self.tail_change().spec_end_applied() <= usize::MAX,
        ensures
            len == self.tail_change().spec_end_applied(),
    {
        self.tail.end_applied()
    }

    /// The replaced positions, each with the element before and the element after.
    pub fn updated(&self) -> (updated: &[(usize, (E, E))])
        ensures
            updated@ == self.updates(),
    {
        self.updated.as_slice()
    }

    /// The replaced positions.
    pub fn updated_indices(&self) -> (indices: Vec<usize>)
        ensures
            indices@ == self.updates().map_values(|u: (usize, (E, E))| u.0),
    {
        let mut indices: Vec<usize> = Vec::new();
        let mut k: usize = 0;
        while k < self.updated.len()
            invariant
                k <= self.updated@.len(),
                indices@ == self.updated@.take(k as int).map_values(|u: (usize, (E, E))| u.0),
            decreases self.updated@.len() - k,
        {
            indices.push(self.updated[k].0);
            proof {
                assert(self.updated@.take(k + 1).map_values(|u: (usize, (E, E))| u.0)
                    =~= self.updated@.take(k as int).map_values(|u: (usize, (E, E))| u.0).push(self.updated@[k as int].0));
            }
            k = k + 1;
        }
        proof {
            assert(self.updated@.take(self.updated@.len() as int) =~= self.updated@);
        }
        indices
    }
}

} // verus!
