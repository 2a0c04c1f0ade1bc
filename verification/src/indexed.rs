//! Ordered containers that take a new sequence of elements and report what changed.

use vstd::prelude::*;
use vstd::std_specs::cmp::PartialEqSpec;
use crate::change_set::{ChangeSet, TailChange};

verus! {

/// A data container that is ordered.
pub trait IndexedTarget<E> {
    /// Applies a new slice of elements to the ordered container and returns the change set.
    fn apply(&mut self, elements: &[E]) -> ChangeSet<E>
        where E: Clone + PartialEq;
}

/// An indexed sequence that can be read from.
pub trait IndexedSource<E> {
    /// The number of elements of the indexed sequence.
    spec fn spec_len(&self) -> nat;

    /// Whether the indexed sequence has no elements.
    fn is_empty(&self) -> (empty: bool)
        ensures
            empty == (self.spec_len() == 0),
    {
        self.len() == 0
    }

    /// The length of the indexed sequence.
    fn len(&self) -> (len: usize)
        ensures
            len == self.spec_len();
}

/// The positions below `end` where `old` and `new` differ by `==`, in order.
pub open spec fn changed_indices<E: PartialEq>(old: Seq<E>, new: Seq<E>, end: int) -> Seq<usize>
    decreases end,
{
    if end <= 0 {
        Seq::<usize>::empty()
    } else if !old[end - 1].eq_spec(&new[end - 1]) {
        changed_indices(old, new, end - 1).push((end - 1) as usize)
    } else {
        changed_indices(old, new, end - 1)
    }
}

/// Whether `position` is among the replaced positions of `updates`.
pub open spec fn is_updated<E>(updates: Seq<(usize, (E, E))>, position: int) -> bool {
    exists|k: int| 0 <= k < updates.len() && updates[k].0 == position
}

/// What applying `elements` to a container holding `before` does: the container
/// then holds `after` and reports `change_set`.
///
/// - `after` has the length of `elements`; its elements past the end of
///   `before` are clones of `elements`, and the tail change says so: the added
///   elements (clones again) or the removed ones, exactly.
/// - Below both lengths, a position is either kept as it was or replaced by a
///   clone of the new element, and the change set lists the replaced positions in
///   increasing order, each with clones of the element before and after.
/// - Where `E` has a specified `==`, the replaced positions are exactly those
///   where the element before and the new one differ.
pub open spec fn applied<E: Clone + PartialEq>(
    before: Seq<E>,
    elements: Seq<E>,
    after: Seq<E>,
    change_set: ChangeSet<E>,
) -> bool {
    let common = if before.len() < elements.len() { before.len() } else { elements.len() };
    let updates = change_set.updates();
    &&& after.len() == elements.len()
    &&& change_set.tail_change().spec_start() == common
    &&& change_set.tail_change().spec_end_applied() == elements.len()
    &&& forall|i: int| common <= i < after.len() ==> cloned(elements[i], after[i])
    &&& match change_set.tail_change() {
        TailChange::Added(start, added) => {
            &&& before.len() < elements.len()
            &&& added@.len() == elements.len() - before.len()
            &&& forall|k: int| 0 <= k < added@.len() ==> cloned(after[start + k], added@[k])
        },
        TailChange::Removed(start, removed) => {
            &&& elements.len() <= before.len()
            &&& removed@ == before.subrange(elements.len() as int, before.len() as int)
        },
    }
    &&& forall|k: int| 0 <= k < updates.len() ==> updates[k].0 < common
    &&& forall|k: int, l: int| 0 <= k < l < updates.len() ==> updates[k].0 < updates[l].0
    &&& forall|k: int|
        0 <= k < updates.len() ==> {
            &&& cloned(before[updates[k].0 as int], updates[k].1.0)
            &&& cloned(elements[updates[k].0 as int], updates[k].1.1)
            &&& cloned(elements[updates[k].0 as int], after[updates[k].0 as int])
        }
    &&& forall|i: int| 0 <= i < common && !is_updated(updates, i) ==> after[i] == before[i]
    &&& E::obeys_eq_spec() ==> updates.map_values(|u: (usize, (E, E))| u.0)
        == changed_indices(before, elements, common as int)
}

proof fn lemma_changed_indices_members<E: PartialEq>(old: Seq<E>, new: Seq<E>, end: int, i: int)
    requires
        0 <= i <= usize::MAX,
        end <= usize::MAX,
    ensures
        changed_indices(old, new, end).contains(i as usize) <==> i < end && !old[i].eq_spec(&new[i]),
        forall|k: int|
            0 <= k < changed_indices(old, new, end).len() ==> changed_indices(old, new, end)[k] < end,
    decreases end,
{
    if end > 0 {
        lemma_changed_indices_members(old, new, end - 1, i);
        let previous = changed_indices(old, new, end - 1);
        if !old[end - 1].eq_spec(&new[end - 1]) {
            let with_last = previous.push((end - 1) as usize);
            if i == end - 1 {
                assert(with_last[previous.len() as int] == i as usize);
                assert(with_last.contains(i as usize));
            }
            if previous.contains(i as usize) {
                let k = choose|k: int| 0 <= k < previous.len() && previous[k] == i as usize;
                assert(with_last[k] == i as usize);
                assert(with_last.contains(i as usize));
            }
            if with_last.contains(i as usize) {
                let k = choose|k: int| 0 <= k < with_last.len() && with_last[k] == i as usize;
                if k < previous.len() {
                    assert(previous[k] == i as usize);
                }
            }
            assert forall|k: int| 0 <= k < with_last.len() implies with_last[k] < end by {
                if k < previous.len() {
                    assert(with_last[k] == previous[k]);
                }
            }
        }
    }
}

/// Where `==` is the identity and a clone equals its original, applying
/// `elements` leaves the container holding exactly `elements`.
pub proof fn lemma_applied_holds_elements<E: Clone + PartialEq>(
    before: Seq<E>,
    elements: Seq<E>,
    after: Seq<E>,
    change_set: ChangeSet<E>,
)
    requires
        applied(before, elements, after, change_set),
        E::obeys_eq_spec(),
        forall|x: E, y: E| #[trigger] x.eq_spec(&y) <==> x == y,
        forall|x: E, y: E| #[trigger] cloned(x, y) ==> x == y,
    ensures
        after == elements,
{
    let common = if before.len() < elements.len() { before.len() } else { elements.len() };
    let updates = change_set.updates();
    assert forall|i: int| 0 <= i < after.len() implies after[i] == elements[i] by {
        if i < common {
            if is_updated(updates, i) {
                let k = choose|k: int| 0 <= k < updates.len() && updates[k].0 == i;
                assert(cloned(elements[i], after[i]));
            } else {
                lemma_changed_indices_members(before, elements, common as int, i);
                if !before[i].eq_spec(&elements[i]) {
                    let indices = updates.map_values(|u: (usize, (E, E))| u.0);
                    let k = choose|k: int| 0 <= k < indices.len() && indices[k] == i as usize;
                    assert(updates[k].0 == i);
                }
                assert(before[i].eq_spec(&elements[i]));
            }
        } else {
            assert(cloned(elements[i], after[i]));
        }
    }
    assert(after =~= elements);
}

/// Applying to a container the elements it already holds, where `==` is
/// reflexive, replaces nothing, removes nothing and leaves it as it was.
pub proof fn lemma_reapply_changes_nothing<E: Clone + PartialEq>(
    elements: Seq<E>,
    after: Seq<E>,
    change_set: ChangeSet<E>,
)
    requires
        applied(elements, elements, after, change_set),
        E::obeys_eq_spec(),
        forall|x: E| #[trigger] x.eq_spec(&x),
    ensures
        change_set.updates().len() == 0,
        change_set.tail_change() matches TailChange::Removed(start, removed)
            && start == elements.len() && removed@.len() == 0,
        after == elements,
{
    let updates = change_set.updates();
    let indices = updates.map_values(|u: (usize, (E, E))| u.0);
    if indices.len() > 0 {
        lemma_changed_indices_members(elements, elements, elements.len() as int, indices[0] as int);
        assert(changed_indices(elements, elements, elements.len() as int)[0] == indices[0]);
        assert(indices.contains(indices[0]));
    }
    assert forall|i: int| 0 <= i < after.len() implies after[i] == elements[i] by {
        assert(!is_updated(updates, i));
    }
    assert(after =~= elements);
}

impl<E> IndexedSource<E> for Vec<E> {
    open spec fn spec_len(&self) -> nat {
        self@.len()
    }

    fn is_empty(&self) -> (empty: bool)
        ensures
            empty == (self@.len() == 0),
    {
        self.len() == 0
    }

    fn len(&self) -> (len: usize)
        ensures
            len == self@.len(),
    {
        self.len()
    }
}

impl<E> IndexedTarget<E> for Vec<E> {
    fn apply(&mut self, elements: &[E]) -> (change_set: ChangeSet<E>)
        where E: Clone + PartialEq
        ensures
            applied(old(self)@, elements@, final(self)@, change_set),
    {
        apply_to_vec(self, elements)
    }
}

/// Applies `elements` to `target` and returns what changed.
pub(crate) fn apply_to_vec<E: Clone + PartialEq>(target: &mut Vec<E>, elements: &[E]) -> (change_set: ChangeSet<E>)
    ensures
        applied(old(target)@, elements@, final(target)@, change_set),
{
    let ghost before = target@;
    let tail = if elements.len() > target.len() {
        let start = target.len();
        let mut i = start;
        while i < elements.len()
            invariant
                start == before.len(),
                start <= i <= elements@.len(),
                target@.len() == i,
                target@.subrange(0, start as int) == before,
                forall|j: int| start <= j < i ==> cloned(elements@[j], target@[j]),
            decreases elements@.len() - i,
        {
            let e = elements[i].clone();
            target.push(e);
            proof {
                assert(target@.subrange(0, start as int) =~= before);
            }
            i = i + 1;
        }
        let mut added: Vec<E> = Vec::new();
        let mut j = start;
        while j < target.len()
            invariant
                start <= j <= target@.len(),
                added@.len() == j - start,
                forall|k: int| 0 <= k < added@.len() ==> cloned(target@[start + k], added@[k]),
            decreases target@.len() - j,
        {
            added.push(target[j].clone());
            j = j + 1;
        }
        TailChange::Added(start, added)
    } else {
        let start = elements.len();
        let removed = target.split_off(start);
        TailChange::Removed(start, removed)
    };
    let common = tail.start();
    let ghost extended = target@;
    let mut updated: Vec<(usize, (E, E))> = Vec::new();
    let mut i: usize = 0;
    while i < common
        invariant
            i <= common,
            common <= target@.len(),
            common <= elements@.len(),
            common <= before.len(),
            target@.len() == extended.len(),
            forall|j: int| common <= j < target@.len() ==> target@[j] == extended[j],
            forall|j: int| i <= j < common ==> target@[j] == before[j],
            forall|j: int| 0 <= j < i && !is_updated(updated@, j) ==> target@[j] == before[j],
            forall|k: int| 0 <= k < updated@.len() ==> updated@[k].0 < i,
            forall|k: int, l: int| 0 <= k < l < updated@.len() ==> updated@[k].0 < updated@[l].0,
            forall|k: int|
                0 <= k < updated@.len() ==> {
                    &&& cloned(before[updated@[k].0 as int], updated@[k].1.0)
                    &&& cloned(elements@[updated@[k].0 as int], updated@[k].1.1)
                    &&& cloned(elements@[updated@[k].0 as int], target@[updated@[k].0 as int])
                },
            E::obeys_eq_spec() ==> updated@.map_values(|u: (usize, (E, E))| u.0)
                == changed_indices(before, elements@, i as int),
        decreases common - i,
    {
        let ghost previous = updated@;
        if target[i] != elements[i] {
            let old_element = target[i].clone();
            let new_element = elements[i].clone();
            updated.push((i, (old_element, new_element)));
            let replacement = elements[i].clone();
            target.set(i, replacement);
            proof {
                assert(updated@.map_values(|u: (usize, (E, E))| u.0)
                    =~= previous.map_values(|u: (usize, (E, E))| u.0).push(i));
                assert forall|j: int| 0 <= j < i + 1 && !is_updated(updated@, j) implies target@[j] == before[j] by {
                    if j < i {
                        if is_updated(previous, j) {
                            let k = choose|k: int| 0 <= k < previous.len() && previous[k].0 == j;
                            assert(updated@[k] == previous[k]);
                        }
                    } else {
                        assert(updated@[previous.len() as int].0 == i);
                    }
                }
            }
        } else {
            proof {
                assert forall|j: int| 0 <= j < i + 1 && !is_updated(updated@, j) implies target@[j] == before[j] by {
                }
            }
        }
        i = i + 1;
    }
    ChangeSet::new(updated, tail)
}

} // verus!
