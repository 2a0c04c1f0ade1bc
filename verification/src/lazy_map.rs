//! A mapped sequence whose mapped elements are generated on first access.

use vstd::prelude::*;
use crate::change_set::ChangeSet;
use crate::indexed::{apply_to_vec, IndexedSource, IndexedTarget};

verus! {

/// A sequence of elements and, per element, the generator's result, which is
/// computed when it is first read and dropped when the element changes.
#[verifier::reject_recursive_types(E)]
#[verifier::reject_recursive_types(R)]
pub struct LazyMap<E, R, F: Fn(&E) -> R> {
    generator: F,
    slots: Slots<E, R>,
}

/// The elements of a `LazyMap` and, per element, its generated result if any.
#[verifier::reject_recursive_types(E)]
#[verifier::reject_recursive_types(R)]
struct Slots<E, R> {
    elements: Vec<E>,
    generated: Vec<Option<R>>,
}

/// An iterator over the generated elements of a `LazyMap`, from a position on.
#[verifier::reject_recursive_types(E)]
#[verifier::reject_recursive_types(R)]
pub struct LazyIter<'a, E, R, F: Fn(&E) -> R> {
    /// The map iterated over.
    pub map: &'a mut LazyMap<E, R, F>,
    /// The position of the next element.
    pub pos: usize,
}

/// `after` is `before` with the entries from `from` up to `to` generated: an
/// entry there is generated and keeps its result if it had one; every other
/// entry is unchanged.
pub open spec fn generated_between<R>(before: Seq<Option<R>>, after: Seq<Option<R>>, from: int, to: int) -> bool {
    &&& after.len() == before.len()
    &&& forall|j: int|
        0 <= j < before.len() ==> if from <= j < to {
            &&& after[j] is Some
            &&& before[j] is Some ==> after[j] == before[j]
        } else {
            after[j] == before[j]
        }
}

/// Generating a range a second time changes nothing: an iteration over slots
/// that an earlier one visited yields the same results and generates none.
pub proof fn lemma_second_visit_generates_nothing<R>(
    first: Seq<Option<R>>,
    second: Seq<Option<R>>,
    third: Seq<Option<R>>,
    from: int,
    to: int,
)
    requires
        generated_between(first, second, from, to),
        generated_between(second, third, from, to),
    ensures
        third == second,
{
    assert(third =~= second);
}

impl<E, R, F: Fn(&E) -> R> LazyMap<E, R, F> {
    /// The elements the map is generated from.
    pub closed spec fn spec_elements(&self) -> Seq<E> {
        self.slots.elements@
    }

    /// Per element, the generated result if it was generated yet.
    pub closed spec fn spec_generated(&self) -> Seq<Option<R>> {
        self.slots.generated@
    }

    /// The generator.
    pub closed spec fn generator_fn(&self) -> F {
        self.generator
    }

    /// The map is consistent: one entry per element, each generated entry is a
    /// result of the generator for its element, and the generator accepts every
    /// element. Every map is; the methods state it of the maps they touch.
    pub open spec fn consistent(&self) -> bool {
        &&& self.spec_generated().len() == self.spec_elements().len()
        &&& forall|i: int|
            0 <= i < self.spec_generated().len() && #[trigger] self.spec_generated()[i] is Some
                ==> self.generator_fn().ensures((&self.spec_elements()[i],), self.spec_generated()[i]->0)
        &&& forall|e: &E| #[trigger] self.generator_fn().requires((e,))
    }

    /// `consistent`, stated over the fields.
    #[verifier::type_invariant]
    spec fn wf(&self) -> bool {
        &&& self.slots.generated@.len() == self.slots.elements@.len()
        &&& forall|i: int|
            0 <= i < self.slots.generated@.len() && #[trigger] self.slots.generated@[i] is Some
                ==> self.generator.ensures((&self.slots.elements@[i],), self.slots.generated@[i]->0)
        &&& forall|e: &E| #[trigger] self.generator.requires((e,))
    }

    pub fn new(generator: F) -> (map: Self)
        requires
            forall|e: &E| #[trigger] generator.requires((e,)),
        ensures
            map.spec_elements().len() == 0,
            map.spec_generated() == Seq::<Option<R>>::empty(),
            map.generator_fn() == generator,
            map.consistent(),
    {
        LazyMap { generator, slots: Slots { elements: Vec::new(), generated: Vec::new() } }
    }

    /// Per element, the generated result if it was generated yet.
    pub fn generated(&self) -> (generated: &[Option<R>])
        ensures
            generated@ == self.spec_generated(),
            self.consistent(),
    {
        proof {
            use_type_invariant(self);
        }
        self.slots.generated.as_slice()
    }

    /// The result for element `index`, generated now if it was not yet.
    fn generate_at(&mut self, index: usize) -> (result: &R)
        requires
            index < old(self).spec_elements().len(),
        ensures
            final(self).spec_elements() == old(self).spec_elements(),
            final(self).generator_fn() == old(self).generator_fn(),
            final(self).spec_generated()[index as int] == Some(*result),
            old(self).generator_fn().ensures((&old(self).spec_elements()[index as int],), *result),
            old(self).spec_generated()[index as int] is Some ==> final(self).spec_generated()
                == old(self).spec_generated(),
            final(self).spec_generated() == old(self).spec_generated().update(
                index as int,
                final(self).spec_generated()[index as int],
            ),
    {
        proof {
            use_type_invariant(&*self);
        }
        if self.slots.generated[index].is_none() {
            let r = (self.generator)(&self.slots.elements[index]);
            let mut slots: Slots<E, R> = Slots { elements: Vec::new(), generated: Vec::new() };
            std::mem::swap(&mut slots, &mut self.slots);
            slots.generated.set(index, Some(r));
            self.slots = slots;
        }
        proof {
            use_type_invariant(&*self);
        }
        self.slots.generated[index].as_ref().unwrap()
    }

    /// Creates an iterator to the generated elements beginning at the index `start`.
    pub fn iter_at(&mut self, start: usize) -> (iter: LazyIter<'_, E, R, F>)
        ensures
            *iter.map == *old(self),
            iter.pos == start,
            *final(self) == *final(iter.map),
            old(self).consistent(),
    {
        proof {
            use_type_invariant(&*self);
        }
        LazyIter { map: self, pos: start }
    }
}

impl<E, R, F: Fn(&E) -> R> IndexedSource<R> for LazyMap<E, R, F> {
    open spec fn spec_len(&self) -> nat {
        self.spec_generated().len()
    }

    fn len(&self) -> (len: usize)
        ensures
            len == self.spec_generated().len(),
            self.consistent(),
    {
        proof {
            use_type_invariant(self);
        }
        self.slots.generated.len()
    }
}

impl<E, R, F: Fn(&E) -> R> IndexedTarget<E> for LazyMap<E, R, F> {
    /// Applies the elements and drops the generated results of the elements
    /// that changed.
    fn apply(&mut self, elements: &[E]) -> (change_set: ChangeSet<E>)
        where E: Clone + PartialEq
        ensures
            crate::indexed::applied(old(self).spec_elements(), elements@, final(self).spec_elements(), change_set),
            final(self).generator_fn() == old(self).generator_fn(),
            final(self).spec_generated().len() == elements@.len(),
            old(self).consistent(),
            final(self).consistent(),
            forall|i: int|
                0 <= i < elements@.len() ==> #[trigger] final(self).spec_generated()[i] == if i
                    < old(self).spec_generated().len() && !crate::indexed::is_updated(change_set.updates(), i) {
                    old(self).spec_generated()[i]
                } else {
                    None
                },
    {
        proof {
            use_type_invariant(&*self);
        }
        let mut slots: Slots<E, R> = Slots { elements: Vec::new(), generated: Vec::new() };
        std::mem::swap(&mut slots, &mut self.slots);
        let ghost before = slots.generated@;
        let len = elements.len();
        let change_set = apply_to_vec(&mut slots.elements, elements);
        let ghost kept = if before.len() < len { before.len() as int } else { len as int };
        slots.generated.truncate(len);
        while slots.generated.len() < len
            invariant
                crate::indexed::applied(old(self).spec_elements(), elements@, slots.elements@, change_set),
                change_set.tail_change().spec_end_applied() == len,
                kept == if before.len() < len { before.len() as int } else { len as int },
                kept <= slots.generated@.len() <= len,
                forall|i: int| 0 <= i < kept ==> slots.generated@[i] == before[i],
                forall|i: int| kept <= i < slots.generated@.len() ==> slots.generated@[i] is None,
            decreases len - slots.generated@.len(),
        {
            slots.generated.push(None);
        }
        let indices = change_set.updated_indices();
        let mut k: usize = 0;
        while k < indices.len()
            invariant
                crate::indexed::applied(old(self).spec_elements(), elements@, slots.elements@, change_set),
                change_set.tail_change().spec_end_applied() == len,
                kept == if before.len() < len { before.len() as int } else { len as int },
                slots.generated@.len() == len,
                k <= indices@.len(),
                indices@ == change_set.updates().map_values(|u: (usize, (E, E))| u.0),
                forall|j: int| 0 <= j < indices@.len() ==> indices@[j] < len,
                forall|i: int|
                    0 <= i < len ==> #[trigger] slots.generated@[i] == if i < kept && !crate::indexed::is_updated(
                        change_set.updates().take(k as int),
                        i,
                    ) {
                        before[i]
                    } else {
                        None
                    },
            decreases indices@.len() - k,
        {
            let position = indices[k];
            slots.generated.set(position, None);
            proof {
                assert forall|i: int| 0 <= i < len implies #[trigger] slots.generated@[i] == if i < kept
                    && !crate::indexed::is_updated(change_set.updates().take(k + 1), i) {
                    before[i]
                } else {
                    None
                } by {
                    if crate::indexed::is_updated(change_set.updates().take(k as int), i) {
                        let w = choose|w: int| 0 <= w < k && change_set.updates().take(k as int)[w].0 == i;
                        assert(change_set.updates().take(k + 1)[w].0 == i);
                    }
                    if i == position {
                        assert(change_set.updates().take(k + 1)[k as int].0 == i);
                    }
                }
            }
            k = k + 1;
        }
        proof {
            assert(change_set.updates().take(indices@.len() as int) =~= change_set.updates());
            {
                assert(slots.generated@.len() == slots.elements@.len());
                assert forall|i: int|
                    0 <= i < slots.generated@.len() && #[trigger] slots.generated@[i] is Some
                        implies old(self).generator_fn().ensures(
                        (&slots.elements@[i],),
                        slots.generated@[i]->0,
                    ) by {
                    assert(i < kept);
                    assert(!crate::indexed::is_updated(change_set.updates(), i));
                    assert(slots.elements@[i] == old(self).spec_elements()[i]);
                    assert(old(self).spec_generated()[i] is Some);
                }
            }
        }
        self.slots = slots;
        change_set
    }
}

impl<'a, E, R, F: Fn(&E) -> R> LazyIter<'a, E, R, F> {
    /// The next generated element, generated now if it was not yet.
    pub fn next(&mut self) -> (next: Option<&R>)
        ensures
            *final(final(self).map) == *final(old(self).map),
            old(self).map.consistent(),
            final(self).map.consistent(),
            final(self).map.spec_elements() == old(self).map.spec_elements(),
            final(self).map.generator_fn() == old(self).map.generator_fn(),
            match next {
                Some(r) => {
                    let i = old(self).pos as int;
                    &&& i < old(self).map.spec_elements().len()
                    &&& final(self).pos == i + 1
                    &&& final(self).map.spec_generated()[i] == Some(*r)
                    &&& old(self).map.generator_fn().ensures((&old(self).map.spec_elements()[i],), *r)
                    &&& final(self).map.spec_generated() == old(self).map.spec_generated().update(i, Some(*r))
                    &&& old(self).map.spec_generated()[i] is Some ==> old(self).map.spec_generated()[i] == Some(*r)
                    &&& generated_between(old(self).map.spec_generated(), final(self).map.spec_generated(), i, i + 1)
                },
                None => {
                    &&& old(self).pos >= old(self).map.spec_elements().len()
                    &&& final(self).pos == old(self).pos
                    &&& *final(self).map == *old(self).map
                },
            },
    {
        proof {
            use_type_invariant(&*self.map);
        }
        if self.pos < self.map.slots.elements.len() {
            let i = self.pos;
            self.pos = i + 1;
            Some(self.map.generate_at(i))
        } else {
            None
        }
    }

    /// The `n`th next generated element; the elements before it are generated too.
    pub fn nth(&mut self, n: usize) -> (nth: Option<&R>)
        ensures
            *final(final(self).map) == *final(old(self).map),
            old(self).map.consistent(),
            final(self).map.consistent(),
            final(self).map.spec_elements() == old(self).map.spec_elements(),
            final(self).map.generator_fn() == old(self).map.generator_fn(),
            match nth {
                Some(r) => {
                    let i = old(self).pos + n;
                    &&& i < old(self).map.spec_elements().len()
                    &&& final(self).pos == i + 1
                    &&& final(self).map.spec_generated()[i] == Some(*r)
                    &&& old(self).map.generator_fn().ensures((&old(self).map.spec_elements()[i],), *r)
                    &&& generated_between(
                        old(self).map.spec_generated(),
                        final(self).map.spec_generated(),
                        old(self).pos as int,
                        i + 1,
                    )
                },
                None => {
                    let len = old(self).map.spec_elements().len();
                    &&& old(self).pos + n >= len
                    &&& final(self).pos == if old(self).pos >= len { old(self).pos as int } else { len as int }
                    &&& generated_between(
                        old(self).map.spec_generated(),
                        final(self).map.spec_generated(),
                        old(self).pos as int,
                        len as int,
                    )
                },
            },
    {
        let ghost start = self.pos as int;
        let ghost before = self.map.spec_generated();
        let mut k: usize = 0;
        while k < n
            invariant
                *final(self.map) == *final(old(self).map),
                self.map.spec_elements() == old(self).map.spec_elements(),
                self.map.generator_fn() == old(self).map.generator_fn(),
                before == old(self).map.spec_generated(),
                start == old(self).pos,
                k <= n,
                self.pos == start + k,
                start + k <= self.map.spec_elements().len() || k == 0,
                generated_between(before, self.map.spec_generated(), start, self.pos as int),
            decreases n - k,
        {
            match self.next() {
                Some(_) => {},
                None => {
                    return None;
                },
            }
            k = k + 1;
        }
        self.next()
    }
}

} // verus!
