//! Simple generation aware cache used in situations where the cache is used in
//! phases that usually do the same or similar lookups.

use vstd::prelude::*;
use std::collections::HashMap;
use std::hash::Hash;

verus! {

broadcast use vstd::std_specs::hash::group_hash_axioms;

/// A cache whose entries remember the generation in which they were last
/// used; entries that were not used for `max_generations` generations are
/// flushed when a generation is marked done.
pub struct GenerationCache<K, V> {
    max_generations: usize,
    current_generation: usize,
    cache: HashMap<K, (V, usize)>,
}

/// Whether an entry last used in `generation` survives a flush that keeps the
/// generations from `oldest` on.
pub open spec fn spec_is_recent(generation: usize, oldest: usize) -> bool {
    generation >= oldest
}

fn is_recent(generation: usize, oldest: usize) -> (recent: bool)
    ensures
        recent == spec_is_recent(generation, oldest),
{
    generation >= oldest
}

/// `HashMap::retain`, keeping the entries whose generation is at least
/// `oldest`: claims that exactly the entries for which the predicate holds
/// stay, unchanged, as the documentation of `retain` says.
#[verifier::external_body]
fn retain_recent<K, V>(cache: &mut HashMap<K, (V, usize)>, oldest: usize)
    ensures
        final(cache)@ == old(cache)@.restrict(
            old(cache)@.dom().filter(|k: K| spec_is_recent(old(cache)@[k].1, oldest)),
        ),
{
    cache.retain(|_k, entry| is_recent(entry.1, oldest))
}

/// The oldest generation that survives when `current` is the current
/// generation: `max_generations` before it, or the first one.
pub open spec fn oldest_generation(current: usize, max_generations: usize) -> usize {
    if current > max_generations {
        (current - max_generations) as usize
    } else {
        0
    }
}

/// The entries after a flush that keeps the generations from `oldest` on.
pub open spec fn flushed<K, V>(entries: Map<K, (V, usize)>, oldest: usize) -> Map<K, (V, usize)> {
    if oldest > 0 {
        entries.restrict(entries.dom().filter(|k: K| spec_is_recent(entries[k].1, oldest)))
    } else {
        entries
    }
}

/// What resolving `key` does to a cache holding `before` in generation
/// `generation`, with the result `value` and the entries `after`: a cached
/// key yields a clone of its value and is marked as used now; another key
/// yields a result of `f`, and a clone of it is cached as used now.
pub open spec fn resolved<K, V: Clone, F: FnOnce() -> V>(
    before: Map<K, (V, usize)>,
    generation: usize,
    key: K,
    f: F,
    value: V,
    after: Map<K, (V, usize)>,
) -> bool {
    if before.contains_key(key) {
        &&& cloned(before[key].0, value)
        &&& after == before.insert(key, (before[key].0, generation))
    } else {
        &&& f.ensures((), value)
        &&& after.contains_key(key)
        &&& cloned(value, after[key].0)
        &&& after[key].1 == generation
        &&& after.remove(key) == before
    }
}

/// Resolving a key twice in the same generation calls the producer at most
/// once: the second resolve finds the key, yields a clone of the cached value,
/// and leaves the entries as the first resolve left them.
pub proof fn lemma_second_resolve_hits<K, V: Clone, F1: FnOnce() -> V, F2: FnOnce() -> V>(
    before: Map<K, (V, usize)>,
    generation: usize,
    key: K,
    f1: F1,
    first: V,
    between: Map<K, (V, usize)>,
    f2: F2,
    second: V,
    after: Map<K, (V, usize)>,
)
    requires
        resolved(before, generation, key, f1, first, between),
        resolved(between, generation, key, f2, second, after),
    ensures
        between.contains_key(key),
        between[key].1 == generation,
        cloned(between[key].0, second),
        after == between,
{
    if before.contains_key(key) {
        assert(between.contains_key(key));
    }
    assert(after =~= between);
}

/// An entry used in the current generation survives marking the generation
/// done, unchanged.
pub proof fn lemma_used_entry_survives<K, V>(
    entries: Map<K, (V, usize)>,
    current: usize,
    max_generations: usize,
    key: K,
)
    requires
        max_generations > 0,
        current < usize::MAX,
        entries.contains_key(key),
        entries[key].1 == current,
    ensures
        flushed(entries, oldest_generation((current + 1) as usize, max_generations)).contains_key(key),
        flushed(entries, oldest_generation((current + 1) as usize, max_generations))[key] == entries[key],
{
    let oldest = oldest_generation((current + 1) as usize, max_generations);
    assert(spec_is_recent(entries[key].1, oldest));
    assert(entries.dom().filter(|k: K| spec_is_recent(entries[k].1, oldest)).contains(key));
}

/// After marking a generation done, no entry is older than the oldest
/// surviving generation, and every entry is one that was there before.
pub proof fn lemma_flush_drops_old_entries<K, V>(entries: Map<K, (V, usize)>, oldest: usize, key: K)
    requires
        flushed(entries, oldest).contains_key(key),
    ensures
        entries.contains_key(key),
        flushed(entries, oldest)[key] == entries[key],
        entries[key].1 >= oldest,
{
}

/// Resolving a key adds an entry exactly where the key was not cached: the
/// number of entries grows by one on a miss and stays on a hit, and the key is
/// then cached as used in the current generation.
pub proof fn lemma_resolve_counts_entries<K, V: Clone, F: FnOnce() -> V>(
    before: Map<K, (V, usize)>,
    generation: usize,
    key: K,
    f: F,
    value: V,
    after: Map<K, (V, usize)>,
)
    requires
        before.dom().finite(),
        resolved(before, generation, key, f, value, after),
    ensures
        after.dom().finite(),
        after.contains_key(key),
        after[key].1 == generation,
        after.len() == if before.contains_key(key) { before.len() } else { before.len() + 1 },
        forall|k: K| k != key ==> (#[trigger] after.contains_key(k) <==> before.contains_key(k)),
        forall|k: K| k != key && before.contains_key(k) ==> #[trigger] after[k] == before[k],
{
    if before.contains_key(key) {
        assert(after.dom() =~= before.dom());
    } else {
        assert(after.dom() =~= before.dom().insert(key)) by {
            assert forall|k: K| #[trigger] after.dom().contains(k) <==> before.dom().insert(key).contains(k) by {
                if k != key {
                    assert(after.remove(key).dom().contains(k) <==> after.dom().contains(k));
                }
            }
        }
        assert forall|k: K| k != key && before.contains_key(k) implies #[trigger] after[k] == before[k] by {
            assert(after.remove(key)[k] == after[k]);
        }
    }
}

/// A key stays cached, with its value and generation, through a flush whose
/// oldest kept generation is not past the key's generation.
pub proof fn lemma_recent_entry_survives_flush<K, V>(entries: Map<K, (V, usize)>, oldest: usize, key: K)
    requires
        entries.contains_key(key),
        entries[key].1 >= oldest,
    ensures
        flushed(entries, oldest).contains_key(key),
        flushed(entries, oldest)[key] == entries[key],
{
    if oldest > 0 {
        assert(entries.dom().filter(|k: K| spec_is_recent(entries[k].1, oldest)).contains(key));
    }
}

/// A key used in generation `used` survives every flush while the current
/// generation is at most `max_generations` past it, that is the flushes of the
/// next `max_generations` calls of `mark_generation_done`.
pub proof fn lemma_entry_survives_max_generations<K, V>(
    entries: Map<K, (V, usize)>,
    key: K,
    current: usize,
    max_generations: usize,
)
    requires
        entries.contains_key(key),
        current <= entries[key].1 + max_generations,
    ensures
        flushed(entries, oldest_generation(current, max_generations)).contains_key(key),
        flushed(entries, oldest_generation(current, max_generations))[key] == entries[key],
{
    lemma_recent_entry_survives_flush(entries, oldest_generation(current, max_generations), key);
}

/// A flush keeps exactly the entries of the recent generations, unchanged, and
/// never adds one: the number of entries does not grow.
pub proof fn lemma_flush_keeps_recent<K, V>(entries: Map<K, (V, usize)>, oldest: usize)
    requires
        entries.dom().finite(),
    ensures
        forall|k: K| #[trigger] flushed(entries, oldest).contains_key(k) <==> entries.contains_key(k) && (oldest
            == 0 || entries[k].1 >= oldest),
        forall|k: K| #[trigger] flushed(entries, oldest).contains_key(k) ==> flushed(entries, oldest)[k] == entries[k],
        flushed(entries, oldest).dom().finite(),
        flushed(entries, oldest).len() <= entries.len(),
{
    let kept = flushed(entries, oldest);
    assert(kept.dom().subset_of(entries.dom()));
    vstd::set_lib::lemma_len_subset(kept.dom(), entries.dom());
}

/// A key resolved once and neither flushed nor resolved since is a hit on a
/// later resolve, in whatever generation: that resolve yields a clone of the
/// value cached the first time and calls no producer.
pub proof fn lemma_later_resolve_hits<K, V: Clone, F1: FnOnce() -> V, F2: FnOnce() -> V>(
    before: Map<K, (V, usize)>,
    first_generation: usize,
    key: K,
    f1: F1,
    first: V,
    between: Map<K, (V, usize)>,
    later: Map<K, (V, usize)>,
    later_generation: usize,
    f2: F2,
    second: V,
    after: Map<K, (V, usize)>,
)
    requires
        resolved(before, first_generation, key, f1, first, between),
        later.contains_key(key),
        later[key] == between[key],
        resolved(later, later_generation, key, f2, second, after),
    ensures
        cloned(between[key].0, second),
        after == later.insert(key, (between[key].0, later_generation)),
{
}

/// A flush keeps only the entries used within the last `max_generations`
/// generations: every entry that survives marking generation `current` done
/// was used in a generation at most `max_generations` before `current`, and
/// every such entry survives, unchanged.
pub proof fn lemma_flush_keeps_only_recent<K, V>(
    entries: Map<K, (V, usize)>,
    current: usize,
    max_generations: usize,
    key: K,
)
    ensures
        flushed(entries, oldest_generation(current, max_generations)).contains_key(key) <==> entries.contains_key(key)
            && entries[key].1 + max_generations >= current,
        flushed(entries, oldest_generation(current, max_generations)).contains_key(key) ==> flushed(
            entries,
            oldest_generation(current, max_generations),
        )[key] == entries[key],
{
    let oldest = oldest_generation(current, max_generations);
    if oldest > 0 && entries.contains_key(key) && entries[key].1 >= oldest {
        assert(entries.dom().filter(|k: K| spec_is_recent(entries[k].1, oldest)).contains(key));
    }
}

impl<K, V> GenerationCache<K, V> where K: Eq + Hash, V: Clone {
    /// The number of generations an entry survives unused.
    pub closed spec fn spec_max_generations(&self) -> usize {
        self.max_generations
    }

    /// The current generation.
    pub closed spec fn spec_current_generation(&self) -> usize {
        self.current_generation
    }

    /// The cached entries: per key, the value and the generation it was last used in.
    pub closed spec fn entries(&self) -> Map<K, (V, usize)> {
        self.cache@
    }

    pub fn new(max_generations: usize) -> (cache: Self)
        requires
            max_generations > 0,
        ensures
            cache.spec_max_generations() == max_generations,
            cache.spec_current_generation() == 0,
            cache.entries() == Map::<K, (V, usize)>::empty(),
    {
        Self { max_generations, current_generation: 0, cache: HashMap::new() }
    }

    /// Marks the  current generation as done.
    ///
    /// This flushes generations that are older than max_generations.
    pub fn mark_generation_done(&mut self)
        requires
            old(self).spec_current_generation() < usize::MAX,
        ensures
            final(self).spec_max_generations() == old(self).spec_max_generations(),
            final(self).spec_current_generation() == old(self).spec_current_generation() + 1,
            final(self).entries() == flushed(
                old(self).entries(),
                oldest_generation(final(self).spec_current_generation(), final(self).spec_max_generations()),
            ),
            forall|k: K| #[trigger] final(self).entries().contains_key(k) <==> old(self).entries().contains_key(k)
                && old(self).entries()[k].1 + old(self).spec_max_generations() >= final(self).spec_current_generation(),
            forall|k: K| #[trigger] final(self).entries().contains_key(k) ==> final(self).entries()[k] == old(self).entries()[k],
    {
        self.current_generation = self.current_generation + 1;
        let oldest_generation = if self.current_generation > self.max_generations {
            self.current_generation - self.max_generations
        } else {
            0
        };
        if oldest_generation > 0 {
            retain_recent(&mut self.cache, oldest_generation);
        }
        proof {
            assert forall|k: K| #[trigger] self.entries().contains_key(k) <==> old(self).entries().contains_key(k)
                && old(self).entries()[k].1 + self.max_generations >= self.current_generation by {
                lemma_flush_keeps_only_recent(old(self).entries(), self.current_generation, self.max_generations, k);
            }
            assert forall|k: K| #[trigger] self.entries().contains_key(k) implies self.entries()[k] == old(self).entries()[k] by {
                lemma_flush_keeps_only_recent(old(self).entries(), self.current_generation, self.max_generations, k);
            }
        }
    }

    /// The number of cached entries.
    pub fn len(&self) -> (len: usize)
        ensures
            vstd::std_specs::hash::obeys_key_model::<K>() ==> len == self.entries().len(),
    {
        self.cache.len()
    }

    /// The value cached for `k`, marked as used in the current generation; or,
    /// where there is none, the result of `f`, which is cached.
    pub fn resolve(&mut self, k: K, f: impl FnOnce() -> V) -> (value: V)
        requires
            f.requires(()),
        ensures
            final(self).spec_max_generations() == old(self).spec_max_generations(),
            final(self).spec_current_generation() == old(self).spec_current_generation(),
            vstd::std_specs::hash::obeys_key_model::<K>() ==> resolved(
                old(self).entries(),
                old(self).spec_current_generation(),
                k,
                f,
                value,
                final(self).entries(),
            ),
    {
        let ghost key = k;
        let generation = self.current_generation;
        match self.cache.remove(&k) {
            Some(entry) => {
                let (v, _) = entry;
                let r = v.clone();
                self.cache.insert(k, (v, generation));
                proof {
                    if vstd::std_specs::hash::obeys_key_model::<K>() {
                        assert(self.cache@ =~= old(self).cache@.insert(key, (old(self).cache@[key].0, generation)));
                    }
                }
                r
            },
            None => {
                let v = f();
                let stored = v.clone();
                self.cache.insert(k, (stored, generation));
                proof {
                    if vstd::std_specs::hash::obeys_key_model::<K>() {
                        assert(self.cache@.remove(key) =~= old(self).cache@);
                    }
                }
                v
            },
        }
    }
}

} // verus!
