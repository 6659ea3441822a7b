//! A bounded store of compiled policy sets, keyed by fingerprint.
//!
//! The store keeps its entries in order of use, least recently used first.
//! A lookup that finds the fingerprint hands out the stored result and makes
//! it the most recent entry, without compiling. A lookup that misses compiles
//! once, evicts the least recently used entry if the store is full, and
//! stores the result as the most recent entry. Whatever is stored under a
//! fingerprint is never replaced while it stays in the store.

use std::sync::Arc;
use vstd::prelude::*;
use crate::model::{policy_views, CedarPolicy};
use crate::policy::{compiles_to, Compiled, CompiledSet};
use crate::search::{least_from, lemma_least_from};

verus! {

/// The state of a store as a value: entries from least to most recently
/// used, the bound on their number, and how often a lookup has compiled.
pub struct CacheState<V> {
    pub entries: Seq<(u64, V)>,
    pub capacity: nat,
    pub compilations: nat,
}

/// The fingerprints of the entries, in the same order.
pub open spec fn keys<V>(entries: Seq<(u64, V)>) -> Seq<u64> {
    entries.map_values(|e: (u64, V)| e.0)
}

/// Holds of the positions that store `fingerprint`.
pub open spec fn stores<V>(entries: Seq<(u64, V)>, fingerprint: u64) -> spec_fn(int) -> bool {
    |i: int| entries[i].0 == fingerprint
}

/// The position at which `fingerprint` is stored, if it is.
pub open spec fn held_at<V>(entries: Seq<(u64, V)>, fingerprint: u64) -> Option<int> {
    least_from(stores(entries, fingerprint), 0, entries.len() as int)
}

/// A store is well formed when it can hold something, holds no more than it
/// may, and holds no fingerprint twice.
pub open spec fn well_formed<V>(state: CacheState<V>) -> bool {
    &&& state.capacity >= 1
    &&& state.entries.len() <= state.capacity
    &&& keys(state.entries).no_duplicates()
}

/// The compile count after one more compilation. The count stops at the
/// largest 64-bit value rather than wrapping.
pub open spec fn bump(count: nat) -> nat {
    if count < u64::MAX {
        count + 1
    } else {
        count
    }
}

/// One lookup of `fingerprint`: the state afterwards and the value handed
/// out. `fresh` is what compiling would produce; it is used only on a miss.
pub open spec fn lookup<V>(state: CacheState<V>, fingerprint: u64, fresh: V) -> (CacheState<V>, V) {
    match held_at(state.entries, fingerprint) {
        Some(i) => (
            CacheState {
                entries: state.entries.remove(i).push(state.entries[i]),
                capacity: state.capacity,
                compilations: state.compilations,
            },
            state.entries[i].1,
        ),
        None => {
            let kept = if state.entries.len() >= state.capacity {
                state.entries.drop_first()
            } else {
                state.entries
            };
            (
                CacheState {
                    entries: kept.push((fingerprint, fresh)),
                    capacity: state.capacity,
                    compilations: bump(state.compilations),
                },
                fresh,
            )
        },
    }
}

/// A lookup keeps a store well formed, and leaves the fingerprint stored as
/// the most recent entry, with the value that was handed out.
pub proof fn lemma_lookup_stores<V>(state: CacheState<V>, fingerprint: u64, fresh: V)
    requires
        well_formed(state),
    ensures
        well_formed(lookup(state, fingerprint, fresh).0),
        lookup(state, fingerprint, fresh).0.entries.len() >= 1,
        lookup(state, fingerprint, fresh).0.entries.last() == (
            fingerprint,
            lookup(state, fingerprint, fresh).1,
        ),
        held_at(lookup(state, fingerprint, fresh).0.entries, fingerprint) is Some,
{
    let entries = state.entries;
    let n = entries.len() as int;
    let after = lookup(state, fingerprint, fresh).0.entries;
    lemma_least_from(stores(entries, fingerprint), 0, n);
    match held_at(entries, fingerprint) {
        Some(i) => {
            assert forall|a: int, b: int|
                0 <= a < after.len() && 0 <= b < after.len() && a != b implies keys(after)[a]
                != keys(after)[b] by {
                let src_a = if a == n - 1 {
                    i
                } else if a < i {
                    a
                } else {
                    a + 1
                };
                let src_b = if b == n - 1 {
                    i
                } else if b < i {
                    b
                } else {
                    b + 1
                };
                assert(keys(entries)[src_a] != keys(entries)[src_b]);
            }
        },
        None => {
            let kept = if n >= state.capacity {
                entries.drop_first()
            } else {
                entries
            };
            let shift: int = if n >= state.capacity {
                1
            } else {
                0
            };
            assert forall|a: int, b: int|
                0 <= a < after.len() && 0 <= b < after.len() && a != b implies keys(after)[a]
                != keys(after)[b] by {
                if a < kept.len() {
                    assert(!stores(entries, fingerprint)(a + shift));
                }
                if b < kept.len() {
                    assert(!stores(entries, fingerprint)(b + shift));
                }
                if a < kept.len() && b < kept.len() {
                    assert(keys(entries)[a + shift] != keys(entries)[b + shift]);
                }
            }
        },
    }
    let m = after.len() as int;
    lemma_least_from(stores(after, fingerprint), 0, m);
    assert(stores(after, fingerprint)(m - 1));
}

/// The value stored under `fingerprint`, for a store that holds it.
pub open spec fn held_value<V>(state: CacheState<V>, fingerprint: u64) -> V {
    state.entries[held_at(state.entries, fingerprint)->0].1
}

/// After any lookup, the store holds under the fingerprint the value that
/// the lookup handed out.
pub proof fn lemma_lookup_holds<V>(state: CacheState<V>, fingerprint: u64, fresh: V)
    requires
        well_formed(state),
    ensures
        held_value(lookup(state, fingerprint, fresh).0, fingerprint) == lookup(
            state,
            fingerprint,
            fresh,
        ).1,
{
    lemma_lookup_stores(state, fingerprint, fresh);
    let after = lookup(state, fingerprint, fresh).0.entries;
    let m = after.len() as int;
    lemma_least_from(stores(after, fingerprint), 0, m);
    let j = held_at(after, fingerprint)->0;
    assert(keys(after)[j] == fingerprint);
    assert(keys(after)[m - 1] == fingerprint);
}

/// Published results are never replaced: whatever a store holds under a
/// fingerprint, it still holds after a lookup of any fingerprint, unless that
/// lookup evicted it.
pub proof fn lemma_published_is_kept<V>(
    state: CacheState<V>,
    published: u64,
    fingerprint: u64,
    fresh: V,
)
    requires
        well_formed(state),
        held_at(state.entries, published) is Some,
        held_at(lookup(state, fingerprint, fresh).0.entries, published) is Some,
    ensures
        held_value(lookup(state, fingerprint, fresh).0, published) == held_value(state, published),
{
    let entries = state.entries;
    let n = entries.len() as int;
    let after = lookup(state, fingerprint, fresh).0.entries;
    let m = after.len() as int;
    lemma_lookup_stores(state, fingerprint, fresh);
    lemma_least_from(stores(entries, published), 0, n);
    lemma_least_from(stores(entries, fingerprint), 0, n);
    lemma_least_from(stores(after, published), 0, m);
    let at = held_at(entries, published)->0;
    let now = held_at(after, published)->0;
    assert(keys(entries)[at] == published);
    assert(keys(after)[now] == published);
    match held_at(entries, fingerprint) {
        Some(i) => {
            let from = if now == n - 1 {
                i
            } else if now < i {
                now
            } else {
                now + 1
            };
            assert(after[now] == entries[from]);
            assert(keys(entries)[from] == published);
        },
        None => {
            let shift: int = if n >= state.capacity {
                1
            } else {
                0
            };
            if now < m - 1 {
                assert(after[now] == entries[now + shift]);
                assert(keys(entries)[now + shift] == published);
            } else {
                assert(!stores(entries, fingerprint)(at));
            }
        },
    }
}

/// The state after looking `fingerprint` up once per element of `fresh`, in
/// order; each element is what compiling would have produced at that lookup.
pub open spec fn lookups<V>(state: CacheState<V>, fingerprint: u64, fresh: Seq<V>) -> CacheState<V>
    decreases fresh.len(),
{
    if fresh.len() == 0 {
        state
    } else {
        lookup(lookups(state, fingerprint, fresh.drop_last()), fingerprint, fresh.last()).0
    }
}

/// The value handed out by lookup number `k`, counting from zero, of such a run.
pub open spec fn handed_out<V>(state: CacheState<V>, fingerprint: u64, fresh: Seq<V>, k: int) -> V {
    lookup(lookups(state, fingerprint, fresh.take(k)), fingerprint, fresh[k]).1
}

/// A run of at least one lookup of the same fingerprint leaves the store well
/// formed and holding the value that the first lookup handed out, and has
/// compiled once if the fingerprint was missing at the start, else not at all.
proof fn lemma_run<V>(state: CacheState<V>, fingerprint: u64, fresh: Seq<V>)
    requires
        well_formed(state),
        state.compilations < u64::MAX,
        fresh.len() >= 1,
    ensures
        well_formed(lookups(state, fingerprint, fresh)),
        held_at(lookups(state, fingerprint, fresh).entries, fingerprint) is Some,
        held_value(lookups(state, fingerprint, fresh), fingerprint) == handed_out(
            state,
            fingerprint,
            fresh,
            0,
        ),
        lookups(state, fingerprint, fresh).compilations == state.compilations + (if held_at(
            state.entries,
            fingerprint,
        ) is Some {
            0nat
        } else {
            1nat
        }),
    decreases fresh.len(),
{
    let front = fresh.drop_last();
    let before = lookups(state, fingerprint, front);
    if fresh.len() > 1 {
        lemma_run(state, fingerprint, front);
    }
    lemma_lookup_stores(before, fingerprint, fresh.last());
    lemma_lookup_holds(before, fingerprint, fresh.last());
}

/// Compile once: in a run of lookups of one fingerprint, only the first can
/// compile, and it does so exactly when the fingerprint was not stored; every
/// lookup of the run hands out the same value.
///
/// The count is taken below its ceiling, where a compilation still counts.
pub proof fn lemma_compiled_once<V>(state: CacheState<V>, fingerprint: u64, fresh: Seq<V>)
    requires
        well_formed(state),
        state.compilations < u64::MAX,
        fresh.len() >= 1,
    ensures
        lookups(state, fingerprint, fresh).compilations == state.compilations + (if held_at(
            state.entries,
            fingerprint,
        ) is Some {
            0nat
        } else {
            1nat
        }),
        forall|k: int|
            0 <= k < fresh.len() ==> #[trigger] handed_out(state, fingerprint, fresh, k)
                == handed_out(state, fingerprint, fresh, 0),
{
    lemma_run(state, fingerprint, fresh);
    assert forall|k: int| 0 <= k < fresh.len() implies #[trigger] handed_out(
        state,
        fingerprint,
        fresh,
        k,
    ) == handed_out(state, fingerprint, fresh, 0) by {
        if k > 0 {
            lemma_run(state, fingerprint, fresh.take(k));
        }
    }
}

/// One stored result with the fingerprint it is stored under.
#[derive(Debug)]
pub struct CacheEntry {
    fingerprint: u64,
    compiled: Arc<Compiled>,
}

/// The content of stored entries, in the same order.
pub closed spec fn entry_views(entries: Seq<CacheEntry>) -> Seq<(u64, Compiled)> {
    entries.map_values(|e: CacheEntry| (e.fingerprint, *e.compiled))
}

/// The value behind a shared handle.
pub open spec fn shared_value<T>(handle: Arc<T>) -> T {
    *handle
}

/// `Arc::clone`: a second handle to the same shared value.
#[verifier::external_body]
fn share<T>(handle: &Arc<T>) -> (r: Arc<T>)
    ensures
        *r == **handle,
{
    Arc::clone(handle)
}

/// A bounded least-recently-used store of compiled policy sets.
#[derive(Debug)]
pub struct PolicyCache {
    entries: Vec<CacheEntry>,
    capacity: usize,
    compilations: u64,
}

impl View for PolicyCache {
    type V = CacheState<Compiled>;

    closed spec fn view(&self) -> CacheState<Compiled> {
        CacheState {
            entries: entry_views(self.entries@),
            capacity: self.capacity as nat,
            compilations: self.compilations as nat,
        }
    }
}

impl PolicyCache {
    #[verifier::type_invariant]
    spec fn inv(self) -> bool {
        well_formed(self@)
    }

    /// An empty store that holds at most `capacity` results, and at least one.
    pub fn new(capacity: usize) -> (r: PolicyCache)
        ensures
            r@.entries.len() == 0,
            r@.compilations == 0,
            r@.capacity == if capacity == 0 {
                1
            } else {
                capacity as int
            },
            well_formed(r@),
    {
        let capacity = if capacity == 0 {
            1
        } else {
            capacity
        };
        PolicyCache { entries: Vec::new(), capacity, compilations: 0 }
    }

    /// The position of the entry stored under `fingerprint`, if there is one.
    fn find(&self, fingerprint: u64) -> (r: Option<usize>)
        ensures
            match r {
                Some(i) => i < self.entries.len() && held_at(self@.entries, fingerprint) == Some(
                    i as int,
                ),
                None => held_at(self@.entries, fingerprint) is None,
            },
    {
        let ghost entries = self@.entries;
        let ghost n = entries.len() as int;
        let mut i: usize = 0;
        while i < self.entries.len()
            invariant
                i <= self.entries.len(),
                entries == self@.entries,
                n == self.entries.len(),
                held_at(entries, fingerprint) == least_from(
                    stores(entries, fingerprint),
                    i as int,
                    n,
                ),
            decreases self.entries.len() - i,
        {
            if self.entries[i].fingerprint == fingerprint {
                return Some(i);
            }
            i += 1;
        }
        None
    }

    /// Hands out the result stored under `fingerprint`, compiling `raw` first
    /// if nothing is stored there.
    ///
    /// The store changes as one lookup prescribes. On a miss the result is
    /// what compiling `raw` returns, whether a set or an error; on a hit it is
    /// whatever was stored, and `raw` is not read.
    pub fn get_or_compile(&mut self, fingerprint: u64, raw: &[CedarPolicy]) -> (r: Arc<Compiled>)
        ensures
            lookup(old(self)@, fingerprint, *r) == (final(self)@, *r),
            held_at(final(self)@.entries, fingerprint) is Some,
            held_value(final(self)@, fingerprint) == *r,
            held_at(old(self)@.entries, fingerprint) is None ==> compiles_to(
                policy_views(raw@),
                *r,
            ),
            well_formed(old(self)@),
            well_formed(final(self)@),
    {
        proof {
            use_type_invariant(&*self);
        }
        let found = self.find(fingerprint);
        let ghost before = self.entries@;
        let mut entries: Vec<CacheEntry> = Vec::new();
        core::mem::swap(&mut self.entries, &mut entries);
        match found {
            Some(i) => {
                let entry = entries.remove(i);
                let handle = share(&entry.compiled);
                let ghost value: Compiled = shared_value(handle);
                entries.push(entry);
                proof {
                    assert(entry_views(entries@) =~= entry_views(before).remove(i as int).push(
                        entry_views(before)[i as int],
                    ));
                    lemma_lookup_stores(old(self)@, fingerprint, value);
                    lemma_lookup_holds(old(self)@, fingerprint, value);
                }
                self.entries = entries;
                handle
            },
            None => {
                let compiled = Arc::new(CompiledSet::compile(raw));
                let handle = share(&compiled);
                let ghost value: Compiled = shared_value(handle);
                if entries.len() >= self.capacity {
                    let _ = entries.remove(0);
                }
                let ghost kept = entries@;
                entries.push(CacheEntry { fingerprint, compiled });
                proof {
                    assert(entry_views(kept) =~= if before.len() >= self.capacity {
                        entry_views(before).drop_first()
                    } else {
                        entry_views(before)
                    });
                    assert(entry_views(entries@) =~= entry_views(kept).push((fingerprint, value)));
                    lemma_lookup_stores(old(self)@, fingerprint, value);
                    lemma_lookup_holds(old(self)@, fingerprint, value);
                }
                self.entries = entries;
                if self.compilations < u64::MAX {
                    self.compilations += 1;
                }
                handle
            },
        }
    }

    /// How many results the store holds: never more than its capacity.
    pub fn len(&self) -> (n: usize)
        ensures
            n == self@.entries.len(),
            well_formed(self@),
    {
        proof {
            use_type_invariant(self);
        }
        self.entries.len()
    }

    /// The most results the store will hold.
    pub fn capacity(&self) -> (n: usize)
        ensures
            n == self@.capacity,
    {
        self.capacity
    }

    /// How many lookups have compiled so far.
    pub fn compilations(&self) -> (n: u64)
        ensures
            n == self@.compilations,
    {
        self.compilations
    }

    /// Whether a result is stored under `fingerprint`.
    pub fn contains(&self, fingerprint: u64) -> (r: bool)
        ensures
            r == held_at(self@.entries, fingerprint) is Some,
    {
        self.find(fingerprint).is_some()
    }

    /// Forgets every stored result. The compile count stays.
    pub fn clear(&mut self)
        ensures
            final(self)@.entries.len() == 0,
            final(self)@.capacity == old(self)@.capacity,
            final(self)@.compilations == old(self)@.compilations,
    {
        proof {
            use_type_invariant(&*self);
        }
        self.entries = Vec::new();
    }
}

} // verus!
