use vstd::prelude::*;
use crate::keyed::{hashes_unique, has_hash, index_of_hash, find_hash};

verus! {

broadcast use vstd::std_specs::vec::group_vec_axioms;

/// Maximum number of strings interned.
pub const MAX_INTERNED_STRINGS: usize = 1024;

/// Maximum length of strings interned.
pub const MAX_STRING_LEN: usize = 24;

/// An interned string, as the cache sees it: its length, and how many holders share it.
#[derive(Debug, Clone, Copy, PartialEq, Eq)]
pub struct Interned {
    pub len: usize,
    pub count: usize,
}

/// The entry to evict from the cache `c`, sparing the entry filed under `keep`: among the
/// others, the one with the fewest holders, and among those the longest, the first met in the
/// cache's order; the hash `0` when there is none. (`x`, `n`, `k` hold the length, holders and
/// hash of the best entry so far, starting from `(0, usize::MAX, 0)`.)
pub open spec fn victim_from(c: Seq<(u64, Interned)>, keep: u64, x: usize, n: usize, k: u64) -> u64
    decreases c.len(),
{
    if c.len() == 0 {
        k
    } else {
        let (h, v) = c[0];
        if h != keep && (v.count < n || (v.count == n && v.len > x)) {
            victim_from(c.drop_first(), keep, v.len, v.count, h)
        } else {
            victim_from(c.drop_first(), keep, x, n, k)
        }
    }
}

/// The entry to evict from the cache `c`, sparing the entry filed under `keep`.
pub open spec fn victim(c: Seq<(u64, Interned)>, keep: u64) -> u64 {
    victim_from(c, keep, 0, usize::MAX, 0)
}

/// The cache with the entry filed under `h` removed, if there is one.
pub open spec fn without(c: Seq<(u64, Interned)>, h: u64) -> Seq<(u64, Interned)> {
    if has_hash(c, h) {
        c.remove(index_of_hash(c, h))
    } else {
        c
    }
}

/// The cache after evicting entries, one by one, until at most `max` remain (or no entry can
/// be evicted).
pub open spec fn shrunk(c: Seq<(u64, Interned)>, max: nat, keep: u64) -> Seq<(u64, Interned)>
    decreases c.len(),
{
    if c.len() <= max || !has_hash(c, victim(c, keep)) {
        c
    } else {
        shrunk(without(c, victim(c, keep)), max, keep)
    }
}

/// The number of entries a cache over capacity is shrunk to: two when the capacity is under
/// five, else three fewer than the capacity (room to grow again).
pub open spec fn shrink_target(capacity: usize) -> nat {
    if capacity < 5 {
        2
    } else {
        (capacity - 3) as nat
    }
}

/// The cache after it is throttled upon the entry under `keep` being added: unchanged while
/// within `capacity`, else shrunk.
pub open spec fn throttled(c: Seq<(u64, Interned)>, capacity: usize, keep: u64) -> Seq<(u64, Interned)> {
    if c.len() <= capacity {
        c
    } else {
        shrunk(c, shrink_target(capacity), keep)
    }
}

/// The entry to evict from the cache, sparing the entry filed under `keep`.
fn victim_exec(c: &Vec<(u64, Interned)>, keep: u64) -> (r: u64)
    ensures
        r == victim(c@, keep),
{
    let mut x: usize = 0;
    let mut n: usize = usize::MAX;
    let mut k: u64 = 0;
    let mut i: usize = 0;
    assert(c@.skip(0) =~= c@);
    while i < c.len()
        invariant
            i <= c@.len(),
            victim(c@, keep) == victim_from(c@.skip(i as int), keep, x, n, k),
        decreases c@.len() - i,
    {
        let (h, v) = c[i];
        proof {
            assert(c@.skip(i as int)[0] == c@[i as int]);
            assert(c@.skip(i as int).drop_first() =~= c@.skip(i + 1));
        }
        if h != keep && (v.count < n || (v.count == n && v.len > x)) {
            x = v.len;
            n = v.count;
            k = h;
        }
        i += 1;
    }
    k
}

/// Throttle the cache upon the entry under `keep` being added: where it holds more than
/// `capacity` entries, evict the entry with the fewest holders (the longest among those,
/// never the one under `keep`) until it is back to its shrink target.
pub fn throttle_cache(cache: &mut Vec<(u64, Interned)>, capacity: usize, keep: u64)
    requires
        hashes_unique(old(cache)@),
    ensures
        hashes_unique(final(cache)@),
        final(cache)@ == throttled(old(cache)@, capacity, keep),
{
    if cache.len() <= capacity {
        return;
    }
    let max: usize = if capacity < 5 {
        2
    } else {
        capacity - 3
    };
    while cache.len() > max
        invariant
            hashes_unique(cache@),
            max == shrink_target(capacity),
            shrunk(cache@, max as nat, keep) == throttled(old(cache)@, capacity, keep),
        decreases cache@.len(),
    {
        let n = victim_exec(cache, keep);
        match find_hash(cache, n) {
            Some(i) => {
                let ghost before = cache@;
                let _ = cache.remove(i);
                proof {
                    assert(cache@ == without(before, n));
                    assert forall|a: int, b: int| 0 <= a < b < cache@.len() implies #[trigger] cache@[a].0 != #[trigger] cache@[b].0 by {
                        let a2 = if a < i { a } else { a + 1 };
                        let b2 = if b < i { b } else { b + 1 };
                        assert(cache@[a] == before[a2]);
                        assert(cache@[b] == before[b2]);
                    }
                }
            },
            None => {
                return;
            },
        }
    }
}

} // verus!
