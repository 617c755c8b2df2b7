//! Eviction in the bounded caches of process metadata and window AUMIDs.
use vstd::prelude::*;

verus! {

/// Entries kept in the process-metadata cache.
pub const PROCESS_CACHE_LIMIT: usize = 128;

/// Entries kept in the AUMID cache.
pub const AUMID_CACHE_LIMIT: usize = 256;

/// The age key of a cache entry: when it was last used, then a tie-breaker
/// (the creation time of the process for the process cache).
pub open spec fn key_lt(a: (u128, u64), b: (u128, u64)) -> bool {
    a.0 < b.0 || (a.0 == b.0 && a.1 < b.1)
}

/// Whether a cache holding `len` entries must evict one before inserting.
pub fn must_evict(len: usize, limit: usize) -> (r: bool)
    ensures
        r == (len >= limit),
{
    len >= limit
}

/// The entry to evict: the first one, in the order given, with the least
/// age key.
pub fn oldest_index(keys: &Vec<(u128, u64)>) -> (r: Option<usize>)
    ensures
        keys@.len() == 0 <==> r is None,
        r matches Some(i) ==> {
            &&& i < keys@.len()
            &&& forall|j: int| 0 <= j < keys@.len() ==> !key_lt(#[trigger] keys@[j], keys@[i as int])
            &&& forall|j: int| 0 <= j < i ==> key_lt(keys@[i as int], #[trigger] keys@[j])
        },
{
    if keys.len() == 0 {
        return None;
    }
    let mut best: usize = 0;
    let mut i: usize = 1;
    while i < keys.len()
        invariant
            1 <= i <= keys@.len(),
            best < i,
            forall|j: int| 0 <= j < i ==> !key_lt(#[trigger] keys@[j], keys@[best as int]),
            forall|j: int| 0 <= j < best ==> key_lt(keys@[best as int], #[trigger] keys@[j]),
        decreases keys.len() - i,
    {
        let (a0, a1) = keys[i];
        let (b0, b1) = keys[best];
        if a0 < b0 || (a0 == b0 && a1 < b1) {
            best = i;
        }
        i = i + 1;
    }
    Some(best)
}

/// How many entries of the cache belong to live processes.
pub open spec fn live_count(alive: Seq<bool>) -> int
    decreases alive.len(),
{
    if alive.len() == 0 {
        0
    } else {
        live_count(alive.drop_last()) + if alive.last() {
            1int
        } else {
            0int
        }
    }
}

/// Entry `i` is the live entry to evict: the first live one, in the order
/// given, with the least age key among the live entries.
pub open spec fn is_oldest_live(alive: Seq<bool>, keys: Seq<(u128, u64)>, i: int) -> bool {
    &&& 0 <= i < keys.len()
    &&& alive[i]
    &&& forall|j: int| 0 <= j < keys.len() && alive[j] ==> !key_lt(#[trigger] keys[j], keys[i])
    &&& forall|j: int| 0 <= j < i && alive[j] ==> key_lt(keys[i], #[trigger] keys[j])
}

/// The entries to drop from the process cache before a new entry goes in:
/// every entry whose process has exited, and, when the live entries still
/// fill the cache, the oldest live one.
pub fn process_cache_drops(alive: &Vec<bool>, keys: &Vec<(u128, u64)>) -> (drops: Vec<usize>)
    requires
        alive@.len() == keys@.len(),
    ensures
        forall|k: int| 0 <= k < drops@.len() ==> #[trigger] drops@[k] < keys@.len(),
        forall|i: int|
            0 <= i < keys@.len() ==> (drops@.contains(i as usize) <==> (!alive@[i] || (live_count(
                alive@,
            ) >= PROCESS_CACHE_LIMIT && is_oldest_live(alive@, keys@, i)))),
{
    let n = keys.len();
    let mut drops: Vec<usize> = Vec::new();
    let mut live: Vec<usize> = Vec::new();
    let mut live_keys: Vec<(u128, u64)> = Vec::new();
    let mut i: usize = 0;
    while i < n
        invariant
            n == keys@.len(),
            alive@.len() == n,
            i <= n,
            live@.len() == live_keys@.len(),
            live@.len() == live_count(alive@.take(i as int)),
            forall|p: int| 0 <= p < live@.len() ==> #[trigger] live@[p] < i && alive@[live@[p] as int]
                && live_keys@[p] == keys@[live@[p] as int],
            forall|p: int, q: int| 0 <= p < q < live@.len() ==> live@[p] < live@[q],
            forall|j: int| 0 <= j < i && alive@[j] ==> exists|p: int|
                0 <= p < live@.len() && #[trigger] live@[p] == j,
            forall|k: int| 0 <= k < drops@.len() ==> #[trigger] drops@[k] < i,
            forall|j: int| 0 <= j < i ==> (drops@.contains(j as usize) <==> !alive@[j]),
        decreases n - i,
    {
        assert(alive@.take(i + 1).drop_last() =~= alive@.take(i as int));
        let ghost old_live = live@;
        let ghost old_drops = drops@;
        if alive[i] {
            live.push(i);
            live_keys.push(keys[i]);
            assert(live@ == old_live.push(i));
            assert(drops@ == old_drops);
        } else {
            drops.push(i);
            assert(drops@ == old_drops.push(i));
            assert(live@ == old_live);
        }
        proof {
            assert forall|j: int| 0 <= j < i + 1 implies (drops@.contains(j as usize) <==> !alive@[j]) by {
                if drops@.contains(j as usize) {
                    let k = choose|k: int| 0 <= k < drops@.len() && drops@[k] == j as usize;
                    if k < old_drops.len() {
                        assert(old_drops[k] == j as usize);
                        assert(old_drops.contains(j as usize));
                    }
                }
                if !alive@[j] {
                    if j == i {
                        assert(drops@[drops@.len() - 1] == j as usize);
                    } else {
                        assert(old_drops.contains(j as usize));
                        let k = choose|k: int| 0 <= k < old_drops.len() && old_drops[k] == j as usize;
                        assert(drops@[k] == j as usize);
                    }
                }
            }
            assert forall|j: int| 0 <= j < i + 1 && alive@[j] implies exists|p: int|
                0 <= p < live@.len() && #[trigger] live@[p] == j by {
                if j == i {
                    assert(live@[live@.len() - 1] == j);
                } else {
                    let p = choose|p: int| 0 <= p < old_live.len() && #[trigger] old_live[p] == j;
                    assert(live@[p] == j);
                }
            }
        }
        i = i + 1;
    }
    assert(alive@.take(n as int) =~= alive@);
    let ghost before = drops@;
    if must_evict(live.len(), PROCESS_CACHE_LIMIT) {
        if let Some(b) = oldest_index(&live_keys) {
            let victim = live[b];
            drops.push(victim);
            proof {
                assert(is_oldest_live(alive@, keys@, victim as int)) by {
                    assert forall|j: int| 0 <= j < keys@.len() && alive@[j] implies !key_lt(
                        #[trigger] keys@[j],
                        keys@[victim as int],
                    ) by {
                        let p = choose|p: int| 0 <= p < live@.len() && #[trigger] live@[p] == j;
                        assert(!key_lt(live_keys@[p], live_keys@[b as int]));
                    }
                    assert forall|j: int| 0 <= j < victim && alive@[j] implies key_lt(
                        keys@[victim as int],
                        #[trigger] keys@[j],
                    ) by {
                        let p = choose|p: int| 0 <= p < live@.len() && #[trigger] live@[p] == j;
                        if p >= b {
                            if p > b {
                                assert(live@[b as int] < live@[p]);
                            }
                        }
                        assert(p < b);
                        assert(key_lt(live_keys@[b as int], live_keys@[p]));
                    }
                }
                assert forall|i: int| 0 <= i < keys@.len() implies (drops@.contains(i as usize) <==> (!alive@[i] || (live_count(alive@) >= PROCESS_CACHE_LIMIT && is_oldest_live(alive@, keys@, i)))) by {
                    if is_oldest_live(alive@, keys@, i) && i != victim {
                        if i < victim {
                            assert(key_lt(keys@[victim as int], keys@[i]));
                            assert(!key_lt(keys@[victim as int], keys@[i]));
                        } else {
                            assert(key_lt(keys@[i], keys@[victim as int]));
                            assert(!key_lt(keys@[i], keys@[victim as int]));
                        }
                    }
                    if drops@.contains(i as usize) && i != victim {
                        let k = choose|k: int| 0 <= k < drops@.len() && drops@[k] == i as usize;
                        assert(k < before.len());
                        assert(before.contains(i as usize));
                    }
                    if i != victim && !alive@[i] {
                        assert(before.contains(i as usize));
                        let k = choose|k: int| 0 <= k < before.len() && before[k] == i as usize;
                        assert(drops@[k] == i as usize);
                    }
                    if i == victim {
                        assert(drops@[drops@.len() - 1] == i as usize);
                    }
                }
            }
        }
    } else {
        proof {
            assert forall|i: int| 0 <= i < keys@.len() && is_oldest_live(alive@, keys@, i) implies live_count(alive@) < PROCESS_CACHE_LIMIT by {}
        }
    }
    drops
}

} // verus!
