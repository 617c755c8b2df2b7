//! The icon cache of the all-windows selector: icons are kept per
//! application key, pruned when an application is no longer listed, shown
//! at once from a quick lookup when missing, and resolved properly in the
//! background by at most one job per key.
use vstd::prelude::*;

verus! {

broadcast use vstd::string::group_string_axioms;

/// What to do with the icon cache when a selector opens.
pub struct IconPlan {
    /// Cached keys whose applications are no longer listed.
    pub prune: Vec<String>,
    /// For each listed window, whether its icon must be looked up quickly
    /// (and cached) because no icon is cached for its key yet.
    pub need_quick: Vec<bool>,
    /// The windows whose key gets a background job.
    pub jobs: Vec<usize>,
}

/// The texts of a list of strings.
pub open spec fn texts(v: Seq<String>) -> Seq<Seq<char>> {
    v.map_values(|s: String| s@)
}

/// Whether window `i` is the first one listed with its key.
pub open spec fn first_with_key(keys: Seq<Seq<char>>, i: int) -> bool {
    forall|j: int| 0 <= j < i ==> keys[j] != keys[i]
}

/// Whether window `i` needs a quick icon: no icon is cached for its key and
/// no earlier window of the same key got one.
pub open spec fn spec_need_quick(keys: Seq<Seq<char>>, cached: Seq<Seq<char>>, i: int) -> bool {
    !cached.contains(keys[i]) && first_with_key(keys, i)
}

/// Whether window `i` starts a background job: it needs a quick icon and no
/// job is running for its key.
pub open spec fn spec_starts_job(
    keys: Seq<Seq<char>>,
    cached: Seq<Seq<char>>,
    pending: Seq<Seq<char>>,
    i: int,
) -> bool {
    spec_need_quick(keys, cached, i) && !pending.contains(keys[i])
}

fn contains_text(v: &Vec<String>, s: &String) -> (r: bool)
    ensures
        r == texts(v@).contains(s@),
{
    let mut i: usize = 0;
    while i < v.len()
        invariant
            i <= v@.len(),
            forall|j: int| 0 <= j < i ==> v@[j]@ != s@,
        decreases v.len() - i,
    {
        if v[i] == *s {
            assert(texts(v@)[i as int] == s@);
            return true;
        }
        i = i + 1;
    }
    proof {
        if texts(v@).contains(s@) {
            let j = choose|j: int| 0 <= j < texts(v@).len() && texts(v@)[j] == s@;
            assert(v@[j]@ == s@);
        }
    }
    false
}

fn appears_before(v: &Vec<String>, i: usize) -> (r: bool)
    requires
        i < v@.len(),
    ensures
        r == !first_with_key(texts(v@), i as int),
{
    let mut j: usize = 0;
    while j < i
        invariant
            i < v@.len(),
            j <= i,
            forall|k: int| 0 <= k < j ==> v@[k]@ != v@[i as int]@,
        decreases i - j,
    {
        if v[j] == v[i] {
            assert(texts(v@)[j as int] == texts(v@)[i as int]);
            return true;
        }
        j = j + 1;
    }
    proof {
        assert forall|k: int| 0 <= k < i implies texts(v@)[k] != texts(v@)[i as int] by {
            assert(v@[k]@ != v@[i as int]@);
        }
    }
    false
}

/// Plans the cache updates for the windows listed with `keys`, given the
/// keys with a cached icon and the keys with a running job.
pub fn plan_icons(keys: &Vec<String>, cached: &Vec<String>, pending: &Vec<String>) -> (p: IconPlan)
    ensures
        texts(p.prune@) == texts(cached@).filter(|k: Seq<char>| !texts(keys@).contains(k)),
        p.need_quick@.len() == keys@.len(),
        forall|i: int|
            0 <= i < keys@.len() ==> #[trigger] p.need_quick@[i] == spec_need_quick(
                texts(keys@),
                texts(cached@),
                i,
            ),
        forall|a: int, b: int| 0 <= a < b < p.jobs@.len() ==> p.jobs@[a] < p.jobs@[b],
        forall|a: int| 0 <= a < p.jobs@.len() ==> #[trigger] p.jobs@[a] < keys@.len(),
        forall|i: int|
            0 <= i < keys@.len() ==> (p.jobs@.contains(i as usize) <==> spec_starts_job(
                texts(keys@),
                texts(cached@),
                texts(pending@),
                i,
            )),
{
    let ghost ks = texts(keys@);
    let ghost cs = texts(cached@);
    let ghost ps = texts(pending@);
    let ghost keep_out = |k: Seq<char>| !ks.contains(k);
    let mut prune: Vec<String> = Vec::new();
    let mut c: usize = 0;
    while c < cached.len()
        invariant
            c <= cached@.len(),
            ks == texts(keys@),
            cs == texts(cached@),
            keep_out == (|k: Seq<char>| !ks.contains(k)),
            texts(prune@) == cs.subrange(0, c as int).filter(keep_out),
        decreases cached.len() - c,
    {
        let ghost before = cs.subrange(0, c as int);
        let ghost after = cs.subrange(0, c + 1);
        assert(after.drop_last() =~= before);
        assert(after.last() == cs[c as int]);
        proof {
            reveal_with_fuel(Seq::<_>::filter, 1);
        }
        if !contains_text(keys, &cached[c]) {
            prune.push(cached[c].clone());
            assert(after.filter(keep_out) == before.filter(keep_out).push(cs[c as int]));
            assert(texts(prune@) =~= before.filter(keep_out).push(cs[c as int]));
        } else {
            assert(after.filter(keep_out) == before.filter(keep_out));
            assert(texts(prune@) =~= before.filter(keep_out));
        }
        c = c + 1;
    }
    assert(cs.subrange(0, cached@.len() as int) =~= cs);
    let mut need_quick: Vec<bool> = Vec::new();
    let mut jobs: Vec<usize> = Vec::new();
    let mut i: usize = 0;
    while i < keys.len()
        invariant
            i <= keys@.len(),
            ks == texts(keys@),
            cs == texts(cached@),
            ps == texts(pending@),
            need_quick@.len() == i,
            forall|k: int| 0 <= k < i ==> #[trigger] need_quick@[k] == spec_need_quick(ks, cs, k),
            forall|a: int, b: int| 0 <= a < b < jobs@.len() ==> jobs@[a] < jobs@[b],
            forall|a: int| 0 <= a < jobs@.len() ==> #[trigger] jobs@[a] < i,
            forall|k: int|
                0 <= k < i ==> (jobs@.contains(k as usize) <==> spec_starts_job(ks, cs, ps, k)),
        decreases keys.len() - i,
    {
        let quick = !contains_text(cached, &keys[i]) && !appears_before(keys, i);
        need_quick.push(quick);
        let ghost jobs_before = jobs@;
        if quick && !contains_text(pending, &keys[i]) {
            jobs.push(i);
            assert forall|k: int|
                0 <= k < i + 1 implies (jobs@.contains(k as usize) <==> spec_starts_job(
                ks,
                cs,
                ps,
                k,
            )) by {
                if k < i {
                    if jobs_before.contains(k as usize) {
                        let a = choose|a: int| 0 <= a < jobs_before.len() && jobs_before[a] == k as usize;
                        assert(jobs@[a] == k as usize);
                    }
                    if jobs@.contains(k as usize) {
                        let a = choose|a: int| 0 <= a < jobs@.len() && jobs@[a] == k as usize;
                        if a < jobs_before.len() {
                            assert(jobs_before[a] == k as usize);
                        }
                    }
                } else {
                    assert(jobs@[jobs@.len() - 1] == i);
                }
            }
        } else {
            assert forall|k: int|
                0 <= k < i + 1 implies (jobs@.contains(k as usize) <==> spec_starts_job(
                ks,
                cs,
                ps,
                k,
            )) by {
                if k == i {
                    if jobs@.contains(k as usize) {
                        let a = choose|a: int| 0 <= a < jobs@.len() && jobs@[a] == k as usize;
                        assert(jobs@[a] < i);
                    }
                }
            }
        }
        i = i + 1;
    }
    IconPlan { prune, need_quick, jobs }
}

/// No two windows start a job for the same key, and no job starts for a key
/// whose job is still running: each key is resolved by at most one job.
pub proof fn lemma_one_job_per_key(
    keys: Seq<Seq<char>>,
    cached: Seq<Seq<char>>,
    pending: Seq<Seq<char>>,
    i: int,
    j: int,
)
    requires
        0 <= i < keys.len(),
        0 <= j < keys.len(),
        i != j,
        spec_starts_job(keys, cached, pending, i),
        spec_starts_job(keys, cached, pending, j),
    ensures
        keys[i] != keys[j],
        !pending.contains(keys[i]),
{
    if i < j {
        assert(first_with_key(keys, j));
    } else {
        assert(first_with_key(keys, i));
    }
}

} // verus!
