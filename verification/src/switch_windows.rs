//! Cycling through the windows of one application (`Alt+Backtick`).
//!
//! While the modifier stays held, the order of the first list is kept so that
//! repeated presses walk the same ring even when the global window order
//! changes under the newly activated window.
use vstd::prelude::*;
use vstd::arithmetic::div_mod::lemma_fundamental_div_mod_converse;
use crate::index_set::{
    index_set_contains, index_set_from_vec, index_set_into_vec, index_set_items, index_set_swap_remove,
    spec_swap_remove,
};

verus! {

/// What one cycling session remembers: the application it belongs to, the
/// window it started from, the position reached and the ring of windows.
pub struct WindowCache {
    pub module_key: String,
    pub state_id: isize,
    pub index: usize,
    pub windows: Vec<isize>,
}

/// The state of the same-application switcher between key presses.
pub struct SwitchWindowsState {
    pub cache: Option<WindowCache>,
    pub modifier_released: bool,
}

/// One step through a ring of `len` positions, wrapping at both ends. A
/// position left beyond the end (the ring shrank since it was taken) steps
/// back to the last position and forward to the first.
pub open spec fn spec_step(index: int, len: int, reverse: bool) -> int {
    if reverse {
        if index == 0 || index >= len {
            len - 1
        } else {
            index - 1
        }
    } else if index >= len - 1 {
        0
    } else {
        index + 1
    }
}

/// Keeps the order of `ids` for the windows of `start` that it names: the
/// first `k` ids are moved out of the insertion-ordered set built from
/// `start` (by swap-removal), giving the moved ids and what is left.
pub open spec fn merge_state(ids: Seq<isize>, k: nat, start: Seq<isize>) -> (Seq<isize>, Seq<isize>)
    decreases k,
{
    if k == 0 || k > ids.len() {
        (Seq::empty(), start)
    } else {
        let (out, rest) = merge_state(ids, (k - 1) as nat, start);
        let id = ids[k - 1];
        if rest.contains(id) {
            (out.push(id), spec_swap_remove(rest, id))
        } else {
            (out, rest)
        }
    }
}

/// The ring kept while the modifier is held: the cached windows that are
/// still listed, in cached order, then the newly listed ones.
pub open spec fn merged_ring(cached: Seq<isize>, windows: Seq<isize>) -> Seq<isize> {
    let (out, rest) = merge_state(cached, cached.len(), windows);
    out + rest
}

/// Whether a newly listed ring continues the cached session.
pub open spec fn continues_cache(s: SwitchWindowsState, module_key: Seq<char>, len: int) -> bool {
    &&& len > 2
    &&& s.cache is Some
    &&& s.cache->0.module_key@ == module_key
}

/// The position selected by [`SwitchWindowsState::plan_switch`].
pub open spec fn plan_index(
    s: SwitchWindowsState,
    module_key: Seq<char>,
    windows: Seq<isize>,
    reverse: bool,
) -> int {
    if continues_cache(s, module_key, windows.len() as int) {
        let c = s.cache->0;
        if s.modifier_released {
            if c.state_id != windows[0] && windows.contains(c.state_id) {
                windows.index_of(c.state_id)
            } else {
                1
            }
        } else {
            spec_step(c.index as int, windows.len() as int, reverse)
        }
    } else {
        1
    }
}

/// The window that the new session started from.
pub open spec fn plan_state_id(s: SwitchWindowsState, module_key: Seq<char>, windows: Seq<isize>) -> isize {
    if continues_cache(s, module_key, windows.len() as int) && !s.modifier_released {
        s.cache->0.state_id
    } else {
        windows[0]
    }
}

/// The ring of the new session.
pub open spec fn plan_ring(s: SwitchWindowsState, module_key: Seq<char>, windows: Seq<isize>) -> Seq<isize> {
    if continues_cache(s, module_key, windows.len() as int) && !s.modifier_released {
        merged_ring(s.cache->0.windows@, windows)
    } else {
        windows
    }
}

/// Facts about [`spec_swap_remove`] on a sequence without repeats.
pub proof fn lemma_swap_remove(items: Seq<isize>, x: isize)
    requires
        items.no_duplicates(),
        items.contains(x),
    ensures
        spec_swap_remove(items, x).len() == items.len() - 1,
        spec_swap_remove(items, x).no_duplicates(),
        forall|y: isize| #[trigger]
            spec_swap_remove(items, x).contains(y) <==> (items.contains(y) && y != x),
{
    let i = items.index_of(x);
    let r = spec_swap_remove(items, x);
    let n = items.len();
    assert(0 <= i < n && items[i] == x);
    if i == n - 1 {
        assert(r == items.drop_last());
        assert forall|y: isize| #[trigger] r.contains(y) <==> (items.contains(y) && y != x) by {
            if items.contains(y) && y != x {
                let j = choose|j: int| 0 <= j < n && items[j] == y;
                assert(j != n - 1);
                assert(r[j] == y);
            }
        }
    } else {
        assert(r == items.update(i, items.last()).drop_last());
        assert(forall|j: int| 0 <= j < n - 1 && j != i ==> r[j] == items[j]);
        assert(r[i] == items[n - 1]);
        assert forall|y: isize| #[trigger] r.contains(y) <==> (items.contains(y) && y != x) by {
            if items.contains(y) && y != x {
                let j = choose|j: int| 0 <= j < n && items[j] == y;
                if j == n - 1 {
                    assert(r[i] == y);
                } else {
                    assert(j != i);
                    assert(r[j] == y);
                }
            }
            if r.contains(y) {
                let j = choose|j: int| 0 <= j < n - 1 && r[j] == y;
                if j == i {
                    assert(items[n - 1] == y);
                    assert(n - 1 != i);
                } else {
                    assert(items[j] == y);
                }
            }
        }
        assert forall|a: int, b: int| 0 <= a < r.len() && 0 <= b < r.len() && a != b implies r[a]
            != r[b] by {
            let ia = if a == i { n - 1 } else { a };
            let ib = if b == i { n - 1 } else { b };
            assert(r[a] == items[ia]);
            assert(r[b] == items[ib]);
        }
    }
}

/// The moved ids and the remaining set together always hold exactly the
/// windows of `start`, each once.
pub proof fn lemma_merge_state(ids: Seq<isize>, k: nat, start: Seq<isize>)
    requires
        start.no_duplicates(),
    ensures
        ({
            let (out, rest) = merge_state(ids, k, start);
            &&& (out + rest).no_duplicates()
            &&& (out + rest).len() == start.len()
            &&& rest.no_duplicates()
            &&& forall|y: isize| #[trigger] (out + rest).contains(y) <==> start.contains(y)
            &&& forall|y: isize| #[trigger] rest.contains(y) ==> !out.contains(y)
        }),
    decreases k,
{
    if k == 0 || k > ids.len() {
        let (out, rest) = merge_state(ids, k, start);
        assert(out + rest =~= start);
    } else {
        lemma_merge_state(ids, (k - 1) as nat, start);
        let (out, rest) = merge_state(ids, (k - 1) as nat, start);
        let id = ids[k - 1];
        if rest.contains(id) {
            lemma_swap_remove(rest, id);
            let out2 = out.push(id);
            let rest2 = spec_swap_remove(rest, id);
            assert(!out.contains(id));
            assert forall|y: isize| #[trigger] (out2 + rest2).contains(y) <==> start.contains(y) by {
                let s1 = out + rest;
                let s2 = out2 + rest2;
                if s2.contains(y) {
                    let j = choose|j: int| 0 <= j < s2.len() && s2[j] == y;
                    if j < out.len() {
                        assert(s1[j] == y);
                    } else if j == out.len() {
                        assert(y == id);
                        let m = choose|m: int| 0 <= m < rest.len() && rest[m] == id;
                        assert(s1[out.len() + m] == id);
                    } else {
                        assert(rest2[j - out2.len()] == y);
                        assert(rest2.contains(y));
                        assert(rest.contains(y));
                        let m = choose|m: int| 0 <= m < rest.len() && rest[m] == y;
                        assert(s1[out.len() + m] == y);
                    }
                    assert(s1.contains(y));
                }
                if start.contains(y) {
                    assert(s1.contains(y));
                    let j = choose|j: int| 0 <= j < s1.len() && s1[j] == y;
                    if j < out.len() {
                        assert(s2[j] == y);
                    } else if y == id {
                        assert(s2[out.len() as int] == y);
                    } else {
                        assert(rest[j - out.len()] == y);
                        assert(rest.contains(y));
                        assert(rest2.contains(y));
                        let m = choose|m: int| 0 <= m < rest2.len() && rest2[m] == y;
                        assert(s2[out2.len() + m] == y);
                    }
                    assert(s2.contains(y));
                }
            }
            assert forall|y: isize| #[trigger] rest2.contains(y) implies !out2.contains(y) by {
                if out2.contains(y) {
                    let j = choose|j: int| 0 <= j < out2.len() && out2[j] == y;
                    if j < out.len() {
                        assert(out.contains(y));
                    }
                }
            }
            assert forall|a: int, b: int|
                0 <= a < (out2 + rest2).len() && 0 <= b < (out2 + rest2).len() && a
                    != b implies (out2 + rest2)[a] != (out2 + rest2)[b] by {
                let s2 = out2 + rest2;
                let s1 = out + rest;
                // positions of `out` are shared; `id` sits at out.len(); the rest is rest2
                if a < out.len() && b < out.len() {
                    assert(s2[a] == s1[a] && s2[b] == s1[b]);
                } else if a >= out2.len() && b >= out2.len() {
                    assert(s2[a] == rest2[a - out2.len()]);
                    assert(s2[b] == rest2[b - out2.len()]);
                } else {
                    // one index is in `out2`, the other in `rest2`, or both in `out2`
                    if a < out2.len() && b < out2.len() {
                        let (x, y) = if a < b { (a, b) } else { (b, a) };
                        assert(y == out.len());
                        assert(s2[x] == out[x]);
                        assert(out.contains(out[x]));
                    } else {
                        let (x, y) = if a < out2.len() { (a, b) } else { (b, a) };
                        assert(s2[y] == rest2[y - out2.len()]);
                        assert(rest2.contains(s2[y]));
                        if x < out.len() {
                            assert(s2[x] == out[x]);
                            assert(rest.contains(s2[y]));
                            assert(out.contains(s2[x]));
                        } else {
                            assert(s2[x] == id);
                        }
                    }
                }
            }
        }
    }
}

/// A list without repeats is its own insertion-ordered set.
pub proof fn lemma_remove_duplicates_unique(s: Seq<isize>, seen: Seq<isize>)
    requires
        s.no_duplicates(),
        forall|y: isize| #[trigger] s.contains(y) ==> !seen.contains(y),
    ensures
        s.remove_duplicates(seen) == seen + s,
    decreases s.len(),
{
    if s.len() == 0 {
        assert(seen + s =~= seen);
    } else {
        assert(s.contains(s[0]));
        let t = s.skip(1);
        let seen2 = seen + seq![s[0]];
        assert forall|y: isize| #[trigger] t.contains(y) implies !seen2.contains(y) by {
            let j = choose|j: int| 0 <= j < t.len() && t[j] == y;
            assert(s[j + 1] == y);
            assert(s.contains(y));
            if seen2.contains(y) {
                let m = choose|m: int| 0 <= m < seen2.len() && seen2[m] == y;
                if m < seen.len() {
                    assert(seen.contains(y));
                } else {
                    assert(y == s[0]);
                }
            }
        }
        lemma_remove_duplicates_unique(t, seen2);
        assert(seen2 + t =~= seen + s);
    }
}

/// The ring kept while the modifier is held holds each listed window once.
pub proof fn lemma_merged_ring_is_reordering(cached: Seq<isize>, windows: Seq<isize>)
    requires
        windows.no_duplicates(),
    ensures
        merged_ring(cached, windows).no_duplicates(),
        merged_ring(cached, windows).len() == windows.len(),
        forall|y: isize| #[trigger] merged_ring(cached, windows).contains(y) <==> windows.contains(y),
{
    lemma_merge_state(cached, cached.len(), windows);
}

/// A step forward or backward through the ring is the move by one
/// position modulo its length, so repeated steps visit every window.
pub proof fn lemma_step_is_wrap(index: int, len: int, reverse: bool)
    requires
        0 <= index < len,
    ensures
        spec_step(index, len, reverse) == crate::index::spec_wrap_index(
            index,
            len,
            if reverse {
                -1
            } else {
                1
            },
        ),
{
    if reverse {
        if index == 0 {
            lemma_fundamental_div_mod_converse(-1, len, -1, len - 1);
        } else {
            lemma_fundamental_div_mod_converse(index - 1, len, 0, index - 1);
        }
    } else {
        if index >= len - 1 {
            lemma_fundamental_div_mod_converse(index + 1, len, 1, 0);
        } else {
            lemma_fundamental_div_mod_converse(index + 1, len, 0, index + 1);
        }
    }
}

/// Stepping back undoes a step forward.
pub proof fn lemma_step_back_undoes_step(index: int, len: int)
    requires
        0 <= index < len,
    ensures
        spec_step(spec_step(index, len, false), len, true) == index,
{
}

fn find_position(windows: &Vec<isize>, id: isize) -> (r: Option<usize>)
    ensures
        r is None ==> !windows@.contains(id),
        r matches Some(i) ==> i < windows@.len() && windows@[i as int] == id && forall|j: int|
            0 <= j < i ==> windows@[j] != id,
{
    let mut i: usize = 0;
    while i < windows.len()
        invariant
            i <= windows.len(),
            forall|j: int| 0 <= j < i ==> windows@[j] != id,
        decreases windows.len() - i,
    {
        if windows[i] == id {
            return Some(i);
        }
        i = i + 1;
    }
    None
}

/// The window that a new session switches to is one of the listed windows
/// of the application and, unless the modifier is still held over a
/// continuing session, never the current window `windows[0]`: a press always
/// moves to another window.
pub proof fn lemma_plan_moves_to_another_window(
    s: SwitchWindowsState,
    module_key: Seq<char>,
    windows: Seq<isize>,
    reverse: bool,
)
    requires
        s.wf(),
        windows.no_duplicates(),
        windows.len() > 1,
    ensures
        0 <= plan_index(s, module_key, windows, reverse) < windows.len(),
        plan_ring(s, module_key, windows).len() == windows.len(),
        windows.contains(plan_ring(s, module_key, windows)[plan_index(s, module_key, windows, reverse)]),
        s.modifier_released || !continues_cache(s, module_key, windows.len() as int)
            ==> plan_ring(s, module_key, windows)[plan_index(s, module_key, windows, reverse)]
            != windows[0],
{
    let len = windows.len() as int;
    let i = plan_index(s, module_key, windows, reverse);
    if continues_cache(s, module_key, len) {
        let c = s.cache->0;
        if s.modifier_released {
            if c.state_id != windows[0] && windows.contains(c.state_id) {
                assert(windows[windows.index_of(c.state_id)] == c.state_id);
            } else {
                assert(windows[1] != windows[0]);
            }
        } else {
            lemma_merged_ring_is_reordering(c.windows@, windows);
            let ring = merged_ring(c.windows@, windows);
            assert(ring.contains(ring[i]));
        }
    } else {
        assert(windows[1] != windows[0]);
    }
}

fn step_index(index: usize, len: usize, reverse: bool) -> (r: usize)
    requires
        len > 0,
    ensures
        r == spec_step(index as int, len as int, reverse),
        r < len,
{
    if reverse {
        if index == 0 || index >= len {
            len - 1
        } else {
            index - 1
        }
    } else if index >= len - 1 {
        0
    } else {
        index + 1
    }
}

impl SwitchWindowsState {
    /// The position of an active session lies inside its ring.
    pub open spec fn wf(&self) -> bool {
        self.cache matches Some(c) ==> c.index < c.windows@.len()
    }

    /// No session yet, modifier up.
    pub fn new() -> (r: SwitchWindowsState)
        ensures
            r.wf(),
            r.cache is None,
            r.modifier_released,
    {
        SwitchWindowsState { cache: None, modifier_released: true }
    }

    /// The modifier went up: the next press starts a new session.
    pub fn release_modifier(&mut self)
        ensures
            final(self).cache == old(self).cache,
            final(self).modifier_released,
    {
        self.modifier_released = true;
    }

    /// How many positions of the ring may be tried before listing the
    /// windows again: all but the current one while the modifier is held and
    /// `hwnd` belongs to the ring, none otherwise.
    pub fn fast_cycle_steps(&self, hwnd: isize) -> (n: usize)
        ensures
            n == (if !self.modifier_released && self.cache is Some
                && self.cache->0.windows@.contains(hwnd) && self.cache->0.windows@.len() > 0 {
                (self.cache->0.windows@.len() - 1) as int
            } else {
                0
            }),
    {
        if self.modifier_released {
            return 0;
        }
        match &self.cache {
            None => 0,
            Some(c) => {
                match find_position(&c.windows, hwnd) {
                    Some(_) => c.windows.len() - 1,
                    None => 0,
                }
            },
        }
    }

    /// Moves the session one position along its ring and returns the window
    /// found there.
    pub fn cycle_step(&mut self, reverse: bool) -> (candidate: isize)
        requires
            old(self).wf(),
            old(self).cache is Some,
        ensures
            final(self).wf(),
            final(self).modifier_released == old(self).modifier_released,
            final(self).cache is Some,
            ({
                let c0 = old(self).cache->0;
                let c1 = final(self).cache->0;
                &&& c1.module_key == c0.module_key
                &&& c1.state_id == c0.state_id
                &&& c1.windows@ == c0.windows@
                &&& c1.index == spec_step(c0.index as int, c0.windows@.len() as int, reverse)
                &&& candidate == c0.windows@[c1.index as int]
            }),
    {
        let mut c = self.cache.take().unwrap();
        let len = c.windows.len();
        c.index = step_index(c.index, len, reverse);
        let candidate = c.windows[c.index];
        self.cache = Some(c);
        candidate
    }

    /// Starts or continues a session over the freshly listed windows of
    /// the application `module_key` (the current window first). Returns the
    /// window to activate, or `None` when there is no other window.
    pub fn plan_switch(&mut self, module_key: String, windows: &Vec<isize>, reverse: bool) -> (target: Option<isize>)
        requires
            old(self).wf(),
            windows@.no_duplicates(),
        ensures
            final(self).wf(),
            windows@.len() <= 1 ==> target is None && *final(self) == *old(self),
            windows@.len() > 1 ==> {
                let ring = plan_ring(*old(self), module_key@, windows@);
                let index = plan_index(*old(self), module_key@, windows@, reverse);
                &&& final(self).cache is Some
                &&& !final(self).modifier_released
                &&& final(self).cache->0.module_key@ == module_key@
                &&& final(self).cache->0.state_id == plan_state_id(
                    *old(self),
                    module_key@,
                    windows@,
                )
                &&& final(self).cache->0.index == index
                &&& final(self).cache->0.windows@ == ring
                &&& target == Some(ring[index])
            },
            windows@.len() > 1 ==> (target matches Some(t) && windows@.contains(t)),
            windows@.len() > 1 && (old(self).modifier_released || !continues_cache(
                *old(self),
                module_key@,
                windows@.len() as int,
            )) ==> target != Some(windows@[0]),
    {
        let len = windows.len();
        if len <= 1 {
            return None;
        }
        let current_id = windows[0];
        let mut index: usize = 1;
        let mut state_id = current_id;
        let mut state_windows: Vec<isize> = Vec::new();
        let ghost s0 = *old(self);
        if len > 2 {
            if let Some(c) = &self.cache {
                if c.module_key == module_key {
                    if self.modifier_released {
                        if c.state_id != current_id {
                            if let Some(i) = find_position(windows, c.state_id) {
                                index = i;
                            }
                        }
                    } else {
                        state_id = c.state_id;
                        let mut set = index_set_from_vec(windows);
                        proof {
                            lemma_remove_duplicates_unique(windows@, Seq::empty());
                            assert(Seq::<isize>::empty() + windows@ =~= windows@);
                        }
                        let cached = &c.windows;
                        let mut k: usize = 0;
                        while k < cached.len()
                            invariant
                                k <= cached@.len(),
                                merge_state(cached@, k as nat, windows@) == (
                                    state_windows@,
                                    index_set_items(set),
                                ),
                            decreases cached@.len() - k,
                        {
                            let id = cached[k];
                            if index_set_contains(&set, id) {
                                state_windows.push(id);
                                index_set_swap_remove(&mut set, id);
                            }
                            k = k + 1;
                        }
                        let mut rest = index_set_into_vec(set);
                        state_windows.append(&mut rest);
                        index = step_index(c.index, len, reverse);
                    }
                }
            }
        }
        if state_windows.len() == 0 {
            state_windows = windows.clone();
        }
        proof {
            if continues_cache(s0, module_key@, len as int) && !s0.modifier_released {
                lemma_merged_ring_is_reordering(s0.cache->0.windows@, windows@);
            }
            if continues_cache(s0, module_key@, len as int) && s0.modifier_released {
                let c = s0.cache->0;
                if c.state_id != windows@[0] && windows@.contains(c.state_id) {
                    assert(windows@[index as int] == c.state_id);
                    assert(windows@.index_of(c.state_id) == index);
                }
            }
        }
        proof {
            lemma_plan_moves_to_another_window(s0, module_key@, windows@, reverse);
        }
        let target = state_windows[index];
        self.cache = Some(WindowCache { module_key, state_id, index, windows: state_windows });
        self.modifier_released = false;
        Some(target)
    }
}

} // verus!
