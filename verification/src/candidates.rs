//! The scan over the top-level windows, in window-manager order, that builds
//! the list of selectable entries.
//!
//! For every window the caller looks up its facts and hands them to the
//! scan, which decides: a window whose root owner is blocked by a modal
//! dialog is represented by that root (titled by the dialog), every entry
//! appears once, and the first window owned by each owner is remembered.
use vstd::prelude::*;
use std::collections::{HashMap, HashSet};
use crate::window_rules::{is_selectable_title, spec_is_selectable_title};

verus! {

broadcast use vstd::std_specs::hash::group_hash_axioms;

/// The state of one scan.
pub struct CandidateScan {
    /// The entries found so far with their titles.
    pub valid: Vec<(isize, String)>,
    /// Every window already considered as an entry.
    pub seen: HashSet<isize>,
    /// The blocking dialog of each root owner looked up so far.
    pub modal_popups: HashMap<isize, Option<isize>>,
    /// For each owner, the first window found that it owns.
    pub owned_windows: HashMap<isize, isize>,
    /// The entry claimed by [`CandidateScan::claim_candidate`] whose title is
    /// awaited.
    pub pending: Option<isize>,
}

/// The handles of a list of entries.
pub open spec fn handles(v: Seq<(isize, String)>) -> Seq<isize> {
    v.map_values(|e: (isize, String)| e.0)
}

/// The entry that stands for a window whose root owner is `root`: the root,
/// titled by its dialog, when a dialog blocks it and the root itself could
/// be switched to; the window itself otherwise.
pub open spec fn spec_candidate(
    hwnd: isize,
    root: isize,
    modal: Option<isize>,
    root_switchable: bool,
) -> (isize, Option<isize>) {
    match modal {
        Some(m) => if root_switchable {
            (root, Some(m))
        } else {
            (hwnd, None)
        },
        None => (hwnd, None),
    }
}

/// The entry that stands for a window: its root owner, with the blocking
/// dialog's title, only when the root has such a dialog and can itself be
/// switched to; otherwise the window itself, with its own title.
pub proof fn lemma_candidate_is_root_only_when_switchable(
    hwnd: isize,
    root: isize,
    modal: Option<isize>,
    root_switchable: bool,
)
    ensures
        !root_switchable ==> spec_candidate(hwnd, root, modal, root_switchable) == (hwnd, None::<isize>),
        modal is None ==> spec_candidate(hwnd, root, modal, root_switchable) == (hwnd, None::<isize>),
        spec_candidate(hwnd, root, modal, root_switchable).1 is Some ==> root_switchable
            && spec_candidate(hwnd, root, modal, root_switchable) == (root, modal),
        root_switchable && modal is Some ==> spec_candidate(hwnd, root, modal, root_switchable) == (
        root, modal),
{
}

impl CandidateScan {
    /// Every listed entry was seen, no entry is listed twice, and a pending
    /// entry is seen but not listed yet.
    pub open spec fn wf(&self) -> bool {
        &&& forall|i: int|
            0 <= i < self.valid@.len() ==> self.seen@.contains(#[trigger] self.valid@[i].0)
        &&& handles(self.valid@).no_duplicates()
        &&& self.pending matches Some(c) ==> self.seen@.contains(c) && !handles(
            self.valid@,
        ).contains(c)
    }

    /// An empty scan.
    pub fn new() -> (s: CandidateScan)
        ensures
            s.wf(),
            s.valid@.len() == 0,
            s.seen@.len() == 0,
            s.modal_popups@.len() == 0,
            s.owned_windows@.len() == 0,
            s.pending is None,
    {
        let s = CandidateScan {
            valid: Vec::new(),
            seen: HashSet::new(),
            modal_popups: HashMap::new(),
            owned_windows: HashMap::new(),
            pending: None,
        };
        assert(handles(s.valid@) =~= Seq::<isize>::empty());
        s
    }

    /// Whether the blocking dialog of `root` still has to be looked up.
    pub fn needs_modal_lookup(&self, root: isize) -> (r: bool)
        ensures
            r == !self.modal_popups@.contains_key(root),
    {
        !self.modal_popups.contains_key(&root)
    }

    /// Remembers the blocking dialog looked up for `root`.
    pub fn record_modal(&mut self, root: isize, modal: Option<isize>)
        requires
            old(self).wf(),
        ensures
            final(self).wf(),
            final(self).modal_popups@ == old(self).modal_popups@.insert(root, modal),
            final(self).valid@ == old(self).valid@,
            final(self).seen@ == old(self).seen@,
            final(self).owned_windows@ == old(self).owned_windows@,
            final(self).pending == old(self).pending,
    {
        self.modal_popups.insert(root, modal);
    }

    /// The blocking dialog recorded for `root`.
    pub fn modal_for(&self, root: isize) -> (r: Option<isize>)
        requires
            self.modal_popups@.contains_key(root),
        ensures
            r == self.modal_popups@[root],
    {
        match self.modal_popups.get(&root) {
            Some(m) => *m,
            None => None,
        }
    }

    /// Picks the entry that stands for `hwnd` (see [`spec_candidate`]) and
    /// claims it unless it was seen before. Returns the claimed entry and
    /// the dialog whose title it takes.
    pub fn claim_candidate(&mut self, hwnd: isize, root: isize, root_switchable: bool) -> (r:
        Option<(isize, Option<isize>)>)
        requires
            old(self).wf(),
            old(self).pending is None,
            old(self).modal_popups@.contains_key(root),
        ensures
            final(self).wf(),
            ({
                let c = spec_candidate(
                    hwnd,
                    root,
                    old(self).modal_popups@[root],
                    root_switchable,
                );
                &&& final(self).seen@ == old(self).seen@.insert(c.0)
                &&& r == (if old(self).seen@.contains(c.0) {
                    None
                } else {
                    Some(c)
                })
                &&& final(self).pending == (if old(self).seen@.contains(c.0) {
                    None
                } else {
                    Some(c.0)
                })
            }),
            final(self).valid@ == old(self).valid@,
            final(self).modal_popups@ == old(self).modal_popups@,
            final(self).owned_windows@ == old(self).owned_windows@,
            r matches Some((c, d)) ==> (c == hwnd && d is None) || (root_switchable && c == root
                && d is Some && old(self).modal_popups@[root] == d),
            !root_switchable ==> (r matches Some(e) ==> e == (hwnd, None::<isize>)),
            old(self).modal_popups@[root] is None ==> (r matches Some(e) ==> e == (hwnd, None::<isize>)),
            r matches Some((c, d)) ==> !old(self).seen@.contains(c) && final(self).seen@.contains(c)
                && final(self).pending == Some(c),
    {
        let modal = self.modal_for(root);
        let c = match modal {
            Some(m) => if root_switchable {
                (root, Some(m))
            } else {
                (hwnd, None)
            },
            None => (hwnd, None),
        };
        let fresh = self.seen.insert(c.0);
        if fresh {
            self.pending = Some(c.0);
            proof {
                if handles(self.valid@).contains(c.0) {
                    let i = choose|i: int| 0 <= i < handles(self.valid@).len() && handles(self.valid@)[i] == c.0;
                    assert(self.valid@[i].0 == c.0);
                }
            }
            Some(c)
        } else {
            None
        }
    }

    /// Lists the claimed entry with `title` when the title is selectable.
    pub fn push_titled(&mut self, title: String)
        requires
            old(self).wf(),
            old(self).pending is Some,
        ensures
            final(self).wf(),
            final(self).pending is None,
            final(self).valid@ == (if spec_is_selectable_title(title@) {
                old(self).valid@.push((old(self).pending->0, title))
            } else {
                old(self).valid@
            }),
            final(self).seen@ == old(self).seen@,
            final(self).modal_popups@ == old(self).modal_popups@,
            final(self).owned_windows@ == old(self).owned_windows@,
    {
        let c = self.pending.unwrap();
        self.pending = None;
        if is_selectable_title(title.as_str()) {
            let ghost before = self.valid@;
            self.valid.push((c, title));
            proof {
                assert(handles(self.valid@) =~= handles(before).push(c));
                assert forall|a: int, b: int|
                    0 <= a < handles(self.valid@).len() && 0 <= b < handles(self.valid@).len()
                        && a != b implies handles(self.valid@)[a] != handles(self.valid@)[b] by {
                    if a < before.len() && b < before.len() {
                    } else if a < before.len() {
                        assert(handles(before)[a] == handles(self.valid@)[a]);
                        assert(handles(before).contains(handles(self.valid@)[a]));
                    } else {
                        assert(handles(before)[b] == handles(self.valid@)[b]);
                        assert(handles(before).contains(handles(self.valid@)[b]));
                    }
                }
            }
        }
    }

    /// Remembers `hwnd` as the window owned by `owner` unless that owner
    /// already has one; zero is no owner.
    pub fn record_owner(&mut self, owner: isize, hwnd: isize)
        requires
            old(self).wf(),
        ensures
            final(self).wf(),
            final(self).owned_windows@ == (if owner != 0
                && !old(self).owned_windows@.contains_key(owner) {
                old(self).owned_windows@.insert(owner, hwnd)
            } else {
                old(self).owned_windows@
            }),
            final(self).valid@ == old(self).valid@,
            final(self).seen@ == old(self).seen@,
            final(self).modal_popups@ == old(self).modal_popups@,
            final(self).pending == old(self).pending,
    {
        if owner != 0 && !self.owned_windows.contains_key(&owner) {
            self.owned_windows.insert(owner, hwnd);
        }
    }

    /// The first window owned by `owner`, if one was found.
    pub fn owned_window(&self, owner: isize) -> (r: Option<isize>)
        ensures
            r == (if self.owned_windows@.contains_key(owner) {
                Some(self.owned_windows@[owner])
            } else {
                None
            }),
    {
        match self.owned_windows.get(&owner) {
            Some(w) => Some(*w),
            None => None,
        }
    }
}

} // verus!
