//! The all-windows selector (`Alt+Tab`): the list of entries shown while
//! the modifier is held, the selected position, and the order in which
//! entries are tried when the selection is activated.
use vstd::prelude::*;
use crate::index::{advance_index, spec_wrap_index};

verus! {

/// One window offered by the selector.
pub struct WindowEntry {
    /// Handle of the icon drawn for the entry.
    pub icon: isize,
    pub hwnd: isize,
    pub title: String,
    /// The application key the icon was resolved for.
    pub icon_key: String,
}

/// The entries of one selector session and the selected one.
pub struct SwitchAppsState {
    pub windows: Vec<WindowEntry>,
    pub index: usize,
}

/// What a pending selection step asks for.
#[derive(Clone, Copy, PartialEq, Eq, Debug)]
pub enum AppsStep {
    /// Nothing to do.
    Ignore,
    /// The open selector moved its selection.
    Moved,
    /// No selector is open: list the windows and open one.
    Open,
}

/// The rotation of `0..len` that starts at `start`.
pub open spec fn rotation(start: int, len: int) -> Seq<int> {
    Seq::new(len as nat, |o: int| (start + o) % len)
}

impl SwitchAppsState {
    /// A session always shows at least one entry and selects one of them.
    pub open spec fn wf(&self) -> bool {
        &&& 0 < self.windows@.len() <= isize::MAX
        &&& self.index < self.windows@.len()
    }

    /// Opens a session over `windows` with the selection moved `delta` steps
    /// from the first entry; no session when there is nothing to show.
    pub fn open(windows: Vec<WindowEntry>, delta: isize) -> (r: Option<SwitchAppsState>)
        requires
            windows@.len() <= isize::MAX,
        ensures
            windows@.len() == 0 ==> r is None,
            windows@.len() > 0 ==> (r matches Some(s) && s.wf() && s.windows@ == windows@
                && s.index == spec_wrap_index(0, windows@.len() as int, delta as int)),
    {
        let len = windows.len();
        if len == 0 {
            return None;
        }
        let index = advance_index(0, len, delta);
        Some(SwitchAppsState { windows, index })
    }

    /// Moves the selection `delta` steps around the ring of entries.
    pub fn step(&mut self, delta: isize)
        requires
            old(self).wf(),
            isize::MIN <= old(self).index + delta <= isize::MAX,
        ensures
            final(self).wf(),
            final(self).windows@ == old(self).windows@,
            final(self).index == spec_wrap_index(
                old(self).index as int,
                old(self).windows@.len() as int,
                delta as int,
            ),
    {
        let len = self.windows.len();
        self.index = advance_index(self.index, len, delta);
    }

    /// Selects the entry at `i` (a click on its icon).
    pub fn select(&mut self, i: usize)
        requires
            old(self).wf(),
            i < old(self).windows@.len(),
        ensures
            final(self).wf(),
            final(self).windows@ == old(self).windows@,
            final(self).index == i,
    {
        self.index = i;
    }

    /// The order in which entries are tried on activation: the selected one
    /// first, then the following ones, wrapping around, each once.
    pub fn activation_order(&self) -> (order: Vec<usize>)
        requires
            self.wf(),
        ensures
            order@.len() == self.windows@.len(),
            forall|o: int|
                0 <= o < order@.len() ==> #[trigger] order@[o] as int == rotation(
                    self.index as int,
                    self.windows@.len() as int,
                )[o],
    {
        let len = self.windows.len();
        let mut order: Vec<usize> = Vec::new();
        let mut offset: usize = 0;
        while offset < len
            invariant
                len == self.windows@.len(),
                self.wf(),
                offset <= len,
                order@.len() == offset,
                forall|o: int|
                    0 <= o < offset ==> #[trigger] order@[o] as int == (self.index + o) % (
                    len as int),
            decreases len - offset,
        {
            let i = (self.index + offset) % len;
            order.push(i);
            offset = offset + 1;
        }
        order
    }

    /// A background icon for the application `key` arrived: every entry of
    /// that application takes it. Returns whether any entry changed.
    pub fn apply_icon(&mut self, key: &str, icon: isize) -> (changed: bool)
        requires
            old(self).wf(),
        ensures
            final(self).wf(),
            final(self).index == old(self).index,
            final(self).windows@.len() == old(self).windows@.len(),
            changed == exists|i: int|
                0 <= i < old(self).windows@.len() && (#[trigger] old(self).windows@[i]).icon_key@
                    == key@,
            forall|i: int|
                0 <= i < old(self).windows@.len() ==> {
                    let w0 = #[trigger] old(self).windows@[i];
                    let w1 = final(self).windows@[i];
                    &&& w1.hwnd == w0.hwnd
                    &&& w1.title == w0.title
                    &&& w1.icon_key == w0.icon_key
                    &&& w1.icon == (if w0.icon_key@ == key@ {
                        icon
                    } else {
                        w0.icon
                    })
                },
    {
        let ghost w0 = self.windows@;
        let mut old_windows: Vec<WindowEntry> = Vec::new();
        std::mem::swap(&mut old_windows, &mut self.windows);
        let mut windows: Vec<WindowEntry> = Vec::new();
        let mut changed = false;
        let key_string = String::from_str(key);
        let mut i: usize = 0;
        for entry in it: old_windows
            invariant
                it.seq() == w0,
                windows@.len() == it.index(),
                key_string@ == key@,
                changed == exists|j: int| 0 <= j < it.index() && (#[trigger] w0[j]).icon_key@ == key@,
                forall|j: int|
                    0 <= j < it.index() ==> {
                        let a = #[trigger] w0[j];
                        let b = windows@[j];
                        &&& b.hwnd == a.hwnd
                        &&& b.title == a.title
                        &&& b.icon_key == a.icon_key
                        &&& b.icon == (if a.icon_key@ == key@ {
                            icon
                        } else {
                            a.icon
                        })
                    },
        {
            let matches = entry.icon_key == key_string;
            let new_icon = if matches {
                icon
            } else {
                entry.icon
            };
            if matches {
                changed = true;
            }
            windows.push(WindowEntry { icon: new_icon, hwnd: entry.hwnd, title: entry.title, icon_key: entry.icon_key });
        }
        self.windows = windows;
        changed
    }
}

/// What to do with a pending selection step of `delta`, depending on
/// whether a selector is open.
pub fn apps_step_kind(has_session: bool, delta: isize) -> (k: AppsStep)
    ensures
        k == (if delta == 0 {
            AppsStep::Ignore
        } else if has_session {
            AppsStep::Moved
        } else {
            AppsStep::Open
        }),
{
    if delta == 0 {
        AppsStep::Ignore
    } else if has_session {
        AppsStep::Moved
    } else {
        AppsStep::Open
    }
}

/// A number below twice `len` reduced modulo `len`.
proof fn lemma_mod_once(x: int, len: int)
    requires
        len > 0,
        0 <= x < 2 * len,
    ensures
        x % len == (if x < len {
            x
        } else {
            x - len
        }),
{
    if x < len {
        vstd::arithmetic::div_mod::lemma_fundamental_div_mod_converse(x, len, 0, x);
    } else {
        vstd::arithmetic::div_mod::lemma_fundamental_div_mod_converse(x, len, 1, x - len);
    }
}

/// Activation tries every entry exactly once.
pub proof fn lemma_rotation_visits_all(start: int, len: int)
    requires
        0 <= start < len,
    ensures
        forall|i: int| 0 <= i < len ==> #[trigger] rotation(start, len).contains(i),
        forall|a: int, b: int|
            0 <= a < len && 0 <= b < len && a != b ==> rotation(start, len)[a] != rotation(
                start,
                len,
            )[b],
{
    let r = rotation(start, len);
    assert forall|i: int| 0 <= i < len implies #[trigger] r.contains(i) by {
        let o = if i >= start {
            i - start
        } else {
            i - start + len
        };
        lemma_mod_once(start + o, len);
        assert(r[o] == i);
    }
    assert forall|a: int, b: int| 0 <= a < len && 0 <= b < len && a != b implies r[a] != r[b] by {
        lemma_mod_once(start + a, len);
        lemma_mod_once(start + b, len);
    }
}

} // verus!
