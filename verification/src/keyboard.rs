//! The decisions of the low-level keyboard hook: which hotkey a key event
//! belongs to, which switcher messages it produces, and how rapid `Tab`
//! presses are coalesced into a single pending selection delta.
use vstd::prelude::*;

verus! {

/// Hotkey identifier of the same-application shortcut (`Alt+Backtick`).
pub const SWITCH_WINDOWS_HOTKEY_ID: u32 = 1;

/// Hotkey identifier of the all-windows shortcut (`Alt+Tab`).
pub const SWITCH_APPS_HOTKEY_ID: u32 = 2;

/// Scan code of the left `Shift` key.
pub const SCANCODE_LSHIFT: u32 = 0x2a;

/// Scan code of the right `Shift` key.
pub const SCANCODE_RSHIFT: u32 = 0x36;

/// Scan code of `Escape`.
pub const SCANCODE_ESCAPE: u32 = 0x01;

/// Scan code of the up arrow.
pub const SCANCODE_UP: u32 = 0x48;

/// Scan code of the left arrow.
pub const SCANCODE_LEFT: u32 = 0x4b;

/// Scan code of the right arrow.
pub const SCANCODE_RIGHT: u32 = 0x4d;

/// Scan code of the down arrow.
pub const SCANCODE_DOWN: u32 = 0x50;

/// A configured shortcut: the scan codes that act as its modifier (for
/// instance both `Alt` keys) and the scan code of its key.
pub struct Hotkey {
    pub id: u32,
    pub code: u32,
    pub modifier: Vec<u32>,
}

/// One keyboard event seen by the hook.
#[derive(Clone, Copy)]
pub struct KeyEvent {
    pub scan_code: u32,
    pub is_key_up: bool,
    /// Whether the foreground application is excluded from the
    /// same-application shortcut.
    pub foreground_in_blacklist: bool,
}

/// What the hook does with the key after updating its state.
#[derive(Clone, Copy, PartialEq, Eq, Debug)]
pub enum KeyCommand {
    /// Hand the key to the next hook.
    PassThrough,
    /// Swallow the key and ask the switcher to close without switching.
    CancelSwitchApps,
    /// Swallow the key and move the all-windows selection by one step.
    /// `mask_alt_menu` asks for the synthetic `Ctrl` tap that keeps the
    /// window menu from opening on the first step; `post_message` asks for a
    /// switcher message, which is only sent when none is already pending.
    SwitchApps { reverse: bool, mask_alt_menu: bool, post_message: bool },
    /// Swallow the key and cycle through the windows of one application.
    SwitchWindows { reverse: bool },
}

/// Everything one key event asks the caller to do, in this order: post the
/// "done" messages that are set, then carry out `command`.
#[derive(Clone, Copy, PartialEq, Eq, Debug)]
pub struct KeyOutcome {
    pub switch_windows_done: bool,
    pub switch_apps_done: bool,
    pub command: KeyCommand,
}

/// The state that the keyboard hook keeps between events.
pub struct KeyboardState {
    pub hotkeys: Vec<Hotkey>,
    /// `modifier_pressed[i]` tells whether a modifier of `hotkeys[i]` is held.
    pub modifier_pressed: Vec<bool>,
    pub is_shift_pressed: bool,
    pub is_switching_apps: bool,
    pub previous_keycode: u32,
    pub pending_app_delta: isize,
    pub app_message_pending: bool,
}

pub open spec fn is_shift_code(sc: u32) -> bool {
    sc == SCANCODE_LSHIFT || sc == SCANCODE_RSHIFT
}

pub open spec fn is_arrow_code(sc: u32) -> bool {
    sc == SCANCODE_UP || sc == SCANCODE_LEFT || sc == SCANCODE_RIGHT || sc == SCANCODE_DOWN
}

/// Whether the event's key is one of the modifiers of `hk`.
pub open spec fn is_modifier_of(hk: Hotkey, sc: u32) -> bool {
    hk.modifier@.contains(sc)
}

/// Whether the event's key is a modifier of any configured hotkey.
pub open spec fn any_modifier(hks: Seq<Hotkey>, sc: u32) -> bool {
    exists|i: int| 0 <= i < hks.len() && is_modifier_of(#[trigger] hks[i], sc)
}

/// Whether releasing this key ends the shortcut with identifier `id`: a
/// modifier of that hotkey goes up right after the hotkey's own key fired.
pub open spec fn releases(hks: Seq<Hotkey>, ev: KeyEvent, previous: u32, id: u32) -> bool {
    exists|i: int|
        0 <= i < hks.len() && is_modifier_of(#[trigger] hks[i], ev.scan_code) && ev.is_key_up
            && hks[i].code == previous && hks[i].id == id
}

/// Whether hotkey `hk`, whose modifier is held as `pressed` says, acts on a
/// key press that is not a modifier.
pub open spec fn fires(hk: Hotkey, pressed: bool, ev: KeyEvent, switching: bool) -> bool {
    &&& !ev.is_key_up
    &&& pressed
    &&& if ev.scan_code == hk.code {
        hk.id == SWITCH_APPS_HOTKEY_ID || (hk.id == SWITCH_WINDOWS_HOTKEY_ID
            && !ev.foreground_in_blacklist)
    } else {
        hk.id == SWITCH_APPS_HOTKEY_ID && (ev.scan_code == SCANCODE_ESCAPE || (is_arrow_code(
            ev.scan_code,
        ) && switching))
    }
}

/// `i` is the first hotkey that acts on the event.
pub open spec fn first_firing(
    hks: Seq<Hotkey>,
    pressed: Seq<bool>,
    ev: KeyEvent,
    switching: bool,
    i: int,
) -> bool {
    &&& 0 <= i < hks.len()
    &&& fires(hks[i], pressed[i], ev, switching)
    &&& forall|j: int| 0 <= j < i ==> !fires(#[trigger] hks[j], pressed[j], ev, switching)
}

/// Whether the key that fired is remembered as the last shortcut key.
pub open spec fn records_keycode(hk: Hotkey, ev: KeyEvent) -> bool {
    ev.scan_code == hk.code || ev.scan_code == SCANCODE_ESCAPE
}

/// The direction of the step that a firing hotkey asks for.
pub open spec fn fired_reverse(hk: Hotkey, ev: KeyEvent, shift: bool) -> bool {
    if ev.scan_code == hk.code {
        shift
    } else {
        ev.scan_code == SCANCODE_UP || ev.scan_code == SCANCODE_LEFT
    }
}

/// Whether a firing hotkey cancels the all-windows switcher.
pub open spec fn fired_cancel(hk: Hotkey, ev: KeyEvent) -> bool {
    ev.scan_code != hk.code && ev.scan_code == SCANCODE_ESCAPE
}

/// The command that a firing hotkey produces.
pub open spec fn fired_command(
    hk: Hotkey,
    ev: KeyEvent,
    shift: bool,
    switching: bool,
    pending: bool,
) -> KeyCommand {
    if hk.id == SWITCH_APPS_HOTKEY_ID {
        if fired_cancel(hk, ev) {
            KeyCommand::CancelSwitchApps
        } else {
            KeyCommand::SwitchApps {
                reverse: fired_reverse(hk, ev, shift),
                mask_alt_menu: !switching,
                post_message: !pending,
            }
        }
    } else {
        KeyCommand::SwitchWindows { reverse: fired_reverse(hk, ev, shift) }
    }
}

/// One step of the all-windows selection added to the pending delta, with
/// the wrap-around of a machine word.
pub open spec fn spec_step_delta(delta: isize, reverse: bool) -> isize {
    if reverse {
        if delta == isize::MIN {
            isize::MAX
        } else {
            (delta - 1) as isize
        }
    } else {
        if delta == isize::MAX {
            isize::MIN
        } else {
            (delta + 1) as isize
        }
    }
}

/// A reverse step undoes a forward step of the pending delta, also across
/// the wrap-around of a machine word.
pub proof fn lemma_reverse_step_undoes_step(delta: isize)
    ensures
        spec_step_delta(spec_step_delta(delta, false), true) == delta,
        spec_step_delta(spec_step_delta(delta, true), false) == delta,
{
}

fn step_delta(delta: isize, reverse: bool) -> (r: isize)
    ensures
        r == spec_step_delta(delta, reverse),
{
    if reverse {
        if delta == isize::MIN {
            isize::MAX
        } else {
            delta - 1
        }
    } else {
        if delta == isize::MAX {
            isize::MIN
        } else {
            delta + 1
        }
    }
}

fn contains_code(codes: &Vec<u32>, sc: u32) -> (r: bool)
    ensures
        r == codes@.contains(sc),
{
    let mut i: usize = 0;
    while i < codes.len()
        invariant
            i <= codes.len(),
            forall|j: int| 0 <= j < i ==> codes@[j] != sc,
        decreases codes.len() - i,
    {
        if codes[i] == sc {
            return true;
        }
        i = i + 1;
    }
    false
}

/// What one key event does to the hook state `o`, leaving `f` and
/// producing `out`.
pub open spec fn key_transition(o: KeyboardState, ev: KeyEvent, out: KeyOutcome, f: KeyboardState) -> bool {
    let hks = o.hotkeys@;
    let sc = ev.scan_code;
    let shift = if is_shift_code(sc) {
        !ev.is_key_up
    } else {
        o.is_shift_pressed
    };
    let switching = o.is_switching_apps && !out.switch_apps_done;
    &&& f.hotkeys@ == hks
    &&& f.is_shift_pressed == shift
    &&& forall|i: int|
        0 <= i < hks.len() ==> #[trigger] f.modifier_pressed@[i] == (if is_modifier_of(
            hks[i],
            sc,
        ) {
            !ev.is_key_up
        } else {
            o.modifier_pressed@[i]
        })
    &&& out.switch_windows_done == releases(
        hks,
        ev,
        o.previous_keycode,
        SWITCH_WINDOWS_HOTKEY_ID,
    )
    &&& out.switch_apps_done == releases(
        hks,
        ev,
        o.previous_keycode,
        SWITCH_APPS_HOTKEY_ID,
    )
    &&& (any_modifier(hks, sc) || (forall|i: int|
        0 <= i < hks.len() ==> !fires(
            #[trigger] hks[i],
            o.modifier_pressed@[i],
            ev,
            o.is_switching_apps,
        ))) ==> {
        &&& out.command == KeyCommand::PassThrough
        &&& f.previous_keycode == o.previous_keycode
        &&& f.is_switching_apps == switching
        &&& f.pending_app_delta == o.pending_app_delta
        &&& f.app_message_pending == o.app_message_pending
    }
    &&& forall|i: int|
        !any_modifier(hks, sc) && first_firing(
            hks,
            o.modifier_pressed@,
            ev,
            o.is_switching_apps,
            i,
        ) ==> {
            let cmd = fired_command(
                #[trigger] hks[i],
                ev,
                shift,
                switching,
                o.app_message_pending,
            );
            &&& out.command == cmd
            &&& f.previous_keycode == (if records_keycode(hks[i], ev) {
                sc
            } else {
                o.previous_keycode
            })
            &&& f.is_switching_apps == (cmd is SwitchApps)
            &&& f.pending_app_delta == (if cmd is SwitchApps {
                spec_step_delta(o.pending_app_delta, fired_reverse(hks[i], ev, shift))
            } else {
                o.pending_app_delta
            })
            &&& f.app_message_pending == (o.app_message_pending
                || cmd is SwitchApps)
        }
}

/// What handing over the pending delta does to the hook state `o`, leaving
/// `f` and returning `delta`.
pub open spec fn take_transition(o: KeyboardState, delta: isize, f: KeyboardState) -> bool {
    &&& delta == o.pending_app_delta
    &&& f.pending_app_delta == 0
    &&& !f.app_message_pending
    &&& f.hotkeys@ == o.hotkeys@
    &&& f.modifier_pressed@ == o.modifier_pressed@
    &&& f.is_shift_pressed == o.is_shift_pressed
    &&& f.is_switching_apps == o.is_switching_apps
    &&& f.previous_keycode == o.previous_keycode
}

impl KeyboardState {
    /// The hotkey list and the pressed flags stay parallel, and every
    /// identifier names a bit of a 32-bit mask.
    pub open spec fn wf(&self) -> bool {
        &&& self.hotkeys@.len() == self.modifier_pressed@.len()
        &&& forall|i: int| 0 <= i < self.hotkeys@.len() ==> (#[trigger] self.hotkeys@[i]).id < 32
    }

    /// The state of a freshly installed hook: no key held, nothing pending.
    pub fn new(hotkeys: Vec<Hotkey>) -> (r: KeyboardState)
        requires
            forall|i: int| 0 <= i < hotkeys@.len() ==> (#[trigger] hotkeys@[i]).id < 32,
        ensures
            r.wf(),
            r.hotkeys@ == hotkeys@,
            forall|i: int| 0 <= i < r.modifier_pressed@.len() ==> !r.modifier_pressed@[i],
            !r.is_shift_pressed,
            !r.is_switching_apps,
            r.previous_keycode == 0,
            r.pending_app_delta == 0,
            !r.app_message_pending,
    {
        let mut pressed: Vec<bool> = Vec::new();
        let mut i: usize = 0;
        while i < hotkeys.len()
            invariant
                i <= hotkeys.len(),
                pressed@.len() == i,
                forall|j: int| 0 <= j < i ==> !pressed@[j],
            decreases hotkeys.len() - i,
        {
            pressed.push(false);
            i = i + 1;
        }
        KeyboardState {
            hotkeys,
            modifier_pressed: pressed,
            is_shift_pressed: false,
            is_switching_apps: false,
            previous_keycode: 0,
            pending_app_delta: 0,
            app_message_pending: false,
        }
    }

    /// Hands the accumulated selection delta to the switcher and clears it,
    /// so that the next step posts a new message.
    pub fn take_pending_app_delta(&mut self) -> (delta: isize)
        ensures
            take_transition(*old(self), delta, *final(self)),
    {
        self.app_message_pending = false;
        let delta = self.pending_app_delta;
        self.pending_app_delta = 0;
        delta
    }

    /// The switcher message that a `SwitchApps` command asked for could not be
    /// posted: the step is dropped so that the next one posts again.
    pub fn switch_apps_post_failed(&mut self)
        ensures
            final(self).pending_app_delta == 0,
            !final(self).app_message_pending,
            final(self).hotkeys@ == old(self).hotkeys@,
            final(self).modifier_pressed@ == old(self).modifier_pressed@,
            final(self).is_shift_pressed == old(self).is_shift_pressed,
            final(self).is_switching_apps == old(self).is_switching_apps,
            final(self).previous_keycode == old(self).previous_keycode,
    {
        self.app_message_pending = false;
        self.pending_app_delta = 0;
    }

    /// Updates the hook state for one key event and says what to do with it.
    pub fn on_key(&mut self, ev: KeyEvent) -> (out: KeyOutcome)
        requires
            old(self).wf(),
        ensures
            final(self).wf(),
            key_transition(*old(self), ev, out, *final(self)),
    {
        let sc = ev.scan_code;
        let pressed_now = !ev.is_key_up;
        if sc == SCANCODE_LSHIFT || sc == SCANCODE_RSHIFT {
            self.is_shift_pressed = pressed_now;
        }
        let ghost o = *old(self);
        let ghost hks = o.hotkeys@;
        let n = self.hotkeys.len();
        let mut is_modifier = false;
        let mut windows_done = false;
        let mut apps_done = false;
        let mut i: usize = 0;
        while i < n
            invariant
                pressed_now == !ev.is_key_up,
                sc == ev.scan_code,
                n == hks.len(),
                self.hotkeys@ == hks,
                self.modifier_pressed@.len() == n,
                o.modifier_pressed@.len() == n,
                self.previous_keycode == o.previous_keycode,
                self.is_switching_apps == o.is_switching_apps,
                self.pending_app_delta == o.pending_app_delta,
                self.app_message_pending == o.app_message_pending,
                self.is_shift_pressed == (if is_shift_code(sc) {
                    !ev.is_key_up
                } else {
                    o.is_shift_pressed
                }),
                i <= n,
                forall|j: int| 0 <= j < hks.len() ==> (#[trigger] hks[j]).id < 32,
                is_modifier == (exists|j: int| 0 <= j < i && is_modifier_of(#[trigger] hks[j], sc)),
                windows_done == (exists|j: int|
                    0 <= j < i && is_modifier_of(#[trigger] hks[j], sc) && ev.is_key_up
                        && hks[j].code == o.previous_keycode && hks[j].id
                        == SWITCH_WINDOWS_HOTKEY_ID),
                apps_done == (exists|j: int|
                    0 <= j < i && is_modifier_of(#[trigger] hks[j], sc) && ev.is_key_up
                        && hks[j].code == o.previous_keycode && hks[j].id
                        == SWITCH_APPS_HOTKEY_ID),
                forall|j: int|
                    0 <= j < n ==> #[trigger] self.modifier_pressed@[j] == (if j < i
                        && is_modifier_of(hks[j], sc) {
                        pressed_now
                    } else {
                        o.modifier_pressed@[j]
                    }),
            decreases n - i,
        {
            let ghost was_windows_done = windows_done;
            let ghost was_apps_done = apps_done;
            let m = contains_code(&self.hotkeys[i].modifier, sc);
            assert(m == is_modifier_of(hks[i as int], sc));
            if m {
                is_modifier = true;
                if pressed_now {
                    self.modifier_pressed.set(i, true);
                } else {
                    self.modifier_pressed.set(i, false);
                    if self.previous_keycode == self.hotkeys[i].code {
                        let id = self.hotkeys[i].id;
                        if id == SWITCH_WINDOWS_HOTKEY_ID {
                            windows_done = true;
                        }
                        if id == SWITCH_APPS_HOTKEY_ID {
                            apps_done = true;
                        }
                    }
                }
            }
            proof {
                let ii = i as int;
                let pw = m && ev.is_key_up && hks[ii].code == o.previous_keycode && hks[ii].id
                    == SWITCH_WINDOWS_HOTKEY_ID;
                let pa = m && ev.is_key_up && hks[ii].code == o.previous_keycode && hks[ii].id
                    == SWITCH_APPS_HOTKEY_ID;
                assert(windows_done == (was_windows_done || pw));
                assert(apps_done == (was_apps_done || pa));
                if pw {
                    assert(is_modifier_of(hks[ii], sc));
                }
                if pa {
                    assert(is_modifier_of(hks[ii], sc));
                }
            }
            i = i + 1;
        }
        assert(is_modifier == any_modifier(hks, sc));
        // Which hotkey acts on the key, and how: (index, reverse, cancel).
        let mut fired: Option<(usize, bool, bool)> = None;
        if !is_modifier {
            let mut k: usize = 0;
            while k < n && fired.is_none()
                invariant
                    pressed_now == !ev.is_key_up,
                    sc == ev.scan_code,
                    !is_modifier,
                    !any_modifier(hks, sc),
                    n == hks.len(),
                    self.hotkeys@ == hks,
                    self.modifier_pressed@ == o.modifier_pressed@,
                    o.modifier_pressed@.len() == n,
                    self.is_switching_apps == o.is_switching_apps,
                    self.pending_app_delta == o.pending_app_delta,
                    self.app_message_pending == o.app_message_pending,
                    fired is None ==> self.previous_keycode == o.previous_keycode,
                    self.is_shift_pressed == (if is_shift_code(sc) {
                        !ev.is_key_up
                    } else {
                        o.is_shift_pressed
                    }),
                    k <= n,
                    fired is None ==> forall|j: int|
                        0 <= j < k ==> !fires(
                            #[trigger] hks[j],
                            o.modifier_pressed@[j],
                            ev,
                            o.is_switching_apps,
                        ),
                    fired matches Some(t) ==> {
                        &&& first_firing(
                            hks,
                            o.modifier_pressed@,
                            ev,
                            o.is_switching_apps,
                            t.0 as int,
                        )
                        &&& t.1 == fired_reverse(hks[t.0 as int], ev, self.is_shift_pressed)
                        &&& t.2 == fired_cancel(hks[t.0 as int], ev)
                    },
                    fired is Some ==> self.previous_keycode == (if records_keycode(
                        hks[fired.unwrap().0 as int],
                        ev,
                    ) {
                        sc
                    } else {
                        o.previous_keycode
                    }),
                decreases n - k + (if fired is None { 1int } else { 0int }),
            {
                if pressed_now && self.modifier_pressed[k] {
                    let id = self.hotkeys[k].id;
                    let code = self.hotkeys[k].code;
                    if sc == code {
                        if id == SWITCH_APPS_HOTKEY_ID || (id == SWITCH_WINDOWS_HOTKEY_ID
                            && !ev.foreground_in_blacklist) {
                            fired = Some((k, self.is_shift_pressed, false));
                            self.previous_keycode = sc;
                        }
                    } else if id == SWITCH_APPS_HOTKEY_ID {
                        if sc == SCANCODE_ESCAPE {
                            fired = Some((k, false, true));
                            self.previous_keycode = sc;
                        } else if (sc == SCANCODE_UP || sc == SCANCODE_LEFT || sc == SCANCODE_RIGHT || sc
                            == SCANCODE_DOWN) && self.is_switching_apps {
                            let reverse = sc == SCANCODE_UP || sc == SCANCODE_LEFT;
                            fired = Some((k, reverse, false));
                        }
                    }
                }
                if fired.is_none() {
                    k = k + 1;
                }
            }
        }
        if apps_done {
            self.is_switching_apps = false;
        }
        let command = match fired {
            None => KeyCommand::PassThrough,
            Some((k, reverse, cancel)) => {
                if self.hotkeys[k].id == SWITCH_APPS_HOTKEY_ID {
                    if cancel {
                        self.is_switching_apps = false;
                        KeyCommand::CancelSwitchApps
                    } else {
                        let mask_alt_menu = !self.is_switching_apps;
                        let post_message = !self.app_message_pending;
                        self.pending_app_delta = step_delta(self.pending_app_delta, reverse);
                        self.app_message_pending = true;
                        self.is_switching_apps = true;
                        KeyCommand::SwitchApps { reverse, mask_alt_menu, post_message }
                    }
                } else {
                    self.is_switching_apps = false;
                    KeyCommand::SwitchWindows { reverse }
                }
            },
        };
        let out = KeyOutcome {
            switch_windows_done: windows_done,
            switch_apps_done: apps_done,
            command,
        };
        proof {
            if any_modifier(hks, sc) {
                assert(fired is None);
            }
            assert forall|i: int|
                !any_modifier(hks, sc) && first_firing(
                    hks,
                    o.modifier_pressed@,
                    ev,
                    o.is_switching_apps,
                    i,
                ) implies fired is Some && fired.unwrap().0 == i by {
                if fired is None {
                    assert(!fires(hks[i], o.modifier_pressed@[i], ev, o.is_switching_apps));
                } else {
                    let t = fired.unwrap().0 as int;
                    if t < i {
                        assert(!fires(hks[t], o.modifier_pressed@[t], ev, o.is_switching_apps));
                    } else if i < t {
                        assert(!fires(hks[i], o.modifier_pressed@[i], ev, o.is_switching_apps));
                    }
                }
            }
        }
        out
    }
}

/// The signed size of the all-windows step that a command asks for.
pub open spec fn apps_step(c: KeyCommand) -> int {
    match c {
        KeyCommand::SwitchApps { reverse, .. } => if reverse {
            -1
        } else {
            1
        },
        _ => 0,
    }
}

/// The net number of all-windows steps that a run of outcomes asks for.
pub open spec fn net_apps_steps(outs: Seq<KeyOutcome>) -> int
    decreases outs.len(),
{
    if outs.len() == 0 {
        0
    } else {
        net_apps_steps(outs.drop_last()) + apps_step(outs.last().command)
    }
}

proof fn lemma_net_apps_steps_bound(outs: Seq<KeyOutcome>)
    ensures
        -outs.len() <= net_apps_steps(outs) <= outs.len(),
    decreases outs.len(),
{
    if outs.len() > 0 {
        lemma_net_apps_steps_bound(outs.drop_last());
    }
}

/// When some hotkey acts on an event, a first one does.
proof fn lemma_first_firing_exists(
    hks: Seq<Hotkey>,
    pressed: Seq<bool>,
    ev: KeyEvent,
    switching: bool,
    k: int,
)
    requires
        0 <= k < hks.len(),
        fires(hks[k], pressed[k], ev, switching),
    ensures
        exists|i: int| first_firing(hks, pressed, ev, switching, i),
    decreases k,
{
    if forall|j: int| 0 <= j < k ==> !fires(#[trigger] hks[j], pressed[j], ev, switching) {
        assert(first_firing(hks, pressed, ev, switching, k));
    } else {
        let j = choose|j: int| 0 <= j < k && fires(#[trigger] hks[j], pressed[j], ev, switching);
        lemma_first_firing_exists(hks, pressed, ev, switching, j);
    }
}

/// An event that asks for an all-windows step adds it to the pending delta,
/// asks for a switcher message only when none is pending, and leaves one
/// pending.
proof fn lemma_switch_apps_effect(o: KeyboardState, ev: KeyEvent, out: KeyOutcome, f: KeyboardState)
    requires
        key_transition(o, ev, out, f),
        out.command is SwitchApps,
    ensures
        f.pending_app_delta == spec_step_delta(o.pending_app_delta, out.command->SwitchApps_reverse),
        out.command->SwitchApps_post_message == !o.app_message_pending,
        f.app_message_pending,
        f.is_switching_apps,
        f.hotkeys@ == o.hotkeys@,
{
    let hks = o.hotkeys@;
    let sc = ev.scan_code;
    assert(!any_modifier(hks, sc));
    assert(!(forall|i: int|
        0 <= i < hks.len() ==> !fires(#[trigger] hks[i], o.modifier_pressed@[i], ev, o.is_switching_apps)));
    let k = choose|k: int|
        0 <= k < hks.len() && fires(#[trigger] hks[k], o.modifier_pressed@[k], ev, o.is_switching_apps);
    lemma_first_firing_exists(hks, o.modifier_pressed@, ev, o.is_switching_apps, k);
    let i = choose|i: int| first_firing(hks, o.modifier_pressed@, ev, o.is_switching_apps, i);
    assert(hks[i] == hks[i]);
}

/// Along a run of events that each ask for an all-windows step, starting
/// with nothing pending: the delta is the net number of steps so far, a
/// message is pending after the first step, and only the first step asks
/// for one.
proof fn lemma_steps_accumulate(
    states: Seq<KeyboardState>,
    events: Seq<KeyEvent>,
    outs: Seq<KeyOutcome>,
    n: int,
)
    requires
        states.len() == events.len() + 1,
        outs.len() == events.len(),
        events.len() < isize::MAX,
        0 <= n <= events.len(),
        states[0].pending_app_delta == 0,
        !states[0].app_message_pending,
        forall|i: int|
            0 <= i < events.len() ==> #[trigger] key_transition(
                states[i],
                events[i],
                outs[i],
                states[i + 1],
            ),
        forall|i: int| 0 <= i < n ==> (#[trigger] outs[i]).command is SwitchApps,
    ensures
        states[n].pending_app_delta == net_apps_steps(outs.take(n)),
        states[n].app_message_pending == (n > 0),
        forall|i: int| 0 <= i < n ==> ((#[trigger] outs[i]).command->SwitchApps_post_message <==> i == 0),
    decreases n,
{
    if n > 0 {
        lemma_steps_accumulate(states, events, outs, n - 1);
        assert(key_transition(states[n - 1], events[n - 1], outs[n - 1], states[(n - 1) + 1]));
        assert(outs[n - 1].command is SwitchApps);
        lemma_switch_apps_effect(states[n - 1], events[n - 1], outs[n - 1], states[n]);
        lemma_net_apps_steps_bound(outs.take(n - 1));
        assert(outs.take(n).drop_last() =~= outs.take(n - 1));
        assert(outs.take(n).last() == outs[n - 1]);
    }
}

/// Rapid presses coalesce: after a take, a run of key events that each ask
/// for an all-windows step posts a single switcher message, for the first
/// step, and the next take hands over the net number of steps.
pub proof fn lemma_presses_coalesce(
    before: KeyboardState,
    taken: isize,
    states: Seq<KeyboardState>,
    events: Seq<KeyEvent>,
    outs: Seq<KeyOutcome>,
    delta: isize,
    after: KeyboardState,
)
    requires
        states.len() == events.len() + 1,
        outs.len() == events.len(),
        events.len() < isize::MAX,
        take_transition(before, taken, states[0]),
        forall|i: int|
            0 <= i < events.len() ==> #[trigger] key_transition(
                states[i],
                events[i],
                outs[i],
                states[i + 1],
            ),
        forall|i: int| 0 <= i < outs.len() ==> (#[trigger] outs[i]).command is SwitchApps,
        take_transition(states[events.len() as int], delta, after),
    ensures
        delta == net_apps_steps(outs),
        forall|i: int| 0 <= i < outs.len() ==> ((#[trigger] outs[i]).command->SwitchApps_post_message <==> i == 0),
{
    lemma_steps_accumulate(states, events, outs, events.len() as int);
    assert(outs.take(events.len() as int) =~= outs);
}

/// The hotkeys stay as they are along a run of key events.
proof fn lemma_hotkeys_kept(
    states: Seq<KeyboardState>,
    events: Seq<KeyEvent>,
    outs: Seq<KeyOutcome>,
    n: int,
)
    requires
        states.len() == events.len() + 1,
        outs.len() == events.len(),
        0 <= n <= events.len(),
        forall|i: int|
            0 <= i < events.len() ==> #[trigger] key_transition(
                states[i],
                events[i],
                outs[i],
                states[i + 1],
            ),
    ensures
        forall|i: int| 0 <= i <= n ==> (#[trigger] states[i]).hotkeys@ == states[0].hotkeys@,
    decreases n,
{
    if n > 0 {
        lemma_hotkeys_kept(states, events, outs, n - 1);
        assert(key_transition(states[n - 1], events[n - 1], outs[n - 1], states[(n - 1) + 1]));
    }
}

/// Releasing the modifier of the all-windows hotkey after `k >= 1` presses
/// of its key, starting after a take: the presses post one switcher message
/// (at the first) and leave their net steps pending; the release then asks
/// for the "done" message, ends the session, adds no step and passes the key
/// on. The "done" message therefore follows the message that carries the
/// steps.
pub proof fn lemma_release_ends_after_last_step(
    before: KeyboardState,
    taken: isize,
    states: Seq<KeyboardState>,
    events: Seq<KeyEvent>,
    outs: Seq<KeyOutcome>,
    j: int,
)
    requires
        events.len() >= 2,
        events.len() < isize::MAX,
        states.len() == events.len() + 1,
        outs.len() == events.len(),
        take_transition(before, taken, states[0]),
        forall|i: int|
            0 <= i < events.len() ==> #[trigger] key_transition(
                states[i],
                events[i],
                outs[i],
                states[i + 1],
            ),
        0 <= j < states[0].hotkeys@.len(),
        states[0].hotkeys@[j].id == SWITCH_APPS_HOTKEY_ID,
        forall|i: int|
            0 <= i < events.len() - 1 ==> {
                let ev = #[trigger] events[i];
                &&& !ev.is_key_up
                &&& ev.scan_code == states[0].hotkeys@[j].code
                &&& !any_modifier(states[0].hotkeys@, ev.scan_code)
                &&& first_firing(
                    states[0].hotkeys@,
                    states[i].modifier_pressed@,
                    ev,
                    states[i].is_switching_apps,
                    j,
                )
            },
        events[events.len() - 1].is_key_up,
        is_modifier_of(states[0].hotkeys@[j], events[events.len() - 1].scan_code),
    ensures
        ({
            let k = events.len() - 1;
            &&& forall|i: int| 0 <= i < k ==> (#[trigger] outs[i]).command is SwitchApps
            &&& forall|i: int| 0 <= i < k ==> ((#[trigger] outs[i]).command->SwitchApps_post_message <==> i == 0)
            &&& states[k].pending_app_delta == net_apps_steps(outs.take(k))
            &&& outs[k].switch_apps_done
            &&& outs[k].command == KeyCommand::PassThrough
            &&& !states[k + 1].is_switching_apps
            &&& states[k + 1].pending_app_delta == states[k].pending_app_delta
        }),
{
    let k = events.len() - 1;
    let hks = states[0].hotkeys@;
    lemma_hotkeys_kept(states, events, outs, events.len() as int);
    assert forall|i: int| 0 <= i < k implies (#[trigger] outs[i]).command is SwitchApps
        && states[i + 1].previous_keycode == hks[j].code by {
        let ev = events[i];
        assert(key_transition(states[i], ev, outs[i], states[i + 1]));
        assert(states[i].hotkeys@ == hks);
        assert(hks[j] == states[i].hotkeys@[j]);
    }
    lemma_steps_accumulate(states, events, outs, k);
    let ev = events[k];
    assert(key_transition(states[k], ev, outs[k], states[k + 1]));
    assert(states[k].hotkeys@ == hks);
    assert(states[k].previous_keycode == hks[j].code);
    assert(is_modifier_of(hks[j], ev.scan_code));
    assert(any_modifier(hks, ev.scan_code));
    assert(releases(hks, ev, states[k].previous_keycode, SWITCH_APPS_HOTKEY_ID));
}

} // verus!
