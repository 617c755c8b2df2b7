use window_switcher::keyboard::{
    Hotkey, KeyCommand, KeyEvent, KeyboardState, SCANCODE_DOWN, SCANCODE_ESCAPE, SCANCODE_LEFT,
    SCANCODE_LSHIFT, SWITCH_APPS_HOTKEY_ID, SWITCH_WINDOWS_HOTKEY_ID,
};

const ALT: u32 = 0x38;
const TAB: u32 = 0x0f;
const BACKTICK: u32 = 0x29;

fn state() -> KeyboardState {
    KeyboardState::new(vec![
        Hotkey {
            id: SWITCH_WINDOWS_HOTKEY_ID,
            code: BACKTICK,
            modifier: vec![ALT],
        },
        Hotkey {
            id: SWITCH_APPS_HOTKEY_ID,
            code: TAB,
            modifier: vec![ALT],
        },
    ])
}

fn down(code: u32) -> KeyEvent {
    KeyEvent {
        scan_code: code,
        is_key_up: false,
        foreground_in_blacklist: false,
    }
}

fn up(code: u32) -> KeyEvent {
    KeyEvent {
        scan_code: code,
        is_key_up: true,
        foreground_in_blacklist: false,
    }
}

#[test]
fn alt_tab_steps_and_coalesces_presses() {
    let mut s = state();
    assert_eq!(s.on_key(down(ALT)).command, KeyCommand::PassThrough);
    let first = s.on_key(down(TAB));
    assert_eq!(
        first.command,
        KeyCommand::SwitchApps {
            reverse: false,
            mask_alt_menu: true,
            post_message: true
        }
    );
    let second = s.on_key(down(TAB));
    assert_eq!(
        second.command,
        KeyCommand::SwitchApps {
            reverse: false,
            mask_alt_menu: false,
            post_message: false
        }
    );
    assert_eq!(s.take_pending_app_delta(), 2);
    assert_eq!(s.take_pending_app_delta(), 0);
    let third = s.on_key(down(TAB));
    assert_eq!(
        third.command,
        KeyCommand::SwitchApps {
            reverse: false,
            mask_alt_menu: false,
            post_message: true
        }
    );
    let release = s.on_key(up(ALT));
    assert!(release.switch_apps_done);
    assert!(!release.switch_windows_done);
    assert_eq!(release.command, KeyCommand::PassThrough);
    assert!(!s.is_switching_apps);
}

#[test]
fn shift_reverses_and_arrows_move_only_while_switching() {
    let mut s = state();
    s.on_key(down(ALT));
    assert_eq!(s.on_key(down(SCANCODE_LEFT)).command, KeyCommand::PassThrough);
    s.on_key(down(SCANCODE_LSHIFT));
    assert_eq!(
        s.on_key(down(TAB)).command,
        KeyCommand::SwitchApps {
            reverse: true,
            mask_alt_menu: true,
            post_message: true
        }
    );
    assert_eq!(
        s.on_key(down(SCANCODE_DOWN)).command,
        KeyCommand::SwitchApps {
            reverse: false,
            mask_alt_menu: false,
            post_message: false
        }
    );
    assert_eq!(s.take_pending_app_delta(), 0);
    assert_eq!(s.on_key(down(SCANCODE_ESCAPE)).command, KeyCommand::CancelSwitchApps);
    assert!(!s.is_switching_apps);
}

#[test]
fn failed_post_drops_the_pending_step() {
    let mut s = state();
    s.on_key(down(ALT));
    s.on_key(down(TAB));
    s.switch_apps_post_failed();
    assert_eq!(s.pending_app_delta, 0);
    assert!(!s.app_message_pending);
    let again = s.on_key(down(TAB));
    assert_eq!(
        again.command,
        KeyCommand::SwitchApps {
            reverse: false,
            mask_alt_menu: false,
            post_message: true
        }
    );
}

#[test]
fn backtick_switches_windows_unless_blacklisted() {
    let mut s = state();
    s.on_key(down(ALT));
    assert_eq!(
        s.on_key(down(BACKTICK)).command,
        KeyCommand::SwitchWindows { reverse: false }
    );
    let blocked = KeyEvent {
        scan_code: BACKTICK,
        is_key_up: false,
        foreground_in_blacklist: true,
    };
    assert_eq!(s.on_key(blocked).command, KeyCommand::PassThrough);
    let release = s.on_key(up(ALT));
    assert!(release.switch_windows_done);
    assert!(!release.switch_apps_done);
}

#[test]
fn keys_without_modifier_pass_through() {
    let mut s = state();
    assert_eq!(s.on_key(down(TAB)).command, KeyCommand::PassThrough);
    assert_eq!(s.on_key(down(BACKTICK)).command, KeyCommand::PassThrough);
    assert_eq!(s.take_pending_app_delta(), 0);
}

#[test]
fn release_after_steps_posts_one_message_then_done() {
    let mut s = state();
    s.on_key(down(ALT));
    assert_eq!(s.take_pending_app_delta(), 0);
    let mut posts = 0;
    for code in [TAB, TAB, TAB] {
        if let KeyCommand::SwitchApps { post_message: true, .. } = s.on_key(down(code)).command {
            posts += 1;
        }
    }
    s.on_key(down(SCANCODE_LSHIFT));
    if let KeyCommand::SwitchApps { post_message: true, .. } = s.on_key(down(TAB)).command {
        posts += 1;
    }
    s.on_key(up(SCANCODE_LSHIFT));
    assert_eq!(posts, 1);
    assert_eq!(s.pending_app_delta, 2);
    let release = s.on_key(up(ALT));
    assert!(release.switch_apps_done);
    assert!(!release.switch_windows_done);
    assert_eq!(release.command, KeyCommand::PassThrough);
    assert!(!s.is_switching_apps);
    assert_eq!(s.take_pending_app_delta(), 2);
    assert!(!s.app_message_pending);
}
