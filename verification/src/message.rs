//! How the switcher window reads the messages it receives.
use vstd::prelude::*;

verus! {

/// Tray icon notification.
pub const WM_USER_TRAYICON: u32 = 6000;
/// One step of the all-windows selection is pending.
pub const WM_USER_SWITCH_APPS: u32 = 6010;
/// The all-windows shortcut was released: activate the selection.
pub const WM_USER_SWITCH_APPS_DONE: u32 = 6011;
/// The all-windows selection was cancelled.
pub const WM_USER_SWITCH_APPS_CANCEL: u32 = 6012;
/// One step of the same-application shortcut; `lparam` 1 means reverse.
pub const WM_USER_SWITCH_WINDOWS: u32 = 6020;
/// The same-application shortcut was released.
pub const WM_USER_SWITCH_WINDOWS_DONE: u32 = 6021;
/// An icon was resolved in the background; `lparam` carries the result.
pub const WM_USER_ICON_READY: u32 = 6030;
/// Tray menu item that quits.
pub const IDM_EXIT: u32 = 1;
/// Tray menu item that toggles start with the session.
pub const IDM_STARTUP: u32 = 2;
/// Tray menu item that opens the configuration file.
pub const IDM_CONFIGURE: u32 = 3;
/// Timer that retries the registration of the tray icon.
pub const TRAYICON_RETRY_TIMER_ID: usize = 1;

/// Window manager message numbers the switcher reacts to.
pub const WM_ERASEBKGND: u32 = 20;
pub const WM_SETTINGCHANGE: u32 = 26;
pub const WM_NCHITTEST: u32 = 132;
pub const WM_COMMAND: u32 = 273;
pub const WM_TIMER: u32 = 275;
pub const WM_LBUTTONUP: u32 = 514;
pub const WM_RBUTTONUP: u32 = 517;
pub const WM_THEMECHANGED: u32 = 794;
/// Hit-test answer that makes the whole window client area.
pub const HTCLIENT: isize = 1;

/// A tray menu choice.
#[derive(Clone, Copy, PartialEq, Eq, Debug)]
pub enum MenuCommand {
    Exit,
    Startup,
    Configure,
}

/// What a message asks of the switcher window.
#[derive(Clone, Copy, PartialEq, Eq, Debug)]
pub enum AppMessage {
    /// A tray notification; `show_menu` when it was a button release.
    TrayIcon { show_menu: bool },
    SwitchApps,
    SwitchAppsDone,
    SwitchAppsCancel,
    SwitchWindows { reverse: bool },
    SwitchWindowsDone,
    /// A background icon result; `has_result` when a result is attached.
    IconReady { has_result: bool },
    HitTest,
    LeftButtonUp,
    /// A menu notification, with the item when it names one.
    Command { item: Option<MenuCommand> },
    EraseBackground,
    TrayIconRetryTimer,
    SettingsChanged,
    TaskbarCreated,
    Other,
}

/// The menu item named by the `wparam` of a command notification: only a
/// menu notification (high word zero) names one of the three items.
pub open spec fn spec_menu_command(wparam: usize) -> Option<MenuCommand> {
    let value = wparam as u32;
    let kind = (value >> 16u32) & 0xffffu32;
    let id = value & 0xffffu32;
    if kind != 0 {
        None
    } else if id == IDM_EXIT {
        Some(MenuCommand::Exit)
    } else if id == IDM_STARTUP {
        Some(MenuCommand::Startup)
    } else if id == IDM_CONFIGURE {
        Some(MenuCommand::Configure)
    } else {
        None
    }
}

/// The reading of a message, first matching rule first; `taskbar_created`
/// is the number registered for the shell's restart broadcast.
pub open spec fn spec_classify(msg: u32, wparam: usize, lparam: isize, taskbar_created: u32) -> AppMessage {
    if msg == WM_USER_TRAYICON {
        let code = lparam as u32;
        AppMessage::TrayIcon { show_menu: code == WM_LBUTTONUP || code == WM_RBUTTONUP }
    } else if msg == WM_USER_SWITCH_APPS {
        AppMessage::SwitchApps
    } else if msg == WM_USER_SWITCH_APPS_DONE {
        AppMessage::SwitchAppsDone
    } else if msg == WM_USER_SWITCH_APPS_CANCEL {
        AppMessage::SwitchAppsCancel
    } else if msg == WM_USER_SWITCH_WINDOWS {
        AppMessage::SwitchWindows { reverse: lparam == 1 }
    } else if msg == WM_USER_SWITCH_WINDOWS_DONE {
        AppMessage::SwitchWindowsDone
    } else if msg == WM_USER_ICON_READY {
        AppMessage::IconReady { has_result: lparam != 0 }
    } else if msg == WM_NCHITTEST {
        AppMessage::HitTest
    } else if msg == WM_LBUTTONUP {
        AppMessage::LeftButtonUp
    } else if msg == WM_COMMAND {
        AppMessage::Command { item: spec_menu_command(wparam) }
    } else if msg == WM_ERASEBKGND {
        AppMessage::EraseBackground
    } else if msg == WM_TIMER && wparam == TRAYICON_RETRY_TIMER_ID {
        AppMessage::TrayIconRetryTimer
    } else if msg == WM_SETTINGCHANGE || msg == WM_THEMECHANGED {
        AppMessage::SettingsChanged
    } else if msg == taskbar_created {
        AppMessage::TaskbarCreated
    } else {
        AppMessage::Other
    }
}

/// The answer that a message gets without the default window procedure:
/// `Some(value)` for the messages handled completely, `None` for those that
/// are passed on after handling.
pub open spec fn spec_direct_result(m: AppMessage) -> Option<isize> {
    match m {
        AppMessage::TrayIcon { .. } => Some(0),
        AppMessage::IconReady { .. } => Some(0),
        AppMessage::HitTest => Some(HTCLIENT),
        AppMessage::EraseBackground => Some(0),
        AppMessage::TrayIconRetryTimer => Some(0),
        _ => None,
    }
}

/// Decides [`spec_menu_command`].
pub fn menu_command(wparam: usize) -> (r: Option<MenuCommand>)
    ensures
        r == spec_menu_command(wparam),
{
    let value = wparam as u32;
    let kind = (value >> 16u32) & 0xffffu32;
    let id = value & 0xffffu32;
    if kind != 0 {
        None
    } else if id == IDM_EXIT {
        Some(MenuCommand::Exit)
    } else if id == IDM_STARTUP {
        Some(MenuCommand::Startup)
    } else if id == IDM_CONFIGURE {
        Some(MenuCommand::Configure)
    } else {
        None
    }
}

/// Reads a message as [`spec_classify`] says.
pub fn classify_message(msg: u32, wparam: usize, lparam: isize, taskbar_created: u32) -> (m:
    AppMessage)
    ensures
        m == spec_classify(msg, wparam, lparam, taskbar_created),
{
    if msg == WM_USER_TRAYICON {
        let code = lparam as u32;
        AppMessage::TrayIcon { show_menu: code == WM_LBUTTONUP || code == WM_RBUTTONUP }
    } else if msg == WM_USER_SWITCH_APPS {
        AppMessage::SwitchApps
    } else if msg == WM_USER_SWITCH_APPS_DONE {
        AppMessage::SwitchAppsDone
    } else if msg == WM_USER_SWITCH_APPS_CANCEL {
        AppMessage::SwitchAppsCancel
    } else if msg == WM_USER_SWITCH_WINDOWS {
        AppMessage::SwitchWindows { reverse: lparam == 1 }
    } else if msg == WM_USER_SWITCH_WINDOWS_DONE {
        AppMessage::SwitchWindowsDone
    } else if msg == WM_USER_ICON_READY {
        AppMessage::IconReady { has_result: lparam != 0 }
    } else if msg == WM_NCHITTEST {
        AppMessage::HitTest
    } else if msg == WM_LBUTTONUP {
        AppMessage::LeftButtonUp
    } else if msg == WM_COMMAND {
        AppMessage::Command { item: menu_command(wparam) }
    } else if msg == WM_ERASEBKGND {
        AppMessage::EraseBackground
    } else if msg == WM_TIMER && wparam == TRAYICON_RETRY_TIMER_ID {
        AppMessage::TrayIconRetryTimer
    } else if msg == WM_SETTINGCHANGE || msg == WM_THEMECHANGED {
        AppMessage::SettingsChanged
    } else if msg == taskbar_created {
        AppMessage::TaskbarCreated
    } else {
        AppMessage::Other
    }
}

/// Says which messages are answered directly, and with what.
pub fn direct_result(m: AppMessage) -> (r: Option<isize>)
    ensures
        r == spec_direct_result(m),
{
    match m {
        AppMessage::TrayIcon { .. } => Some(0),
        AppMessage::IconReady { .. } => Some(0),
        AppMessage::HitTest => Some(HTCLIENT),
        AppMessage::EraseBackground => Some(0),
        AppMessage::TrayIconRetryTimer => Some(0),
        _ => None,
    }
}

} // verus!
