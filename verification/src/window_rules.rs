//! Which top-level windows are offered by the switcher, from the facts that
//! the window manager reports about them, and how a disabled owner and its
//! blocking modal dialog are shown as one entry.
use vstd::prelude::*;
use crate::layout::Rect;
use crate::text::chars_of;

verus! {

broadcast use vstd::string::group_string_axioms;

/// Window style bit of a visible window.
pub const WS_VISIBLE: u32 = 0x1000_0000;
/// Window style bit of a minimized window.
pub const WS_ICONIC: u32 = 0x2000_0000;
/// Extended style bit of a tool window.
pub const WS_EX_TOOLWINDOW: u32 = 0x80;
/// Cloak reason of windows on another virtual desktop.
pub const DWM_CLOAKED_SHELL: u32 = 2;
/// Windows narrower than this are not offered.
pub const MIN_WINDOW_WIDTH: i32 = 120;
/// Windows lower than this are not offered.
pub const MIN_WINDOW_HEIGHT: i32 = 90;
/// The title of a hidden system window that must never be offered.
pub const INPUT_EXPERIENCE_TITLE: &'static str = "Windows Input Experience";

/// Visibility, minimization and tool-window flags of a window.
#[derive(Clone, Copy, PartialEq, Eq, Debug)]
pub struct WindowState {
    pub is_visible: bool,
    pub is_iconic: bool,
    pub is_tool: bool,
}

/// Facts about one process: its executable path, whether it runs elevated,
/// and when it was created.
pub struct ProcessMetadata {
    pub path: Option<String>,
    pub elevated: Option<bool>,
    pub creation_time: u64,
}

/// Reads the three flags from the style and extended style of a window.
pub fn window_state_from_styles(style: u32, exstyle: u32) -> (s: WindowState)
    ensures
        s.is_visible == (style & WS_VISIBLE != 0),
        s.is_iconic == (style & WS_ICONIC != 0),
        s.is_tool == (exstyle & WS_EX_TOOLWINDOW != 0),
{
    WindowState {
        is_visible: style & WS_VISIBLE != 0,
        is_iconic: style & WS_ICONIC != 0,
        is_tool: exstyle & WS_EX_TOOLWINDOW != 0,
    }
}

/// Whether a cloaked window is hidden from the switcher: any cloaking counts
/// when only the current desktop is shown; otherwise the cloaking of windows
/// on other desktops is ignored.
pub open spec fn spec_is_cloaked(cloak_type: u32, only_current_desktop: bool) -> bool {
    if only_current_desktop {
        cloak_type != 0
    } else {
        cloak_type | DWM_CLOAKED_SHELL != DWM_CLOAKED_SHELL
    }
}

/// Decides [`spec_is_cloaked`] for the cloak reason reported for a window.
pub fn is_cloaked_window(cloak_type: u32, only_current_desktop: bool) -> (r: bool)
    ensures
        r == spec_is_cloaked(cloak_type, only_current_desktop),
{
    if only_current_desktop {
        cloak_type != 0
    } else {
        cloak_type | DWM_CLOAKED_SHELL != DWM_CLOAKED_SHELL
    }
}

/// Whether a window is too small to be offered. A minimized window never
/// is; its size (`width` by `height`) is only read otherwise.
pub fn is_small_window_with_state(is_iconic: bool, width: i32, height: i32) -> (r: bool)
    ensures
        r == (!is_iconic && (width < MIN_WINDOW_WIDTH || height < MIN_WINDOW_HEIGHT)),
{
    if is_iconic {
        return false;
    }
    width < MIN_WINDOW_WIDTH || height < MIN_WINDOW_HEIGHT
}

/// The window flags that allow a window in the list: visible, not a tool
/// window, and not minimized when minimized windows are ignored.
pub open spec fn spec_state_allows(s: WindowState, ignore_minimal: bool) -> bool {
    s.is_visible && !(ignore_minimal && s.is_iconic) && !s.is_tool
}

/// Decides [`spec_state_allows`]; the cloaking and size of a window only
/// need to be read when this holds.
pub fn state_allows(s: WindowState, ignore_minimal: bool) -> (r: bool)
    ensures
        r == spec_state_allows(s, ignore_minimal),
        ignore_minimal && s.is_iconic ==> !r,
        r ==> s.is_visible && !s.is_tool,
        !ignore_minimal ==> r == (s.is_visible && !s.is_tool),
{
    s.is_visible && !(ignore_minimal && s.is_iconic) && !s.is_tool
}

/// The window flags and measurements that allow a window in the list.
pub open spec fn spec_passes_filter(
    s: WindowState,
    ignore_minimal: bool,
    cloaked: bool,
    small: bool,
) -> bool {
    spec_state_allows(s, ignore_minimal) && !cloaked && !small
}

/// Decides [`spec_passes_filter`].
pub fn passes_window_filter(s: WindowState, ignore_minimal: bool, cloaked: bool, small: bool) -> (r:
    bool)
    ensures
        r == spec_passes_filter(s, ignore_minimal, cloaked, small),
        ignore_minimal && s.is_iconic ==> !r,
        r ==> s.is_visible && !s.is_tool && !cloaked && !small,
{
    state_allows(s, ignore_minimal) && !cloaked && !small
}

/// With minimized windows ignored, no minimized window passes the filter;
/// without, being minimized keeps no window out: only visibility, the tool
/// flag, cloaking and size decide.
pub proof fn lemma_ignore_minimal_excludes_minimized(
    s: WindowState,
    cloaked: bool,
    small: bool,
)
    ensures
        s.is_iconic ==> !spec_state_allows(s, true) && !spec_passes_filter(s, true, cloaked, small),
        spec_state_allows(s, false) <==> (s.is_visible && !s.is_tool),
        spec_passes_filter(s, false, cloaked, small) <==> (s.is_visible && !s.is_tool && !cloaked
            && !small),
        spec_passes_filter(s, true, cloaked, small) ==> spec_passes_filter(s, false, cloaked, small),
{
}

/// A title that may be offered: not empty and not the hidden input window.
pub open spec fn spec_is_selectable_title(title: Seq<char>) -> bool {
    title.len() > 0 && title != INPUT_EXPERIENCE_TITLE@
}

/// Decides [`spec_is_selectable_title`].
pub fn is_selectable_title(title: &str) -> (r: bool)
    ensures
        r == spec_is_selectable_title(title@),
{
    if title.is_empty() {
        return false;
    }
    let a = chars_of(title);
    let b = chars_of(INPUT_EXPERIENCE_TITLE);
    !crate::text::chars_eq(&a, &b)
}

/// Whether a window can be switched to: it passes the filter and has a
/// selectable title.
pub fn is_switchable_window(
    s: WindowState,
    ignore_minimal: bool,
    cloaked: bool,
    small: bool,
    title: &str,
) -> (r: bool)
    ensures
        r == (spec_passes_filter(s, ignore_minimal, cloaked, small) && spec_is_selectable_title(
            title@,
        )),
        ignore_minimal && s.is_iconic ==> !r,
        r ==> s.is_visible && !s.is_tool && !cloaked && !small && title@.len() > 0,
{
    passes_window_filter(s, ignore_minimal, cloaked, small) && is_selectable_title(title)
}

/// The width and height of a rectangle when both are positive and their
/// computation does not overflow.
pub open spec fn spec_rect_size(r: Rect) -> Option<(i32, i32)> {
    let w = r.right - r.left;
    let h = r.bottom - r.top;
    if i32::MIN <= w <= i32::MAX && i32::MIN <= h <= i32::MAX && w > 0 && h > 0 {
        Some((w as i32, h as i32))
    } else {
        None
    }
}

/// Decides [`spec_rect_size`].
pub fn rect_size(r: Rect) -> (s: Option<(i32, i32)>)
    ensures
        s == spec_rect_size(r),
{
    let width = match r.right.checked_sub(r.left) {
        Some(w) => w,
        None => {
            return None;
        },
    };
    let height = match r.bottom.checked_sub(r.top) {
        Some(h) => h,
        None => {
            return None;
        },
    };
    if width > 0 && height > 0 {
        Some((width, height))
    } else {
        None
    }
}

/// The visible size of a window: the frame bounds drawn by the compositor
/// when they give a size, else the window rectangle.
pub open spec fn spec_visual_size(frame_bounds: Option<Rect>, window_rect: Option<Rect>) -> Option<
    (i32, i32),
> {
    match frame_bounds {
        Some(b) if spec_rect_size(b) is Some => spec_rect_size(b),
        _ => match window_rect {
            Some(r) => spec_rect_size(r),
            None => None,
        },
    }
}

/// Decides [`spec_visual_size`] from the two rectangles, each absent when
/// its query failed.
pub fn visual_window_size(frame_bounds: Option<Rect>, window_rect: Option<Rect>) -> (s: Option<
    (i32, i32),
>)
    ensures
        s == spec_visual_size(frame_bounds, window_rect),
{
    if let Some(b) = frame_bounds {
        if let Some(size) = rect_size(b) {
            return Some(size);
        }
    }
    match window_rect {
        Some(r) => rect_size(r),
        None => None,
    }
}

/// The size used to judge a window: its visible size unless it is
/// minimized, else its restored placement, else its visible size or zero.
pub open spec fn spec_window_size(
    is_iconic: bool,
    visual: Option<(i32, i32)>,
    placement: Option<Rect>,
) -> (i32, i32) {
    if !is_iconic && visual is Some {
        visual->0
    } else if placement is Some && spec_rect_size(placement->0) is Some {
        spec_rect_size(placement->0)->0
    } else {
        match visual {
            Some(v) => v,
            None => (0, 0),
        }
    }
}

/// Decides [`spec_window_size`] from the visible size and the restored
/// placement (absent when its query failed).
pub fn window_size_with_state(
    is_iconic: bool,
    visual: Option<(i32, i32)>,
    placement: Option<Rect>,
) -> (s: (i32, i32))
    ensures
        s == spec_window_size(is_iconic, visual, placement),
{
    if !is_iconic {
        if let Some(size) = visual {
            return size;
        }
    }
    if let Some(p) = placement {
        if let Some(size) = rect_size(p) {
            return size;
        }
    }
    match visual {
        Some(v) => v,
        None => (0, 0),
    }
}

/// The root owner reported for a window, or the window itself when none is.
pub fn root_or_self(root: isize, hwnd: isize) -> (r: isize)
    ensures
        r == (if root == 0 {
            hwnd
        } else {
            root
        }),
{
    if root == 0 {
        hwnd
    } else {
        root
    }
}

/// `popup` is a dialog that blocks `root`: both exist and differ, the root
/// is disabled, the popup is visible and enabled, belongs to the same
/// process and is owned by that root.
pub open spec fn spec_modal_relation(
    root: isize,
    popup: isize,
    root_enabled: bool,
    popup_visible: bool,
    popup_enabled: bool,
    same_process: bool,
    popup_root: isize,
) -> bool {
    root != 0 && popup != 0 && root != popup && !root_enabled && popup_visible && popup_enabled
        && same_process && popup_root == root
}

/// Decides [`spec_modal_relation`] for window handles given by value (zero
/// is no window).
pub fn is_modal_popup_relation(
    root: isize,
    popup: isize,
    root_enabled: bool,
    popup_visible: bool,
    popup_enabled: bool,
    same_process: bool,
    popup_root: isize,
) -> (r: bool)
    ensures
        r == spec_modal_relation(
            root,
            popup,
            root_enabled,
            popup_visible,
            popup_enabled,
            same_process,
            popup_root,
        ),
{
    root != 0 && popup != 0 && root != popup && !root_enabled && popup_visible && popup_enabled
        && same_process && popup_root == root
}

/// Whether two windows belong to one process: both report the same process
/// and it is a real one.
pub fn same_process(root_pid: u32, popup_pid: u32) -> (r: bool)
    ensures
        r == (root_pid != 0 && root_pid == popup_pid),
{
    root_pid != 0 && root_pid == popup_pid
}

/// Whether a Windows build number is Windows 11 or later.
pub fn is_win11_build(build_number: u32) -> (r: bool)
    ensures
        r == (build_number >= 22000),
{
    build_number >= 22000
}

/// The window that receives the activation of an entry: the dialog that
/// blocks it when there is one (looked up again just before activating),
/// else the entry's own window.
pub fn activation_window(hwnd: isize, blocking_modal: Option<isize>) -> (w: isize)
    ensures
        w == (match blocking_modal {
            Some(m) => m,
            None => hwnd,
        }),
{
    match blocking_modal {
        Some(m) => m,
        None => hwnd,
    }
}

/// The title shown for an entry: the dialog's title when a dialog blocks
/// the window and has one, else the window's own title.
pub fn selector_title(modal_title: Option<String>, own_title: String) -> (t: String)
    ensures
        t@ == (match modal_title {
            Some(m) if m@.len() > 0 => m@,
            _ => own_title@,
        }),
{
    if let Some(m) = modal_title {
        if !m.as_str().is_empty() {
            return m;
        }
    }
    own_title
}

/// The creation time of a process as one number, from the two halves of
/// its file time.
pub fn filetime_to_u64(high: u32, low: u32) -> (t: u64)
    ensures
        t == high as int * 0x1_0000_0000 + low as int,
{
    let h = high as u64;
    let l = low as u64;
    let t = (h << 32u64) | l;
    assert(t == h * 0x1_0000_0000 + l) by (bit_vector)
        requires
            h <= 0xffff_ffff,
            l <= 0xffff_ffff,
            t == (h << 32u64) | l,
    ;
    t
}

/// The executable path of a process as the switcher may use it: hidden for
/// elevated processes unless the switcher itself runs elevated.
pub fn process_path_for(metadata: &ProcessMetadata, is_admin: bool) -> (p: Option<String>)
    ensures
        crate::text::opt_view(p) == (if !is_admin && metadata.elevated == Some(true) {
            None
        } else {
            crate::text::opt_view(metadata.path)
        }),
{
    if !is_admin && metadata.elevated == Some(true) {
        return None;
    }
    match &metadata.path {
        Some(p) => Some(p.clone()),
        None => None,
    }
}

/// The executable path recorded for a process.
pub fn get_module_path(metadata: &ProcessMetadata) -> (p: Option<String>)
    ensures
        crate::text::opt_view(p) == crate::text::opt_view(metadata.path),
{
    match &metadata.path {
        Some(p) => Some(p.clone()),
        None => None,
    }
}

/// The path that names the application of a window: the window's own
/// executable when it identifies an application, else the executable of
/// the first window it owns (`owned`, present only when that was read).
pub open spec fn spec_base_path(primary: Option<Seq<char>>, owned: Option<Option<Seq<char>>>) -> Option<
    Seq<char>,
> {
    let p = match primary {
        Some(p) => p,
        None => Seq::empty(),
    };
    if crate::app_identity::spec_is_valid_module_path(p) {
        Some(p)
    } else {
        match owned {
            Some(o) => {
                let q = match o {
                    Some(q) => q,
                    None => Seq::empty(),
                };
                if crate::app_identity::spec_is_valid_module_path(q) {
                    Some(q)
                } else {
                    None
                }
            },
            None => None,
        }
    }
}

/// Whether the executable of an owned window must be read to name the
/// application of a window whose own executable is `primary`.
pub fn needs_owned_window_path(primary: &Option<String>) -> (r: bool)
    ensures
        r == !crate::app_identity::spec_is_valid_module_path(
            match crate::text::opt_view(*primary) {
                Some(p) => p,
                None => Seq::empty(),
            },
        ),
{
    match primary {
        Some(p) => !crate::app_identity::is_valid_module_path(p.as_str()),
        None => true,
    }
}

/// Decides [`spec_base_path`].
pub fn resolve_base_path(primary: Option<String>, owned: Option<Option<String>>) -> (r: Option<
    String,
>)
    ensures
        crate::text::opt_view(r) == spec_base_path(
            crate::text::opt_view(primary),
            match owned {
                Some(o) => Some(crate::text::opt_view(o)),
                None => None,
            },
        ),
{
    let p = match primary {
        Some(p) => p,
        None => String::new(),
    };
    if crate::app_identity::is_valid_module_path(p.as_str()) {
        return Some(p);
    }
    match owned {
        Some(o) => {
            let q = match o {
                Some(q) => q,
                None => String::new(),
            };
            if crate::app_identity::is_valid_module_path(q.as_str()) {
                Some(q)
            } else {
                None
            }
        },
        None => None,
    }
}

} // verus!
