use window_switcher::app_identity::{is_chrome_browser, is_edge_browser, is_valid_module_path};
use window_switcher::index::advance_index;
use window_switcher::layout::{Coordinate, LayoutMetrics, Rect};
use window_switcher::window_rules::{is_modal_popup_relation, is_small_window_with_state, rect_size};

#[test]
fn advance_index_wraps_in_both_directions() {
    assert_eq!(advance_index(0, 5, 1), 1);
    assert_eq!(advance_index(0, 5, -1), 4);
    assert_eq!(advance_index(4, 5, 2), 1);
    assert_eq!(advance_index(1, 5, -3), 3);
    assert_eq!(advance_index(0, 1, 100), 0);
}

#[test]
fn browser_detection_is_case_insensitive_and_filename_scoped() {
    assert!(is_chrome_browser(r"C:\Program Files\Google\Chrome.EXE"));
    assert!(is_edge_browser(r"C:\Program Files\Edge\msedge.exe"));
    assert!(!is_chrome_browser(r"C:\Tools\chrome.exe.helper"));
    assert!(!is_edge_browser(r"C:\Tools\not-msedge.exe"));
}

#[test]
fn application_frame_host_is_not_a_final_module_path() {
    assert!(!is_valid_module_path(
        r"C:\Windows\System32\ApplicationFrameHost.exe"
    ));
    assert!(is_valid_module_path(r"C:\Windows\System32\notepad.exe"));
    assert!(!is_valid_module_path(""));
}

#[test]
fn rect_size_accepts_only_positive_dimensions() {
    assert_eq!(
        rect_size(Rect {
            left: -10,
            top: 20,
            right: 190,
            bottom: 120,
        }),
        Some((200, 100))
    );
    assert_eq!(
        rect_size(Rect {
            left: 0,
            top: 0,
            right: 0,
            bottom: 0,
        }),
        None
    );
    assert_eq!(
        rect_size(Rect {
            left: 10,
            top: 10,
            right: 5,
            bottom: 20,
        }),
        None
    );
}

#[test]
fn small_window_filter_keeps_minimized_windows() {
    assert!(!is_small_window_with_state(true, 0, 0));
}

#[test]
fn modal_popup_requires_a_disabled_root_and_matching_ownership() {
    let root: isize = 1;
    let popup: isize = 2;

    assert!(is_modal_popup_relation(
        root, popup, false, true, true, true, root
    ));
    assert!(!is_modal_popup_relation(
        root, popup, true, true, true, true, root
    ));
    assert!(!is_modal_popup_relation(
        root, popup, false, true, true, false, root
    ));
    assert!(!is_modal_popup_relation(
        root, popup, false, true, true, true, popup
    ));
    assert!(!is_modal_popup_relation(
        root, root, false, true, true, true, root
    ));
}

fn test_metrics() -> LayoutMetrics {
    LayoutMetrics {
        icon_size_max: 64,
        border_size: 10,
        icon_border: 4,
        title_height: 26,
        title_gap: 4,
        title_min_width: 320,
    }
}

#[test]
fn layout_keeps_valid_dimensions_with_many_windows() {
    let coordinate = Coordinate::new(
        500,
        test_metrics(),
        Rect {
            left: 0,
            top: 0,
            right: 1920,
            bottom: 1080,
        },
    );
    assert!(coordinate.icon_size >= 1);
    assert!(coordinate.item_size > 0);
    assert!(coordinate.width > 0);
    assert!(coordinate.height > 0);
}

#[test]
fn layout_centers_normal_window_sets() {
    let coordinate = Coordinate::new(
        5,
        test_metrics(),
        Rect {
            left: 100,
            top: 50,
            right: 2020,
            bottom: 1130,
        },
    );
    assert_eq!(coordinate.icon_size, 64);
    assert_eq!(coordinate.x, 100 + (1920 - coordinate.width) / 2);
    assert_eq!(coordinate.y, 50 + (1080 - coordinate.height) / 2);
}
