use window_switcher::index::advance_index;
use window_switcher::icons::plan_icons;
use window_switcher::args::{parse_arg, parse_usize, percentile, ArgError};
use window_switcher::report::{pretty_bool, pretty_cloak, DWM_CLOAKED_APP, DWM_CLOAKED_INHERITED};
use window_switcher::cache::{must_evict, oldest_index, process_cache_drops, PROCESS_CACHE_LIMIT};
use window_switcher::layout::{
    corner_radius, hit_test, paint_geometry, scaled_icon_x, theme_color, Coordinate, LayoutMetrics, PaintGeometry,
    Rect, BG_DARK_COLOR, FG_LIGHT_COLOR,
};
use window_switcher::switch_apps::{apps_step_kind, AppsStep, SwitchAppsState, WindowEntry};
use window_switcher::switch_windows::{SwitchWindowsState, WindowCache};

fn entry(hwnd: isize, key: &str) -> WindowEntry {
    WindowEntry {
        icon: 0,
        hwnd,
        title: format!("window {hwnd}"),
        icon_key: key.to_string(),
    }
}

#[test]
fn apps_session_opens_moves_and_activates_in_rotation() {
    assert!(SwitchAppsState::open(Vec::new(), 1).is_none());
    let mut s = SwitchAppsState::open(vec![entry(10, "a"), entry(11, "b"), entry(12, "a")], 1).unwrap();
    assert_eq!(s.index, 1);
    s.step(-2);
    assert_eq!(s.index, 2);
    assert_eq!(s.activation_order(), vec![2, 0, 1]);
    s.select(0);
    assert_eq!(s.activation_order(), vec![0, 1, 2]);
}

#[test]
fn reverse_open_selects_the_last_entry() {
    let s = SwitchAppsState::open(vec![entry(1, "a"), entry(2, "b"), entry(3, "c")], -1).unwrap();
    assert_eq!(s.index, 2);
}

#[test]
fn icon_results_reach_every_entry_of_the_application() {
    let mut s = SwitchAppsState::open(vec![entry(10, "a"), entry(11, "b"), entry(12, "a")], 1).unwrap();
    assert!(s.apply_icon("a", 77));
    assert_eq!(s.windows[0].icon, 77);
    assert_eq!(s.windows[1].icon, 0);
    assert_eq!(s.windows[2].icon, 77);
    assert!(!s.apply_icon("z", 5));
}

#[test]
fn apps_step_kinds() {
    assert_eq!(apps_step_kind(true, 0), AppsStep::Ignore);
    assert_eq!(apps_step_kind(true, -1), AppsStep::Moved);
    assert_eq!(apps_step_kind(false, 2), AppsStep::Open);
}

#[test]
fn same_application_cycle_keeps_its_ring_while_held() {
    let mut s = SwitchWindowsState::new();
    assert_eq!(s.plan_switch("app".to_string(), &vec![5], false), None);
    assert_eq!(s.plan_switch("app".to_string(), &vec![1, 2, 3], false), Some(2));
    assert_eq!(s.cache.as_ref().unwrap().windows, vec![1, 2, 3]);
    assert_eq!(s.fast_cycle_steps(2), 2);
    assert_eq!(s.cycle_step(false), 3);
    assert_eq!(s.cycle_step(false), 1);
    assert_eq!(s.cycle_step(true), 3);
    // The window order changed and a new window appeared: the cached order
    // is kept and the new window goes last.
    assert_eq!(
        s.plan_switch("app".to_string(), &vec![3, 4, 1, 2], false),
        Some(4)
    );
    let c = s.cache.as_ref().unwrap();
    assert_eq!(c.windows, vec![1, 2, 3, 4]);
    assert_eq!(c.index, 3);
    assert_eq!(c.state_id, 1);
}

#[test]
fn released_modifier_restarts_from_the_previous_window() {
    let mut s = SwitchWindowsState::new();
    assert_eq!(s.plan_switch("app".to_string(), &vec![1, 2, 3], false), Some(2));
    s.release_modifier();
    assert_eq!(s.fast_cycle_steps(2), 0);
    assert_eq!(s.plan_switch("app".to_string(), &vec![2, 3, 1], false), Some(1));
    assert_eq!(s.cache.as_ref().unwrap().index, 2);
    s.release_modifier();
    assert_eq!(s.plan_switch("other".to_string(), &vec![7, 8, 9], false), Some(8));
}

#[test]
fn swap_removal_perturbs_new_windows() {
    let mut s = SwitchWindowsState::new();
    assert_eq!(s.plan_switch("k".to_string(), &vec![1, 2, 3], false), Some(2));
    // 1 is removed from {4, 1, 5, 6} by moving 6 into its place: {4, 6, 5}.
    s.plan_switch("k".to_string(), &vec![4, 1, 5, 6], true);
    assert_eq!(s.cache.as_ref().unwrap().windows, vec![1, 4, 6, 5]);
    assert_eq!(s.cache.as_ref().unwrap().index, 0);
}

#[test]
fn hit_test_finds_the_icon_under_the_point() {
    assert_eq!(hit_test(134, 10, 134, 10, 72, 3), Some(0));
    assert_eq!(hit_test(134 + 72 * 2 + 71, 81, 134, 10, 72, 3), Some(2));
    assert_eq!(hit_test(134 + 72 * 3, 10, 134, 10, 72, 3), None);
    assert_eq!(hit_test(140, 82, 134, 10, 72, 3), None);
    assert_eq!(hit_test(133, 40, 134, 10, 72, 3), None);
}

#[test]
fn theme_colours_and_corners() {
    assert_eq!(theme_color(true).0, FG_LIGHT_COLOR);
    assert_eq!(theme_color(false).1, BG_DARK_COLOR);
    assert_eq!(corner_radius(72, true), 18);
    assert_eq!(corner_radius(72, false), 0);
}

#[test]
fn numeric_arguments() {
    let args: Vec<String> = vec!["tool".into(), "500".into(), "+3".into(), "0".into(), "x1".into(), "".into()];
    assert_eq!(parse_arg(&args, 1, 7), Ok(500));
    assert_eq!(parse_arg(&args, 2, 7), Ok(3));
    assert_eq!(parse_arg(&args, 3, 7), Ok(1));
    assert_eq!(parse_arg(&args, 4, 7), Err(ArgError::InvalidNumber));
    assert_eq!(parse_arg(&args, 5, 7), Err(ArgError::InvalidNumber));
    assert_eq!(parse_arg(&args, 9, 7), Ok(7));
    assert_eq!(parse_arg(&args, 9, 0), Ok(1));
    assert_eq!(parse_usize("18446744073709551616"), None);
    assert_eq!(parse_usize("-1"), None);
    assert_eq!(parse_usize("+"), None);
    assert_eq!(parse_usize("007"), Some(7));
}

#[test]
fn percentiles_of_sorted_samples() {
    let samples: Vec<u64> = (1..=100).collect();
    assert_eq!(percentile(&samples, 50), 50);
    assert_eq!(percentile(&samples, 95), 95);
    assert_eq!(percentile(&samples, 100), 100);
    assert_eq!(percentile(&samples, 0), 1);
    assert_eq!(percentile(&[9u64], 99), 9);
    assert_eq!(percentile(&samples, 1000), 100);
}

#[test]
fn eviction_picks_the_first_oldest_entry() {
    assert_eq!(oldest_index(&vec![]), None);
    assert_eq!(oldest_index(&vec![(5, 1), (3, 9), (3, 2), (3, 2), (4, 0)]), Some(2));
    assert!(must_evict(PROCESS_CACHE_LIMIT, PROCESS_CACHE_LIMIT));
    assert!(!must_evict(PROCESS_CACHE_LIMIT - 1, PROCESS_CACHE_LIMIT));
}

#[test]
fn icon_plan_prunes_and_starts_one_job_per_key() {
    let keys: Vec<String> = vec!["a".into(), "b".into(), "a".into(), "c".into(), "d".into()];
    let cached: Vec<String> = vec!["x".into(), "b".into(), "y".into()];
    let pending: Vec<String> = vec!["c".into()];
    let plan = plan_icons(&keys, &cached, &pending);
    assert_eq!(plan.prune, vec!["x".to_string(), "y".to_string()]);
    assert_eq!(plan.need_quick, vec![true, false, false, true, true]);
    assert_eq!(plan.jobs, vec![0, 4]);
}

#[test]
fn checked_layout_matches_the_plain_layout() {
    let metrics = LayoutMetrics {
        icon_size_max: 64,
        border_size: 10,
        icon_border: 4,
        title_height: 26,
        title_gap: 4,
        title_min_width: 320,
    };
    let monitor = Rect { left: 100, top: 50, right: 2020, bottom: 1130 };
    let checked = Coordinate::try_new(5, metrics, monitor);
    assert_eq!(checked, Some(Coordinate::new(5, metrics, monitor)));
    let c = checked.unwrap();
    assert_eq!((c.icon_size, c.item_size, c.width, c.height), (64, 72, 380, 122));
    assert_eq!((c.x, c.y, c.icons_x, c.title_top), (870, 529, 10, 86));
}

#[test]
fn checked_layout_refuses_empty_strips_and_overflow() {
    let metrics = LayoutMetrics {
        icon_size_max: 64,
        border_size: 10,
        icon_border: 4,
        title_height: 26,
        title_gap: 4,
        title_min_width: 320,
    };
    let monitor = Rect { left: 0, top: 0, right: 1920, bottom: 1080 };
    assert_eq!(Coordinate::try_new(0, metrics, monitor), None);
    let huge = Rect { left: i32::MIN, top: 0, right: i32::MAX, bottom: 1080 };
    assert_eq!(Coordinate::try_new(3, metrics, huge), None);
    let wide = LayoutMetrics { title_min_width: i32::MAX, ..metrics };
    assert_eq!(Coordinate::try_new(3, wide, monitor), None);
}

fn one_icon_layout() -> (Coordinate, LayoutMetrics) {
    let coordinate = Coordinate {
        x: 0,
        y: 0,
        width: 340,
        height: 122,
        icon_size: 64,
        item_size: 72,
        icons_x: 134,
        title_top: 86,
    };
    let metrics = LayoutMetrics {
        icon_size_max: 64,
        border_size: 10,
        icon_border: 4,
        title_height: 26,
        title_gap: 4,
        title_min_width: 320,
    };
    (coordinate, metrics)
}

#[test]
fn paint_geometry_doubles_the_drawing_scale() {
    let (c, m) = one_icon_layout();
    let g = paint_geometry(c, m, 1, 0, 18).unwrap();
    assert_eq!(
        g,
        PaintGeometry {
            icons_width: 72,
            selected_x: 134,
            title_width: 320,
            scaled_width: 144,
            scaled_height: 144,
            scaled_border: 8,
            scaled_icon: 128,
            scaled_cell: 144,
            scaled_item: 144,
            scaled_radius: 36,
        }
    );
    assert_eq!(scaled_icon_x(g, 0), Some(8));
    assert_eq!(scaled_icon_x(g, 2), Some(296));
    assert_eq!(scaled_icon_x(g, i32::MAX), None);
}

#[test]
fn paint_geometry_places_the_selected_cell_and_refuses_overflow() {
    let (c, m) = one_icon_layout();
    let g = paint_geometry(c, m, 5, 3, 0).unwrap();
    assert_eq!((g.icons_width, g.selected_x, g.scaled_width, g.scaled_radius), (360, 350, 720, 0));
    assert_eq!(paint_geometry(c, m, i32::MAX, 0, 18), None);
    assert_eq!(paint_geometry(c, m, 1, 0, i32::MAX), None);
}

#[test]
fn report_markers() {
    assert_eq!(pretty_bool(true), "*");
    assert_eq!(pretty_bool(false), " ");
    assert_eq!(pretty_cloak(0), " ");
    assert_eq!(pretty_cloak(2), "S");
    assert_eq!(pretty_cloak(DWM_CLOAKED_APP), "A");
    assert_eq!(pretty_cloak(DWM_CLOAKED_INHERITED), "I");
    assert_eq!(pretty_cloak(3), "?");
}

#[test]
fn coalesced_steps_select_the_same_entry() {
    assert_eq!(advance_index(advance_index(1, 5, 3), 5, 4), advance_index(1, 5, 7));
    assert_eq!(advance_index(1, 5, 7), 3);
    assert_eq!(advance_index(advance_index(0, 4, -1), 4, -2), advance_index(0, 4, -3));
    assert_eq!(advance_index(0, 4, -3), 1);
}

#[test]
fn layout_accepts_any_non_zero_count() {
    let metrics = LayoutMetrics {
        icon_size_max: 64,
        border_size: 10,
        icon_border: 4,
        title_height: 26,
        title_gap: 4,
        title_min_width: 320,
    };
    let monitor = Rect { left: 0, top: 0, right: 1920, bottom: 1080 };
    let expected = Coordinate {
        x: 790,
        y: 510,
        width: 340,
        height: 59,
        icon_size: 1,
        item_size: 9,
        icons_x: 174,
        title_top: 23,
    };
    assert_eq!(Coordinate::new(-1, metrics, monitor), expected);
    assert_eq!(Coordinate::try_new(-1, metrics, monitor), Some(expected));
    let narrow = Rect { left: 0, top: 0, right: i32::MIN + 20, bottom: 1080 };
    assert_eq!(Coordinate::try_new(-1, metrics, narrow), None);
}

fn held_session_with_closed_windows() -> SwitchWindowsState {
    SwitchWindowsState {
        cache: Some(WindowCache {
            module_key: "app".to_string(),
            state_id: 1,
            index: 5,
            windows: vec![1, 2, 3, 4, 5, 6],
        }),
        modifier_released: false,
    }
}

#[test]
fn windows_closed_during_a_session_are_skipped_safely() {
    let mut s = held_session_with_closed_windows();
    assert_eq!(s.plan_switch("app".to_string(), &vec![3, 1, 2], true), Some(3));
    let c = s.cache.as_ref().unwrap();
    assert_eq!((c.index, c.windows.clone()), (2, vec![1, 2, 3]));

    let mut s = held_session_with_closed_windows();
    assert_eq!(s.plan_switch("app".to_string(), &vec![3, 1, 2], false), Some(1));
    assert_eq!(s.cache.as_ref().unwrap().index, 0);
}

#[test]
fn process_cache_drops_exited_then_the_oldest_live_entry() {
    let alive = vec![true, false, true];
    let keys = vec![(5u128, 1u64), (1, 1), (3, 9)];
    assert_eq!(process_cache_drops(&alive, &keys), vec![1]);

    let n = PROCESS_CACHE_LIMIT + 2;
    let mut alive = vec![true; n];
    alive[0] = false;
    let mut keys: Vec<(u128, u64)> = (0..n).map(|i| (100 + i as u128, 0)).collect();
    keys[7] = (50, 4);
    keys[9] = (50, 2);
    keys[0] = (1, 0);
    assert_eq!(process_cache_drops(&alive, &keys), vec![0, 9]);

    let alive = vec![true; PROCESS_CACHE_LIMIT - 1];
    let keys = vec![(1u128, 1u64); PROCESS_CACHE_LIMIT - 1];
    assert!(process_cache_drops(&alive, &keys).is_empty());
}

#[test]
fn icons_shrink_as_windows_are_added() {
    let metrics = LayoutMetrics {
        icon_size_max: 64,
        border_size: 10,
        icon_border: 4,
        title_height: 26,
        title_gap: 4,
        title_min_width: 320,
    };
    let monitor = Rect { left: 0, top: 0, right: 1920, bottom: 1080 };
    let sizes: Vec<i32> = [1, 5, 26, 40, 100, 500].iter().map(|&n| Coordinate::new(n, metrics, monitor).icon_size).collect();
    assert_eq!(sizes, vec![64, 64, 64, 39, 11, 1]);
    assert!(sizes.windows(2).all(|w| w[1] <= w[0]));
}
