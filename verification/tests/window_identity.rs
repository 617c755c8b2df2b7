use window_switcher::app_identity::{
    browser_user_data_subdir, build_module_key, chrome_aumid_info, edge_aumid_info, exe_name,
    is_chrome_browser, is_edge_browser, user_data_subdir_of_lowered, CHROME_USER_DATA, EDGE_USER_DATA,
    is_app_id_match, needs_aumid, pwa_map_profile_dir, web_app_dir_matches,
};
use window_switcher::candidates::CandidateScan;
use window_switcher::message::{
    classify_message, direct_result, menu_command, AppMessage, MenuCommand, WM_COMMAND,
    WM_LBUTTONUP, WM_USER_ICON_READY, WM_USER_SWITCH_WINDOWS, WM_USER_TRAYICON,
};
use window_switcher::window_rules::{
    filetime_to_u64, is_cloaked_window, is_selectable_title, is_switchable_window,
    process_path_for, resolve_base_path, selector_title, visual_window_size,
    window_size_with_state, window_state_from_styles, ProcessMetadata, WindowState,
};
use window_switcher::layout::Rect;

fn s(v: &str) -> Option<String> {
    Some(v.to_string())
}

#[test]
fn chrome_aumids() {
    assert_eq!(chrome_aumid_info(&None), (None, None));
    assert_eq!(
        chrome_aumid_info(&s("Chrome._crx_abcdef.UserData.Profile 2")),
        (s("Profile 2"), s("abcdef"))
    );
    assert_eq!(chrome_aumid_info(&s("Chrome._crx_abcdef")), (None, s("abcdef")));
    assert_eq!(
        chrome_aumid_info(&s("Chrome._crx_abc.UserData.Default")),
        (None, s("abc"))
    );
    assert_eq!(chrome_aumid_info(&s("Chrome._crx_.UserData.P")), (None, None));
    assert_eq!(chrome_aumid_info(&s("Chrome")), (None, None));
    assert_eq!(chrome_aumid_info(&s("Chrome.UserData.Work")), (s("Work"), None));
    assert_eq!(chrome_aumid_info(&s("Chrome.UserData.")), (None, None));
    assert_eq!(chrome_aumid_info(&s("Other")), (None, None));
}

#[test]
fn edge_aumids() {
    assert_eq!(edge_aumid_info(&s("Microsoft.Pkg_8wekyb!App")), (None, s("Microsoft.Pkg_8wekyb")));
    assert_eq!(edge_aumid_info(&s("!App")), (None, None));
    assert_eq!(edge_aumid_info(&s("MSEdge")), (None, None));
    assert_eq!(edge_aumid_info(&s("MSEdge.UserData.Work")), (s("Work"), None));
    assert_eq!(edge_aumid_info(&s("")), (None, None));
}

#[test]
fn module_keys_separate_browser_profiles_and_apps() {
    let chrome = r"C:\Program Files\Google\Chrome\Application\chrome.exe";
    assert_eq!(
        build_module_key(chrome.to_string(), &s("Chrome._crx_app1.UserData.Profile 1")),
        format!("{chrome}::Profile 1::app1")
    );
    assert_eq!(
        build_module_key(chrome.to_string(), &s("Chrome._crx_app1")),
        format!("{chrome}::Default::app1")
    );
    assert_eq!(
        build_module_key(chrome.to_string(), &s("Chrome.UserData.Work")),
        format!("{chrome}::Work")
    );
    assert_eq!(build_module_key(chrome.to_string(), &None), chrome.to_string());
    let edge = r"C:\Program Files (x86)\Microsoft\Edge\Application\msedge.exe";
    assert_eq!(
        build_module_key(edge.to_string(), &s("Pkg!App")),
        format!("{edge}::appx::Pkg")
    );
    assert_eq!(
        build_module_key(edge.to_string(), &s("MSEdge.UserData.Work")),
        format!("{edge}::Work")
    );
    let notepad = r"C:\Windows\notepad.exe";
    assert_eq!(build_module_key(notepad.to_string(), &s("Chrome.UserData.Work")), notepad);
    assert!(needs_aumid(chrome));
    assert!(needs_aumid(edge));
    assert!(!needs_aumid(notepad));
}

#[test]
fn exe_names_and_profile_dirs() {
    assert_eq!(exe_name(r"C:\Windows\System32\notepad.exe"), "notepad.exe");
    assert_eq!(exe_name("plain.exe"), "plain.exe");
    assert_eq!(exe_name(r"C:\dir\"), "");
    assert_eq!(pwa_map_profile_dir("Profile3"), "Profile 3");
    assert_eq!(pwa_map_profile_dir("Profile"), "Profile ");
    assert_eq!(pwa_map_profile_dir("Profile3a"), "Profile3a");
    assert_eq!(pwa_map_profile_dir("Default"), "Default");
}

#[test]
fn web_app_identifiers_match_when_truncated() {
    assert!(is_app_id_match("ABCdef", "abcDEF"));
    assert!(is_app_id_match("abcdefgh", "aceh"));
    assert!(!is_app_id_match("abcdefgh", "ahc"));
    assert!(is_app_id_match("anything", ""));
    assert!(web_app_dir_matches("_crx_abcdefgh", "bdf"));
    assert!(!web_app_dir_matches("_crx_abc", "x"));
}

#[test]
fn browser_profile_folders() {
    assert_eq!(
        browser_user_data_subdir(r"C:\Apps\Google\CHROME.EXE"),
        s(r"Google\Chrome\User Data")
    );
    assert_eq!(
        browser_user_data_subdir(r"C:\Apps\msedge.exe"),
        s(r"Microsoft\Edge\User Data")
    );
    assert_eq!(browser_user_data_subdir(r"C:\Apps\firefox.exe"), None);
}

#[test]
fn window_filters() {
    let st = window_state_from_styles(0x1000_0000 | 0x2000_0000, 0x80);
    assert_eq!(
        st,
        WindowState {
            is_visible: true,
            is_iconic: true,
            is_tool: true
        }
    );
    let normal = window_state_from_styles(0x1000_0000, 0);
    assert!(is_switchable_window(normal, false, false, false, "Editor"));
    assert!(!is_switchable_window(normal, false, false, false, "Windows Input Experience"));
    assert!(!is_switchable_window(normal, false, true, false, "Editor"));
    assert!(!is_switchable_window(st, false, false, false, "Editor"));
    assert!(!is_selectable_title(""));
    assert!(is_cloaked_window(2, true));
    assert!(!is_cloaked_window(2, false));
    assert!(is_cloaked_window(1, false));
    assert!(!is_cloaked_window(0, true));
}

#[test]
fn window_sizes_fall_back_in_order() {
    let frame = Rect { left: 0, top: 0, right: 800, bottom: 600 };
    let empty = Rect { left: 0, top: 0, right: 0, bottom: 0 };
    let placed = Rect { left: 10, top: 10, right: 110, bottom: 60 };
    assert_eq!(visual_window_size(Some(frame), Some(placed)), Some((800, 600)));
    assert_eq!(visual_window_size(Some(empty), Some(placed)), Some((100, 50)));
    assert_eq!(visual_window_size(None, None), None);
    assert_eq!(window_size_with_state(false, Some((800, 600)), Some(placed)), (800, 600));
    assert_eq!(window_size_with_state(true, Some((800, 600)), Some(placed)), (100, 50));
    assert_eq!(window_size_with_state(true, Some((800, 600)), None), (800, 600));
    assert_eq!(window_size_with_state(true, None, Some(empty)), (0, 0));
}

#[test]
fn process_paths_and_times() {
    let meta = ProcessMetadata {
        path: s(r"C:\x\app.exe"),
        elevated: Some(true),
        creation_time: 0,
    };
    assert_eq!(process_path_for(&meta, false), None);
    assert_eq!(process_path_for(&meta, true), s(r"C:\x\app.exe"));
    assert_eq!(filetime_to_u64(1, 2), (1u64 << 32) | 2);
    let frame_host = s(r"C:\Windows\System32\ApplicationFrameHost.exe");
    assert_eq!(resolve_base_path(frame_host.clone(), Some(s(r"C:\p\app.exe"))), s(r"C:\p\app.exe"));
    assert_eq!(resolve_base_path(frame_host.clone(), None), None);
    assert_eq!(resolve_base_path(None, Some(None)), None);
    assert_eq!(resolve_base_path(s(r"C:\a.exe"), Some(s(r"C:\b.exe"))), s(r"C:\a.exe"));
    assert_eq!(selector_title(s("Save as"), "Editor".into()), "Save as");
    assert_eq!(selector_title(s(""), "Editor".into()), "Editor");
    assert_eq!(selector_title(None, "Editor".into()), "Editor");
}

#[test]
fn messages_are_classified() {
    assert_eq!(
        classify_message(WM_USER_TRAYICON, 0, WM_LBUTTONUP as isize, 9999),
        AppMessage::TrayIcon { show_menu: true }
    );
    assert_eq!(
        classify_message(WM_USER_SWITCH_WINDOWS, 0, 1, 9999),
        AppMessage::SwitchWindows { reverse: true }
    );
    assert_eq!(
        classify_message(WM_USER_ICON_READY, 0, 0, 9999),
        AppMessage::IconReady { has_result: false }
    );
    assert_eq!(
        classify_message(WM_COMMAND, 3, 0, 9999),
        AppMessage::Command { item: Some(MenuCommand::Configure) }
    );
    assert_eq!(menu_command(0x0001_0001), None);
    assert_eq!(menu_command(1), Some(MenuCommand::Exit));
    assert_eq!(classify_message(9999, 0, 0, 9999), AppMessage::TaskbarCreated);
    assert_eq!(classify_message(12345, 0, 0, 9999), AppMessage::Other);
    assert_eq!(direct_result(AppMessage::HitTest), Some(1));
    assert_eq!(direct_result(AppMessage::SwitchApps), None);
}

#[test]
fn candidate_scan_collapses_modal_dialogs_and_deduplicates() {
    let mut scan = CandidateScan::new();
    // Window 10 is a root blocked by dialog 11; both map to entry 10.
    assert!(scan.needs_modal_lookup(10));
    scan.record_modal(10, Some(11));
    assert_eq!(scan.claim_candidate(11, 10, true), Some((10, Some(11))));
    scan.push_titled("Save as".to_string());
    assert!(!scan.needs_modal_lookup(10));
    assert_eq!(scan.claim_candidate(10, 10, true), None);
    // Window 20 has no dialog and no title.
    scan.record_modal(20, None);
    assert_eq!(scan.claim_candidate(20, 20, false), Some((20, None)));
    scan.push_titled(String::new());
    scan.record_owner(0, 20);
    scan.record_owner(10, 11);
    scan.record_owner(10, 12);
    assert_eq!(scan.owned_window(10), Some(11));
    assert_eq!(scan.owned_window(20), None);
    assert_eq!(scan.valid, vec![(10, "Save as".to_string())]);
}

#[test]
fn browser_file_names_follow_windows_path_components() {
    assert!(is_chrome_browser(r"C:\Apps\chrome.exe\"));
    assert!(is_chrome_browser(r"C:\Apps\chrome.exe\."));
    assert!(is_chrome_browser(r"C:/Apps/CHROME.exe"));
    assert!(is_chrome_browser("C:chrome.exe"));
    assert!(!is_chrome_browser(r"C:\Apps\chrome.exe\.."));
    assert!(!is_chrome_browser(r"C:\Apps\chrome.exe\x"));
    assert!(!is_edge_browser(""));
    assert!(!is_edge_browser(r"C:\"));
    assert!(is_edge_browser("msedge.exe"));
}

#[test]
fn browser_file_names_after_unc_verbatim_and_device_prefixes() {
    assert!(!is_chrome_browser(r"\\server\chrome.exe"));
    assert!(!is_chrome_browser(r"\\?\chrome.exe"));
    assert!(!is_chrome_browser(r"\\.\chrome.exe"));
    assert!(!is_chrome_browser(r"\\?\UNC\server\chrome.exe"));
    assert!(is_chrome_browser(r"\\server\share\chrome.exe"));
    assert!(is_chrome_browser(r"//server/share/chrome.exe"));
    assert!(is_chrome_browser(r"\\chrome.exe"));
    assert!(is_chrome_browser(r"\\?\C:\Apps\chrome.exe"));
    assert!(is_chrome_browser(r"\\?\UNC\server\share\chrome.exe"));
    assert!(!is_chrome_browser(r"\\?\C:\Apps\chrome.exe\."));
    assert!(!is_chrome_browser(r"\\?\C:\Apps/chrome.exe"));
    assert!(is_edge_browser(r"\\.\device\msedge.exe"));
    assert!(!is_edge_browser("C:."));
}

#[test]
fn user_data_folder_from_lowered_path() {
    let chrome = user_data_subdir_of_lowered(r"c:\program files\google\chrome\application\chrome.exe");
    assert_eq!(chrome.as_deref(), Some(CHROME_USER_DATA));
    let edge = user_data_subdir_of_lowered(r"c:\program files (x86)\microsoft\edge\application\msedge.exe");
    assert_eq!(edge.as_deref(), Some(EDGE_USER_DATA));
    assert_eq!(user_data_subdir_of_lowered(r"c:\tools\chrome.exe.helper").as_deref(), Some(CHROME_USER_DATA));
    assert_eq!(user_data_subdir_of_lowered(r"c:\tools\Chrome.exe"), None);
    assert_eq!(user_data_subdir_of_lowered(r"c:\windows\notepad.exe"), None);
}
