use wlsnip::error::WlsnipError;
use wlsnip::utils::geometry::Region;
use wlsnip::utils::text::{chars_of, contains, i64_to_decimal, u64_to_decimal};
use wlsnip::utils::window_resolver::{
    is_ignored, resolve_window, sway_windows, window_from_hyprctl, window_from_mmsg, HyprctlClient, MmsgClient,
    SwayNode, SwayRect, WindowInfo,
};
use wlsnip::utils::workspace_capture::{
    hyprland_current_workspace, hyprland_workspaces, mango_current_workspace, mango_workspaces,
    sway_current_workspace, MangoTag, SwayWorkspace,
};

fn region(x: i32) -> Region {
    Region { x, y: 0, width: 10, height: 10 }
}

fn win(pid: u32, app_id: &str, title: &str, x: i32) -> WindowInfo {
    WindowInfo { pid: Some(pid), app_id: Some(app_id.to_string()), title: Some(title.to_string()), region: region(x) }
}

fn windows() -> Vec<WindowInfo> {
    vec![
        win(100, "org.kde.Konsole", "shell", 1),
        win(200, "firefox", "Mozilla Firefox", 2),
        win(300, "Firefox-dev", "Nightly", 3),
    ]
}

fn capture_message(e: WlsnipError) -> String {
    match e {
        WlsnipError::Capture(m) => m,
        other => panic!("unexpected error {other:?}"),
    }
}

#[test]
fn resolve_by_pid_comes_first() {
    let ws = windows();
    assert_eq!(resolve_window(&ws, Some("300"), None, None).unwrap(), region(3));
}

#[test]
fn resolve_by_app_id_ignores_case() {
    let ws = windows();
    // "FIREFOX" matches "firefox" first, before "Firefox-dev"
    assert_eq!(resolve_window(&ws, Some("FIREFOX"), None, None).unwrap(), region(2));
}

#[test]
fn resolve_by_title() {
    let ws = windows();
    assert_eq!(resolve_window(&ws, Some("night"), None, None).unwrap(), region(3));
}

#[test]
fn resolve_unknown_pid_falls_back_to_text() {
    // "4242" is a number but no pid; no title or app id holds it either
    let ws = windows();
    let e = resolve_window(&ws, Some("4242"), None, None).unwrap_err();
    assert_eq!(capture_message(e), "No window matching '4242' found");
}

#[test]
fn resolve_no_match_reports_query() {
    let ws = windows();
    let e = resolve_window(&ws, Some("gimp"), None, None).unwrap_err();
    assert_eq!(capture_message(e), "No window matching 'gimp' found");
}

#[test]
fn resolve_without_windows() {
    let e = resolve_window(&Vec::new(), Some("firefox"), None, None).unwrap_err();
    assert_eq!(capture_message(e), "No windows found via IPC");
}

#[test]
fn resolve_active_window() {
    let ws = windows();
    let active = win(999, "kitty", "term", 9);
    assert_eq!(resolve_window(&ws, None, None, Some(active)).unwrap(), region(9));
}

#[test]
fn resolve_ignored_active_falls_back_to_first_not_ignored() {
    let ws = windows();
    let ignore = vec!["KONSOLE".to_string(), "kitty".to_string()];
    let active = win(999, "kitty", "term", 9);
    assert_eq!(resolve_window(&ws, None, Some(&ignore), Some(active)).unwrap(), region(2));
}

#[test]
fn resolve_without_active_takes_first_window() {
    let ws = windows();
    assert_eq!(resolve_window(&ws, None, None, None).unwrap(), region(1));
}

#[test]
fn resolve_all_ignored() {
    let ws = windows();
    let ignore = vec!["o".to_string()];
    let e = resolve_window(&ws, None, Some(&ignore), None).unwrap_err();
    assert_eq!(capture_message(e), "Could not determine active window");
}

#[test]
fn ignore_list_matches_substrings_case_insensitively() {
    let w = win(1, "org.kde.Konsole", "t", 0);
    let list = vec!["konsole".to_string()];
    assert!(is_ignored(&w, Some(&list)));
    assert!(!is_ignored(&w, None));
    assert!(!is_ignored(&w, Some(&[])));
    let other = vec!["firefox".to_string()];
    assert!(!is_ignored(&w, Some(&other)));
    let no_app = WindowInfo { pid: None, app_id: None, title: Some("konsole".into()), region: region(0) };
    assert!(!is_ignored(&no_app, Some(&list)));
}

#[test]
fn mmsg_client_uses_id_without_pid() {
    let c = MmsgClient {
        id: Some(7),
        pid: None,
        app_id: Some("foot".into()),
        title: None,
        x: -5,
        y: 6,
        width: 7,
        height: 8,
    };
    let w = window_from_mmsg(c.clone());
    assert_eq!(w.pid, Some(7));
    assert_eq!(w.app_id.as_deref(), Some("foot"));
    assert_eq!(w.region, Region { x: -5, y: 6, width: 7, height: 8 });
    let w2 = window_from_mmsg(MmsgClient { pid: Some(70), ..c });
    assert_eq!(w2.pid, Some(70));
}

#[test]
fn hyprctl_client_maps_class_and_geometry() {
    let c = HyprctlClient {
        pid: Some(12),
        class: Some("Alacritty".into()),
        title: Some("zsh".into()),
        at: [3, 4],
        size: [50, 60],
    };
    let w = window_from_hyprctl(c);
    assert_eq!(w.pid, Some(12));
    assert_eq!(w.app_id.as_deref(), Some("Alacritty"));
    assert_eq!(w.title.as_deref(), Some("zsh"));
    assert_eq!(w.region, Region { x: 3, y: 4, width: 50, height: 60 });
}

fn node(pid: Option<u32>, app_id: Option<&str>, name: &str, x: i32, nodes: Vec<SwayNode>, floating: Vec<SwayNode>) -> SwayNode {
    SwayNode {
        pid,
        app_id: app_id.map(|s| s.to_string()),
        name: Some(name.to_string()),
        rect: SwayRect { x, y: 0, width: 1, height: 1 },
        nodes,
        floating_nodes: floating,
    }
}

#[test]
fn sway_tree_is_walked_depth_first() {
    let tree = node(
        None,
        None,
        "root",
        0,
        vec![
            node(None, None, "workspace", 1, vec![node(Some(5), Some("a"), "A", 2, vec![], vec![])], vec![
                node(None, Some("float"), "F", 3, vec![], vec![]),
            ]),
            node(Some(6), None, "B", 4, vec![], vec![]),
        ],
        vec![],
    );
    let ws = sway_windows(&tree);
    let xs: Vec<i32> = ws.iter().map(|w| w.region.x).collect();
    assert_eq!(xs, vec![2, 3, 4]);
    assert_eq!(ws[0].title.as_deref(), Some("A"));
    assert_eq!(ws[1].pid, None);
    assert_eq!(ws[2].app_id, None);
}

#[test]
fn hyprland_workspaces_sorted_numerically() {
    let ids = vec![10, 2, -1, 3];
    assert_eq!(hyprland_workspaces(&ids), vec!["-1", "2", "3", "10"]);
}

#[test]
fn hyprland_workspaces_out_of_range_sort_as_zero() {
    // 5_000_000_000 does not parse as an i32, so it sorts as 0, between -1 and 2;
    // equal keys keep their order
    let ids = vec![2, 5_000_000_000, 0, -1];
    assert_eq!(hyprland_workspaces(&ids), vec!["-1", "5000000000", "0", "2"]);
    assert!(hyprland_workspaces(&vec![]).is_empty());
}

#[test]
fn mango_workspaces_keep_occupied_tags() {
    let tags = vec![
        MangoTag { client_count: 0, index: 1, is_active: false },
        MangoTag { client_count: 2, index: 2, is_active: true },
        MangoTag { client_count: 1, index: 9, is_active: false },
    ];
    assert_eq!(mango_workspaces(&tags), vec!["2", "9"]);
    let empty = vec![MangoTag { client_count: 0, index: 4, is_active: true }];
    assert_eq!(mango_workspaces(&empty), vec!["1"]);
    assert_eq!(mango_current_workspace(&tags), "2");
    assert_eq!(mango_current_workspace(&vec![]), "1");
}

#[test]
fn current_workspace_defaults() {
    assert_eq!(hyprland_current_workspace(Some(-3)), "-3");
    assert_eq!(hyprland_current_workspace(None), "1");
    let sway = vec![
        SwayWorkspace { focused: false, name: Some("web".into()) },
        SwayWorkspace { focused: true, name: Some("code".into()) },
        SwayWorkspace { focused: true, name: Some("late".into()) },
    ];
    assert_eq!(sway_current_workspace(&sway), "code");
    let unnamed = vec![SwayWorkspace { focused: true, name: None }];
    assert_eq!(sway_current_workspace(&unnamed), "1");
    assert_eq!(sway_current_workspace(&vec![]), "1");
}

#[test]
fn text_helpers() {
    assert_eq!(u64_to_decimal(0), "0");
    assert_eq!(u64_to_decimal(u64::MAX), "18446744073709551615");
    assert_eq!(i64_to_decimal(i64::MIN), "-9223372036854775808");
    assert!(contains(&chars_of("hello"), &chars_of("ell")));
    assert!(contains(&chars_of("hello"), &chars_of("")));
    assert!(!contains(&chars_of("he"), &chars_of("hello")));
}

#[test]
fn queries_match_unicode_case_insensitively() {
    let ws = vec![win(1, "Émile", "ÀBC", 4)];
    assert_eq!(resolve_window(&ws, Some("émi"), None, None).unwrap(), region(4));
    assert_eq!(resolve_window(&ws, Some("àbc"), None, None).unwrap(), region(4));
}

#[test]
fn geometry_errors_quote_the_text() {
    use_region_error("a\"b", "invalid slurp geometry: \"a\\\"b\"");
    use_region_error("1,2 3x", "invalid height: \"\"");
    use_region_error("x,2 3x4", "invalid x coordinate: \"x\"");
}

fn use_region_error(text: &str, expected: &str) {
    match Region::from_slurp(text) {
        Err(WlsnipError::RegionSelection(m)) => assert_eq!(m, expected),
        other => panic!("unexpected {other:?}"),
    }
}
