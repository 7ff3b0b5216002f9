use window_buttons::matching::{match_by_app_id, match_notification, match_pid_chain, ProcessWindowMap};
use window_buttons::settings::NotificationConfig;
use window_buttons::windows::WindowInfo;

fn window(id: u64, app_id: Option<&str>, pid: Option<i64>, is_focused: bool) -> WindowInfo {
    WindowInfo {
        id,
        app_id: app_id.map(|s| s.to_string()),
        title: None,
        pid,
        is_focused,
        output: None,
    }
}

fn config(use_desktop_entry: bool, use_fuzzy_matching: bool) -> NotificationConfig {
    NotificationConfig {
        enabled: true,
        map_app_ids: Vec::new(),
        use_desktop_entry,
        use_fuzzy_matching,
    }
}

#[test]
fn direct_pid_match_marks_window() {
    let windows = vec![window(1, Some("app"), Some(500), false)];
    let r = match_notification(&windows, &vec![500], None, &config(true, true));
    assert_eq!(r, vec![1]);
}

#[test]
fn focused_window_is_not_marked_by_pid() {
    let windows = vec![window(1, None, Some(500), true)];
    let r = match_notification(&windows, &vec![500], None, &config(false, false));
    assert_eq!(r, Vec::<u64>::new());
}

#[test]
fn ancestor_pid_match_marks_parent_owner() {
    // pid 500's parent is 400; only window B owns 400.
    let windows = vec![window(2, Some("b"), Some(400), false)];
    let r = match_notification(&windows, &vec![500, 400], None, &config(true, true));
    assert_eq!(r, vec![2]);
}

#[test]
fn pid_match_short_circuits_identifier_matching() {
    // Window 1 matches by pid; window 2 would match the desktop entry.
    let windows = vec![
        window(1, Some("other"), Some(500), false),
        window(2, Some("org.foo.Bar"), None, false),
    ];
    let entry = "org.foo.Bar".to_string();
    let r = match_notification(&windows, &vec![500], Some(&entry), &config(true, true));
    assert_eq!(r, vec![1]);
}

#[test]
fn exact_match_beats_fuzzy_candidates() {
    // Exact window and a dot-suffix candidate whose suffix differs in case only.
    let windows = vec![
        window(1, Some("org.foo.Bar"), None, false),
        window(2, Some("org.foo.baz"), None, false),
    ];
    let entry = "org.foo.Bar".to_string();
    let r = match_notification(&windows, &vec![], Some(&entry), &config(true, true));
    assert_eq!(r, vec![1]);
}

#[test]
fn all_exact_matches_are_marked() {
    let windows = vec![
        window(1, Some("org.foo.Bar"), None, false),
        window(2, Some("org.foo.bar"), None, false),
        window(3, Some("org.foo.Bar"), None, true),
    ];
    let entry = "org.foo.Bar".to_string();
    let r = match_notification(&windows, &vec![], Some(&entry), &config(true, true));
    assert_eq!(r, vec![1, 3]);
}

#[test]
fn fuzzy_disabled_yields_no_marks_without_exact() {
    let windows = vec![window(1, Some("org.foo.bar"), None, false)];
    let entry = "org.foo.Bar".to_string();
    let r = match_notification(&windows, &vec![], Some(&entry), &config(true, false));
    assert_eq!(r, Vec::<u64>::new());
}

#[test]
fn fuzzy_case_insensitive_match() {
    // Would fail if case folding handed its input back unchanged.
    let windows = vec![window(1, Some("foo"), None, false)];
    let entry = "FOO".to_string();
    let r = match_notification(&windows, &vec![], Some(&entry), &config(true, true));
    assert_eq!(r, vec![1]);
}

#[test]
fn fuzzy_dot_suffix_match() {
    let windows = vec![window(1, Some("com.other.bar"), None, false)];
    let entry = "org.foo.Bar".to_string();
    let r = match_notification(&windows, &vec![], Some(&entry), &config(true, true));
    assert_eq!(r, vec![1]);
}

#[test]
fn identifier_without_dot_gets_no_suffix_match() {
    let windows = vec![window(1, Some("bar"), None, false)];
    let entry = "org.foo.Bar".to_string();
    let r = match_notification(&windows, &vec![], Some(&entry), &config(true, true));
    assert_eq!(r, Vec::<u64>::new());
}

#[test]
fn desktop_entry_matching_disabled_yields_nothing() {
    let windows = vec![window(1, Some("org.foo.Bar"), None, false)];
    let entry = "org.foo.Bar".to_string();
    let r = match_notification(&windows, &vec![], Some(&entry), &config(false, true));
    assert_eq!(r, Vec::<u64>::new());
}

#[test]
fn missing_desktop_entry_yields_nothing() {
    let windows = vec![window(1, Some("org.foo.Bar"), None, false)];
    let r = match_notification(&windows, &vec![], None, &config(true, true));
    assert_eq!(r, Vec::<u64>::new());
}

#[test]
fn remapped_entry_matches_exactly() {
    let windows = vec![window(1, Some("org.mozilla.firefox"), None, false)];
    let mut cfg = config(true, false);
    cfg.map_app_ids
        .push(("web".to_string(), "org.mozilla.firefox".to_string()));
    let entry = "web".to_string();
    let r = match_notification(&windows, &vec![], Some(&entry), &cfg);
    assert_eq!(r, vec![1]);
}

#[test]
fn pid_map_excludes_focused_and_prefers_later() {
    let windows = vec![
        window(1, None, Some(500), false),
        window(2, None, Some(500), false),
        window(3, None, Some(600), true),
    ];
    let map = ProcessWindowMap::build(&windows);
    assert_eq!(map.lookup(500), Some(2));
    assert_eq!(map.lookup(600), None);
    assert_eq!(map.lookup(700), None);
}

#[test]
fn chain_walk_stops_at_first_owner() {
    let windows = vec![
        window(1, None, Some(400), false),
        window(2, None, Some(300), false),
    ];
    let map = ProcessWindowMap::build(&windows);
    // 400 comes before 300 in the chain, so its window wins.
    assert_eq!(match_pid_chain(&map, &vec![500, 400, 300]), Some(1));
    assert_eq!(match_pid_chain(&map, &vec![500]), None);
    assert_eq!(match_pid_chain(&map, &vec![]), None);
}

#[test]
fn app_id_matching_empty_snapshot() {
    let r = match_by_app_id(&Vec::new(), "org.foo.Bar", true);
    assert_eq!(r, Vec::<u64>::new());
}
