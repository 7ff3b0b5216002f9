use window_buttons::layout::{compute_button_width, plan_window_update, title_max_chars};
use window_buttons::screen::DisplayFilter;
use window_buttons::settings::Settings;
use window_buttons::windows::WindowInfo;

fn window(id: u64, app_id: Option<&str>, output: Option<&str>) -> WindowInfo {
    WindowInfo {
        id,
        app_id: app_id.map(|s| s.to_string()),
        title: None,
        pid: None,
        is_focused: false,
        output: output.map(|s| s.to_string()),
    }
}

fn settings() -> Settings {
    let mut s = Settings::default();
    s.min_button_width = 150;
    s.max_button_width = 235;
    s.max_taskbar_width = 1200;
    s
}

#[test]
fn width_is_maximum_while_row_fits() {
    assert_eq!(compute_button_width(4, 150, 235, 1200), 235);
    assert_eq!(compute_button_width(5, 150, 235, 1200), 235);
}

#[test]
fn width_shrinks_to_fair_share() {
    // 235 * 6 = 1410 > 1200, and 1200 / 6 = 200 is above the minimum.
    assert_eq!(compute_button_width(6, 150, 235, 1200), 200);
}

#[test]
fn width_never_falls_under_minimum() {
    // 1200 / 10 = 120 would be under the minimum of 150.
    assert_eq!(compute_button_width(10, 150, 235, 1200), 150);
}

#[test]
fn width_with_negative_limit_truncates_toward_zero() {
    // -1201 / 4 truncates to -300, then the minimum wins.
    assert_eq!(compute_button_width(4, 150, 235, -1201), 150);
    assert_eq!(compute_button_width(4, -400, 235, -1201), -300);
}

#[test]
fn title_chars_formula() {
    assert_eq!(title_max_chars(235, 24, 6), 23);
    assert_eq!(title_max_chars(0, 24, 6), -5);
}

#[test]
fn plan_filters_by_display_and_ignore_list() {
    let mut s = settings();
    s.ignore_app_ids.push("hidden".to_string());
    let filter = DisplayFilter::Only("DP-1".to_string());
    let snapshot = vec![
        window(1, Some("a"), Some("DP-1")),
        window(2, Some("b"), Some("DP-2")),
        window(3, Some("hidden"), Some("DP-1")),
        window(4, None, Some("DP-1")),
    ];
    let existing = vec![2, 3, 4, 9];
    let plan = plan_window_update(&existing, &snapshot, &filter, &s);
    assert_eq!(plan.displayed, vec![1, 4]);
    assert_eq!(plan.removed, vec![2, 3, 9]);
    assert_eq!(plan.width, Some(235));
}

#[test]
fn plan_with_unnamed_output_matches_empty_name() {
    let s = settings();
    let filter = DisplayFilter::Only("DP-1".to_string());
    let snapshot = vec![window(1, None, None)];
    let plan = plan_window_update(&Vec::new(), &snapshot, &filter, &s);
    assert_eq!(plan.displayed, Vec::<u64>::new());
    assert_eq!(plan.width, None);
    let show_all = DisplayFilter::ShowAll;
    let plan = plan_window_update(&Vec::new(), &snapshot, &show_all, &s);
    assert_eq!(plan.displayed, vec![1]);
}

#[test]
fn plan_shrinks_width_for_many_windows() {
    let s = settings();
    let filter = DisplayFilter::ShowAll;
    let snapshot: Vec<WindowInfo> = (0..6).map(|i| window(i, None, None)).collect();
    let plan = plan_window_update(&Vec::new(), &snapshot, &filter, &s);
    assert_eq!(plan.displayed.len(), 6);
    assert_eq!(plan.width, Some(200));
}
