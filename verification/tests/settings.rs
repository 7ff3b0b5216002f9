use window_buttons::settings::{
    default_icon_size, default_max_taskbar, default_max_width, default_min_width,
    default_spacing, default_true, select_matching_classes, AppRule, NotificationConfig,
    Settings,
};

fn rule(pattern: &str, class: &str) -> AppRule {
    AppRule { pattern: pattern.to_string(), class: class.to_string() }
}

#[test]
fn default_values() {
    assert!(default_true());
    assert_eq!(default_min_width(), 150);
    assert_eq!(default_max_width(), 235);
    assert_eq!(default_icon_size(), 24);
    assert_eq!(default_spacing(), 6);
    assert_eq!(default_max_taskbar(), 1200);
}

#[test]
fn notification_config_defaults() {
    let c = NotificationConfig::default();
    assert!(c.enabled);
    assert!(c.use_desktop_entry);
    assert!(!c.use_fuzzy_matching);
    assert!(c.map_app_ids.is_empty());
}

#[test]
fn settings_defaults_are_zeroed_except_notifications() {
    let s = Settings::default();
    assert_eq!(s.min_button_width, 0);
    assert_eq!(s.max_button_width, 0);
    assert!(!s.show_all_outputs);
    assert!(s.notifications.enabled);
}

#[test]
fn should_ignore_finds_identifier() {
    let mut s = Settings::default();
    s.ignore_app_ids.push("hidden".to_string());
    assert!(s.should_ignore("hidden"));
    assert!(!s.should_ignore("visible"));
    assert!(!s.should_ignore("hidde"));
}

#[test]
fn app_map_lookup_and_remap() {
    let mut s = Settings::default();
    s.notifications
        .map_app_ids
        .push(("web".to_string(), "org.mozilla.firefox".to_string()));
    assert_eq!(
        s.notifications_app_map("web"),
        Some("org.mozilla.firefox".to_string())
    );
    assert_eq!(s.notifications_app_map("mail"), None);
    assert_eq!(s.notifications.remap("web"), "org.mozilla.firefox");
    assert_eq!(s.notifications.remap("mail"), "mail");
}

#[test]
fn flag_getters_mirror_fields() {
    let mut s = Settings::default();
    s.show_all_outputs = true;
    s.only_current_workspace = true;
    s.show_window_titles = true;
    s.middle_click_close = true;
    s.click_focused_maximizes = true;
    s.min_button_width = 1;
    s.max_button_width = 2;
    s.icon_size = 3;
    s.icon_spacing = 4;
    s.max_taskbar_width = 5;
    assert!(s.show_all_outputs());
    assert!(s.only_current_workspace());
    assert!(s.show_window_titles());
    assert!(s.middle_click_close());
    assert!(s.click_focused_maximizes());
    assert!(s.notifications_enabled());
    assert!(s.notifications_use_desktop_entry());
    assert!(!s.notifications_use_fuzzy_matching());
    assert_eq!(s.min_button_width(), 1);
    assert_eq!(s.max_button_width(), 2);
    assert_eq!(s.icon_size(), 3);
    assert_eq!(s.icon_spacing(), 4);
    assert_eq!(s.max_taskbar_width(), 5);
}

#[test]
fn app_classes_lists_all_classes() {
    let mut s = Settings::default();
    s.apps.push((
        "term".to_string(),
        vec![rule("^vim", "editing"), rule("zsh$", "shell")],
    ));
    assert_eq!(s.get_app_classes("term"), vec!["editing", "shell"]);
    assert_eq!(s.get_app_classes("other"), Vec::<String>::new());
}

#[test]
fn app_rules_select_by_title() {
    // Would fail if the pattern matching handed back a constant verdict.
    let mut s = Settings::default();
    s.apps.push((
        "term".to_string(),
        vec![rule("^vim", "editing"), rule("zsh$", "shell")],
    ));
    assert_eq!(s.match_app_rules("term", "vim main.rs"), vec!["editing"]);
    assert_eq!(s.match_app_rules("term", "running zsh"), vec!["shell"]);
    assert_eq!(
        s.match_app_rules("term", "vim inside zsh"),
        vec!["editing", "shell"]
    );
    assert_eq!(s.match_app_rules("term", "emacs"), Vec::<String>::new());
    assert_eq!(s.match_app_rules("other", "vim"), Vec::<String>::new());
}

#[test]
fn invalid_pattern_never_matches() {
    let mut s = Settings::default();
    s.apps
        .push(("term".to_string(), vec![rule("(", "broken"), rule("m$", "ok")]));
    assert_eq!(s.match_app_rules("term", "vim"), vec!["ok"]);
}

#[test]
fn class_selection_follows_mask() {
    let rules = vec![rule("a", "one"), rule("b", "two"), rule("c", "three")];
    let picked = vec![true, false, true];
    assert_eq!(select_matching_classes(&rules, &picked), vec!["one", "three"]);
}
