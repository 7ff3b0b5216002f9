use window_buttons::notifications::{
    ActionList, HintData, NotificationContent, NotificationData,
};
use window_buttons::text::{dot_suffix_of, find_last_char, has_dot, str_eq};

fn content(desktop_entry: Option<&str>, sender_pid: Option<i64>) -> NotificationContent {
    NotificationContent {
        app_name: Some("app".to_string()),
        replaces_id: None,
        app_icon: None,
        summary: "subject".to_string(),
        body: Some("body".to_string()),
        actions: ActionList::from_flat(vec!["default".to_string(), "Open".to_string()]),
        hints: HintData {
            desktop_entry: desktop_entry.map(|s| s.to_string()),
            sender_pid,
        },
        expire_timeout: -1,
    }
}

#[test]
fn action_pairing() {
    let list = ActionList::from_flat(vec![
        "default".to_string(),
        "Open".to_string(),
        "dismiss".to_string(),
        "Dismiss".to_string(),
    ]);
    let items = list.items();
    assert_eq!(items.len(), 2);
    assert_eq!(items[0].id, "default");
    assert_eq!(items[0].localised, "Open");
    assert_eq!(items[1].id, "dismiss");
    assert_eq!(items[1].localised, "Dismiss");
}

#[test]
fn trailing_odd_action_is_dropped() {
    let list = ActionList::from_flat(vec!["only".to_string()]);
    assert_eq!(list.items().len(), 0);
}

#[test]
fn embedded_sender_pid_is_preferred() {
    let data = NotificationData::new(content(None, Some(300)), Some(400));
    assert_eq!(data.get_process_id(), Some(300));
}

#[test]
fn bus_resolved_pid_is_the_fallback() {
    let data = NotificationData::new(content(None, None), Some(400));
    assert_eq!(data.get_process_id(), Some(400));
    let data = NotificationData::new(content(None, None), None);
    assert_eq!(data.get_process_id(), None);
}

#[test]
fn payload_is_reachable() {
    let data = NotificationData::new(content(Some("org.foo.Bar"), None), None);
    assert_eq!(data.get_notification().summary, "subject");
    assert_eq!(
        data.get_notification().hints.desktop_entry,
        Some("org.foo.Bar".to_string())
    );
}

#[test]
fn text_helpers() {
    assert!(str_eq("abc", "abc"));
    assert!(!str_eq("abc", "abd"));
    assert!(!str_eq("abc", "ab"));
    assert!(has_dot("org.foo"));
    assert!(!has_dot("orgfoo"));
    assert_eq!(dot_suffix_of("org.foo.Bar"), "Bar");
    assert_eq!(dot_suffix_of("plain"), "plain");
    assert_eq!(dot_suffix_of("trailing."), "");
    assert_eq!(find_last_char("a.b.c", '.'), Some(3));
    assert_eq!(find_last_char("abc", '.'), None);
}
