use window_buttons::events::{EventCoordinator, EventMessage};
use window_buttons::notifications::{
    ActionList, HintData, NotificationContent, NotificationData,
};

fn notification_event() -> EventMessage {
    let content = NotificationContent {
        app_name: None,
        replaces_id: None,
        app_icon: None,
        summary: "hello".to_string(),
        body: None,
        actions: ActionList::from_flat(Vec::new()),
        hints: HintData { desktop_entry: None, sender_pid: None },
        expire_timeout: -1,
    };
    EventMessage::Notification(Box::new(NotificationData::new(content, None)))
}

#[test]
fn workspace_signal_before_any_event_is_dropped() {
    let mut coordinator = EventCoordinator::new();
    let r = coordinator.process(EventMessage::Workspaces(()));
    assert!(r.is_none());
    // A window update is the first delivered event.
    let r = coordinator.process(EventMessage::WindowUpdate(Vec::new()));
    assert!(matches!(r, Some(EventMessage::WindowUpdate(_))));
    // A later workspace signal reaches the consumer.
    let r = coordinator.process(EventMessage::Workspaces(()));
    assert!(matches!(r, Some(EventMessage::Workspaces(()))));
}

#[test]
fn repeated_early_workspace_signals_are_all_dropped() {
    let mut coordinator = EventCoordinator::new();
    assert!(coordinator.process(EventMessage::Workspaces(())).is_none());
    assert!(coordinator.process(EventMessage::Workspaces(())).is_none());
    assert!(matches!(
        coordinator.process(EventMessage::WindowUpdate(Vec::new())),
        Some(EventMessage::WindowUpdate(_))
    ));
}

#[test]
fn notification_also_activates_workspace_stream() {
    let mut coordinator = EventCoordinator::new();
    assert!(matches!(
        coordinator.process(notification_event()),
        Some(EventMessage::Notification(_))
    ));
    assert!(matches!(
        coordinator.process(EventMessage::Workspaces(())),
        Some(EventMessage::Workspaces(()))
    ));
}

#[test]
fn active_coordinator_delivers_everything() {
    let mut coordinator = EventCoordinator::new();
    coordinator.process(EventMessage::WindowUpdate(Vec::new()));
    assert!(matches!(
        coordinator.process(notification_event()),
        Some(EventMessage::Notification(_))
    ));
    assert!(matches!(
        coordinator.process(EventMessage::WindowUpdate(Vec::new())),
        Some(EventMessage::WindowUpdate(_))
    ));
    assert!(matches!(
        coordinator.process(EventMessage::Workspaces(())),
        Some(EventMessage::Workspaces(()))
    ));
}
