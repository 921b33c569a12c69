use hyprvisor::data::{HyprvisorData, WorkspaceState};
use hyprvisor::topic::SubscriptionID;

#[test]
fn new_snapshot_has_defaults() {
    let d = HyprvisorData::new();
    assert_eq!(d.workspace_info.len(), 10);
    assert_eq!(d.workspace_info[0], WorkspaceState::Active);
    for w in &d.workspace_info[1..] {
        assert_eq!(*w, WorkspaceState::Empty);
    }
    assert_eq!(d.window_title, "");
    assert_eq!(d.sink_volume, None);
    assert_eq!(d.source_volume, None);
}

#[test]
fn workspace_payload_lists_every_slot() {
    let mut d = HyprvisorData::new();
    assert_eq!(
        d.payload(SubscriptionID::WORKSPACE),
        "workspace:active,empty,empty,empty,empty,empty,empty,empty,empty,empty"
    );
    assert!(d.set_workspace_state(0, WorkspaceState::Occupied));
    assert!(d.set_workspace_state(9, WorkspaceState::Active));
    assert_eq!(
        d.payload(SubscriptionID::WORKSPACE),
        "workspace:occupied,empty,empty,empty,empty,empty,empty,empty,empty,active"
    );
}

#[test]
fn out_of_range_workspace_is_refused() {
    let mut d = HyprvisorData::new();
    assert!(!d.set_workspace_state(10, WorkspaceState::Occupied));
    assert_eq!(d.workspace_info.len(), 10);
    assert_eq!(d.workspace_info[9], WorkspaceState::Empty);
}

#[test]
fn window_payload_carries_the_title() {
    let mut d = HyprvisorData::new();
    assert_eq!(d.payload(SubscriptionID::WINDOW), "window:");
    d.set_window_title("kitty: ~/src".to_string());
    assert_eq!(d.payload(SubscriptionID::WINDOW), "window:kitty: ~/src");
}

#[test]
fn volume_payloads() {
    let mut d = HyprvisorData::new();
    assert_eq!(d.payload(SubscriptionID::SINKVOLUME), "sink_volume:muted");
    assert_eq!(d.payload(SubscriptionID::SOURCEVOLUME), "source_volume:muted");
    d.set_sink_volume(Some(45));
    d.set_source_volume(Some(0));
    assert_eq!(d.payload(SubscriptionID::SINKVOLUME), "sink_volume:45");
    assert_eq!(d.payload(SubscriptionID::SOURCEVOLUME), "source_volume:0");
    d.set_sink_volume(Some(100));
    assert_eq!(d.payload(SubscriptionID::SINKVOLUME), "sink_volume:100");
    d.set_sink_volume(Some(u32::MAX));
    assert_eq!(d.payload(SubscriptionID::SINKVOLUME), "sink_volume:4294967295");
    d.set_sink_volume(None);
    assert_eq!(d.payload(SubscriptionID::SINKVOLUME), "sink_volume:muted");
}
