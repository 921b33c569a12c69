use hyprvisor::startup::{may_start, prepare_next, socket_path_for, PrepareAction, PrepareStep};

#[test]
fn fresh_path_is_ready_at_once() {
    assert_eq!(prepare_next(PrepareStep::CheckPath, false), PrepareAction::Ready);
    assert!(may_start(Some(true)));
}

#[test]
fn live_daemon_refuses_start() {
    assert_eq!(prepare_next(PrepareStep::CheckPath, true), PrepareAction::Probe);
    assert_eq!(prepare_next(PrepareStep::ProbeListener, true), PrepareAction::Refuse);
    assert!(!may_start(Some(false)));
}

#[test]
fn stale_socket_is_removed() {
    assert_eq!(prepare_next(PrepareStep::ProbeListener, false), PrepareAction::Remove);
    assert_eq!(prepare_next(PrepareStep::RemoveStale, true), PrepareAction::Ready);
    assert_eq!(prepare_next(PrepareStep::RemoveStale, false), PrepareAction::Refuse);
}

#[test]
fn unprepared_server_does_not_start() {
    assert!(!may_start(None));
}

#[test]
fn socket_path_rule() {
    assert_eq!(socket_path_for(Some("/run/user/1000".to_string())), "/run/user/1000/hyprvisor.sock");
    assert_eq!(socket_path_for(Some(String::new())), "/hyprvisor.sock");
    assert_eq!(socket_path_for(None), "/tmp/hyprvisor.sock");
}
