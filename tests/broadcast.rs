use hyprvisor::handshake::{ack_message, decide_handshake, HandshakeError};
use hyprvisor::registry::Registry;
use hyprvisor::state::HyprvisorState;
use hyprvisor::topic::{SubscriptionID, SubscriptionInfo};

/// A stand-in for a client connection: it keeps what it was sent until it is closed.
struct Peer {
    id: u32,
    open: bool,
    inbox: Vec<String>,
}

impl Peer {
    fn new(id: u32) -> Peer {
        Peer { id, open: true, inbox: Vec::new() }
    }

    fn send(&mut self, msg: &str) -> bool {
        if self.open {
            self.inbox.push(msg.to_string());
        }
        self.open
    }
}

/// One broadcast tick, as the daemon runs it.
fn tick(state: &mut HyprvisorState<Peer>) -> Vec<(SubscriptionID, u32)> {
    let mut evicted = Vec::new();
    for t in SubscriptionID::all() {
        let msg = state.tick_payload(t);
        let n = state.subscribers.subscriber_count(t);
        let mut delivered = Vec::new();
        for i in 0..n {
            delivered.push(state.subscribers.connection_mut(t, i).send(&msg));
        }
        for pid in state.settle_topic(t, &delivered) {
            evicted.push((t, pid));
        }
    }
    evicted
}

fn subscribe(state: &mut HyprvisorState<Peer>, pid: u32, name: &str, peer: Peer) -> Option<Peer> {
    let info = SubscriptionInfo { pid, name: name.to_string() };
    let (pid, t) = decide_handshake(30, Some(info)).unwrap();
    state.complete_handshake(t, pid, peer, true).unwrap()
}

#[test]
fn register_then_tick_delivers_once() {
    for t in SubscriptionID::all() {
        let mut state: HyprvisorState<Peer> = HyprvisorState::new();
        assert!(subscribe(&mut state, 7, t.name(), Peer::new(1)).is_none());
        assert!(tick(&mut state).is_empty());
        assert_eq!(state.subscribers.subscriber_count(t), 1);
        let peer = state.subscribers.connection_mut(t, 0);
        assert_eq!(peer.inbox.len(), 1);
        assert!(peer.inbox[0].starts_with(&format!("{}:", t.name())));
    }
}

#[test]
fn resubscribe_replaces_prior_connection() {
    let mut state: HyprvisorState<Peer> = HyprvisorState::new();
    assert!(subscribe(&mut state, 9, "window", Peer::new(1)).is_none());
    let stale = subscribe(&mut state, 9, "window", Peer::new(2)).unwrap();
    assert_eq!(stale.id, 1);
    assert_eq!(state.subscribers.subscriber_count(SubscriptionID::WINDOW), 1);
    tick(&mut state);
    assert!(stale.inbox.is_empty());
    let fresh = state.subscribers.connection_mut(SubscriptionID::WINDOW, 0);
    assert_eq!(fresh.id, 2);
    assert_eq!(fresh.inbox, vec!["window:".to_string()]);
}

#[test]
fn closed_connection_is_evicted_by_next_tick() {
    let mut state: HyprvisorState<Peer> = HyprvisorState::new();
    for pid in 1..=3u32 {
        subscribe(&mut state, pid, "sink_volume", Peer::new(pid));
    }
    subscribe(&mut state, 2, "workspace", Peer::new(20));
    state.subscribers.connection_mut(SubscriptionID::SINKVOLUME, 1).open = false;
    let evicted = tick(&mut state);
    assert_eq!(evicted, vec![(SubscriptionID::SINKVOLUME, 2)]);
    assert_eq!(state.subscribers.subscriber_count(SubscriptionID::SINKVOLUME), 2);
    assert_eq!(state.subscribers.pids(SubscriptionID::SINKVOLUME), vec![1, 3]);
    assert_eq!(state.subscribers.subscriber_count(SubscriptionID::WORKSPACE), 1);
    for i in 0..2 {
        let peer = state.subscribers.connection_mut(SubscriptionID::SINKVOLUME, i);
        assert_eq!(peer.inbox, vec!["sink_volume:muted".to_string()]);
    }
}

#[test]
fn bogus_handshake_creates_no_subscriber() {
    let state: HyprvisorState<Peer> = HyprvisorState::new();
    let info = SubscriptionInfo { pid: 123, name: "bogus".to_string() };
    assert_eq!(decide_handshake(29, Some(info)), Err(HandshakeError::UnknownTopic));
    for t in SubscriptionID::all() {
        assert_eq!(state.subscribers.subscriber_count(t), 0);
    }
}

#[test]
fn failed_acknowledgement_registers_nothing() {
    let mut state: HyprvisorState<Peer> = HyprvisorState::new();
    let r = state.complete_handshake(SubscriptionID::WINDOW, 4, Peer::new(4), false);
    assert!(matches!(r, Err(HandshakeError::AckFailed)));
    assert_eq!(state.subscribers.subscriber_count(SubscriptionID::WINDOW), 0);
}

#[test]
fn distinct_pids_are_all_registered() {
    let mut state: HyprvisorState<Peer> = HyprvisorState::new();
    for pid in 0..200u32 {
        assert!(subscribe(&mut state, pid, "workspace", Peer::new(pid)).is_none());
    }
    assert_eq!(state.subscribers.subscriber_count(SubscriptionID::WORKSPACE), 200);
    let pids = state.subscribers.pids(SubscriptionID::WORKSPACE);
    assert_eq!(pids, (0..200u32).collect::<Vec<u32>>());
    assert_eq!(state.subscribers.subscriber_count(SubscriptionID::WINDOW), 0);
}

#[test]
fn concurrent_handshakes_are_all_registered() {
    let rt = tokio::runtime::Runtime::new().unwrap();
    let n: u32 = 64;
    let count = rt.block_on(async move {
        let state = std::sync::Arc::new(tokio::sync::Mutex::new(HyprvisorState::<Peer>::new()));
        let mut tasks = Vec::new();
        for pid in 0..n {
            let state = std::sync::Arc::clone(&state);
            tasks.push(tokio::spawn(async move {
                let info = SubscriptionInfo { pid: 1000 + pid, name: "window".to_string() };
                let (pid, t) = decide_handshake(32, Some(info)).unwrap();
                tokio::task::yield_now().await;
                let mut guard = state.lock().await;
                guard.complete_handshake(t, pid, Peer::new(pid), true).unwrap()
            }));
        }
        for task in tasks {
            assert!(task.await.unwrap().is_none());
        }
        let guard = state.lock().await;
        let mut pids = guard.subscribers.pids(SubscriptionID::WINDOW);
        pids.sort();
        assert_eq!(pids, (1000..1000 + n).collect::<Vec<u32>>());
        guard.subscribers.subscriber_count(SubscriptionID::WINDOW)
    });
    assert_eq!(count, n as usize);
}

#[test]
fn evict_is_idempotent() {
    let mut reg: Registry<u32> = Registry::new();
    assert_eq!(reg.register(SubscriptionID::WINDOW, 1, 10), None);
    assert_eq!(reg.register(SubscriptionID::WINDOW, 2, 20), None);
    assert_eq!(reg.evict(SubscriptionID::WINDOW, 1), Some(10));
    assert_eq!(reg.evict(SubscriptionID::WINDOW, 1), None);
    assert_eq!(reg.evict(SubscriptionID::WORKSPACE, 2), None);
    assert_eq!(reg.subscriber_count(SubscriptionID::WINDOW), 1);
    assert!(reg.contains(SubscriptionID::WINDOW, 2));
    assert!(!reg.contains(SubscriptionID::WINDOW, 1));
}

#[test]
fn same_pid_on_two_topics_is_two_subscribers() {
    let mut reg: Registry<u32> = Registry::new();
    assert_eq!(reg.register(SubscriptionID::WINDOW, 5, 1), None);
    assert_eq!(reg.register(SubscriptionID::WORKSPACE, 5, 2), None);
    assert_eq!(reg.register(SubscriptionID::WINDOW, 5, 3), Some(1));
    assert_eq!(reg.subscriber_count(SubscriptionID::WINDOW), 1);
    assert_eq!(reg.subscriber_count(SubscriptionID::WORKSPACE), 1);
    assert_eq!(*reg.connection_mut(SubscriptionID::WORKSPACE, 0), 2);
    assert_eq!(*reg.connection_mut(SubscriptionID::WINDOW, 0), 3);
}

#[test]
fn evict_failed_keeps_order_of_the_rest() {
    let mut reg: Registry<u32> = Registry::new();
    for pid in [4u32, 8, 15, 16, 23, 42] {
        reg.register(SubscriptionID::SOURCEVOLUME, pid, pid * 10);
    }
    let gone = reg.evict_failed(SubscriptionID::SOURCEVOLUME, &vec![15, 42, 99]);
    assert_eq!(gone, vec![15, 42]);
    assert_eq!(reg.pids(SubscriptionID::SOURCEVOLUME), vec![4, 8, 16, 23]);
    assert_eq!(reg.pid_at(SubscriptionID::SOURCEVOLUME, 2), 16);
    assert_eq!(*reg.connection_mut(SubscriptionID::SOURCEVOLUME, 2), 160);
}

#[test]
fn daemon_session_scenario() {
    // A fresh daemon; a client sends its handshake.
    let mut state: HyprvisorState<Peer> = HyprvisorState::new();
    let bytes = br#"{"pid":1,"name":"workspace"}"#;
    let value: serde_json::Value = serde_json::from_slice(bytes).unwrap();
    let info = SubscriptionInfo {
        pid: value["pid"].as_u64().unwrap() as u32,
        name: value["name"].as_str().unwrap().to_string(),
    };
    let (pid, t) = decide_handshake(bytes.len(), Some(info)).unwrap();
    assert_eq!((pid, t), (1, SubscriptionID::WORKSPACE));
    let mut peer = Peer::new(1);
    assert!(peer.send(ack_message()));
    state.complete_handshake(t, pid, peer, true).unwrap();
    assert!(!state.subscribers.connection_mut(t, 0).inbox[0].is_empty());

    // The next tick sends the workspace payload.
    tick(&mut state);
    let inbox = &state.subscribers.connection_mut(t, 0).inbox;
    assert_eq!(inbox.len(), 2);
    assert_eq!(inbox[1], "workspace:active,empty,empty,empty,empty,empty,empty,empty,empty,empty");

    // The client goes away; the tick after that evicts it.
    state.subscribers.connection_mut(t, 0).open = false;
    assert_eq!(tick(&mut state), vec![(SubscriptionID::WORKSPACE, 1)]);
    assert_eq!(state.subscribers.subscriber_count(SubscriptionID::WORKSPACE), 0);
}

#[test]
fn tick_with_many_failures_keeps_every_open_connection() {
    let mut state: HyprvisorState<Peer> = HyprvisorState::new();
    for pid in 1..=6u32 {
        subscribe(&mut state, pid, "window", Peer::new(pid));
        subscribe(&mut state, pid, "source_volume", Peer::new(100 + pid));
    }
    for i in [0usize, 2, 5] {
        state.subscribers.connection_mut(SubscriptionID::WINDOW, i).open = false;
    }
    state.subscribers.connection_mut(SubscriptionID::SOURCEVOLUME, 3).open = false;
    let evicted = tick(&mut state);
    assert_eq!(
        evicted,
        vec![
            (SubscriptionID::WINDOW, 1),
            (SubscriptionID::WINDOW, 3),
            (SubscriptionID::WINDOW, 6),
            (SubscriptionID::SOURCEVOLUME, 4),
        ]
    );
    assert_eq!(state.subscribers.pids(SubscriptionID::WINDOW), vec![2, 4, 5]);
    assert_eq!(state.subscribers.pids(SubscriptionID::SOURCEVOLUME), vec![1, 2, 3, 5, 6]);
    for (i, id) in [2u32, 4, 5].iter().enumerate() {
        let peer = state.subscribers.connection_mut(SubscriptionID::WINDOW, i);
        assert_eq!(peer.id, *id);
        assert_eq!(peer.inbox, vec!["window:".to_string()]);
    }
}
