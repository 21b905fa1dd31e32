use guaradict::replica::monitor::{
    apply_tick, classify_heartbeat_reply, next_action, ping_frame, ReplicaMonitorServer,
    TickAction, TickEvent,
};
use guaradict::replica::ReplicaStatus;

fn fresh_replica(name: &str) -> ReplicaStatus {
    ReplicaStatus::new(name.to_string(), false, Some("127.0.0.1:13142".to_string()))
}

#[test]
fn replica_status_new_and_default() {
    let st = fresh_replica("replica-node-1");
    assert_eq!(st.name, "replica-node-1");
    assert_eq!(st.ping, 0);
    assert!(!st.ready);
    assert_eq!(st.failures, 0);
    assert!(st.stream.is_none());

    let blank = ReplicaStatus::default();
    assert_eq!(blank.name, "");
    assert!(blank.addr.is_none());
    assert!(!blank.ready);
}

#[test]
fn three_failures_mark_replica_down() {
    let mut st = fresh_replica("replica-node-1");
    st.stream = Some(7);
    st.ready = true;
    for _ in 0..3 {
        apply_tick(&mut st, TickEvent::HeartbeatFailed);
    }
    assert!(!st.ready);
    assert!(st.failures >= 3);
    assert!(st.stream.is_none());
}

#[test]
fn first_two_failures_keep_the_stream() {
    let mut st = fresh_replica("replica-node-1");
    st.stream = Some(7);
    apply_tick(&mut st, TickEvent::HeartbeatFailed);
    assert_eq!(st.failures, 1);
    assert!(!st.ready);
    assert_eq!(st.stream, Some(7));
    apply_tick(&mut st, TickEvent::HeartbeatFailed);
    assert_eq!(st.failures, 2);
    assert_eq!(st.stream, Some(7));
}

#[test]
fn successful_heartbeat_resets_failures() {
    let mut st = fresh_replica("replica-node-1");
    st.stream = Some(3);
    apply_tick(&mut st, TickEvent::HeartbeatFailed);
    apply_tick(&mut st, TickEvent::HeartbeatFailed);
    apply_tick(&mut st, TickEvent::HeartbeatSucceeded { ping: 12 });
    assert!(st.ready);
    assert_eq!(st.failures, 0);
    assert_eq!(st.ping, 12);
    assert_eq!(st.stream, Some(3));
}

#[test]
fn reconnect_after_failures() {
    let mut st = fresh_replica("replica-node-1");
    for _ in 0..4 {
        apply_tick(&mut st, TickEvent::ConnectFailed);
    }
    assert!(!st.ready);
    assert!(st.failures >= 3);
    assert!(st.stream.is_none());
    apply_tick(&mut st, TickEvent::ConnectSucceeded { stream: 9 });
    assert!(st.ready);
    assert_eq!(st.failures, 0);
    assert_eq!(st.ping, 0);
    assert_eq!(st.stream, Some(9));
}

#[test]
fn next_action_follows_the_record() {
    let mut st = fresh_replica("replica-node-1");
    assert_eq!(next_action(&st), TickAction::Connect);
    st.stream = Some(5);
    assert_eq!(next_action(&st), TickAction::Heartbeat { stream: 5 });
    st.addr = None;
    assert_eq!(next_action(&st), TickAction::Skip);
}

#[test]
fn heartbeat_reply_classification() {
    let pong = b"PONG\n".to_vec();
    assert_eq!(
        classify_heartbeat_reply(&pong, 8),
        TickEvent::HeartbeatSucceeded { ping: 8 }
    );
    let wrong = b"NOPE\n".to_vec();
    assert_eq!(classify_heartbeat_reply(&wrong, 8), TickEvent::HeartbeatFailed);
    let short = b"PONG".to_vec();
    assert_eq!(classify_heartbeat_reply(&short, 8), TickEvent::HeartbeatFailed);
}

#[test]
fn ping_frame_is_five_bytes() {
    assert_eq!(ping_frame(), b"PING\n".to_vec());
}

#[test]
fn registry_tick_and_lookup() {
    let replicas = vec![fresh_replica("replica-node-1"), fresh_replica("replica-node-2")];
    let mut registry = ReplicaMonitorServer::new(replicas);
    assert_eq!(registry.len(), 2);

    registry.tick_at(0, TickEvent::ConnectSucceeded { stream: 1 });
    registry.tick_at(1, TickEvent::ConnectFailed);

    let up = registry.get_status("replica-node-1").unwrap();
    assert!(up.ready);
    assert_eq!(up.stream, Some(1));

    let down = registry.get_status("replica-node-2").unwrap();
    assert!(!down.ready);
    assert_eq!(down.failures, 1);

    assert!(registry.get_status("unknown").is_none());
}
