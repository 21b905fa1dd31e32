use guaradict::replica::synchronizer::apply_event;
use guaradict::replica::{LogOperator, MutationEvent, OperationKind};
use guaradict::server_logic::handle_request;
use guaradict::Dictionary;

#[test]
fn add_then_get() {
    let mut dict = Dictionary::new();
    let mut log = LogOperator::new();

    let r = handle_request(&mut dict, "ADD greeting hello world\n");
    assert_eq!(r.response.as_deref(), Some("Entry added successfully"));
    assert!(!r.close);
    let event = r.event.expect("ADD forwards an event");
    assert_eq!(
        event,
        MutationEvent::Add("greeting".to_string(), "hello world".to_string())
    );
    apply_event(&mut log, event);

    let r = handle_request(&mut dict, "GET greeting\n");
    assert_eq!(r.response.as_deref(), Some("Definition: hello world"));
    assert_eq!(r.event, Some(MutationEvent::Get("greeting".to_string())));

    assert_eq!(log.operations.len(), 1);
    assert_eq!(log.operations[0].kind, OperationKind::Insert);
    assert_eq!(log.operations[0].key, "greeting".into());
    assert_eq!(log.operations[0].current_value, Some("hello world".into()));
}

#[test]
fn set_overwrites_and_logs_prior() {
    let mut dict = Dictionary::new();
    let mut log = LogOperator::new();

    let r = handle_request(&mut dict, "ADD greeting hello world\n");
    apply_event(&mut log, r.event.unwrap());

    let r = handle_request(&mut dict, "SET greeting hi\n");
    assert_eq!(r.response.as_deref(), Some("Entry added successfully"));
    let event = r.event.expect("SET forwards an event");
    assert_eq!(
        event,
        MutationEvent::Put(
            "greeting".to_string(),
            "hi".to_string(),
            Some("hello world".to_string())
        )
    );
    apply_event(&mut log, event);

    assert_eq!(log.operations.len(), 2);
    assert_eq!(log.operations[1].kind, OperationKind::Update);
    assert_eq!(log.operations[1].prev_value, Some("hello world".into()));
    assert_eq!(log.operations[1].current_value, Some("hi".into()));

    assert_eq!(dict.get_definition("greeting").unwrap(), "hi");
}

#[test]
fn add_over_existing_key_emits_set() {
    let mut dict = Dictionary::new();
    handle_request(&mut dict, "ADD k one");
    let r = handle_request(&mut dict, "ADD k two");
    assert_eq!(
        r.event,
        Some(MutationEvent::Put(
            "k".to_string(),
            "two".to_string(),
            Some("one".to_string())
        ))
    );
}

#[test]
fn del_missing_key_still_logs() {
    let mut dict = Dictionary::new();
    let mut log = LogOperator::new();

    let r = handle_request(&mut dict, "DEL absent\n");
    assert_eq!(r.response.as_deref(), Some("Entry removed successfully"));
    let event = r.event.expect("DEL forwards an event");
    assert_eq!(event, MutationEvent::Del("absent".to_string()));
    apply_event(&mut log, event);

    assert_eq!(log.operations.len(), 1);
    assert_eq!(log.operations[0].kind, OperationKind::Delete);
    assert_eq!(log.operations[0].key, "absent".into());
}

#[test]
fn invalid_command_leaves_log_alone() {
    let mut dict = Dictionary::new();
    let log = LogOperator::new();

    let r = handle_request(&mut dict, "FOO bar\n");
    assert_eq!(r.response.as_deref(), Some("Invalid command"));
    assert!(r.event.is_none());
    assert!(!r.close);
    assert_eq!(log.operations.len(), 0);
}

#[test]
fn bare_ping_gets_pong() {
    let mut dict = Dictionary::new();
    let r = handle_request(&mut dict, "PING\n");
    assert_eq!(r.response.as_deref(), Some("PONG\n"));
    assert_eq!(r.response.unwrap().len(), 5);
    assert!(r.event.is_none());
    assert!(!r.close);
}

#[test]
fn ping_with_a_name_is_not_a_heartbeat() {
    // Only the bare five-byte PING is the heartbeat; a named PING falls
    // through to client-command parsing and is rejected there.
    let mut dict = Dictionary::new();
    let r = handle_request(&mut dict, "PING replica-node-1\n");
    assert_eq!(r.response.as_deref(), Some("Invalid command"));
    assert!(r.event.is_none());
}

#[test]
fn quit_closes_the_connection() {
    let mut dict = Dictionary::new();
    let r = handle_request(&mut dict, " QUIT \n");
    assert!(r.close);
    assert!(r.response.is_none());
    assert!(r.event.is_none());
}

#[test]
fn get_missing_key() {
    let mut dict = Dictionary::new();
    let r = handle_request(&mut dict, "GET nothing");
    assert_eq!(r.response.as_deref(), Some("Key not found"));
}

#[test]
fn command_sequence_last_write_wins() {
    let mut dict = Dictionary::new();
    handle_request(&mut dict, "ADD k one");
    handle_request(&mut dict, "SET k two");
    handle_request(&mut dict, "GET k");
    handle_request(&mut dict, "SET k three");
    assert_eq!(dict.get_definition("k").unwrap(), "three");
    handle_request(&mut dict, "DEL k");
    assert!(dict.get_definition("k").is_none());
}
