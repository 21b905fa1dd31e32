use guaradict::replica::{LogOperator, OperationKind};
use guaradict::replica::{MutationEvent, OperationKey, OperationValue};
use guaradict::replica::synchronizer::apply_event;

#[test]
fn test_insert_operation() {
    let mut log_operator = LogOperator::new();
    log_operator.insert(OperationKey::new("key1"), OperationValue::new(42));

    assert_eq!(log_operator.operations.len(), 1);

    let operation = &log_operator.operations[0];
    assert_eq!(operation.kind, OperationKind::Insert);
    assert_eq!(operation.key, "key1".into());
    assert_eq!(operation.current_value, Some(42.into()));
    assert_eq!(operation.prev_value, None);
}

#[test]
fn test_update_operation() {
    let mut log_operator = LogOperator::new();
    log_operator.update(
        OperationKey::new("key2"),
        OperationValue::new("new_value"),
        Some(OperationValue::new("old_value")),
    );

    assert_eq!(log_operator.operations.len(), 1);

    let operation = &log_operator.operations[0];
    assert_eq!(operation.kind, OperationKind::Update);
    assert_eq!(operation.key, "key2".into());
    assert_eq!(operation.current_value, Some("new_value".into()));
    assert_eq!(operation.prev_value, Some("old_value".into()));
}

#[test]
fn test_delete_operation() {
    let mut log_operator = LogOperator::new();
    log_operator.delete(OperationKey::new("key3"));

    assert_eq!(log_operator.operations.len(), 1);

    let operation = &log_operator.operations[0];
    assert_eq!(operation.kind, OperationKind::Delete);
    assert_eq!(operation.key, "key3".into());
    assert_eq!(operation.current_value, None);
    assert_eq!(operation.prev_value, None);
}

#[test]
fn log_times_are_append_indices() {
    let mut log = LogOperator::new();
    log.insert(OperationKey::new("a"), OperationValue::new(1));
    log.delete(OperationKey::new("a"));
    log.update(OperationKey::new("b"), OperationValue::new(2), None);
    assert_eq!(log.operations.len(), 3);
    for (i, op) in log.operations.iter().enumerate() {
        assert_eq!(op.time, i as u64);
    }
}

#[test]
fn operation_value_conversions() {
    assert_eq!(OperationValue::new(7), OperationValue::NumericValue(7));
    assert_eq!(OperationValue::new(true), OperationValue::BooleanValue(true));
    assert_eq!(
        OperationValue::new("text".to_string()),
        OperationValue::StringValue("text".to_string())
    );
    assert_eq!(OperationKey::new(9), OperationKey::NumericKey(9));
    assert_eq!(
        OperationKey::new("k".to_string()),
        OperationKey::StringKey("k".to_string())
    );
    let nested = OperationValue::new(vec![OperationValue::new(1), OperationValue::new(2)]);
    assert_eq!(
        nested,
        OperationValue::VecValue(vec![
            OperationValue::NumericValue(1),
            OperationValue::NumericValue(2)
        ])
    );
    let mapped = OperationValue::new(vec![(OperationKey::new("k"), OperationValue::new(3))]);
    assert_eq!(
        mapped,
        OperationValue::MapValue(vec![(
            OperationKey::StringKey("k".to_string()),
            OperationValue::NumericValue(3)
        )])
    );
}

#[test]
fn events_translate_in_order() {
    let mut log = LogOperator::new();
    apply_event(
        &mut log,
        MutationEvent::Add("greeting".to_string(), "hello world".to_string()),
    );
    apply_event(&mut log, MutationEvent::Get("greeting".to_string()));
    apply_event(
        &mut log,
        MutationEvent::Put(
            "greeting".to_string(),
            "hi".to_string(),
            Some("hello world".to_string()),
        ),
    );
    apply_event(&mut log, MutationEvent::Quit);
    apply_event(&mut log, MutationEvent::Del("greeting".to_string()));

    assert_eq!(log.operations.len(), 3);

    assert_eq!(log.operations[0].kind, OperationKind::Insert);
    assert_eq!(log.operations[0].key, "greeting".into());
    assert_eq!(log.operations[0].current_value, Some("hello world".into()));
    assert_eq!(log.operations[0].prev_value, None);
    assert_eq!(log.operations[0].time, 0);

    assert_eq!(log.operations[1].kind, OperationKind::Update);
    assert_eq!(log.operations[1].current_value, Some("hi".into()));
    assert_eq!(log.operations[1].prev_value, Some("hello world".into()));
    assert_eq!(log.operations[1].time, 1);

    assert_eq!(log.operations[2].kind, OperationKind::Delete);
    assert_eq!(log.operations[2].current_value, None);
    assert_eq!(log.operations[2].time, 2);
}

#[test]
fn set_without_known_prior_keeps_none() {
    let mut log = LogOperator::new();
    apply_event(
        &mut log,
        MutationEvent::Put("k".to_string(), "v".to_string(), None),
    );
    assert_eq!(log.operations.len(), 1);
    assert_eq!(log.operations[0].kind, OperationKind::Update);
    assert_eq!(log.operations[0].prev_value, None);
}
