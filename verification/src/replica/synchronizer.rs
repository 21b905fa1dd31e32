//! The synchronizer's translation of client mutations into log records.
//!
//! The surrounding runtime drains a bounded channel of `MutationEvent`s in
//! arrival order and hands each one here; `apply_event` appends its
//! translation to the operation log.  GET and QUIT are carried but append
//! nothing.

use vstd::prelude::*;

use crate::replica::log_operator::{LogOperator, Operation, OperationKey, OperationKind, OperationValue};

verus! {

/// A logical client mutation, as the request handlers forward it.  A SET
/// carries the prior binding the handler observed under the dictionary
/// lock, when the key was bound.
#[derive(Debug, Clone, PartialEq)]
pub enum MutationEvent {
    /// ADD bound a fresh key to a value.
    Add(String, String),
    /// SET rebound a key; the third field is the prior value when the
    /// handler observed one.
    Put(String, String, Option<String>),
    /// DEL unbound a key.
    Del(String),
    /// A lookup; appends nothing.
    Get(String),
    /// The connection closed; appends nothing.
    Quit,
}

/// Does this event append a record?
pub open spec fn is_mutation(e: MutationEvent) -> bool {
    !(e is Get || e is Quit)
}

/// The record an event appends when the log holds `t` records already:
/// Add becomes Insert, Put becomes Update carrying the observed prior
/// value, Del becomes Delete; Get and Quit append nothing.
pub open spec fn translate_event(e: MutationEvent, t: u64) -> Option<Operation> {
    match e {
        MutationEvent::Add(k, v) => Some(
            (Operation {
                time: t,
                kind: OperationKind::Insert,
                key: OperationKey::StringKey(k),
                current_value: Some(OperationValue::StringValue(v)),
                prev_value: None,
            }),
        ),
        MutationEvent::Put(k, v, p) => Some(
            (Operation {
                time: t,
                kind: OperationKind::Update,
                key: OperationKey::StringKey(k),
                current_value: Some(OperationValue::StringValue(v)),
                prev_value: match p {
                    Some(pv) => Some(OperationValue::StringValue(pv)),
                    None => None,
                },
            }),
        ),
        MutationEvent::Del(k) => Some(
            (Operation {
                time: t,
                kind: OperationKind::Delete,
                key: OperationKey::StringKey(k),
                current_value: None,
                prev_value: None,
            }),
        ),
        MutationEvent::Get(_) => None,
        MutationEvent::Quit => None,
    }
}

/// Append one event's translation to the log, in arrival order.
pub fn apply_event(log: &mut LogOperator, event: MutationEvent)
    ensures
        final(log).operations@ == (match translate_event(
            event,
            old(log).operations@.len() as u64,
        ) {
            Some(op) => old(log).operations@.push(op),
            None => old(log).operations@,
        }),
{
    match event {
        MutationEvent::Add(k, v) => {
            log.insert(OperationKey::StringKey(k), OperationValue::StringValue(v));
        },
        MutationEvent::Put(k, v, p) => {
            let prev = match p {
                Some(pv) => Some(OperationValue::StringValue(pv)),
                None => None,
            };
            log.update(OperationKey::StringKey(k), OperationValue::StringValue(v), prev);
        },
        MutationEvent::Del(k) => {
            log.delete(OperationKey::StringKey(k));
        },
        MutationEvent::Get(_) => {},
        MutationEvent::Quit => {},
    }
}

/// The log after draining a sequence of events in order.
pub open spec fn run_events(ops: Seq<Operation>, events: Seq<MutationEvent>) -> Seq<Operation>
    decreases events.len(),
{
    if events.len() == 0 {
        ops
    } else {
        let ops1 = match translate_event(events[0], ops.len() as u64) {
            Some(op) => ops.push(op),
            None => ops,
        };
        run_events(ops1, events.drop_first())
    }
}

/// The events that append a record, in arrival order.
pub open spec fn mutations_of(events: Seq<MutationEvent>) -> Seq<MutationEvent>
    decreases events.len(),
{
    if events.len() == 0 {
        Seq::empty()
    } else if is_mutation(events[0]) {
        seq![events[0]] + mutations_of(events.drop_first())
    } else {
        mutations_of(events.drop_first())
    }
}

/// Draining events appends exactly the translations of the accepted
/// mutations, in their arrival order, after the records already present:
/// no reordering, no coalescing, no deduplication.
pub proof fn lemma_log_is_ordered_translation(ops: Seq<Operation>, events: Seq<MutationEvent>)
    ensures
        ({
            let r = run_events(ops, events);
            let muts = mutations_of(events);
            &&& r.len() == ops.len() + muts.len()
            &&& (forall|j: int| 0 <= j < ops.len() ==> r[j] == ops[j])
            &&& (forall|i: int|
                0 <= i < muts.len() ==> translate_event(muts[i], (ops.len() + i) as u64) == Some(
                    r[ops.len() + i],
                ))
        }),
    decreases events.len(),
{
    if events.len() > 0 {
        let e = events[0];
        let rest = events.drop_first();
        let muts = mutations_of(events);
        if is_mutation(e) {
            let op = translate_event(e, ops.len() as u64)->Some_0;
            let ops1 = ops.push(op);
            lemma_log_is_ordered_translation(ops1, rest);
            let r = run_events(ops, events);
            let muts1 = mutations_of(rest);
            assert(muts == seq![e] + muts1);
            assert(r[ops.len() as int] == ops1[ops.len() as int]);
            assert forall|i: int| 0 <= i < muts.len() implies translate_event(
                muts[i],
                (ops.len() + i) as u64,
            ) == Some(r[ops.len() + i]) by {
                if i > 0 {
                    assert(muts[i] == muts1[i - 1]);
                    assert(translate_event(muts1[i - 1], (ops1.len() + (i - 1)) as u64) == Some(
                        r[ops1.len() + (i - 1)],
                    ));
                }
            }
        } else {
            lemma_log_is_ordered_translation(ops, rest);
        }
    }
}

/// A SET handled over an existing binding is logged as an Update whose
/// `prev_value` is exactly that binding.
pub proof fn lemma_set_logs_prior(e: MutationEvent, t: u64, prior: Seq<char>)
    requires
        e matches MutationEvent::Put(k, v, p) && p matches Some(pv) && pv@ == prior,
    ensures
        ({
            let op = translate_event(e, t)->Some_0;
            &&& translate_event(e, t) is Some
            &&& op.kind == OperationKind::Update
            &&& op.prev_value matches Some(OperationValue::StringValue(s)) && s@ == prior
        }),
{
}

} // verus!
