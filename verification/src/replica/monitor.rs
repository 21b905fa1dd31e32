//! The replica monitor's per-tick state machine and status registry.
//!
//! Once a second, the surrounding runtime performs one outside action per
//! replica — a connect attempt when no connection is cached, a PING/PONG
//! heartbeat when one is — and reports the outcome here as a `TickEvent`.
//! This module decides what the outcome does to the replica's record: a
//! success marks the replica ready and clears the failure count; any failure
//! clears `ready` and counts, and at three consecutive failures the cached
//! connection is discarded so the next tick reconnects.

use vstd::prelude::*;

use crate::replica::replica_status::ReplicaStatus;

verus! {

/// The outcome of one tick's outside action for one replica.
#[derive(Debug, Clone, Copy, PartialEq, Eq, Structural)]
pub enum TickEvent {
    /// A connect attempt handed back a live connection under this handle.
    ConnectSucceeded { stream: u64 },
    /// The connect attempt failed or timed out.
    ConnectFailed,
    /// The heartbeat came back `PONG` within its deadline, after this many
    /// milliseconds.
    HeartbeatSucceeded { ping: u64 },
    /// The heartbeat timed out, failed, or answered something else.
    HeartbeatFailed,
}

/// The action the runtime should try on the next tick for a record.
#[derive(Debug, Clone, Copy, PartialEq, Eq, Structural)]
pub enum TickAction {
    /// No address is configured: leave the record alone.
    Skip,
    /// No cached connection: attempt a connect (3 s timeout).
    Connect,
    /// Heartbeat the cached connection (1 s read timeout).
    Heartbeat { stream: u64 },
}

/// Did this tick fail?
pub open spec fn is_failure(e: TickEvent) -> bool {
    e is ConnectFailed || e is HeartbeatFailed
}

/// What one tick outcome does to a replica's record.  The failure count
/// saturates rather than wraps.
pub open spec fn tick_spec(st: ReplicaStatus, e: TickEvent) -> ReplicaStatus {
    match e {
        TickEvent::ConnectSucceeded { stream } => ReplicaStatus {
            stream: Some(stream),
            ping: 0,
            ready: true,
            failures: 0,
            ..st
        },
        TickEvent::HeartbeatSucceeded { ping } => ReplicaStatus {
            ping,
            ready: true,
            failures: 0,
            ..st
        },
        TickEvent::ConnectFailed | TickEvent::HeartbeatFailed => {
            let f = if st.failures < u32::MAX {
                (st.failures + 1) as u32
            } else {
                st.failures
            };
            ReplicaStatus {
                ping: 0,
                ready: false,
                failures: f,
                stream: if f >= 3 {
                    None
                } else {
                    st.stream
                },
                ..st
            }
        },
    }
}

/// The action a record calls for.
pub open spec fn next_action_spec(st: ReplicaStatus) -> TickAction {
    if st.addr is None {
        TickAction::Skip
    } else {
        match st.stream {
            Some(stream) => TickAction::Heartbeat { stream },
            None => TickAction::Connect,
        }
    }
}

/// The exact five bytes a heartbeat reply must hold.
pub open spec fn pong_reply() -> Seq<u8> {
    seq![80u8, 79u8, 78u8, 71u8, 10u8]
}

/// The exact five bytes a heartbeat request holds.
pub open spec fn ping_request() -> Seq<u8> {
    seq![80u8, 73u8, 78u8, 71u8, 10u8]
}

/// Apply one tick outcome to a replica's record.
pub fn apply_tick(status: &mut ReplicaStatus, event: TickEvent)
    ensures
        *final(status) == tick_spec(*old(status), event),
{
    match event {
        TickEvent::ConnectSucceeded { stream } => {
            status.stream = Some(stream);
            status.ping = 0;
            status.ready = true;
            status.failures = 0;
        },
        TickEvent::HeartbeatSucceeded { ping } => {
            status.ping = ping;
            status.ready = true;
            status.failures = 0;
        },
        TickEvent::ConnectFailed | TickEvent::HeartbeatFailed => {
            status.ping = 0;
            status.ready = false;
            if status.failures < u32::MAX {
                status.failures = status.failures + 1;
            }
            if status.failures >= 3 {
                status.stream = None;
            }
        },
    }
}

/// Which outside action the runtime should perform for this record.
pub fn next_action(status: &ReplicaStatus) -> (r: TickAction)
    ensures
        r == next_action_spec(*status),
{
    if status.addr.is_none() {
        TickAction::Skip
    } else {
        match status.stream {
            Some(stream) => TickAction::Heartbeat { stream },
            None => TickAction::Connect,
        }
    }
}

/// Classify the five bytes read back after a PING: exactly `PONG\n` counts
/// as a success with the measured round trip, anything else as a failure.
pub fn classify_heartbeat_reply(reply: &Vec<u8>, elapsed_ms: u64) -> (r: TickEvent)
    ensures
        r == if reply@ == pong_reply() {
            TickEvent::HeartbeatSucceeded { ping: elapsed_ms }
        } else {
            TickEvent::HeartbeatFailed
        },
{
    if reply.len() == 5 && reply[0] == 80 && reply[1] == 79 && reply[2] == 78 && reply[3] == 71
        && reply[4] == 10 {
        proof {
            assert(reply@ =~= pong_reply());
        }
        TickEvent::HeartbeatSucceeded { ping: elapsed_ms }
    } else {
        TickEvent::HeartbeatFailed
    }
}

/// The five bytes of a heartbeat request, ready to send.
pub fn ping_frame() -> (r: Vec<u8>)
    ensures
        r@ == ping_request(),
{
    let mut v: Vec<u8> = Vec::new();
    v.push(80);
    v.push(73);
    v.push(78);
    v.push(71);
    v.push(10);
    proof {
        assert(v@ =~= ping_request());
    }
    v
}

/// The registry of replica records the monitor owns, one per configured
/// replica, keyed by the replica's unique name.
pub struct ReplicaMonitorServer {
    replicas: Vec<ReplicaStatus>,
}

impl ReplicaMonitorServer {
    /// The records, in configuration order.
    pub closed spec fn view_replicas(&self) -> Seq<ReplicaStatus> {
        self.replicas@
    }

    /// Names are pairwise distinct.
    pub open spec fn wf(&self) -> bool {
        forall|i: int, j: int|
            0 <= i < j < self.view_replicas().len() ==> self.view_replicas()[i].name@
                != self.view_replicas()[j].name@
    }

    /// Build the registry from the configured replicas' records.
    pub fn new(replicas: Vec<ReplicaStatus>) -> (r: Self)
        requires
            forall|i: int, j: int|
                0 <= i < j < replicas@.len() ==> replicas@[i].name@ != replicas@[j].name@,
        ensures
            r.wf(),
            r.view_replicas() == replicas@,
    {
        Self { replicas }
    }

    /// How many replicas are tracked.
    pub fn len(&self) -> (r: usize)
        ensures
            r == self.view_replicas().len(),
    {
        self.replicas.len()
    }

    /// The record at a position, for the runtime's per-tick pass.
    pub fn status_at(&self, i: usize) -> (r: &ReplicaStatus)
        requires
            i < self.view_replicas().len(),
        ensures
            *r == self.view_replicas()[i as int],
    {
        &self.replicas[i]
    }

    /// Record one tick outcome for the replica at a position.
    pub fn tick_at(&mut self, i: usize, event: TickEvent)
        requires
            old(self).wf(),
            i < old(self).view_replicas().len(),
        ensures
            final(self).wf(),
            final(self).view_replicas() == old(self).view_replicas().update(
                i as int,
                tick_spec(old(self).view_replicas()[i as int], event),
            ),
    {
        let mut st = self.replicas.remove(i);
        apply_tick(&mut st, event);
        self.replicas.insert(i, st);
        proof {
            assert(self.replicas@ =~= old(self).replicas@.update(
                i as int,
                tick_spec(old(self).replicas@[i as int], event),
            ));
        }
    }

    /// Look a replica's record up by name; the snapshot other subsystems
    /// consult.
    pub fn get_status(&self, name: &str) -> (r: Option<&ReplicaStatus>)
        requires
            self.wf(),
        ensures
            match r {
                Some(st) => exists|i: int|
                    0 <= i < self.view_replicas().len() && *st == self.view_replicas()[i]
                        && st.name@ == name@,
                None => forall|i: int|
                    0 <= i < self.view_replicas().len() ==> self.view_replicas()[i].name@ != name@,
            },
    {
        let n = self.replicas.len();
        let mut i: usize = 0;
        while i < n
            invariant
                n == self.replicas@.len(),
                i <= n,
                forall|j: int| 0 <= j < i ==> self.replicas@[j].name@ != name@,
            decreases n - i,
        {
            if crate::commands::tokens::str_eq(self.replicas[i].name.as_str(), name) {
                return Some(&self.replicas[i]);
            }
            i = i + 1;
        }
        None
    }
}

/// The request handler's heartbeat reply string encodes byte-for-byte to
/// the frame this monitor accepts: responder and monitor agree on the
/// five-byte bare form.
pub proof fn lemma_pong_reply_matches_handler()
    ensures
        vstd::utf8::encode_utf8("PONG\n"@) == pong_reply(),
{
    reveal_strlit("PONG\n");
    assert(vstd::utf8::is_ascii_chars("PONG\n"@));
    vstd::utf8::is_ascii_chars_encode_utf8("PONG\n"@);
    assert(vstd::utf8::encode_utf8("PONG\n"@) =~= pong_reply());
}

/// Three consecutive failed ticks leave the replica marked down: not ready,
/// at least three counted failures, and no cached connection.
pub proof fn lemma_three_failures_disconnect(
    st: ReplicaStatus,
    e1: TickEvent,
    e2: TickEvent,
    e3: TickEvent,
)
    requires
        is_failure(e1),
        is_failure(e2),
        is_failure(e3),
    ensures
        ({
            let r = tick_spec(tick_spec(tick_spec(st, e1), e2), e3);
            &&& !r.ready
            &&& r.failures >= 3
            &&& r.stream is None
        }),
{
}

/// One successful heartbeat, after any run of failures, marks the replica
/// ready again with a clean failure count and the measured round trip.
pub proof fn lemma_heartbeat_success_resets(st: ReplicaStatus, ping: u64)
    ensures
        ({
            let r = tick_spec(st, TickEvent::HeartbeatSucceeded { ping });
            &&& r.ready
            &&& r.failures == 0
            &&& r.ping == ping
            &&& r.stream == st.stream
        }),
{
}

/// A successful connect stores the fresh connection and marks the replica
/// ready with a clean failure count.
pub proof fn lemma_connect_success_resets(st: ReplicaStatus, stream: u64)
    ensures
        ({
            let r = tick_spec(st, TickEvent::ConnectSucceeded { stream });
            &&& r.ready
            &&& r.failures == 0
            &&& r.ping == 0
            &&& r.stream == Some(stream)
        }),
{
}

} // verus!
