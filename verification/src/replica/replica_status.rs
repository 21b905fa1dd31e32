//! Per-replica liveness records.
//!
//! The record keeps plain values only: the address as text, the last
//! heartbeat round trip in milliseconds, and the cached connection as a
//! numeric handle the surrounding runtime owns.  The monitor's state machine
//! (see `monitor`) is the only writer.

use vstd::prelude::*;

verus! {

/// Liveness record for one replica.
#[derive(Debug, Clone)]
pub struct ReplicaStatus {
    /// Unique replica name.
    pub name: String,
    /// Round trip of the last successful heartbeat, in milliseconds; zero
    /// when none has succeeded since the last (re)connect.
    pub ping: u64,
    /// Whether the replica answered its most recent tick.
    pub ready: bool,
    /// The replica's socket address as text, when configuration gave one.
    pub addr: Option<String>,
    /// Consecutive failed ticks.
    pub failures: u32,
    /// Handle of the live connection the runtime holds for this replica.
    pub stream: Option<u64>,
}

impl ReplicaStatus {
    /// A record for a freshly configured replica: no ping yet, no failures,
    /// no cached connection.
    pub fn new(name: String, ready: bool, addr: Option<String>) -> (r: Self)
        ensures
            r == (ReplicaStatus { name, ping: 0, ready, addr, failures: 0, stream: None }),
    {
        Self { name, ping: 0, ready, addr, failures: 0, stream: None }
    }

    /// The blank record: unnamed, never pinged, not ready.
    pub fn default() -> (r: Self)
        ensures
            r.name@ == Seq::<char>::empty(),
            r.ping == 0,
            !r.ready,
            r.addr is None,
            r.failures == 0,
            r.stream is None,
    {
        Self {
            name: String::new(),
            ping: 0,
            ready: false,
            addr: None,
            failures: 0,
            stream: None,
        }
    }
}

impl Default for ReplicaStatus {
    fn default() -> (r: Self)
        ensures
            r.name@ == Seq::<char>::empty(),
            r.ping == 0,
            !r.ready,
            r.addr is None,
            r.failures == 0,
            r.stream is None,
    {
        ReplicaStatus::default()
    }
}

} // verus!
