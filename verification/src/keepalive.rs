use vstd::prelude::*;

verus! {

/// Cadence of liveness pings toward the server, in seconds.  A tunable, not
/// a protocol invariant.
pub const KEEPALIVE_INTERVAL_SECS: u64 = 2;

/// A liveness ping: carries the wall-clock time (seconds since epoch) at
/// which it was built.
#[derive(Clone, Copy, PartialEq, Eq, Structural, Debug)]
pub struct MeshPing {
    pub time: u64,
}

/// Paces the keepalive cadence.  It remembers only when the last ping was
/// built; whether a send succeeded is of no concern to it, so a transient
/// send error can never stop the next tick from emitting a ping.
pub struct KeepaliveScheduler {
    last_sent: Option<u64>,
}

impl KeepaliveScheduler {
    /// When the last ping was built, as contracts see it.
    pub closed spec fn last_sent_spec(self) -> Option<u64> {
        self.last_sent
    }

    pub fn new() -> (s: KeepaliveScheduler)
        ensures
            s.last_sent_spec() is None,
    {
        KeepaliveScheduler { last_sent: None }
    }

    /// One timer tick: build exactly one ping stamped with the current time.
    pub fn tick(&mut self, now: u64) -> (p: MeshPing)
        ensures
            p.time == now,
            final(self).last_sent_spec() == Some(now),
    {
        self.last_sent = Some(now);
        MeshPing { time: now }
    }
}

} // verus!
