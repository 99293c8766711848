use vstd::prelude::*;

use crate::classifier::NatType;
use crate::endpoint::Endpoint;
use crate::table::IdTable;
use crate::table::Keyed;

verus! {

/// How long one handshake attempt may wait for the peer's response, in
/// seconds.  A tunable, not a protocol invariant.
pub const HANDSHAKE_TIMEOUT_SECS: u64 = 5;

/// How many times a timed-out direct attempt is retried before escalating
/// to a relay.  A tunable, not a protocol invariant.
pub const DIRECT_RETRY_BUDGET: u64 = 2;

/// The live states of one handshake attempt.  `Idle`, `Established` and
/// `Failed` are not stored: a peer with no session is idle, and both
/// terminal states discard the session.
#[derive(Clone, Copy, PartialEq, Eq, Structural, Debug)]
pub enum SessionState {
    /// The initiation message is being produced and sent.
    Initiating,
    /// The initiation went out; waiting for the peer's response until the
    /// deadline.
    AwaitingResponse,
}

/// Transient state for one in-progress handshake with one peer.
#[derive(Clone, Copy, PartialEq, Eq, Structural, Debug)]
pub struct HandshakeSession {
    pub peer_id: u64,
    pub state: SessionState,
    /// The address this attempt is directed at (a direct candidate, or a
    /// relay-assisted address when `via_relay` is set).
    pub target: Endpoint,
    /// Wall-clock second after which an `AwaitingResponse` attempt has
    /// timed out.  Meaningless while `Initiating`.
    pub deadline: u64,
    pub retries_used: u64,
    pub via_relay: bool,
}

impl Keyed for HandshakeSession {
    open spec fn key(self) -> u64 {
        self.peer_id
    }

    fn ekey(&self) -> (k: u64)
        ensures
            k == self.key(),
    {
        self.peer_id
    }
}

/// An `AwaitingResponse` session whose deadline has passed.
pub open spec fn session_expired(s: HandshakeSession, now: u64) -> bool {
    s.state is AwaitingResponse && s.deadline < now
}

/// What a timed-out attempt becomes.
#[derive(Clone, Copy, PartialEq, Eq, Structural, Debug)]
pub enum TimeoutDisposition {
    /// The direct path is retried: send a fresh initiation to `target`.
    RetryDirect { target: Endpoint },
    /// Direct attempts are done (symmetric NAT, or budget exhausted):
    /// escalate to the relay manager.
    Escalate,
    /// The relay-assisted attempt itself timed out: the peer is
    /// unreachable.
    Unreachable,
}

/// Drives handshake attempts, one per peer at most.
///
/// The orchestrator never invents addresses: every target it holds was
/// handed to it from the peer directory (or from a relay response), so
/// updates flow directory to orchestrator, never the reverse.
pub struct HandshakeOrchestrator {
    sessions: IdTable<HandshakeSession>,
}

impl HandshakeOrchestrator {
    pub closed spec fn wf(self) -> bool {
        self.sessions.wf()
    }

    /// The in-progress attempts as contracts see them: peer identifier to
    /// session.  That this is a map is the concurrency invariant: at most
    /// one session can exist per peer at any instant.
    pub closed spec fn view(self) -> Map<u64, HandshakeSession> {
        self.sessions@
    }

    pub fn new() -> (o: HandshakeOrchestrator)
        ensures
            o.wf(),
            o@ == Map::<u64, HandshakeSession>::empty(),
    {
        HandshakeOrchestrator { sessions: IdTable::new() }
    }

    /// Whether a session for `peer_id` is in progress.
    pub fn has_session(&self, peer_id: u64) -> (b: bool)
        requires
            self.wf(),
        ensures
            b == self@.contains_key(peer_id),
    {
        self.sessions.has(peer_id)
    }

    /// The session for `peer_id`, if one is in progress.
    pub fn session(&self, peer_id: u64) -> (r: Option<HandshakeSession>)
        requires
            self.wf(),
        ensures
            r is Some <==> self@.contains_key(peer_id),
            r matches Some(s) ==> s == self@[peer_id],
    {
        self.sessions.get(peer_id)
    }

    /// Idle to `Initiating`: start an attempt toward `target` unless one is
    /// already in progress — a trigger while a session exists is a no-op,
    /// never a parallel attempt.  Returns whether an attempt was started.
    pub fn trigger(&mut self, peer_id: u64, target: Endpoint, via_relay: bool) -> (started: bool)
        requires
            old(self).wf(),
        ensures
            final(self).wf(),
            started == !old(self)@.contains_key(peer_id),
            started ==> final(self)@ == old(self)@.insert(
                peer_id,
                (HandshakeSession {
                    peer_id,
                    state: SessionState::Initiating,
                    target,
                    deadline: 0,
                    retries_used: 0,
                    via_relay,
                }),
            ),
            !started ==> *final(self) == *old(self),
    {
        if self.sessions.has(peer_id) {
            false
        } else {
            self.sessions.put(
                HandshakeSession {
                    peer_id,
                    state: SessionState::Initiating,
                    target,
                    deadline: 0,
                    retries_used: 0,
                    via_relay,
                },
            );
            true
        }
    }

    /// `Initiating` to `AwaitingResponse`: the initiation message went out,
    /// the deadline timer starts.  A peer with no `Initiating` session is
    /// left alone.
    pub fn initiation_sent(&mut self, peer_id: u64, now: u64)
        requires
            old(self).wf(),
            now + HANDSHAKE_TIMEOUT_SECS <= u64::MAX,
        ensures
            final(self).wf(),
            (old(self)@.contains_key(peer_id) && old(self)@[peer_id].state is Initiating) ==> final(self)@ == old(self)@.insert(
                peer_id,
                (HandshakeSession {
                    state: SessionState::AwaitingResponse,
                    deadline: (now + HANDSHAKE_TIMEOUT_SECS) as u64,
                    ..old(self)@[peer_id]
                }),
            ),
            !(old(self)@.contains_key(peer_id) && old(self)@[peer_id].state is Initiating)
                ==> final(self)@ == old(self)@,
    {
        let r = self.sessions.get(peer_id);
        match r {
            Some(s) => {
                if s.state == SessionState::Initiating {
                    proof {
                        self.sessions.lemma_keys();
                    }
                    self.sessions.put(
                        HandshakeSession {
                            state: SessionState::AwaitingResponse,
                            deadline: now + HANDSHAKE_TIMEOUT_SECS,
                            ..s
                        },
                    );
                }
            },
            None => {},
        }
    }

    /// `AwaitingResponse` to `Established`: a handshake response arrived
    /// from `from`.  It completes the attempt exactly when it comes from
    /// the expected peer at the expected address before the deadline; the
    /// session is then discarded (success is terminal) and its target is
    /// returned so the session key can be handed to the data plane.  Any
    /// other response datagram changes nothing.
    pub fn on_response(&mut self, peer_id: u64, from: Endpoint, now: u64) -> (r: Option<Endpoint>)
        requires
            old(self).wf(),
        ensures
            final(self).wf(),
            r is Some <==> (old(self)@.contains_key(peer_id) && old(self)@[peer_id].state is AwaitingResponse && old(self)@[peer_id].target == from && now <= old(self)@[peer_id].deadline),
            r matches Some(t) ==> t == from && final(self)@ == old(self)@.remove(peer_id),
            r is None ==> *final(self) == *old(self),
    {
        let s = self.sessions.get(peer_id);
        match s {
            Some(s) => {
                if s.state == SessionState::AwaitingResponse && s.target == from && now
                    <= s.deadline {
                    self.sessions.del(peer_id);
                    Some(from)
                } else {
                    None
                }
            },
            None => None,
        }
    }

    /// Forcibly abandon the attempt for `peer_id`, if any: the peer's
    /// address is no longer trustworthy (a `HostMovedNotification`
    /// superseded it), so the session goes to `Failed` and is discarded in
    /// the same processing step.
    pub fn cancel(&mut self, peer_id: u64)
        requires
            old(self).wf(),
        ensures
            final(self).wf(),
            final(self)@ == old(self)@.remove(peer_id),
    {
        self.sessions.del(peer_id);
    }

    /// Settle the attempt for `peer_id` if its deadline has passed.
    ///
    /// With an asymmetric local NAT and budget left, the direct path is
    /// retried: the session returns to `Initiating` with one more retry
    /// used.  With a symmetric local NAT, or the budget exhausted, direct
    /// attempts stop and the peer escalates to the relay manager.  A
    /// relay-assisted attempt that times out makes the peer unreachable.
    /// Sessions that have not expired are left exactly as they are.
    pub fn check_deadline(&mut self, peer_id: u64, now: u64, local_nat: NatType) -> (d: Option<
        TimeoutDisposition,
    >)
        requires
            old(self).wf(),
        ensures
            final(self).wf(),
            d is Some <==> (old(self)@.contains_key(peer_id) && session_expired(
                old(self)@[peer_id],
                now,
            )),
            d is None ==> *final(self) == *old(self),
            d matches Some(disp) ==> {
                let s = old(self)@[peer_id];
                if !s.via_relay && local_nat is Asymmetric && s.retries_used
                    < DIRECT_RETRY_BUDGET {
                    &&& disp == (TimeoutDisposition::RetryDirect { target: s.target })
                    &&& final(self)@ == old(self)@.insert(
                        peer_id,
                        (HandshakeSession {
                            state: SessionState::Initiating,
                            retries_used: (s.retries_used + 1) as u64,
                            ..s
                        }),
                    )
                } else if !s.via_relay {
                    &&& disp is Escalate
                    &&& final(self)@ == old(self)@.remove(peer_id)
                } else {
                    &&& disp is Unreachable
                    &&& final(self)@ == old(self)@.remove(peer_id)
                }
            },
    {
        let r = self.sessions.get(peer_id);
        match r {
            Some(s) => {
                if s.state == SessionState::AwaitingResponse && s.deadline < now {
                    if !s.via_relay && local_nat == NatType::Asymmetric && s.retries_used
                        < DIRECT_RETRY_BUDGET {
                        proof {
                            self.sessions.lemma_keys();
                        }
                        self.sessions.put(
                            HandshakeSession {
                                state: SessionState::Initiating,
                                retries_used: s.retries_used + 1,
                                ..s
                            },
                        );
                        Some(TimeoutDisposition::RetryDirect { target: s.target })
                    } else if !s.via_relay {
                        self.sessions.del(peer_id);
                        Some(TimeoutDisposition::Escalate)
                    } else {
                        self.sessions.del(peer_id);
                        Some(TimeoutDisposition::Unreachable)
                    }
                } else {
                    None
                }
            },
            None => None,
        }
    }

    /// Every peer whose attempt has expired by `now`, each exactly once.
    pub fn expired_peers(&self, now: u64) -> (v: Vec<u64>)
        requires
            self.wf(),
        ensures
            forall|p: int, q: int| 0 <= p < q < v@.len() ==> v@[p] != v@[q],
            forall|k: int|
                0 <= k < v@.len() ==> self@.contains_key(v@[k]) && session_expired(
                    self@[v@[k]],
                    now,
                ),
            forall|id: u64|
                self@.contains_key(id) && session_expired(self@[id], now) ==> v@.contains(id),
    {
        let keys = self.sessions.keys();
        let mut v: Vec<u64> = Vec::new();
        let mut i: usize = 0;
        while i < keys.len()
            invariant
                self.wf(),
                0 <= i <= keys@.len(),
                forall|p: int, q: int| 0 <= p < q < keys@.len() ==> keys@[p] != keys@[q],
                forall|k: u64| #[trigger] keys@.contains(k) <==> self@.contains_key(k),
                forall|p: int, q: int| 0 <= p < q < v@.len() ==> v@[p] != v@[q],
                forall|k: int|
                    0 <= k < v@.len() ==> self@.contains_key(v@[k]) && session_expired(
                        self@[v@[k]],
                        now,
                    ),
                forall|k: int| 0 <= k < v@.len() ==> keys@.subrange(0, i as int).contains(v@[k]),
                forall|p: int|
                    0 <= p < i && self@.contains_key(keys@[p]) && session_expired(
                        self@[keys@[p]],
                        now,
                    ) ==> v@.contains(keys@[p]),
            decreases keys@.len() - i,
        {
            let id = keys[i];
            proof {
                assert(keys@.contains(keys@[i as int]));
            }
            let s = self.sessions.get(id);
            match s {
                Some(s) => {
                    let expired = s.state == SessionState::AwaitingResponse && s.deadline < now;
                    if expired {
                        let ghost vpre = v@;
                        v.push(id);
                        proof {
                            assert(v@[vpre.len() as int] == id);
                            assert(v@.contains(id));
                            assert forall|x: u64| vpre.contains(x) implies v@.contains(x) by {
                                let j = choose|j: int| 0 <= j < vpre.len() && vpre[j] == x;
                                assert(v@[j] == x);
                            }
                            assert forall|k: int|
                                0 <= k < v@.len() implies keys@.subrange(0, i + 1).contains(
                                v@[k],
                            ) by {
                                if k < vpre.len() {
                                    assert(vpre[k] == v@[k]);
                                    let j = choose|j: int|
                                        0 <= j < i && keys@.subrange(0, i as int)[j] == vpre[k];
                                    assert(keys@.subrange(0, i + 1)[j] == vpre[k]);
                                } else {
                                    assert(v@[k] == id);
                                    assert(keys@.subrange(0, i + 1)[i as int] == id);
                                }
                            }
                            assert forall|p: int, q: int|
                                0 <= p < q < v@.len() implies v@[p] != v@[q] by {
                                if q == v@.len() - 1 {
                                    let j = choose|j: int|
                                        0 <= j < i && keys@.subrange(0, i as int)[j] == v@[p];
                                    assert(keys@[j] == v@[p]);
                                    assert(keys@[i as int] == id);
                                }
                            }
                        }
                    } else {
                        proof {
                            assert forall|k: int|
                                0 <= k < v@.len() implies keys@.subrange(0, i + 1).contains(
                                v@[k],
                            ) by {
                                let j = choose|j: int|
                                    0 <= j < i && keys@.subrange(0, i as int)[j] == v@[k];
                                assert(keys@.subrange(0, i + 1)[j] == v@[k]);
                            }
                        }
                    }
                },
                None => {
                    proof {
                        assert forall|k: int|
                            0 <= k < v@.len() implies keys@.subrange(0, i + 1).contains(v@[k]) by {
                            let j = choose|j: int|
                                0 <= j < i && keys@.subrange(0, i as int)[j] == v@[k];
                            assert(keys@.subrange(0, i + 1)[j] == v@[k]);
                        }
                    }
                },
            }
            i = i + 1;
        }
        proof {
            assert forall|id: u64|
                self@.contains_key(id) && session_expired(self@[id], now) implies v@.contains(
                id,
            ) by {
                assert(keys@.contains(id));
                let p = choose|p: int| 0 <= p < keys@.len() && keys@[p] == id;
            }
        }
        v
    }
}

} // verus!
