use vstd::prelude::*;

use crate::classifier::classified;
use crate::classifier::NatClassifier;
use crate::classifier::NatType;
use crate::classifier::WhoamiObservation;
use crate::codec::be64_at;
use crate::codec::parsed_control;
use crate::codec::parsed_meta;
use crate::codec::ControlKind;
use crate::codec::ControlMessage;
use crate::codec::DecodeError;
use crate::codec::HandshakeMessage;
use crate::codec::MetaKind;
use crate::codec::MetaMessage;
use crate::codec::HEADER_LEN;
use crate::codec::TAG_CONTROL;
use crate::codec::TAG_HANDSHAKE;
use crate::codec::TAG_META;
use crate::codec::decode;
use crate::codec::ClientMessage;
use crate::directory::PeerDirectory;
use crate::directory::PeerRecord;
use crate::endpoint::Endpoint;
use crate::handshake::session_expired;
use crate::handshake::HandshakeOrchestrator;
use crate::handshake::HandshakeSession;
use crate::handshake::SessionState;
use crate::handshake::TimeoutDisposition;
use crate::handshake::DIRECT_RETRY_BUDGET;
use crate::handshake::HANDSHAKE_TIMEOUT_SECS;
use crate::keepalive::KeepaliveScheduler;
use crate::keepalive::MeshPing;
use crate::relay::RelayManager;
use crate::relay::RelayOutcome;
use crate::relay::RelaySession;

verus! {

/// What the mediator asks its surroundings to do.  The event loop performs
/// these: it encodes and sends datagrams, drives the handshake engine, and
/// hands completed sessions to the data plane.
#[derive(Clone, Copy, PartialEq, Eq, Structural, Debug)]
pub enum Action {
    /// Reply to a server `HostQuery`: report whether `peer_id` is believed
    /// reachable.  Sent to the server, not to the peer.
    SendPathCheck { peer_id: u64, reachable: bool },
    /// Ask the handshake engine for an initiation message for `peer_id` and
    /// send it to `target`; report back through `initiation_sent`.
    SendInitiation { peer_id: u64, target: Endpoint },
    /// Ask the server to create a relay toward `peer_id`.
    RequestRelay { peer_id: u64 },
    /// A handshake completed: feed the response bytes to the engine and
    /// hand (peer, session key, `target`) to the data plane.
    HandoffSession { peer_id: u64, target: Endpoint },
    /// The peer could not be reached directly or by relay.
    ReportUnreachable { peer_id: u64 },
}

/// The NAT classification a `HostUpdateNotification` carries in its
/// auxiliary word.
pub open spec fn nat_type_of_code(code: u64) -> NatType {
    if code == 1 {
        NatType::Asymmetric
    } else if code == 2 {
        NatType::Symmetric
    } else {
        NatType::Unknown
    }
}

fn nat_type_from_code(code: u64) -> (n: NatType)
    ensures
        n == nat_type_of_code(code),
{
    if code == 1 {
        NatType::Asymmetric
    } else if code == 2 {
        NatType::Symmetric
    } else {
        NatType::Unknown
    }
}

/// The server-side port a `HostWhoami` report carries in its auxiliary
/// word.
pub open spec fn port_of_aux(aux: u64) -> u16 {
    (aux & 0xffff) as u16
}

fn port_from_aux(aux: u64) -> (p: u16)
    ensures
        p == port_of_aux(aux),
{
    (aux & 0xffff) as u16
}

/// The single coordinating actor: owns the peer directory, the handshake
/// orchestrator, the relay manager, the NAT classifier and the keepalive
/// scheduler, and mutates them only in response to the events the event
/// loop feeds it.
pub struct MeshMediator {
    directory: PeerDirectory,
    orchestrator: HandshakeOrchestrator,
    relays: RelayManager,
    classifier: NatClassifier,
    keepalive: KeepaliveScheduler,
    shutdown_requested: bool,
}

impl MeshMediator {
    pub closed spec fn wf(self) -> bool {
        &&& self.directory.wf()
        &&& self.orchestrator.wf()
        &&& self.relays.wf()
    }

    /// The peer directory as contracts see it.
    pub closed spec fn dir(self) -> Map<u64, PeerRecord> {
        self.directory@
    }

    /// The in-progress handshake attempts, at most one per peer.
    pub closed spec fn sessions(self) -> Map<u64, HandshakeSession> {
        self.orchestrator@
    }

    /// The granted relay sessions.
    pub closed spec fn relay_sessions(self) -> Map<u64, RelaySession> {
        self.relays@
    }

    /// The peers with an outstanding relay-creation request.
    pub closed spec fn relay_pending(self) -> Set<u64> {
        self.relays.pending_view()
    }

    /// The local node's NAT verdict.
    pub closed spec fn local_nat(self) -> NatType {
        self.classifier.verdict_spec()
    }

    /// The latest `HostWhoami` observation.
    pub closed spec fn last_observation(self) -> Option<WhoamiObservation> {
        self.classifier.last_spec()
    }

    /// When the last keepalive ping was built.
    pub closed spec fn last_ping(self) -> Option<u64> {
        self.keepalive.last_sent_spec()
    }

    /// Whether a shutdown has been requested.
    pub closed spec fn shutdown_spec(self) -> bool {
        self.shutdown_requested
    }
}

/// The parts of the mediator a datagram never touches: the shutdown flag
/// and the keepalive pacing.
pub open spec fn quiet_parts_same(pre: MeshMediator, post: MeshMediator) -> bool {
    &&& post.shutdown_spec() == pre.shutdown_spec()
    &&& post.last_ping() == pre.last_ping()
}

/// The full effect of one `Meta` message.
pub open spec fn meta_step(
    pre: MeshMediator,
    post: MeshMediator,
    acts: Seq<Action>,
    meta: MetaMessage,
    now: u64,
) -> bool {
    match meta.kind {
        MetaKind::HostQuery => {
            // The server probes whether we can still reach the peer; answer
            // from the directory, to the server, changing nothing.
            &&& post == pre
            &&& acts == seq![
                Action::SendPathCheck {
                    peer_id: meta.peer_id,
                    reachable: pre.dir().contains_key(meta.peer_id),
                },
            ]
        },
        MetaKind::HostUpdateNotification => {
            // Newest data wins: replace the record outright.
            &&& post.dir() == pre.dir().insert(
                meta.peer_id,
                PeerRecord {
                    peer_id: meta.peer_id,
                    addr: meta.endpoint,
                    nat_type: nat_type_of_code(meta.aux),
                    last_seen: now,
                },
            )
            &&& post.sessions() == pre.sessions()
            &&& post.relay_sessions() == pre.relay_sessions()
            &&& post.relay_pending() == pre.relay_pending()
            &&& post.local_nat() == pre.local_nat()
            &&& post.last_observation() == pre.last_observation()
            &&& quiet_parts_same(pre, post)
            &&& acts == Seq::<Action>::empty()
        },
        MetaKind::HostMovedNotification => {
            // The prior address is dead: drop the record and abandon any
            // in-flight handshake in the same processing step.
            &&& post.dir() == pre.dir().remove(meta.peer_id)
            &&& post.sessions() == pre.sessions().remove(meta.peer_id)
            &&& post.relay_sessions() == pre.relay_sessions()
            &&& post.relay_pending() == pre.relay_pending()
            &&& post.local_nat() == pre.local_nat()
            &&& post.last_observation() == pre.last_observation()
            &&& quiet_parts_same(pre, post)
            &&& acts == Seq::<Action>::empty()
        },
        MetaKind::HostPunchNotification => {
            // Learn the candidate address, then punch now — unless an
            // attempt is already in flight, which makes this a no-op
            // trigger.
            let kept_nat = if pre.dir().contains_key(meta.peer_id) {
                pre.dir()[meta.peer_id].nat_type
            } else {
                NatType::Unknown
            };
            &&& post.dir() == pre.dir().insert(
                meta.peer_id,
                PeerRecord {
                    peer_id: meta.peer_id,
                    addr: meta.endpoint,
                    nat_type: kept_nat,
                    last_seen: now,
                },
            )
            &&& if pre.sessions().contains_key(meta.peer_id) {
                &&& post.sessions() == pre.sessions()
                &&& acts == Seq::<Action>::empty()
            } else {
                &&& post.sessions() == pre.sessions().insert(
                    meta.peer_id,
                    HandshakeSession {
                        peer_id: meta.peer_id,
                        state: SessionState::Initiating,
                        target: meta.endpoint,
                        deadline: 0,
                        retries_used: 0,
                        via_relay: false,
                    },
                )
                &&& acts == seq![
                    Action::SendInitiation { peer_id: meta.peer_id, target: meta.endpoint },
                ]
            }
            &&& post.relay_sessions() == pre.relay_sessions()
            &&& post.relay_pending() == pre.relay_pending()
            &&& post.local_nat() == pre.local_nat()
            &&& post.last_observation() == pre.last_observation()
            &&& quiet_parts_same(pre, post)
        },
        MetaKind::HostWhoami => {
            // Feed the classifier; nothing else moves.
            &&& post.dir() == pre.dir()
            &&& post.sessions() == pre.sessions()
            &&& post.relay_sessions() == pre.relay_sessions()
            &&& post.relay_pending() == pre.relay_pending()
            &&& post.local_nat() == classified(
                pre.last_observation(),
                pre.local_nat(),
                port_of_aux(meta.aux),
                meta.endpoint,
            )
            &&& post.last_observation() == Some(
                WhoamiObservation { server_port: port_of_aux(meta.aux), observed: meta.endpoint },
            )
            &&& quiet_parts_same(pre, post)
            &&& acts == Seq::<Action>::empty()
        },
        MetaKind::PathCheck => {
            // We only send these; an inbound one decides nothing.
            &&& post == pre
            &&& acts == Seq::<Action>::empty()
        },
        MetaKind::Unknown => {
            // Forward compatibility: an unknown sub-type is a no-op, never
            // an error.
            &&& post == pre
            &&& acts == Seq::<Action>::empty()
        },
    }
}

/// The full effect of one `Control` message.
pub open spec fn control_step(
    pre: MeshMediator,
    post: MeshMediator,
    acts: Seq<Action>,
    ctl: ControlMessage,
) -> bool {
    match ctl.kind {
        ControlKind::CreateRelayResponse => {
            if !pre.relay_pending().contains(ctl.peer_id) {
                // Unsolicited response: a no-op.
                &&& post == pre
                &&& acts == Seq::<Action>::empty()
            } else {
                &&& post.dir() == pre.dir()
                &&& post.local_nat() == pre.local_nat()
                &&& post.last_observation() == pre.last_observation()
                &&& post.relay_pending() == pre.relay_pending().remove(ctl.peer_id)
                &&& quiet_parts_same(pre, post)
                &&& if ctl.aux != 0 {
                    // Granted: record the session and re-enter the
                    // handshake with the relay address as the candidate.
                    &&& post.relay_sessions() == pre.relay_sessions().insert(
                        ctl.peer_id,
                        RelaySession {
                            peer_id: ctl.peer_id,
                            relay_addr: ctl.endpoint,
                            relay_id: ctl.aux,
                        },
                    )
                    &&& if pre.sessions().contains_key(ctl.peer_id) {
                        &&& post.sessions() == pre.sessions()
                        &&& acts == Seq::<Action>::empty()
                    } else {
                        &&& post.sessions() == pre.sessions().insert(
                            ctl.peer_id,
                            HandshakeSession {
                                peer_id: ctl.peer_id,
                                state: SessionState::Initiating,
                                target: ctl.endpoint,
                                deadline: 0,
                                retries_used: 0,
                                via_relay: true,
                            },
                        )
                        &&& acts == seq![
                            Action::SendInitiation { peer_id: ctl.peer_id, target: ctl.endpoint },
                        ]
                    }
                } else {
                    // Denied: the peer is unreachable.
                    &&& post.relay_sessions() == pre.relay_sessions()
                    &&& post.sessions() == pre.sessions()
                    &&& acts == seq![Action::ReportUnreachable { peer_id: ctl.peer_id }]
                }
            }
        },
        ControlKind::Unknown => {
            &&& post == pre
            &&& acts == Seq::<Action>::empty()
        },
    }
}

/// The full effect of one handshake datagram.
pub open spec fn handshake_step(
    pre: MeshMediator,
    post: MeshMediator,
    acts: Seq<Action>,
    peer_id: u64,
    from: Endpoint,
    now: u64,
) -> bool {
    let completes = pre.sessions().contains_key(peer_id)
        && pre.sessions()[peer_id].state is AwaitingResponse && pre.sessions()[peer_id].target
        == from && now <= pre.sessions()[peer_id].deadline;
    if completes {
        // Success is terminal: the session is discarded and the key handed
        // off; the directory notes the peer was just heard from.
        &&& post.sessions() == pre.sessions().remove(peer_id)
        &&& post.dir() == (if pre.dir().contains_key(peer_id) {
            pre.dir().insert(peer_id, PeerRecord { last_seen: now, ..pre.dir()[peer_id] })
        } else {
            pre.dir()
        })
        &&& post.relay_sessions() == pre.relay_sessions()
        &&& post.relay_pending() == pre.relay_pending()
        &&& post.local_nat() == pre.local_nat()
        &&& post.last_observation() == pre.last_observation()
        &&& quiet_parts_same(pre, post)
        &&& acts == seq![Action::HandoffSession { peer_id, target: from }]
    } else {
        // A response from the wrong address, after the deadline, or with no
        // attempt in flight changes nothing.
        &&& post == pre
        &&& acts == Seq::<Action>::empty()
    }
}

/// The full effect of settling one peer's expired handshake attempt.
pub open spec fn timeout_step(
    pre: MeshMediator,
    post: MeshMediator,
    acts: Seq<Action>,
    peer_id: u64,
    now: u64,
) -> bool {
    &&& post.dir() == pre.dir()
    &&& post.relay_sessions() == pre.relay_sessions()
    &&& post.local_nat() == pre.local_nat()
    &&& post.last_observation() == pre.last_observation()
    &&& quiet_parts_same(pre, post)
    &&& if !(pre.sessions().contains_key(peer_id) && session_expired(
        pre.sessions()[peer_id],
        now,
    )) {
        &&& post == pre
        &&& acts == Seq::<Action>::empty()
    } else {
        let s = pre.sessions()[peer_id];
        if !s.via_relay && pre.local_nat() is Asymmetric && s.retries_used < DIRECT_RETRY_BUDGET {
            // Asymmetric NAT with budget left: retry the direct path.
            &&& post.sessions() == pre.sessions().insert(
                peer_id,
                HandshakeSession {
                    state: SessionState::Initiating,
                    retries_used: (s.retries_used + 1) as u64,
                    ..s
                },
            )
            &&& post.relay_pending() == pre.relay_pending()
            &&& acts == seq![Action::SendInitiation { peer_id, target: s.target }]
        } else if !s.via_relay {
            // Symmetric NAT, or budget exhausted: escalate to a relay.
            &&& post.sessions() == pre.sessions().remove(peer_id)
            &&& post.relay_pending() == pre.relay_pending().insert(peer_id)
            &&& acts == (if pre.relay_pending().contains(peer_id) {
                Seq::<Action>::empty()
            } else {
                seq![Action::RequestRelay { peer_id }]
            })
        } else {
            // The relay-assisted attempt itself timed out: unreachable.
            &&& post.sessions() == pre.sessions().remove(peer_id)
            &&& post.relay_pending() == pre.relay_pending()
            &&& acts == seq![Action::ReportUnreachable { peer_id }]
        }
    }
}

/// The action one timer pass owes for `id`, judged against the state the
/// pass started from: a direct retry, a relay request (unless one is
/// already outstanding), a report that the peer is unreachable — or
/// nothing, when `id` has no expired attempt.
pub open spec fn timeout_action_due(pre: MeshMediator, id: u64, now: u64) -> Option<Action> {
    if !(pre.sessions().contains_key(id) && session_expired(pre.sessions()[id], now)) {
        None
    } else {
        let s = pre.sessions()[id];
        if !s.via_relay && pre.local_nat() is Asymmetric && s.retries_used < DIRECT_RETRY_BUDGET {
            Some(Action::SendInitiation { peer_id: id, target: s.target })
        } else if !s.via_relay {
            if pre.relay_pending().contains(id) {
                None
            } else {
                Some(Action::RequestRelay { peer_id: id })
            }
        } else {
            Some(Action::ReportUnreachable { peer_id: id })
        }
    }
}

/// At most one handshake session exists per peer at any instant.  The
/// session store is a map keyed by peer identifier, so two sessions for one
/// peer cannot coexist; this lemma states the dynamic half: a punch trigger
/// arriving while an attempt is already in flight — however fast such
/// triggers repeat — starts nothing and sends nothing.
pub proof fn lemma_single_session_per_peer(
    pre: MeshMediator,
    post: MeshMediator,
    acts: Seq<Action>,
    meta: MetaMessage,
    now: u64,
)
    requires
        meta.kind is HostPunchNotification,
        meta_step(pre, post, acts, meta, now),
        pre.sessions().contains_key(meta.peer_id),
    ensures
        post.sessions() == pre.sessions(),
        acts == Seq::<Action>::empty(),
{
}

/// A `HostMovedNotification` for a peer with an attempt in flight abandons
/// that attempt in the same processing step, and a handshake response
/// arriving any time later finds no session and changes nothing: the moved
/// notification cannot race with a late response.
pub proof fn lemma_moved_cancels_handshake(
    pre: MeshMediator,
    mid: MeshMediator,
    post: MeshMediator,
    move_acts: Seq<Action>,
    late_acts: Seq<Action>,
    meta: MetaMessage,
    from: Endpoint,
    now: u64,
    later: u64,
)
    requires
        meta.kind is HostMovedNotification,
        meta_step(pre, mid, move_acts, meta, now),
        handshake_step(mid, post, late_acts, meta.peer_id, from, later),
    ensures
        !mid.sessions().contains_key(meta.peer_id),
        post == mid,
        late_acts == Seq::<Action>::empty(),
{
    assert(mid.sessions() == pre.sessions().remove(meta.peer_id));
    assert(!mid.sessions().contains_key(meta.peer_id));
}

impl Default for MeshMediator {
    /// A mediator that knows nothing yet: empty directory, no sessions, no
    /// relays, unclassified NAT, no ping sent, shutdown not requested.
    fn default() -> (m: MeshMediator)
        ensures
            m.wf(),
            m.dir() == Map::<u64, PeerRecord>::empty(),
            m.sessions() == Map::<u64, HandshakeSession>::empty(),
            m.relay_sessions() == Map::<u64, RelaySession>::empty(),
            m.relay_pending() == Set::<u64>::empty(),
            m.local_nat() == NatType::Unknown,
            m.last_observation() is None,
            m.last_ping() is None,
            !m.shutdown_spec(),
    {
        MeshMediator {
            directory: PeerDirectory::new(),
            orchestrator: HandshakeOrchestrator::new(),
            relays: RelayManager::new(),
            classifier: NatClassifier::new(),
            keepalive: KeepaliveScheduler::new(),
            shutdown_requested: false,
        }
    }
}

impl MeshMediator {
    /// Request a cooperative shutdown.  Idempotent: a second request leaves
    /// the mediator exactly where the first did, and the loop exits once,
    /// on the first iteration that observes the flag.
    pub fn shutdown(&mut self)
        ensures
            final(self).shutdown_spec(),
            final(self).wf() == old(self).wf(),
            final(self).dir() == old(self).dir(),
            final(self).sessions() == old(self).sessions(),
            final(self).relay_sessions() == old(self).relay_sessions(),
            final(self).relay_pending() == old(self).relay_pending(),
            final(self).local_nat() == old(self).local_nat(),
            final(self).last_observation() == old(self).last_observation(),
            final(self).last_ping() == old(self).last_ping(),
    {
        self.shutdown_requested = true;
    }

    /// Whether the loop should exit: a shutdown was requested.
    pub fn should_exit(&self) -> (b: bool)
        ensures
            b == self.shutdown_spec(),
    {
        self.shutdown_requested
    }

    /// The directory's record of `peer_id`, if any.
    pub fn lookup(&self, peer_id: u64) -> (r: Option<PeerRecord>)
        requires
            self.wf(),
        ensures
            r is Some <==> self.dir().contains_key(peer_id),
            r matches Some(rec) ==> rec == self.dir()[peer_id],
    {
        self.directory.lookup(peer_id)
    }

    /// The in-progress handshake attempt for `peer_id`, if any.
    pub fn session(&self, peer_id: u64) -> (r: Option<HandshakeSession>)
        requires
            self.wf(),
        ensures
            r is Some <==> self.sessions().contains_key(peer_id),
            r matches Some(s) ==> s == self.sessions()[peer_id],
    {
        self.orchestrator.session(peer_id)
    }

    /// The granted relay session for `peer_id`, if any.
    pub fn relay_session(&self, peer_id: u64) -> (r: Option<RelaySession>)
        requires
            self.wf(),
        ensures
            r is Some <==> self.relay_sessions().contains_key(peer_id),
            r matches Some(s) ==> s == self.relay_sessions()[peer_id],
    {
        self.relays.session(peer_id)
    }

    /// The local node's current NAT verdict.
    pub fn nat_verdict(&self) -> (n: NatType)
        ensures
            n == self.local_nat(),
    {
        self.classifier.verdict()
    }

    /// An application request to reach `peer_id`: start a handshake toward
    /// its directory address.  Returns the initiation to send, or `None`
    /// when the peer is unknown or an attempt is already in flight.
    pub fn connect(&mut self, peer_id: u64) -> (r: Option<Action>)
        requires
            old(self).wf(),
        ensures
            final(self).wf(),
            final(self).dir() == old(self).dir(),
            final(self).relay_sessions() == old(self).relay_sessions(),
            final(self).relay_pending() == old(self).relay_pending(),
            final(self).local_nat() == old(self).local_nat(),
            final(self).last_observation() == old(self).last_observation(),
            quiet_parts_same(*old(self), *final(self)),
            r is Some <==> (old(self).dir().contains_key(peer_id) && !old(
                self,
            ).sessions().contains_key(peer_id)),
            r matches Some(a) ==> a == (Action::SendInitiation {
                peer_id,
                target: old(self).dir()[peer_id].addr,
            }) && final(self).sessions() == old(self).sessions().insert(
                peer_id,
                (HandshakeSession {
                    peer_id,
                    state: SessionState::Initiating,
                    target: old(self).dir()[peer_id].addr,
                    deadline: 0,
                    retries_used: 0,
                    via_relay: false,
                }),
            ),
            r is None ==> final(self).sessions() == old(self).sessions(),
    {
        let rec = self.directory.lookup(peer_id);
        match rec {
            Some(rec) => {
                let started = self.orchestrator.trigger(peer_id, rec.addr, false);
                if started {
                    Some(Action::SendInitiation { peer_id, target: rec.addr })
                } else {
                    None
                }
            },
            None => None,
        }
    }

    /// The initiation message for `peer_id` went out: start its deadline.
    pub fn initiation_sent(&mut self, peer_id: u64, now: u64)
        requires
            old(self).wf(),
            now + HANDSHAKE_TIMEOUT_SECS <= u64::MAX,
        ensures
            final(self).wf(),
            final(self).dir() == old(self).dir(),
            final(self).relay_sessions() == old(self).relay_sessions(),
            final(self).relay_pending() == old(self).relay_pending(),
            final(self).local_nat() == old(self).local_nat(),
            final(self).last_observation() == old(self).last_observation(),
            quiet_parts_same(*old(self), *final(self)),
            (old(self).sessions().contains_key(peer_id) && old(
                self,
            ).sessions()[peer_id].state is Initiating) ==> final(self).sessions() == old(
                self,
            ).sessions().insert(
                peer_id,
                (HandshakeSession {
                    state: SessionState::AwaitingResponse,
                    deadline: (now + HANDSHAKE_TIMEOUT_SECS) as u64,
                    ..old(self).sessions()[peer_id]
                }),
            ),
            !(old(self).sessions().contains_key(peer_id) && old(
                self,
            ).sessions()[peer_id].state is Initiating) ==> final(self).sessions() == old(
                self,
            ).sessions(),
    {
        self.orchestrator.initiation_sent(peer_id, now);
    }

    /// Drop every peer record older than the liveness timeout `max_age`.
    /// Sessions and relays are untouched: only the directory forgets.
    pub fn prune_stale(&mut self, now: u64, max_age: u64)
        requires
            old(self).wf(),
        ensures
            final(self).wf(),
            forall|id: u64| #[trigger]
                final(self).dir().contains_key(id) <==> (old(self).dir().contains_key(id)
                && !crate::directory::record_stale(old(self).dir()[id], now, max_age)),
            forall|id: u64| #[trigger]
                final(self).dir().contains_key(id) ==> final(self).dir()[id] == old(
                    self,
                ).dir()[id],
            final(self).sessions() == old(self).sessions(),
            final(self).relay_sessions() == old(self).relay_sessions(),
            final(self).relay_pending() == old(self).relay_pending(),
            final(self).local_nat() == old(self).local_nat(),
            final(self).last_observation() == old(self).last_observation(),
            quiet_parts_same(*old(self), *final(self)),
    {
        self.directory.prune_stale(now, max_age);
    }

    /// Forget the relay session for `peer_id` (its liveness checks failed).
    pub fn invalidate_relay(&mut self, peer_id: u64)
        requires
            old(self).wf(),
        ensures
            final(self).wf(),
            final(self).relay_sessions() == old(self).relay_sessions().remove(peer_id),
            final(self).relay_pending() == old(self).relay_pending(),
            final(self).dir() == old(self).dir(),
            final(self).sessions() == old(self).sessions(),
            final(self).local_nat() == old(self).local_nat(),
            final(self).last_observation() == old(self).last_observation(),
            quiet_parts_same(*old(self), *final(self)),
    {
        self.relays.invalidate(peer_id);
    }

    /// One keepalive tick: build exactly one ping stamped `now`, to send to
    /// the server.  Send failures are the caller's to log and ignore; they
    /// never reach the scheduler, so the next tick pings again.
    pub fn ping(&mut self, now: u64) -> (p: MeshPing)
        ensures
            final(self).wf() == old(self).wf(),
            p.time == now,
            final(self).last_ping() == Some(now),
            final(self).dir() == old(self).dir(),
            final(self).sessions() == old(self).sessions(),
            final(self).relay_sessions() == old(self).relay_sessions(),
            final(self).relay_pending() == old(self).relay_pending(),
            final(self).local_nat() == old(self).local_nat(),
            final(self).last_observation() == old(self).last_observation(),
            final(self).shutdown_spec() == old(self).shutdown_spec(),
    {
        self.keepalive.tick(now)
    }

    /// Process one `Meta` message.
    pub fn process_mesh_meta_message(&mut self, meta: MetaMessage, now: u64) -> (r: Vec<Action>)
        requires
            old(self).wf(),
        ensures
            final(self).wf(),
            meta_step(*old(self), *final(self), r@, meta, now),
    {
        let mut acts: Vec<Action> = Vec::new();
        match meta.kind {
            MetaKind::HostQuery => {
                let reachable = self.directory.contains(meta.peer_id);
                acts.push(Action::SendPathCheck { peer_id: meta.peer_id, reachable });
                proof {
                    assert(acts@ =~= seq![
                        Action::SendPathCheck {
                            peer_id: meta.peer_id,
                            reachable: old(self).dir().contains_key(meta.peer_id),
                        },
                    ]);
                }
            },
            MetaKind::HostUpdateNotification => {
                let nat_type = nat_type_from_code(meta.aux);
                self.directory.upsert(meta.peer_id, meta.endpoint, nat_type, now);
                proof {
                    assert(acts@ =~= Seq::<Action>::empty());
                }
            },
            MetaKind::HostMovedNotification => {
                self.directory.remove(meta.peer_id);
                self.orchestrator.cancel(meta.peer_id);
                proof {
                    assert(acts@ =~= Seq::<Action>::empty());
                }
            },
            MetaKind::HostPunchNotification => {
                let prior = self.directory.lookup(meta.peer_id);
                let kept_nat = match prior {
                    Some(rec) => rec.nat_type,
                    None => NatType::Unknown,
                };
                self.directory.upsert(meta.peer_id, meta.endpoint, kept_nat, now);
                let started = self.orchestrator.trigger(meta.peer_id, meta.endpoint, false);
                if started {
                    acts.push(
                        Action::SendInitiation { peer_id: meta.peer_id, target: meta.endpoint },
                    );
                    proof {
                        assert(acts@ =~= seq![
                            Action::SendInitiation {
                                peer_id: meta.peer_id,
                                target: meta.endpoint,
                            },
                        ]);
                    }
                } else {
                    proof {
                        assert(acts@ =~= Seq::<Action>::empty());
                    }
                }
            },
            MetaKind::HostWhoami => {
                let port = port_from_aux(meta.aux);
                self.classifier.observe(port, meta.endpoint);
                proof {
                    assert(acts@ =~= Seq::<Action>::empty());
                }
            },
            MetaKind::PathCheck => {
                proof {
                    assert(acts@ =~= Seq::<Action>::empty());
                }
            },
            MetaKind::Unknown => {
                proof {
                    assert(acts@ =~= Seq::<Action>::empty());
                }
            },
        }
        acts
    }

    /// Process one `Control` message.
    pub fn process_control(&mut self, ctl: ControlMessage) -> (r: Vec<Action>)
        requires
            old(self).wf(),
        ensures
            final(self).wf(),
            control_step(*old(self), *final(self), r@, ctl),
    {
        let mut acts: Vec<Action> = Vec::new();
        match ctl.kind {
            ControlKind::CreateRelayResponse => {
                let outcome = self.relays.on_response(ctl.peer_id, ctl.endpoint, ctl.aux);
                match outcome {
                    RelayOutcome::Granted { relay_addr } => {
                        let started = self.orchestrator.trigger(ctl.peer_id, relay_addr, true);
                        if started {
                            acts.push(
                                Action::SendInitiation { peer_id: ctl.peer_id, target: relay_addr },
                            );
                            proof {
                                assert(acts@ =~= seq![
                                    Action::SendInitiation {
                                        peer_id: ctl.peer_id,
                                        target: ctl.endpoint,
                                    },
                                ]);
                            }
                        } else {
                            proof {
                                assert(acts@ =~= Seq::<Action>::empty());
                            }
                        }
                    },
                    RelayOutcome::Denied => {
                        acts.push(Action::ReportUnreachable { peer_id: ctl.peer_id });
                        proof {
                            assert(acts@ =~= seq![
                                Action::ReportUnreachable { peer_id: ctl.peer_id },
                            ]);
                        }
                    },
                    RelayOutcome::NotPending => {
                        proof {
                            assert(acts@ =~= Seq::<Action>::empty());
                        }
                    },
                }
            },
            ControlKind::Unknown => {
                proof {
                    assert(acts@ =~= Seq::<Action>::empty());
                }
            },
        }
        acts
    }

    /// Process one handshake datagram, received from `from`.
    pub fn process_handshake(&mut self, hs: &HandshakeMessage, from: Endpoint, now: u64) -> (r:
        Vec<Action>)
        requires
            old(self).wf(),
        ensures
            final(self).wf(),
            handshake_step(*old(self), *final(self), r@, hs.peer_id, from, now),
    {
        let mut acts: Vec<Action> = Vec::new();
        let completed = self.orchestrator.on_response(hs.peer_id, from, now);
        match completed {
            Some(target) => {
                self.directory.touch(hs.peer_id, now);
                acts.push(Action::HandoffSession { peer_id: hs.peer_id, target });
                proof {
                    assert(acts@ =~= seq![
                        Action::HandoffSession { peer_id: hs.peer_id, target: from },
                    ]);
                }
            },
            None => {
                proof {
                    assert(acts@ =~= Seq::<Action>::empty());
                }
            },
        }
        acts
    }

    /// Process one inbound datagram: decode it and dispatch on its variant.
    ///
    /// A truncated datagram is reported as the decode error and changes
    /// nothing; an unrecognized variant changes nothing; everything else has
    /// exactly the effect of its variant's handler.  No datagram can make
    /// this fail in any other way, so the event loop never stops over one.
    pub fn process_message(&mut self, data: &Vec<u8>, from: Endpoint, now: u64) -> (r: Result<
        Vec<Action>,
        DecodeError,
    >)
        requires
            old(self).wf(),
        ensures
            final(self).wf(),
            r is Err <==> data@.len() < HEADER_LEN,
            r is Err ==> *final(self) == *old(self) && (r matches Err(e) && e
                == DecodeError::Truncated),
            data@.len() >= HEADER_LEN && data@[0] == TAG_META ==> (r matches Ok(acts) && meta_step(
                *old(self),
                *final(self),
                acts@,
                parsed_meta(data@),
                now,
            )),
            data@.len() >= HEADER_LEN && data@[0] == TAG_HANDSHAKE ==> (r matches Ok(acts)
                && handshake_step(
                *old(self),
                *final(self),
                acts@,
                be64_at(data@, 2),
                from,
                now,
            )),
            data@.len() >= HEADER_LEN && data@[0] == TAG_CONTROL ==> (r matches Ok(acts)
                && control_step(*old(self), *final(self), acts@, parsed_control(data@))),
            data@.len() >= HEADER_LEN && data@[0] != TAG_META && data@[0] != TAG_HANDSHAKE
                && data@[0] != TAG_CONTROL ==> (r matches Ok(acts) && *final(self) == *old(self)
                && acts@ == Seq::<Action>::empty()),
    {
        let decoded = decode(data);
        match decoded {
            Ok(msg) => {
                match msg {
                    ClientMessage::Meta(meta) => Ok(self.process_mesh_meta_message(meta, now)),
                    ClientMessage::Handshake(hs) => Ok(self.process_handshake(&hs, from, now)),
                    ClientMessage::Control(ctl) => Ok(self.process_control(ctl)),
                    ClientMessage::Unrecognized => {
                        let acts: Vec<Action> = Vec::new();
                        proof {
                            assert(acts@ =~= Seq::<Action>::empty());
                        }
                        Ok(acts)
                    },
                }
            },
            Err(e) => Err(e),
        }
    }

    /// Settle `peer_id`'s handshake attempt if its deadline has passed:
    /// retry the direct path, escalate to a relay, or report the peer
    /// unreachable, as `timeout_step` states.
    pub fn handle_timeout(&mut self, peer_id: u64, now: u64) -> (r: Vec<Action>)
        requires
            old(self).wf(),
        ensures
            final(self).wf(),
            timeout_step(*old(self), *final(self), r@, peer_id, now),
    {
        let mut acts: Vec<Action> = Vec::new();
        let local_nat = self.classifier.verdict();
        let disposition = self.orchestrator.check_deadline(peer_id, now, local_nat);
        match disposition {
            Some(TimeoutDisposition::RetryDirect { target }) => {
                acts.push(Action::SendInitiation { peer_id, target });
                proof {
                    assert(acts@ =~= seq![Action::SendInitiation { peer_id, target }]);
                }
            },
            Some(TimeoutDisposition::Escalate) => {
                let send = self.relays.escalate(peer_id);
                if send {
                    acts.push(Action::RequestRelay { peer_id });
                    proof {
                        assert(acts@ =~= seq![Action::RequestRelay { peer_id }]);
                    }
                } else {
                    proof {
                        assert(self.relay_pending() =~= old(self).relay_pending().insert(
                            peer_id,
                        ));
                        assert(acts@ =~= Seq::<Action>::empty());
                    }
                }
            },
            Some(TimeoutDisposition::Unreachable) => {
                acts.push(Action::ReportUnreachable { peer_id });
                proof {
                    assert(acts@ =~= seq![Action::ReportUnreachable { peer_id }]);
                }
            },
            None => {
                proof {
                    assert(acts@ =~= Seq::<Action>::empty());
                }
            },
        }
        acts
    }

    /// One timer pass over every in-flight attempt: settle each expired one.
    /// Afterwards no expired attempt remains — each was retried, escalated
    /// or reported, independently per peer, so one stalled peer cannot
    /// block another — and the returned actions carry what each expired
    /// attempt was owed.
    pub fn check_deadlines(&mut self, now: u64) -> (r: Vec<Action>)
        requires
            old(self).wf(),
        ensures
            final(self).wf(),
            final(self).dir() == old(self).dir(),
            final(self).relay_sessions() == old(self).relay_sessions(),
            final(self).local_nat() == old(self).local_nat(),
            final(self).last_observation() == old(self).last_observation(),
            quiet_parts_same(*old(self), *final(self)),
            forall|id: u64| #[trigger]
                final(self).sessions().contains_key(id) ==> !session_expired(
                    final(self).sessions()[id],
                    now,
                ),
            forall|id: u64|
                old(self).sessions().contains_key(id) && !session_expired(
                    old(self).sessions()[id],
                    now,
                ) ==> final(self).sessions().contains_key(id) && final(self).sessions()[id] == old(
                    self,
                ).sessions()[id],
            forall|id: u64| #[trigger]
                old(self).sessions().contains_key(id) ==> (timeout_action_due(
                    *old(self),
                    id,
                    now,
                ) matches Some(a) ==> r@.contains(a)),
    {
        let expired = self.orchestrator.expired_peers(now);
        let mut acts: Vec<Action> = Vec::new();
        let mut i: usize = 0;
        while i < expired.len()
            invariant
                self.wf(),
                0 <= i <= expired@.len(),
                forall|p: int, q: int|
                    0 <= p < q < expired@.len() ==> expired@[p] != expired@[q],
                forall|k: int|
                    0 <= k < expired@.len() ==> old(self).sessions().contains_key(expired@[k])
                        && session_expired(old(self).sessions()[expired@[k]], now),
                forall|id: u64|
                    old(self).sessions().contains_key(id) && session_expired(
                        old(self).sessions()[id],
                        now,
                    ) ==> expired@.contains(id),
                self.dir() == old(self).dir(),
                self.relay_sessions() == old(self).relay_sessions(),
                self.local_nat() == old(self).local_nat(),
                self.last_observation() == old(self).last_observation(),
                quiet_parts_same(*old(self), *self),
                forall|id: u64|
                    #![trigger expired@.subrange(0, i as int).contains(id)]
                    !expired@.subrange(0, i as int).contains(id) ==> (self.sessions().contains_key(
                        id,
                    ) == old(self).sessions().contains_key(id) && (self.sessions().contains_key(id)
                        ==> self.sessions()[id] == old(self).sessions()[id])
                        && self.relay_pending().contains(id) == old(self).relay_pending().contains(
                        id,
                    )),
                forall|id: u64| #[trigger]
                    expired@.subrange(0, i as int).contains(id) ==> (self.sessions().contains_key(
                        id,
                    ) ==> !session_expired(self.sessions()[id], now)),
                forall|id: u64| #[trigger]
                    expired@.subrange(0, i as int).contains(id) ==> (timeout_action_due(
                        *old(self),
                        id,
                        now,
                    ) matches Some(a) ==> acts@.contains(a)),
            decreases expired@.len() - i,
        {
            let peer_id = expired[i];
            let ghost pre_loop = *self;
            let step_acts = self.handle_timeout(peer_id, now);
            let ghost acts_entry = acts@;
            let mut j: usize = 0;
            while j < step_acts.len()
                invariant
                    0 <= j <= step_acts@.len(),
                    acts@ == acts_entry + step_acts@.subrange(0, j as int),
                decreases step_acts@.len() - j,
            {
                acts.push(step_acts[j]);
                proof {
                    assert(acts@ =~= acts_entry + step_acts@.subrange(0, j + 1));
                }
                j = j + 1;
            }
            proof {
                assert(step_acts@.subrange(0, step_acts@.len() as int) =~= step_acts@);
                assert(acts@ == acts_entry + step_acts@);
            }
            proof {
                let pre = expired@.subrange(0, i as int);
                let cur = expired@.subrange(0, i + 1);
                assert(cur.drop_last() =~= pre);
                assert(cur.last() == expired@[i as int]);
                assert forall|id: u64|
                    !cur.contains(id) implies (self.sessions().contains_key(id) == old(
                    self,
                ).sessions().contains_key(id) && (self.sessions().contains_key(id)
                    ==> self.sessions()[id] == old(self).sessions()[id])
                    && self.relay_pending().contains(id) == old(self).relay_pending().contains(
                    id,
                )) by {
                    assert(!pre.contains(id)) by {
                        if pre.contains(id) {
                            let k = choose|k: int| 0 <= k < pre.len() && pre[k] == id;
                            assert(cur[k] == id);
                        }
                    }
                    assert(id != expired@[i as int]) by {
                        if id == expired@[i as int] {
                            assert(cur[i as int] == id);
                        }
                    }
                    assert(pre_loop.sessions().contains_key(id) == old(
                        self,
                    ).sessions().contains_key(id));
                    assert(pre_loop.sessions().contains_key(id) ==> pre_loop.sessions()[id]
                        == old(self).sessions()[id]);
                    assert(self.sessions().contains_key(id) == pre_loop.sessions().contains_key(
                        id,
                    ));
                    assert(self.sessions().contains_key(id) ==> self.sessions()[id]
                        == pre_loop.sessions()[id]);
                    assert(pre_loop.relay_pending().contains(id) == old(
                        self,
                    ).relay_pending().contains(id));
                    assert(self.relay_pending().contains(id) == pre_loop.relay_pending().contains(
                        id,
                    ));
                }
                assert forall|id: u64| #[trigger]
                    cur.contains(id) implies (self.sessions().contains_key(id)
                    ==> !session_expired(self.sessions()[id], now)) by {
                    if id == expired@[i as int] {
                        // settled by this step: retried to `Initiating`, or
                        // removed outright
                        assert(!pre.contains(id)) by {
                            if pre.contains(id) {
                                let k = choose|k: int| 0 <= k < pre.len() && pre[k] == id;
                                assert(expired@[k] == id);
                                assert(expired@[k] != expired@[i as int]);
                            }
                        }
                        assert(pre_loop.sessions().contains_key(id) == old(
                            self,
                        ).sessions().contains_key(id));
                        assert(pre_loop.sessions().contains_key(id) ==> pre_loop.sessions()[id]
                            == old(self).sessions()[id]);
                        assert(old(self).sessions().contains_key(expired@[i as int])
                            && session_expired(old(self).sessions()[expired@[i as int]], now));
                        assert(pre_loop.sessions().contains_key(id) && session_expired(
                            pre_loop.sessions()[id],
                            now,
                        ));
                    } else {
                        let k = choose|k: int| 0 <= k < cur.len() && cur[k] == id;
                        assert(k < i);
                        assert(pre[k] == id);
                        assert(pre.contains(id));
                        assert(pre_loop.sessions().contains_key(id) ==> !session_expired(
                            pre_loop.sessions()[id],
                            now,
                        ));
                        assert(self.sessions().contains_key(id)
                            == pre_loop.sessions().contains_key(id));
                        assert(self.sessions().contains_key(id) ==> self.sessions()[id]
                            == pre_loop.sessions()[id]);
                    }
                }
                assert forall|id: u64| #[trigger]
                    cur.contains(id) implies (timeout_action_due(*old(self), id, now) matches Some(
                    a,
                ) ==> acts@.contains(a)) by {
                    if id == expired@[i as int] {
                        assert(!pre.contains(id)) by {
                            if pre.contains(id) {
                                let k = choose|k: int| 0 <= k < pre.len() && pre[k] == id;
                                assert(expired@[k] == id);
                                assert(expired@[k] != expired@[i as int]);
                            }
                        }
                        // The conditions the step judged against the state at
                        // processing time are the ones judged against the
                        // entry state: this peer was untouched until now.
                        assert(pre_loop.sessions().contains_key(id) == old(
                            self,
                        ).sessions().contains_key(id));
                        assert(pre_loop.sessions().contains_key(id) ==> pre_loop.sessions()[id]
                            == old(self).sessions()[id]);
                        assert(pre_loop.relay_pending().contains(id) == old(
                            self,
                        ).relay_pending().contains(id));
                        assert(pre_loop.local_nat() == old(self).local_nat());
                        assert(old(self).sessions().contains_key(expired@[i as int])
                            && session_expired(old(self).sessions()[expired@[i as int]], now));
                        match timeout_action_due(*old(self), id, now) {
                            Some(a) => {
                                assert(step_acts@ == seq![a]);
                                assert(acts@[acts_entry.len() as int] == a);
                                assert(acts@.contains(a));
                            },
                            None => {},
                        }
                    } else {
                        let k = choose|k: int| 0 <= k < cur.len() && cur[k] == id;
                        assert(k < i);
                        assert(pre[k] == id);
                        assert(pre.contains(id));
                        match timeout_action_due(*old(self), id, now) {
                            Some(a) => {
                                assert(acts_entry.contains(a));
                                let idx = choose|idx: int|
                                    0 <= idx < acts_entry.len() && acts_entry[idx] == a;
                                assert(acts@[idx] == a);
                                assert(acts@.contains(a));
                            },
                            None => {},
                        }
                    }
                }
            }
            i = i + 1;
        }
        proof {
            let whole = expired@.subrange(0, i as int);
            assert(whole =~= expired@);
            assert forall|id: u64| #[trigger]
                self.sessions().contains_key(id) implies !session_expired(
                self.sessions()[id],
                now,
            ) by {
                if whole.contains(id) {
                } else {
                    assert(self.sessions().contains_key(id) == old(self).sessions().contains_key(
                        id,
                    ));
                    assert(self.sessions()[id] == old(self).sessions()[id]);
                    assert(!session_expired(old(self).sessions()[id], now)) by {
                        if session_expired(old(self).sessions()[id], now) {
                            assert(expired@.contains(id));
                            assert(whole.contains(id));
                        }
                    }
                }
            }
            assert forall|id: u64|
                old(self).sessions().contains_key(id) && !session_expired(
                    old(self).sessions()[id],
                    now,
                ) implies (self.sessions().contains_key(id) && self.sessions()[id] == old(
                self,
            ).sessions()[id]) by {
                assert(!whole.contains(id)) by {
                    if whole.contains(id) {
                        assert(expired@.contains(id));
                        let k = choose|k: int| 0 <= k < expired@.len() && expired@[k] == id;
                        assert(session_expired(old(self).sessions()[expired@[k]], now));
                    }
                }
            }
            assert forall|id: u64| #[trigger]
                old(self).sessions().contains_key(id) implies (timeout_action_due(
                *old(self),
                id,
                now,
            ) matches Some(a) ==> acts@.contains(a)) by {
                match timeout_action_due(*old(self), id, now) {
                    Some(a) => {
                        // An action is only due for an expired attempt, and
                        // every expired attempt was swept.
                        assert(session_expired(old(self).sessions()[id], now));
                        assert(expired@.contains(id));
                        assert(whole.contains(id));
                    },
                    None => {},
                }
            }
        }
        acts
    }
}

} // verus!
