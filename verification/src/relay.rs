use vstd::prelude::*;

use crate::endpoint::Endpoint;
use crate::table::IdTable;
use crate::table::Keyed;

verus! {

/// A relay session the server granted: the peer it serves, the
/// relay-assisted address to handshake through, and the identifier the
/// server assigned to the session (never zero: zero in a response means the
/// relay was denied).
#[derive(Clone, Copy, PartialEq, Eq, Structural, Debug)]
pub struct RelaySession {
    pub peer_id: u64,
    pub relay_addr: Endpoint,
    pub relay_id: u64,
}

impl Keyed for RelaySession {
    open spec fn key(self) -> u64 {
        self.peer_id
    }

    fn ekey(&self) -> (k: u64)
        ensures
            k == self.key(),
    {
        self.peer_id
    }
}

/// What a `CreateRelayResponse` meant for this client.
#[derive(Clone, Copy, PartialEq, Eq, Structural, Debug)]
pub enum RelayOutcome {
    /// The server granted a relay: re-enter the handshake using this
    /// address as the candidate.
    Granted { relay_addr: Endpoint },
    /// The server denied the relay: the peer is unreachable.
    Denied,
    /// No relay request was outstanding for that peer: a no-op.
    NotPending,
}

/// Requests and tracks relay sessions for peers that direct connectivity
/// cannot reach.
pub struct RelayManager {
    pending: IdTable<u64>,
    sessions: IdTable<RelaySession>,
}

impl RelayManager {
    pub closed spec fn wf(self) -> bool {
        &&& self.pending.wf()
        &&& self.sessions.wf()
    }

    /// The peers with an outstanding relay-creation request.
    pub closed spec fn pending_view(self) -> Set<u64> {
        self.pending@.dom()
    }

    /// The granted relay sessions as contracts see them: peer identifier to
    /// session.
    pub closed spec fn view(self) -> Map<u64, RelaySession> {
        self.sessions@
    }

    pub fn new() -> (m: RelayManager)
        ensures
            m.wf(),
            m.pending_view() == Set::<u64>::empty(),
            m@ == Map::<u64, RelaySession>::empty(),
    {
        let m = RelayManager { pending: IdTable::new(), sessions: IdTable::new() };
        proof {
            assert(m.pending_view() =~= Set::<u64>::empty());
        }
        m
    }

    /// The relay session serving `peer_id`, if the server granted one.
    pub fn session(&self, peer_id: u64) -> (r: Option<RelaySession>)
        requires
            self.wf(),
        ensures
            r is Some <==> self@.contains_key(peer_id),
            r matches Some(s) ==> s == self@[peer_id],
    {
        self.sessions.get(peer_id)
    }

    /// Escalation from the handshake orchestrator: a relay-creation request
    /// for `peer_id` should go to the server, unless one is already
    /// outstanding.  Returns whether to send the request.
    pub fn escalate(&mut self, peer_id: u64) -> (send: bool)
        requires
            old(self).wf(),
        ensures
            final(self).wf(),
            send == !old(self).pending_view().contains(peer_id),
            final(self).pending_view() == old(self).pending_view().insert(peer_id),
            final(self)@ == old(self)@,
    {
        if self.pending.has(peer_id) {
            proof {
                assert(self.pending_view() =~= self.pending_view().insert(peer_id));
            }
            false
        } else {
            self.pending.put(peer_id);
            proof {
                assert(self.pending_view() =~= old(self).pending_view().insert(peer_id));
            }
            true
        }
    }

    /// A `CreateRelayResponse` arrived for `peer_id`.  It settles the
    /// outstanding request, if there is one: a non-zero `relay_id` grants
    /// the relay and records the session, a zero `relay_id` denies it.  A
    /// response for a peer with no outstanding request changes nothing.
    pub fn on_response(&mut self, peer_id: u64, relay_addr: Endpoint, relay_id: u64) -> (r:
        RelayOutcome)
        requires
            old(self).wf(),
        ensures
            final(self).wf(),
            !old(self).pending_view().contains(peer_id) ==> r is NotPending && *final(self) == *old(self),
            old(self).pending_view().contains(peer_id) ==> final(self).pending_view() == old(self).pending_view().remove(peer_id),
            old(self).pending_view().contains(peer_id) && relay_id != 0 ==> r == (
            RelayOutcome::Granted { relay_addr }) && final(self)@ == old(self)@.insert(
                peer_id,
                (RelaySession { peer_id, relay_addr, relay_id }),
            ),
            old(self).pending_view().contains(peer_id) && relay_id == 0 ==> r is Denied && final(self)@ == old(self)@,
    {
        if !self.pending.has(peer_id) {
            return RelayOutcome::NotPending;
        }
        self.pending.del(peer_id);
        proof {
            assert(self.pending_view() =~= old(self).pending_view().remove(peer_id));
        }
        if relay_id != 0 {
            self.sessions.put(RelaySession { peer_id, relay_addr, relay_id });
            RelayOutcome::Granted { relay_addr }
        } else {
            RelayOutcome::Denied
        }
    }

    /// Forget the relay session for `peer_id`, if any (its liveness checks
    /// failed, or the peer moved).
    pub fn invalidate(&mut self, peer_id: u64)
        requires
            old(self).wf(),
        ensures
            final(self).wf(),
            final(self)@ == old(self)@.remove(peer_id),
            final(self).pending_view() == old(self).pending_view(),
    {
        self.sessions.del(peer_id);
    }
}

} // verus!
