use vstd::prelude::*;

use crate::classifier::NatType;
use crate::endpoint::Endpoint;
use crate::table::IdTable;
use crate::table::Keyed;

verus! {

/// What the directory knows of one peer: its server-assigned identifier, its
/// best-known reachable endpoint, the NAT classification reported for it,
/// and when it was last seen.
#[derive(Clone, Copy, PartialEq, Eq, Structural, Debug)]
pub struct PeerRecord {
    pub peer_id: u64,
    pub addr: Endpoint,
    pub nat_type: NatType,
    pub last_seen: u64,
}

impl Keyed for PeerRecord {
    open spec fn key(self) -> u64 {
        self.peer_id
    }

    fn ekey(&self) -> (k: u64)
        ensures
            k == self.key(),
    {
        self.peer_id
    }
}

/// The authoritative in-memory table of known remote peers.
///
/// The table is observable only through `upsert`, `lookup`, `touch` and
/// `remove`; its view is a map from peer identifier to record, and every
/// operation's contract is stated as a map operation.  Updates always take
/// the newest data (last write wins by arrival order: the server is the
/// single source of truth).
pub struct PeerDirectory {
    records: IdTable<PeerRecord>,
}

impl PeerDirectory {
    pub closed spec fn wf(self) -> bool {
        self.records.wf()
    }

    /// The directory as contracts see it: peer identifier to record.
    pub closed spec fn view(self) -> Map<u64, PeerRecord> {
        self.records@
    }

    pub fn new() -> (d: PeerDirectory)
        ensures
            d.wf(),
            d@ == Map::<u64, PeerRecord>::empty(),
    {
        PeerDirectory { records: IdTable::new() }
    }

    /// Insert or replace the record for `peer_id`, taking the newest data.
    pub fn upsert(&mut self, peer_id: u64, addr: Endpoint, nat_type: NatType, now: u64)
        requires
            old(self).wf(),
        ensures
            final(self).wf(),
            final(self)@ == old(self)@.insert(
                peer_id,
                (PeerRecord { peer_id, addr, nat_type, last_seen: now }),
            ),
    {
        self.records.put(PeerRecord { peer_id, addr, nat_type, last_seen: now });
    }

    /// Look a peer up; `None` exactly when the directory has no record of it.
    pub fn lookup(&self, peer_id: u64) -> (r: Option<PeerRecord>)
        requires
            self.wf(),
        ensures
            r is Some <==> self@.contains_key(peer_id),
            r matches Some(rec) ==> rec == self@[peer_id],
    {
        self.records.get(peer_id)
    }

    /// Whether the directory has a record of `peer_id`.
    pub fn contains(&self, peer_id: u64) -> (b: bool)
        requires
            self.wf(),
        ensures
            b == self@.contains_key(peer_id),
    {
        self.records.has(peer_id)
    }

    /// Drop the record for `peer_id`, if any: the peer is no longer
    /// reachable where we knew it.
    pub fn remove(&mut self, peer_id: u64)
        requires
            old(self).wf(),
        ensures
            final(self).wf(),
            final(self)@ == old(self)@.remove(peer_id),
    {
        self.records.del(peer_id);
    }

    /// Record that `peer_id` was just heard from (a handshake completed):
    /// refresh its last-seen time, leaving everything else alone.  A peer
    /// the directory does not know stays unknown.
    pub fn touch(&mut self, peer_id: u64, now: u64)
        requires
            old(self).wf(),
        ensures
            final(self).wf(),
            old(self)@.contains_key(peer_id) ==> final(self)@ == old(self)@.insert(
                peer_id,
                (PeerRecord { last_seen: now, ..old(self)@[peer_id] }),
            ),
            !old(self)@.contains_key(peer_id) ==> final(self)@ == old(self)@,
    {
        let r = self.records.get(peer_id);
        match r {
            Some(rec) => {
                proof {
                    self.records.lemma_keys();
                }
                self.records.put(
                    PeerRecord {
                        peer_id,
                        addr: rec.addr,
                        nat_type: rec.nat_type,
                        last_seen: now,
                    },
                );
            },
            None => {},
        }
    }
}

/// A record that has outlived the liveness timeout: nothing has been heard
/// from the peer for longer than `max_age` seconds.
pub open spec fn record_stale(rec: PeerRecord, now: u64, max_age: u64) -> bool {
    rec.last_seen + max_age < now
}

impl PeerDirectory {
    /// Drop every record whose peer has not been heard from within
    /// `max_age` seconds of `now`; the liveness timeout is the caller's
    /// tunable.  Fresh records keep their exact contents.
    pub fn prune_stale(&mut self, now: u64, max_age: u64)
        requires
            old(self).wf(),
        ensures
            final(self).wf(),
            forall|id: u64| #[trigger]
                final(self)@.contains_key(id) <==> (old(self)@.contains_key(id) && !record_stale(
                    old(self)@[id],
                    now,
                    max_age,
                )),
            forall|id: u64| #[trigger]
                final(self)@.contains_key(id) ==> final(self)@[id] == old(self)@[id],
    {
        let keys = self.records.keys();
        let mut i: usize = 0;
        while i < keys.len()
            invariant
                self.records.wf(),
                0 <= i <= keys@.len(),
                forall|p: int, q: int| 0 <= p < q < keys@.len() ==> keys@[p] != keys@[q],
                forall|k: u64| #[trigger]
                    keys@.contains(k) <==> old(self).records@.contains_key(k),
                forall|id: u64|
                    #![trigger keys@.subrange(0, i as int).contains(id)]
                    !keys@.subrange(0, i as int).contains(id) ==> (self.records@.contains_key(id)
                        == old(self).records@.contains_key(id) && (self.records@.contains_key(id)
                        ==> self.records@[id] == old(self).records@[id])),
                forall|id: u64| #[trigger]
                    keys@.subrange(0, i as int).contains(id) ==> ((self.records@.contains_key(id)
                        <==> (old(self).records@.contains_key(id) && !record_stale(
                        old(self).records@[id],
                        now,
                        max_age,
                    ))) && (self.records@.contains_key(id) ==> self.records@[id] == old(
                        self,
                    ).records@[id])),
            decreases keys@.len() - i,
        {
            let id = keys[i];
            let ghost pre = keys@.subrange(0, i as int);
            let ghost cur = keys@.subrange(0, i + 1);
            proof {
                assert(cur.drop_last() =~= pre);
                assert(cur.last() == keys@[i as int]);
                assert(!pre.contains(id)) by {
                    if pre.contains(id) {
                        let k = choose|k: int| 0 <= k < pre.len() && pre[k] == id;
                        assert(keys@[k] == id);
                        assert(keys@[k] != keys@[i as int]);
                    }
                }
            }
            let r = self.records.get(id);
            match r {
                Some(rec) => {
                    let stale = now > max_age && rec.last_seen < now - max_age;
                    proof {
                        assert(stale == record_stale(rec, now, max_age));
                    }
                    if stale {
                        self.records.del(id);
                    }
                },
                None => {},
            }
            proof {
                assert forall|x: u64|
                    !cur.contains(x) implies (self.records@.contains_key(x) == old(
                    self,
                ).records@.contains_key(x) && (self.records@.contains_key(x)
                    ==> self.records@[x] == old(self).records@[x])) by {
                    assert(!pre.contains(x)) by {
                        if pre.contains(x) {
                            let k = choose|k: int| 0 <= k < pre.len() && pre[k] == x;
                            assert(cur[k] == x);
                        }
                    }
                    assert(x != id) by {
                        if x == id {
                            assert(cur[i as int] == x);
                        }
                    }
                }
                assert forall|x: u64| #[trigger]
                    cur.contains(x) implies ((self.records@.contains_key(x) <==> (old(
                    self,
                ).records@.contains_key(x) && !record_stale(old(self).records@[x], now, max_age)))
                    && (self.records@.contains_key(x) ==> self.records@[x] == old(
                    self,
                ).records@[x])) by {
                    if x == id {
                        assert(keys@.contains(id)) by {
                            assert(keys@[i as int] == id);
                        }
                    } else {
                        let k = choose|k: int| 0 <= k < cur.len() && cur[k] == x;
                        assert(k < i);
                        assert(pre[k] == x);
                        assert(pre.contains(x));
                    }
                }
            }
            i = i + 1;
        }
        proof {
            let whole = keys@.subrange(0, i as int);
            assert(whole =~= keys@);
            assert forall|id: u64| #[trigger]
                self.records@.contains_key(id) <==> (old(self).records@.contains_key(id)
                && !record_stale(old(self).records@[id], now, max_age)) by {
                if keys@.contains(id) {
                    assert(whole.contains(id));
                } else {
                    assert(!whole.contains(id));
                }
            }
            assert forall|id: u64| #[trigger]
                self.records@.contains_key(id) implies self.records@[id] == old(
                self,
            ).records@[id] by {
                if keys@.contains(id) {
                    assert(whole.contains(id));
                } else {
                    assert(!whole.contains(id));
                }
            }
        }
    }
}

/// Upserting the same record twice leaves the directory exactly as one
/// upsert leaves it: the two calls end at the same map.
pub proof fn lemma_upsert_idempotent(m: Map<u64, PeerRecord>, rec: PeerRecord)
    ensures
        m.insert(rec.peer_id, rec).insert(rec.peer_id, rec) == m.insert(rec.peer_id, rec),
{
    assert(m.insert(rec.peer_id, rec).insert(rec.peer_id, rec) =~= m.insert(rec.peer_id, rec));
}

} // verus!
