use mesh_mediator::classifier::NatClassifier;
use mesh_mediator::classifier::NatType;
use mesh_mediator::directory::PeerDirectory;
use mesh_mediator::endpoint::Endpoint;
use mesh_mediator::handshake::HandshakeOrchestrator;
use mesh_mediator::handshake::SessionState;
use mesh_mediator::handshake::TimeoutDisposition;
use mesh_mediator::handshake::DIRECT_RETRY_BUDGET;
use mesh_mediator::handshake::HANDSHAKE_TIMEOUT_SECS;
use mesh_mediator::keepalive::KeepaliveScheduler;
use mesh_mediator::relay::RelayManager;
use mesh_mediator::relay::RelayOutcome;

fn ep(ip: u32, port: u16) -> Endpoint {
    Endpoint { ip, port }
}

#[test]
fn classifier_same_address_from_two_ports_is_asymmetric() {
    let mut c = NatClassifier::new();
    assert_eq!(c.verdict(), NatType::Unknown);
    c.observe(3478, ep(1, 1000));
    assert_eq!(c.verdict(), NatType::Unknown);
    c.observe(3479, ep(1, 1000));
    assert_eq!(c.verdict(), NatType::Asymmetric);
}

#[test]
fn classifier_differing_addresses_is_symmetric() {
    let mut c = NatClassifier::new();
    c.observe(3478, ep(1, 1000));
    c.observe(3479, ep(1, 2000));
    assert_eq!(c.verdict(), NatType::Symmetric);
}

#[test]
fn classifier_same_port_decides_nothing() {
    let mut c = NatClassifier::new();
    c.observe(3478, ep(1, 1000));
    c.observe(3478, ep(1, 2000));
    assert_eq!(c.verdict(), NatType::Unknown);
}

#[test]
fn classifier_keeps_only_latest_verdict() {
    let mut c = NatClassifier::new();
    c.observe(3478, ep(1, 1000));
    c.observe(3479, ep(1, 1000));
    assert_eq!(c.verdict(), NatType::Asymmetric);
    // Reclassification: the mapping drifted, the verdict follows.
    c.observe(3480, ep(1, 9999));
    assert_eq!(c.verdict(), NatType::Symmetric);
}

#[test]
fn directory_upsert_twice_is_idempotent() {
    let mut d = PeerDirectory::new();
    d.upsert(1, ep(10, 20), NatType::Asymmetric, 100);
    let once = d.lookup(1);
    d.upsert(1, ep(10, 20), NatType::Asymmetric, 100);
    let twice = d.lookup(1);
    assert_eq!(once, twice);
    assert!(d.contains(1));
}

#[test]
fn directory_last_write_wins() {
    let mut d = PeerDirectory::new();
    d.upsert(1, ep(10, 20), NatType::Unknown, 100);
    d.upsert(1, ep(30, 40), NatType::Symmetric, 200);
    let rec = d.lookup(1).unwrap();
    assert_eq!(rec.addr, ep(30, 40));
    assert_eq!(rec.nat_type, NatType::Symmetric);
    assert_eq!(rec.last_seen, 200);
}

#[test]
fn directory_remove_and_missing_lookup() {
    let mut d = PeerDirectory::new();
    assert!(d.lookup(7).is_none());
    d.upsert(7, ep(1, 1), NatType::Unknown, 1);
    d.upsert(8, ep(2, 2), NatType::Unknown, 1);
    d.remove(7);
    assert!(d.lookup(7).is_none());
    assert!(d.lookup(8).is_some());
    // Removing an absent peer is harmless.
    d.remove(7);
    assert!(d.lookup(8).is_some());
}

#[test]
fn directory_touch_refreshes_last_seen_only() {
    let mut d = PeerDirectory::new();
    d.upsert(3, ep(5, 6), NatType::Asymmetric, 10);
    d.touch(3, 99);
    let rec = d.lookup(3).unwrap();
    assert_eq!(rec.addr, ep(5, 6));
    assert_eq!(rec.nat_type, NatType::Asymmetric);
    assert_eq!(rec.last_seen, 99);
    // Touching an unknown peer adds nothing.
    d.touch(4, 99);
    assert!(d.lookup(4).is_none());
}

#[test]
fn directory_prune_stale_drops_only_old_records() {
    let mut d = PeerDirectory::new();
    d.upsert(1, ep(1, 1), NatType::Unknown, 100);
    d.upsert(2, ep(2, 2), NatType::Unknown, 200);
    d.upsert(3, ep(3, 3), NatType::Unknown, 300);
    // At t=330 with a 60-second liveness timeout, only peers heard from
    // after t=270 survive.
    d.prune_stale(330, 60);
    assert!(d.lookup(1).is_none());
    assert!(d.lookup(2).is_none());
    let rec = d.lookup(3).unwrap();
    assert_eq!(rec.last_seen, 300);
    // A huge timeout prunes nothing.
    d.prune_stale(330, u64::MAX);
    assert!(d.lookup(3).is_some());
}

#[test]
fn orchestrator_second_trigger_is_noop() {
    let mut o = HandshakeOrchestrator::new();
    assert!(o.trigger(1, ep(1, 1), false));
    assert!(!o.trigger(1, ep(2, 2), false));
    let s = o.session(1).unwrap();
    assert_eq!(s.target, ep(1, 1));
    assert_eq!(s.state, SessionState::Initiating);
}

#[test]
fn orchestrator_deadline_starts_on_initiation_sent() {
    let mut o = HandshakeOrchestrator::new();
    o.trigger(1, ep(1, 1), false);
    o.initiation_sent(1, 100);
    let s = o.session(1).unwrap();
    assert_eq!(s.state, SessionState::AwaitingResponse);
    assert_eq!(s.deadline, 100 + HANDSHAKE_TIMEOUT_SECS);
}

#[test]
fn orchestrator_response_from_wrong_address_is_ignored() {
    let mut o = HandshakeOrchestrator::new();
    o.trigger(1, ep(1, 1), false);
    o.initiation_sent(1, 100);
    assert!(o.on_response(1, ep(9, 9), 101).is_none());
    assert!(o.has_session(1));
    assert!(o.on_response(1, ep(1, 1), 101).is_some());
    assert!(!o.has_session(1));
}

#[test]
fn orchestrator_late_response_is_ignored() {
    let mut o = HandshakeOrchestrator::new();
    o.trigger(1, ep(1, 1), false);
    o.initiation_sent(1, 100);
    let deadline = 100 + HANDSHAKE_TIMEOUT_SECS;
    assert!(o.on_response(1, ep(1, 1), deadline + 1).is_none());
    assert!(o.has_session(1));
}

#[test]
fn orchestrator_retry_budget_then_escalate() {
    let mut o = HandshakeOrchestrator::new();
    o.trigger(1, ep(1, 1), false);
    let mut t = 0;
    for used in 0..DIRECT_RETRY_BUDGET {
        o.initiation_sent(1, t);
        t += HANDSHAKE_TIMEOUT_SECS + 1;
        match o.check_deadline(1, t, NatType::Asymmetric) {
            Some(TimeoutDisposition::RetryDirect { target }) => assert_eq!(target, ep(1, 1)),
            other => panic!("expected retry after {} used, got {:?}", used, other),
        }
    }
    o.initiation_sent(1, t);
    t += HANDSHAKE_TIMEOUT_SECS + 1;
    assert_eq!(
        o.check_deadline(1, t, NatType::Asymmetric),
        Some(TimeoutDisposition::Escalate)
    );
    assert!(!o.has_session(1));
}

#[test]
fn orchestrator_symmetric_escalates_without_retry() {
    let mut o = HandshakeOrchestrator::new();
    o.trigger(1, ep(1, 1), false);
    o.initiation_sent(1, 0);
    assert_eq!(
        o.check_deadline(1, HANDSHAKE_TIMEOUT_SECS + 1, NatType::Symmetric),
        Some(TimeoutDisposition::Escalate)
    );
    assert!(!o.has_session(1));
}

#[test]
fn orchestrator_relay_timeout_is_unreachable() {
    let mut o = HandshakeOrchestrator::new();
    o.trigger(1, ep(1, 1), true);
    o.initiation_sent(1, 0);
    assert_eq!(
        o.check_deadline(1, HANDSHAKE_TIMEOUT_SECS + 1, NatType::Asymmetric),
        Some(TimeoutDisposition::Unreachable)
    );
}

#[test]
fn orchestrator_expired_peers_lists_only_expired() {
    let mut o = HandshakeOrchestrator::new();
    o.trigger(1, ep(1, 1), false);
    o.initiation_sent(1, 0);
    o.trigger(2, ep(2, 2), false);
    o.initiation_sent(2, 100);
    o.trigger(3, ep(3, 3), false);  // still Initiating: no deadline yet
    let expired = o.expired_peers(HANDSHAKE_TIMEOUT_SECS + 1);
    assert_eq!(expired, vec![1]);
}

#[test]
fn keepalive_ticks_stamp_current_time() {
    let mut s = KeepaliveScheduler::new();
    let p = s.tick(123);
    assert_eq!(p.time, 123);
    let p2 = s.tick(125);
    assert_eq!(p2.time, 125);
}

#[test]
fn relay_escalate_once_per_outstanding_request() {
    let mut r = RelayManager::new();
    assert!(r.escalate(1));
    assert!(!r.escalate(1));
    assert!(r.escalate(2));
}

#[test]
fn relay_grant_records_session() {
    let mut r = RelayManager::new();
    r.escalate(1);
    let out = r.on_response(1, ep(8, 8), 55);
    assert_eq!(out, RelayOutcome::Granted { relay_addr: ep(8, 8) });
    let s = r.session(1).unwrap();
    assert_eq!(s.relay_addr, ep(8, 8));
    assert_eq!(s.relay_id, 55);
    // The request is settled: a duplicate response is a no-op.
    assert_eq!(r.on_response(1, ep(9, 9), 56), RelayOutcome::NotPending);
    assert_eq!(r.session(1).unwrap().relay_id, 55);
}

#[test]
fn relay_denied_and_unsolicited_responses() {
    let mut r = RelayManager::new();
    r.escalate(1);
    assert_eq!(r.on_response(1, ep(0, 0), 0), RelayOutcome::Denied);
    assert!(r.session(1).is_none());
    assert_eq!(r.on_response(2, ep(1, 1), 3), RelayOutcome::NotPending);
}

#[test]
fn relay_invalidate_forgets_session() {
    let mut r = RelayManager::new();
    r.escalate(1);
    r.on_response(1, ep(8, 8), 55);
    r.invalidate(1);
    assert!(r.session(1).is_none());
}
