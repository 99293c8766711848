use mesh_mediator::codec::encode_envelope;
use mesh_mediator::codec::encode_handshake;
use mesh_mediator::codec::DecodeError;
use mesh_mediator::codec::HandshakeMessage;
use mesh_mediator::codec::MetaKind;
use mesh_mediator::codec::MetaMessage;
use mesh_mediator::codec::ControlKind;
use mesh_mediator::codec::ControlMessage;
use mesh_mediator::codec::META_HOST_UPDATE_NOTIFICATION;
use mesh_mediator::codec::TAG_META;
use mesh_mediator::classifier::NatType;
use mesh_mediator::endpoint::Endpoint;
use mesh_mediator::handshake::SessionState;
use mesh_mediator::handshake::HANDSHAKE_TIMEOUT_SECS;
use mesh_mediator::keepalive::KEEPALIVE_INTERVAL_SECS;
use mesh_mediator::mediator::Action;
use mesh_mediator::mediator::MeshMediator;

fn ep(ip: u32, port: u16) -> Endpoint {
    Endpoint { ip, port }
}

fn meta(kind: MetaKind, peer_id: u64, endpoint: Endpoint, aux: u64) -> MetaMessage {
    MetaMessage { kind, peer_id, endpoint, aux }
}

fn server() -> Endpoint {
    ep(0x01010101, 3478)
}

/// Feed whoami reports until the mediator believes the local NAT is of the
/// given kind.
fn classify(m: &mut MeshMediator, nat: NatType) {
    let observed = ep(0x02020202, 40000);
    m.process_mesh_meta_message(meta(MetaKind::HostWhoami, 0, observed, 3478), 0);
    let second = match nat {
        NatType::Asymmetric => observed,
        NatType::Symmetric => ep(0x02020202, 40001),
        NatType::Unknown => return,
    };
    m.process_mesh_meta_message(meta(MetaKind::HostWhoami, 0, second, 3479), 0);
    assert_eq!(m.nat_verdict(), nat);
}

#[test]
fn it_works() {
    println!("it works!")
}

#[test]
fn truncated_datagram_is_reported_and_loop_continues() {
    let mut m = MeshMediator::default();
    let junk: Vec<u8> = vec![1, 2, 3];
    assert_eq!(m.process_message(&junk, server(), 0), Err(DecodeError::Truncated));
    // Nothing was mutated, and the next datagram is processed normally.
    let update = encode_envelope(TAG_META, META_HOST_UPDATE_NOTIFICATION, 9, ep(5, 5), 1);
    let acts = m.process_message(&update, server(), 10).unwrap();
    assert!(acts.is_empty());
    let rec = m.lookup(9).unwrap();
    assert_eq!(rec.addr, ep(5, 5));
    assert_eq!(rec.nat_type, NatType::Asymmetric);
    assert_eq!(rec.last_seen, 10);
}

#[test]
fn unknown_variant_and_subtype_are_noops() {
    let mut m = MeshMediator::default();
    // Unknown top-level variant.
    let mut unk = vec![0u8; 32];
    unk[0] = 250;
    assert_eq!(m.process_message(&unk, server(), 0), Ok(Vec::new()));
    // Unknown Meta sub-type.
    let strange = encode_envelope(TAG_META, 77, 4, ep(1, 1), 9);
    assert_eq!(m.process_message(&strange, server(), 0), Ok(Vec::new()));
    // No state was created anywhere.
    assert!(m.lookup(4).is_none());
    assert!(m.session(4).is_none());
}

#[test]
fn host_query_answers_with_path_check() {
    let mut m = MeshMediator::default();
    let acts = m.process_mesh_meta_message(meta(MetaKind::HostQuery, 6, ep(0, 0), 0), 0);
    assert_eq!(acts, vec![Action::SendPathCheck { peer_id: 6, reachable: false }]);
    m.process_mesh_meta_message(meta(MetaKind::HostUpdateNotification, 6, ep(3, 3), 0), 1);
    let acts = m.process_mesh_meta_message(meta(MetaKind::HostQuery, 6, ep(0, 0), 0), 2);
    assert_eq!(acts, vec![Action::SendPathCheck { peer_id: 6, reachable: true }]);
}

#[test]
fn punch_notification_triggers_one_handshake() {
    let mut m = MeshMediator::default();
    let acts = m.process_mesh_meta_message(
        meta(MetaKind::HostPunchNotification, 5, ep(7, 7), 0),
        10,
    );
    assert_eq!(acts, vec![Action::SendInitiation { peer_id: 5, target: ep(7, 7) }]);
    let s = m.session(5).unwrap();
    assert_eq!(s.state, SessionState::Initiating);
    assert_eq!(s.target, ep(7, 7));
    // Repeated triggers arriving faster than the timeout stay a single
    // session: the second punch starts nothing.
    let acts = m.process_mesh_meta_message(
        meta(MetaKind::HostPunchNotification, 5, ep(8, 8), 0),
        11,
    );
    assert!(acts.is_empty());
    let s = m.session(5).unwrap();
    assert_eq!(s.target, ep(7, 7));
}

#[test]
fn handshake_completes_and_hands_off() {
    let mut m = MeshMediator::default();
    m.process_mesh_meta_message(meta(MetaKind::HostUpdateNotification, 5, ep(7, 7), 1), 0);
    let acts = m.connect(5);
    assert_eq!(acts, Some(Action::SendInitiation { peer_id: 5, target: ep(7, 7) }));
    m.initiation_sent(5, 100);
    let hs = HandshakeMessage { peer_id: 5, payload: vec![9, 9, 9] };
    let acts = m.process_handshake(&hs, ep(7, 7), 102);
    assert_eq!(acts, vec![Action::HandoffSession { peer_id: 5, target: ep(7, 7) }]);
    assert!(m.session(5).is_none());
    assert_eq!(m.lookup(5).unwrap().last_seen, 102);
}

#[test]
fn host_moved_cancels_awaiting_session_same_step() {
    let mut m = MeshMediator::default();
    m.process_mesh_meta_message(meta(MetaKind::HostPunchNotification, 5, ep(7, 7), 0), 0);
    m.initiation_sent(5, 0);
    assert_eq!(m.session(5).unwrap().state, SessionState::AwaitingResponse);
    let acts = m.process_mesh_meta_message(meta(MetaKind::HostMovedNotification, 5, ep(0, 0), 0), 1);
    assert!(acts.is_empty());
    assert!(m.session(5).is_none());
    assert!(m.lookup(5).is_none());
    // A late-arriving handshake response finds no session: no race.
    let hs = HandshakeMessage { peer_id: 5, payload: Vec::new() };
    let acts = m.process_handshake(&hs, ep(7, 7), 2);
    assert!(acts.is_empty());
    assert!(m.session(5).is_none());
}

#[test]
fn asymmetric_retries_direct_before_escalating() {
    let mut m = MeshMediator::default();
    classify(&mut m, NatType::Asymmetric);
    m.process_mesh_meta_message(meta(MetaKind::HostPunchNotification, 5, ep(7, 7), 0), 0);
    m.initiation_sent(5, 0);
    // First timeout: the direct path is retried, not escalated.
    let acts = m.handle_timeout(5, HANDSHAKE_TIMEOUT_SECS + 1);
    assert_eq!(acts, vec![Action::SendInitiation { peer_id: 5, target: ep(7, 7) }]);
    assert_eq!(m.session(5).unwrap().state, SessionState::Initiating);
    assert_eq!(m.session(5).unwrap().retries_used, 1);
}

#[test]
fn symmetric_escalates_to_relay_on_first_timeout() {
    let mut m = MeshMediator::default();
    classify(&mut m, NatType::Symmetric);
    m.process_mesh_meta_message(meta(MetaKind::HostPunchNotification, 5, ep(7, 7), 0), 0);
    m.initiation_sent(5, 0);
    let acts = m.handle_timeout(5, HANDSHAKE_TIMEOUT_SECS + 1);
    assert_eq!(acts, vec![Action::RequestRelay { peer_id: 5 }]);
    assert!(m.session(5).is_none());
}

#[test]
fn relay_grant_reenters_handshake_via_relay() {
    let mut m = MeshMediator::default();
    classify(&mut m, NatType::Symmetric);
    m.process_mesh_meta_message(meta(MetaKind::HostPunchNotification, 5, ep(7, 7), 0), 0);
    m.initiation_sent(5, 0);
    m.handle_timeout(5, HANDSHAKE_TIMEOUT_SECS + 1);
    let ctl = ControlMessage {
        kind: ControlKind::CreateRelayResponse,
        peer_id: 5,
        endpoint: ep(99, 99),
        aux: 1234,
    };
    let acts = m.process_control(ctl);
    assert_eq!(acts, vec![Action::SendInitiation { peer_id: 5, target: ep(99, 99) }]);
    let s = m.session(5).unwrap();
    assert!(s.via_relay);
    assert_eq!(s.target, ep(99, 99));
    assert_eq!(m.relay_session(5).unwrap().relay_id, 1234);
    // The relayed attempt itself timing out makes the peer unreachable.
    m.initiation_sent(5, 20);
    let acts = m.handle_timeout(5, 20 + HANDSHAKE_TIMEOUT_SECS + 1);
    assert_eq!(acts, vec![Action::ReportUnreachable { peer_id: 5 }]);
}

#[test]
fn relay_denied_reports_unreachable() {
    let mut m = MeshMediator::default();
    classify(&mut m, NatType::Symmetric);
    m.process_mesh_meta_message(meta(MetaKind::HostPunchNotification, 5, ep(7, 7), 0), 0);
    m.initiation_sent(5, 0);
    m.handle_timeout(5, HANDSHAKE_TIMEOUT_SECS + 1);
    let ctl = ControlMessage {
        kind: ControlKind::CreateRelayResponse,
        peer_id: 5,
        endpoint: ep(0, 0),
        aux: 0,
    };
    let acts = m.process_control(ctl);
    assert_eq!(acts, vec![Action::ReportUnreachable { peer_id: 5 }]);
    assert!(m.relay_session(5).is_none());
}

#[test]
fn unsolicited_relay_response_is_noop() {
    let mut m = MeshMediator::default();
    let ctl = ControlMessage {
        kind: ControlKind::CreateRelayResponse,
        peer_id: 5,
        endpoint: ep(99, 99),
        aux: 1234,
    };
    let acts = m.process_control(ctl);
    assert!(acts.is_empty());
    assert!(m.relay_session(5).is_none());
    assert!(m.session(5).is_none());
}

#[test]
fn keepalive_emits_one_ping_per_tick_despite_send_errors() {
    let mut m = MeshMediator::default();
    let mut sent: Vec<u64> = Vec::new();
    for tick in 0..10u64 {
        let now = tick * KEEPALIVE_INTERVAL_SECS;
        let ping = m.ping(now);
        assert_eq!(ping.time, now);
        // Three of the sends fail; the scheduler never hears of it and the
        // next tick pings regardless.
        let send_fails = tick == 1 || tick == 4 || tick == 7;
        if !send_fails {
            sent.push(ping.time);
        }
    }
    assert_eq!(sent, vec![0, 4, 6, 10, 12, 16, 18]);
}

#[test]
fn check_deadlines_settles_every_expired_attempt() {
    let mut m = MeshMediator::default();
    classify(&mut m, NatType::Asymmetric);
    m.process_mesh_meta_message(meta(MetaKind::HostPunchNotification, 1, ep(1, 1), 0), 0);
    m.initiation_sent(1, 0);
    m.process_mesh_meta_message(meta(MetaKind::HostPunchNotification, 2, ep(2, 2), 0), 0);
    m.initiation_sent(2, 0);
    let mut acts = m.check_deadlines(HANDSHAKE_TIMEOUT_SECS + 1);
    acts.sort_by_key(|a| match a {
        Action::SendInitiation { peer_id, .. } => *peer_id,
        _ => u64::MAX,
    });
    assert_eq!(
        acts,
        vec![
            Action::SendInitiation { peer_id: 1, target: ep(1, 1) },
            Action::SendInitiation { peer_id: 2, target: ep(2, 2) },
        ]
    );
    assert_eq!(m.session(1).unwrap().state, SessionState::Initiating);
    assert_eq!(m.session(2).unwrap().state, SessionState::Initiating);
}

#[test]
fn shutdown_from_two_call_sites_exits_loop_exactly_once() {
    let mut m = MeshMediator::default();
    m.process_mesh_meta_message(meta(MetaKind::HostUpdateNotification, 1, ep(1, 1), 0), 0);
    // Two call sites race to request shutdown.
    m.shutdown();
    m.shutdown();
    // The state the loop guards is untouched by either request.
    assert!(m.lookup(1).is_some());
    // The loop observes the signal on exactly one iteration and exits.
    let mut teardowns = 0;
    for _ in 0..5 {
        if m.should_exit() {
            teardowns += 1;
            break;
        }
    }
    assert_eq!(teardowns, 1);
}
