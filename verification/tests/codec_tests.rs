use mesh_mediator::codec::decode;
use mesh_mediator::codec::encode_envelope;
use mesh_mediator::codec::encode_handshake;
use mesh_mediator::codec::encode_path_check;
use mesh_mediator::codec::encode_ping;
use mesh_mediator::codec::encode_relay_request;
use mesh_mediator::codec::ClientMessage;
use mesh_mediator::codec::ControlKind;
use mesh_mediator::codec::DecodeError;
use mesh_mediator::codec::MetaKind;
use mesh_mediator::codec::CONTROL_CREATE_RELAY_REQUEST;
use mesh_mediator::codec::CONTROL_CREATE_RELAY_RESPONSE;
use mesh_mediator::codec::HEADER_LEN;
use mesh_mediator::codec::META_HOST_UPDATE_NOTIFICATION;
use mesh_mediator::codec::META_PATH_CHECK;
use mesh_mediator::codec::TAG_CONTROL;
use mesh_mediator::codec::TAG_HANDSHAKE;
use mesh_mediator::codec::TAG_META;
use mesh_mediator::codec::TAG_PING;
use mesh_mediator::endpoint::Endpoint;

fn ep(ip: u32, port: u16) -> Endpoint {
    Endpoint { ip, port }
}

#[test]
fn decode_truncated_is_error() {
    for len in 0..HEADER_LEN {
        let data: Vec<u8> = vec![TAG_META; len];
        assert_eq!(decode(&data), Err(DecodeError::Truncated));
    }
}

#[test]
fn decode_unknown_top_tag_is_unrecognized() {
    let mut data = vec![0u8; HEADER_LEN];
    data[0] = 200;
    assert!(matches!(decode(&data), Ok(ClientMessage::Unrecognized)));
    data[0] = 0;
    assert!(matches!(decode(&data), Ok(ClientMessage::Unrecognized)));
}

#[test]
fn decode_unknown_meta_subtype_is_unknown_kind() {
    let data = encode_envelope(TAG_META, 99, 7, ep(1, 2), 3);
    match decode(&data) {
        Ok(ClientMessage::Meta(m)) => {
            assert_eq!(m.kind, MetaKind::Unknown);
            assert_eq!(m.peer_id, 7);
        }
        other => panic!("expected Meta, got {:?}", other.is_ok()),
    }
}

#[test]
fn meta_envelope_round_trip() {
    let data = encode_envelope(
        TAG_META,
        META_HOST_UPDATE_NOTIFICATION,
        0x0102030405060708,
        ep(0xc0a80001, 51820),
        0xdeadbeef,
    );
    assert_eq!(data.len(), HEADER_LEN);
    match decode(&data) {
        Ok(ClientMessage::Meta(m)) => {
            assert_eq!(m.kind, MetaKind::HostUpdateNotification);
            assert_eq!(m.peer_id, 0x0102030405060708);
            assert_eq!(m.endpoint, ep(0xc0a80001, 51820));
            assert_eq!(m.aux, 0xdeadbeef);
        }
        _ => panic!("expected Meta"),
    }
}

#[test]
fn control_envelope_round_trip() {
    let data = encode_envelope(TAG_CONTROL, CONTROL_CREATE_RELAY_RESPONSE, 42, ep(9, 10), 77);
    match decode(&data) {
        Ok(ClientMessage::Control(c)) => {
            assert_eq!(c.kind, ControlKind::CreateRelayResponse);
            assert_eq!(c.peer_id, 42);
            assert_eq!(c.endpoint, ep(9, 10));
            assert_eq!(c.aux, 77);
        }
        _ => panic!("expected Control"),
    }
}

#[test]
fn handshake_round_trip_keeps_payload() {
    let payload = vec![0xab, 0xcd, 0xef, 0x01, 0x23];
    let data = encode_handshake(42, &payload);
    assert_eq!(data.len(), HEADER_LEN + payload.len());
    match decode(&data) {
        Ok(ClientMessage::Handshake(h)) => {
            assert_eq!(h.peer_id, 42);
            assert_eq!(h.payload, payload);
        }
        _ => panic!("expected Handshake"),
    }
}

#[test]
fn handshake_empty_payload_round_trip() {
    let payload: Vec<u8> = Vec::new();
    let data = encode_handshake(1, &payload);
    assert_eq!(data.len(), HEADER_LEN);
    match decode(&data) {
        Ok(ClientMessage::Handshake(h)) => {
            assert_eq!(h.peer_id, 1);
            assert!(h.payload.is_empty());
        }
        _ => panic!("expected Handshake"),
    }
}

#[test]
fn ping_encoding_carries_timestamp() {
    let data = encode_ping(1700000000);
    assert_eq!(data.len(), HEADER_LEN);
    assert_eq!(data[0], TAG_PING);
    let mut t: u64 = 0;
    for i in 16..24 {
        t = (t << 8) | data[i] as u64;
    }
    assert_eq!(t, 1700000000);
}

#[test]
fn path_check_encoding_carries_verdict() {
    let yes = encode_path_check(5, true);
    let no = encode_path_check(5, false);
    assert_eq!(yes[0], TAG_META);
    assert_eq!(yes[1], META_PATH_CHECK);
    match decode(&yes) {
        Ok(ClientMessage::Meta(m)) => {
            assert_eq!(m.kind, MetaKind::PathCheck);
            assert_eq!(m.peer_id, 5);
            assert_eq!(m.aux, 1);
        }
        _ => panic!("expected Meta"),
    }
    match decode(&no) {
        Ok(ClientMessage::Meta(m)) => assert_eq!(m.aux, 0),
        _ => panic!("expected Meta"),
    }
}

#[test]
fn relay_request_encoding_names_peer() {
    let data = encode_relay_request(0xfeed);
    assert_eq!(data[0], TAG_CONTROL);
    assert_eq!(data[1], CONTROL_CREATE_RELAY_REQUEST);
    let mut p: u64 = 0;
    for i in 2..10 {
        p = (p << 8) | data[i] as u64;
    }
    assert_eq!(p, 0xfeed);
}

#[test]
fn decode_exact_header_length_succeeds() {
    let data = vec![TAG_HANDSHAKE; HEADER_LEN];
    assert!(decode(&data).is_ok());
}
