use vstd::prelude::*;

use crate::endpoint::Endpoint;

verus! {

// The wire envelope is a fixed header followed by an optional opaque
// payload (used only by handshake datagrams):
//
//   byte 0        top-level variant tag
//   byte 1        sub-type tag within the variant
//   bytes 2..10   peer identifier, big endian
//   bytes 10..14  IPv4 address, big endian
//   bytes 14..16  port, big endian
//   bytes 16..24  auxiliary word, big endian (timestamp, server port,
//                 NAT code or relay identifier, depending on the sub-type)
//   bytes 24..    payload
//
// Unknown top-level tags and unknown sub-type tags decode successfully into
// explicit `Unrecognized` / `Unknown` sentinels, never into errors, so the
// protocol stays forward compatible.  Only a datagram too short to carry the
// header is a decode error.

pub const HEADER_LEN: usize = 24;

pub const TAG_META: u8 = 1;
pub const TAG_HANDSHAKE: u8 = 2;
pub const TAG_CONTROL: u8 = 3;
pub const TAG_PING: u8 = 4;

pub const META_HOST_QUERY: u8 = 1;
pub const META_HOST_UPDATE_NOTIFICATION: u8 = 2;
pub const META_HOST_MOVED_NOTIFICATION: u8 = 3;
pub const META_HOST_PUNCH_NOTIFICATION: u8 = 4;
pub const META_HOST_WHOAMI: u8 = 5;
pub const META_PATH_CHECK: u8 = 6;

pub const CONTROL_CREATE_RELAY_RESPONSE: u8 = 1;
pub const CONTROL_CREATE_RELAY_REQUEST: u8 = 2;

/// Why a datagram failed to decode.  A short datagram is the only decode
/// failure: every long-enough datagram decodes, if only to `Unrecognized`.
#[derive(Clone, Copy, PartialEq, Eq, Structural, Debug)]
pub enum DecodeError {
    Truncated,
}

/// Sub-types of a `Meta` message.  `Unknown` stands for every tag this
/// client does not recognize; processing it is a no-op.
#[derive(Clone, Copy, PartialEq, Eq, Structural, Debug)]
pub enum MetaKind {
    HostQuery,
    HostUpdateNotification,
    HostMovedNotification,
    HostPunchNotification,
    HostWhoami,
    PathCheck,
    Unknown,
}

/// A decoded `Meta` message.  Which of the fields matter depends on the
/// kind: updates carry an endpoint and a NAT code in `aux`, whoami reports
/// carry the observed endpoint and the soliciting server port in `aux`.
#[derive(Clone, Copy, PartialEq, Eq, Structural, Debug)]
pub struct MetaMessage {
    pub kind: MetaKind,
    pub peer_id: u64,
    pub endpoint: Endpoint,
    pub aux: u64,
}

/// Sub-types of a `Control` message.
#[derive(Clone, Copy, PartialEq, Eq, Structural, Debug)]
pub enum ControlKind {
    CreateRelayResponse,
    Unknown,
}

/// A decoded `Control` message.  For a relay response, `endpoint` is the
/// relay-assisted address and `aux` the relay session identifier; a zero
/// `aux` means the server denied the relay.
#[derive(Clone, Copy, PartialEq, Eq, Structural, Debug)]
pub struct ControlMessage {
    pub kind: ControlKind,
    pub peer_id: u64,
    pub endpoint: Endpoint,
    pub aux: u64,
}

/// A decoded handshake datagram: the peer it concerns and the opaque bytes
/// meant for the cryptographic handshake engine.
#[derive(PartialEq, Eq, Debug)]
pub struct HandshakeMessage {
    pub peer_id: u64,
    pub payload: Vec<u8>,
}

/// The decoded wire envelope: exactly one populated variant, or the
/// `Unrecognized` sentinel for a top-level tag this client does not know.
#[derive(PartialEq, Eq, Debug)]
pub enum ClientMessage {
    Meta(MetaMessage),
    Handshake(HandshakeMessage),
    Control(ControlMessage),
    Unrecognized,
}

/// The big-endian 16-bit word at offset `off`.
pub open spec fn be16_at(d: Seq<u8>, off: int) -> u16
    recommends
        0 <= off,
        off + 2 <= d.len(),
{
    ((d[off] as u16) << 8) | (d[off + 1] as u16)
}

/// The big-endian 32-bit word at offset `off`.
pub open spec fn be32_at(d: Seq<u8>, off: int) -> u32
    recommends
        0 <= off,
        off + 4 <= d.len(),
{
    ((d[off] as u32) << 24) | ((d[off + 1] as u32) << 16) | ((d[off + 2] as u32) << 8) | (d[off
        + 3] as u32)
}

/// The big-endian 64-bit word at offset `off`.
pub open spec fn be64_at(d: Seq<u8>, off: int) -> u64
    recommends
        0 <= off,
        off + 8 <= d.len(),
{
    ((d[off] as u64) << 56) | ((d[off + 1] as u64) << 48) | ((d[off + 2] as u64) << 40) | ((d[off
        + 3] as u64) << 32) | ((d[off + 4] as u64) << 24) | ((d[off + 5] as u64) << 16) | ((d[off
        + 6] as u64) << 8) | (d[off + 7] as u64)
}

/// The endpoint encoded at offset `off`: four address bytes, two port bytes.
pub open spec fn endpoint_at(d: Seq<u8>, off: int) -> Endpoint
    recommends
        0 <= off,
        off + 6 <= d.len(),
{
    Endpoint { ip: be32_at(d, off), port: be16_at(d, off + 4) }
}

/// Which `Meta` sub-type a tag byte names.
pub open spec fn meta_kind_of(b: u8) -> MetaKind {
    if b == META_HOST_QUERY {
        MetaKind::HostQuery
    } else if b == META_HOST_UPDATE_NOTIFICATION {
        MetaKind::HostUpdateNotification
    } else if b == META_HOST_MOVED_NOTIFICATION {
        MetaKind::HostMovedNotification
    } else if b == META_HOST_PUNCH_NOTIFICATION {
        MetaKind::HostPunchNotification
    } else if b == META_HOST_WHOAMI {
        MetaKind::HostWhoami
    } else if b == META_PATH_CHECK {
        MetaKind::PathCheck
    } else {
        MetaKind::Unknown
    }
}

/// Which `Control` sub-type a tag byte names.
pub open spec fn control_kind_of(b: u8) -> ControlKind {
    if b == CONTROL_CREATE_RELAY_RESPONSE {
        ControlKind::CreateRelayResponse
    } else {
        ControlKind::Unknown
    }
}

/// The `Meta` message a long-enough datagram carries.
pub open spec fn parsed_meta(d: Seq<u8>) -> MetaMessage
    recommends
        d.len() >= HEADER_LEN,
{
    MetaMessage {
        kind: meta_kind_of(d[1]),
        peer_id: be64_at(d, 2),
        endpoint: endpoint_at(d, 10),
        aux: be64_at(d, 16),
    }
}

/// The `Control` message a long-enough datagram carries.
pub open spec fn parsed_control(d: Seq<u8>) -> ControlMessage
    recommends
        d.len() >= HEADER_LEN,
{
    ControlMessage {
        kind: control_kind_of(d[1]),
        peer_id: be64_at(d, 2),
        endpoint: endpoint_at(d, 10),
        aux: be64_at(d, 16),
    }
}

fn read_u16(d: &Vec<u8>, off: usize) -> (x: u16)
    requires
        off + 2 <= d.len(),
    ensures
        x == be16_at(d@, off as int),
{
    ((d[off] as u16) << 8) | (d[off + 1] as u16)
}

fn read_u32(d: &Vec<u8>, off: usize) -> (x: u32)
    requires
        off + 4 <= d.len(),
    ensures
        x == be32_at(d@, off as int),
{
    ((d[off] as u32) << 24) | ((d[off + 1] as u32) << 16) | ((d[off + 2] as u32) << 8) | (d[off
        + 3] as u32)
}

fn read_u64(d: &Vec<u8>, off: usize) -> (x: u64)
    requires
        off + 8 <= d.len(),
    ensures
        x == be64_at(d@, off as int),
{
    ((d[off] as u64) << 56) | ((d[off + 1] as u64) << 48) | ((d[off + 2] as u64) << 40) | ((d[off
        + 3] as u64) << 32) | ((d[off + 4] as u64) << 24) | ((d[off + 5] as u64) << 16) | ((d[off
        + 6] as u64) << 8) | (d[off + 7] as u64)
}

/// Decode one datagram into the typed envelope.
///
/// A datagram shorter than the header is the one decode error; anything
/// longer decodes, with unknown top-level tags mapped to `Unrecognized` and
/// unknown sub-types mapped to the `Unknown` kind of their variant, so the
/// event loop can skip them silently.
pub fn decode(data: &Vec<u8>) -> (r: Result<ClientMessage, DecodeError>)
    ensures
        r is Err <==> data@.len() < HEADER_LEN,
        r is Err ==> (r matches Err(e) && e == DecodeError::Truncated),
        data@.len() >= HEADER_LEN && data@[0] == TAG_META ==> (r matches Ok(
            ClientMessage::Meta(m),
        ) && m == parsed_meta(data@)),
        data@.len() >= HEADER_LEN && data@[0] == TAG_HANDSHAKE ==> (r matches Ok(
            ClientMessage::Handshake(h),
        ) && h.peer_id == be64_at(data@, 2) && h.payload@ == data@.subrange(
            HEADER_LEN as int,
            data@.len() as int,
        )),
        data@.len() >= HEADER_LEN && data@[0] == TAG_CONTROL ==> (r matches Ok(
            ClientMessage::Control(c),
        ) && c == parsed_control(data@)),
        data@.len() >= HEADER_LEN && data@[0] != TAG_META && data@[0] != TAG_HANDSHAKE && data@[0]
            != TAG_CONTROL ==> (r matches Ok(m) && m is Unrecognized),
{
    if data.len() < HEADER_LEN {
        return Err(DecodeError::Truncated);
    }
    let tag = data[0];
    if tag == TAG_META {
        let sub = data[1];
        let kind = if sub == META_HOST_QUERY {
            MetaKind::HostQuery
        } else if sub == META_HOST_UPDATE_NOTIFICATION {
            MetaKind::HostUpdateNotification
        } else if sub == META_HOST_MOVED_NOTIFICATION {
            MetaKind::HostMovedNotification
        } else if sub == META_HOST_PUNCH_NOTIFICATION {
            MetaKind::HostPunchNotification
        } else if sub == META_HOST_WHOAMI {
            MetaKind::HostWhoami
        } else if sub == META_PATH_CHECK {
            MetaKind::PathCheck
        } else {
            MetaKind::Unknown
        };
        Ok(
            ClientMessage::Meta(
                MetaMessage {
                    kind,
                    peer_id: read_u64(data, 2),
                    endpoint: Endpoint { ip: read_u32(data, 10), port: read_u16(data, 14) },
                    aux: read_u64(data, 16),
                },
            ),
        )
    } else if tag == TAG_HANDSHAKE {
        let peer_id = read_u64(data, 2);
        let mut payload: Vec<u8> = Vec::new();
        let mut i: usize = HEADER_LEN;
        while i < data.len()
            invariant
                HEADER_LEN <= i <= data@.len(),
                payload@ == data@.subrange(HEADER_LEN as int, i as int),
            decreases data@.len() - i,
        {
            payload.push(data[i]);
            proof {
                assert(payload@ =~= data@.subrange(HEADER_LEN as int, i + 1 as int));
            }
            i = i + 1;
        }
        Ok(ClientMessage::Handshake(HandshakeMessage { peer_id, payload }))
    } else if tag == TAG_CONTROL {
        let sub = data[1];
        let kind = if sub == CONTROL_CREATE_RELAY_RESPONSE {
            ControlKind::CreateRelayResponse
        } else {
            ControlKind::Unknown
        };
        Ok(
            ClientMessage::Control(
                ControlMessage {
                    kind,
                    peer_id: read_u64(data, 2),
                    endpoint: Endpoint { ip: read_u32(data, 10), port: read_u16(data, 14) },
                    aux: read_u64(data, 16),
                },
            ),
        )
    } else {
        Ok(ClientMessage::Unrecognized)
    }
}

fn push_u16(out: &mut Vec<u8>, x: u16)
    ensures
        final(out)@ == old(out)@ + seq![((x >> 8) & 0xff) as u8, (x & 0xff) as u8],
        be16_at(final(out)@, old(out)@.len() as int) == x,
        final(out)@.len() == old(out)@.len() + 2,
{
    out.push(((x >> 8) & 0xff) as u8);
    out.push((x & 0xff) as u8);
    proof {
        assert(((((x >> 8) & 0xff) as u8 as u16) << 8) | ((x & 0xff) as u8 as u16) == x)
            by (bit_vector);
    }
}

fn push_u32(out: &mut Vec<u8>, x: u32)
    ensures
        final(out)@ == old(out)@ + seq![
            ((x >> 24) & 0xff) as u8,
            ((x >> 16) & 0xff) as u8,
            ((x >> 8) & 0xff) as u8,
            (x & 0xff) as u8,
        ],
        be32_at(final(out)@, old(out)@.len() as int) == x,
        final(out)@.len() == old(out)@.len() + 4,
{
    out.push(((x >> 24) & 0xff) as u8);
    out.push(((x >> 16) & 0xff) as u8);
    out.push(((x >> 8) & 0xff) as u8);
    out.push((x & 0xff) as u8);
    proof {
        assert(((((x >> 24) & 0xff) as u8 as u32) << 24) | ((((x >> 16) & 0xff) as u8 as u32)
            << 16) | ((((x >> 8) & 0xff) as u8 as u32) << 8) | ((x & 0xff) as u8 as u32) == x)
            by (bit_vector);
    }
}

fn push_u64(out: &mut Vec<u8>, x: u64)
    ensures
        final(out)@ == old(out)@ + seq![
            ((x >> 56) & 0xff) as u8,
            ((x >> 48) & 0xff) as u8,
            ((x >> 40) & 0xff) as u8,
            ((x >> 32) & 0xff) as u8,
            ((x >> 24) & 0xff) as u8,
            ((x >> 16) & 0xff) as u8,
            ((x >> 8) & 0xff) as u8,
            (x & 0xff) as u8,
        ],
        be64_at(final(out)@, old(out)@.len() as int) == x,
        final(out)@.len() == old(out)@.len() + 8,
{
    out.push(((x >> 56) & 0xff) as u8);
    out.push(((x >> 48) & 0xff) as u8);
    out.push(((x >> 40) & 0xff) as u8);
    out.push(((x >> 32) & 0xff) as u8);
    out.push(((x >> 24) & 0xff) as u8);
    out.push(((x >> 16) & 0xff) as u8);
    out.push(((x >> 8) & 0xff) as u8);
    out.push((x & 0xff) as u8);
    proof {
        assert(((((x >> 56) & 0xff) as u8 as u64) << 56) | ((((x >> 48) & 0xff) as u8 as u64)
            << 48) | ((((x >> 40) & 0xff) as u8 as u64) << 40) | ((((x >> 32) & 0xff) as u8 as u64)
            << 32) | ((((x >> 24) & 0xff) as u8 as u64) << 24) | ((((x >> 16) & 0xff) as u8 as u64)
            << 16) | ((((x >> 8) & 0xff) as u8 as u64) << 8) | ((x & 0xff) as u8 as u64) == x)
            by (bit_vector);
    }
}

/// Encode one header-only envelope.  The contract pins every field a decoder
/// reads back out of the bytes.
pub fn encode_envelope(tag: u8, sub: u8, peer_id: u64, endpoint: Endpoint, aux: u64) -> (r: Vec<
    u8,
>)
    ensures
        r@.len() == HEADER_LEN,
        r@[0] == tag,
        r@[1] == sub,
        be64_at(r@, 2) == peer_id,
        endpoint_at(r@, 10) == endpoint,
        be64_at(r@, 16) == aux,
{
    let mut out: Vec<u8> = Vec::new();
    out.push(tag);
    out.push(sub);
    push_u64(&mut out, peer_id);
    push_u32(&mut out, endpoint.ip);
    push_u16(&mut out, endpoint.port);
    push_u64(&mut out, aux);
    out
}

/// Encode a liveness ping stamped with `time` (seconds since epoch).
pub fn encode_ping(time: u64) -> (r: Vec<u8>)
    ensures
        r@.len() == HEADER_LEN,
        r@[0] == TAG_PING,
        be64_at(r@, 16) == time,
{
    encode_envelope(TAG_PING, 1, 0, Endpoint { ip: 0, port: 0 }, time)
}

/// Encode the `PathCheck` reply to a server `HostQuery` about `peer_id`:
/// `aux` is 1 when the peer is believed reachable, 0 otherwise.
pub fn encode_path_check(peer_id: u64, reachable: bool) -> (r: Vec<u8>)
    ensures
        r@.len() == HEADER_LEN,
        r@[0] == TAG_META,
        parsed_meta(r@) == (MetaMessage {
            kind: MetaKind::PathCheck,
            peer_id,
            endpoint: Endpoint { ip: 0, port: 0 },
            aux: if reachable {
                1u64
            } else {
                0u64
            },
        }),
{
    encode_envelope(
        TAG_META,
        META_PATH_CHECK,
        peer_id,
        Endpoint { ip: 0, port: 0 },
        if reachable {
            1
        } else {
            0
        },
    )
}

/// Encode a relay-creation request naming the target peer.
pub fn encode_relay_request(peer_id: u64) -> (r: Vec<u8>)
    ensures
        r@.len() == HEADER_LEN,
        r@[0] == TAG_CONTROL,
        r@[1] == CONTROL_CREATE_RELAY_REQUEST,
        be64_at(r@, 2) == peer_id,
{
    encode_envelope(TAG_CONTROL, CONTROL_CREATE_RELAY_REQUEST, peer_id, Endpoint { ip: 0, port: 0 }, 0)
}

/// Frame handshake-engine bytes for `peer_id` into the envelope.
pub fn encode_handshake(peer_id: u64, payload: &Vec<u8>) -> (r: Vec<u8>)
    ensures
        r@.len() == HEADER_LEN + payload@.len(),
        r@[0] == TAG_HANDSHAKE,
        be64_at(r@, 2) == peer_id,
        r@.subrange(HEADER_LEN as int, r@.len() as int) == payload@,
{
    let mut out = encode_envelope(TAG_HANDSHAKE, 1, peer_id, Endpoint { ip: 0, port: 0 }, 0);
    let ghost header: Seq<u8> = out@;
    let mut i: usize = 0;
    while i < payload.len()
        invariant
            0 <= i <= payload@.len(),
            out@ == header + payload@.subrange(0, i as int),
            header.len() == HEADER_LEN,
            be64_at(header, 2) == peer_id,
            header[0] == TAG_HANDSHAKE,
        decreases payload@.len() - i,
    {
        out.push(payload[i]);
        proof {
            assert(out@ =~= header + payload@.subrange(0, i + 1 as int));
        }
        i = i + 1;
    }
    proof {
        assert(payload@.subrange(0, payload@.len() as int) =~= payload@);
        assert(out@.subrange(HEADER_LEN as int, out@.len() as int) =~= payload@);
        assert(be64_at(out@, 2) == be64_at(header, 2)) by {
            assert(out@[2] == header[2]);
            assert(out@[3] == header[3]);
            assert(out@[4] == header[4]);
            assert(out@[5] == header[5]);
            assert(out@[6] == header[6]);
            assert(out@[7] == header[7]);
            assert(out@[8] == header[8]);
            assert(out@[9] == header[9]);
        }
    }
    out
}

} // verus!
