//! Length-prefixed packets of the Server List Ping exchange, and the packets
//! that a status probe sends and expects.
use vstd::prelude::*;
use vstd::string::*;
use crate::varint::{
    decode_varint, lemma_varint_round_trip, varint_decode, varint_encoding, write_mc_string,
    write_varint, ProtocolError,
};

verus! {

/// The default bound on the announced length of a received packet (2 MiB).
pub const MAX_PACKET_LEN: usize = 2097152;

/// Protocol version announced in the handshake.
pub const HANDSHAKE_PROTOCOL_VERSION: i32 = 47;

/// A received packet: its id and the bytes after the id.
#[derive(Debug)]
pub struct Packet {
    pub id: i32,
    pub payload: Vec<u8>,
}

/// The bytes of a packet: `VarInt(length) | VarInt(id) | payload`, where the
/// length counts the id's bytes and the payload's.
pub open spec fn frame_bytes(id: i32, payload: Seq<u8>) -> Seq<u8> {
    let body = varint_encoding(id) + payload;
    varint_encoding(body.len() as i32) + body
}

/// Checking an announced length against the bound `max`.
pub open spec fn frame_length_spec(len: i32, max: nat) -> Result<nat, ProtocolError> {
    if len < 0 {
        Err(ProtocolError::BadLength)
    } else if len > max {
        Err(ProtocolError::PacketTooLarge)
    } else {
        Ok(len as nat)
    }
}

/// Splitting the bytes that a length announced into packet id and payload.
pub open spec fn packet_body_spec(body: Seq<u8>) -> Result<(i32, Seq<u8>), ProtocolError> {
    match varint_decode(body) {
        Err(ProtocolError::UnexpectedEof) => Err(ProtocolError::BadLength),
        Err(e) => Err(e),
        Ok((id, n)) => Ok((id, body.subrange(n as int, body.len() as int))),
    }
}

/// Reading one packet from the front of `b`, with `max` the largest length
/// accepted: the id, the payload and the number of bytes taken.
pub open spec fn frame_decode(b: Seq<u8>, max: nat) -> Result<(i32, Seq<u8>, nat), ProtocolError> {
    match varint_decode(b) {
        Err(e) => Err(e),
        Ok((len, n1)) => match frame_length_spec(len, max) {
            Err(e) => Err(e),
            Ok(n) => {
                if n1 + n > b.len() {
                    Err(ProtocolError::UnexpectedEof)
                } else {
                    match packet_body_spec(b.subrange(n1 as int, (n1 + n) as int)) {
                        Err(e) => Err(e),
                        Ok((id, payload)) => Ok((id, payload, n1 + n)),
                    }
                }
            },
        },
    }
}

/// Checks a length read from a stream against the bound `max_len`.
pub fn check_frame_length(len: i32, max_len: usize) -> (r: Result<usize, ProtocolError>)
    ensures
        r matches Ok(n) ==> frame_length_spec(len, max_len as nat) == Ok::<nat, ProtocolError>(n as nat),
        r matches Err(e) ==> frame_length_spec(len, max_len as nat) == Err::<nat, ProtocolError>(e),
{
    if len < 0 {
        Err(ProtocolError::BadLength)
    } else if len as usize > max_len {
        Err(ProtocolError::PacketTooLarge)
    } else {
        Ok(len as usize)
    }
}

/// Splits the bytes that a packet's length announced into id and payload.
pub fn parse_packet_body(body: &[u8]) -> (r: Result<Packet, ProtocolError>)
    ensures
        r matches Ok(p) ==> packet_body_spec(body@) == Ok::<(i32, Seq<u8>), ProtocolError>((p.id, p.payload@)),
        r matches Err(e) ==> packet_body_spec(body@) == Err::<(i32, Seq<u8>), ProtocolError>(e),
{
    let (id, n) = match decode_varint(body) {
        Ok(x) => x,
        Err(ProtocolError::UnexpectedEof) => {
            return Err(ProtocolError::BadLength);
        },
        Err(e) => {
            return Err(e);
        },
    };
    let mut payload: Vec<u8> = Vec::new();
    payload.extend_from_slice(&body[n..body.len()]);
    assert(payload@ =~= body@.subrange(n as int, body@.len() as int));
    Ok(Packet { id, payload })
}

/// Frames `payload` under packet id `id`.
pub fn write_packet(id: i32, payload: &[u8]) -> (r: Vec<u8>)
    requires
        payload@.len() + 5 <= i32::MAX,
    ensures
        r@ == frame_bytes(id, payload@),
{
    let mut body: Vec<u8> = Vec::new();
    write_varint(id, &mut body);
    body.extend_from_slice(payload);
    proof {
        lemma_varint_round_trip(id, Seq::<u8>::empty());
        assert(body@ =~= varint_encoding(id) + payload@);
    }
    let mut out: Vec<u8> = Vec::new();
    write_varint(body.len() as i32, &mut out);
    out.extend_from_slice(body.as_slice());
    assert(out@ =~= frame_bytes(id, payload@));
    out
}

/// Reads the packet at the front of `bytes`, refusing an announced length
/// over `max_len`. Gives the packet and the number of bytes it took.
pub fn read_packet(bytes: &[u8], max_len: usize) -> (r: Result<(Packet, usize), ProtocolError>)
    ensures
        r matches Ok((p, n)) ==> frame_decode(bytes@, max_len as nat) == Ok::<
            (i32, Seq<u8>, nat),
            ProtocolError,
        >((p.id, p.payload@, n as nat)),
        r matches Err(e) ==> frame_decode(bytes@, max_len as nat) == Err::<
            (i32, Seq<u8>, nat),
            ProtocolError,
        >(e),
{
    let (len, n1) = match decode_varint(bytes) {
        Ok(x) => x,
        Err(e) => {
            return Err(e);
        },
    };
    let len = match check_frame_length(len, max_len) {
        Ok(n) => n,
        Err(e) => {
            return Err(e);
        },
    };
    if len > bytes.len() - n1 {
        return Err(ProtocolError::UnexpectedEof);
    }
    let body = &bytes[n1..n1 + len];
    assert(body@ =~= bytes@.subrange(n1 as int, n1 + len));
    match parse_packet_body(body) {
        Ok(p) => Ok((p, n1 + len)),
        Err(e) => Err(e),
    }
}

/// Reading what `write_packet` wrote gives back the id and the payload,
/// whatever follows, as long as the length stays within the bound.
pub proof fn lemma_frame_round_trip(id: i32, payload: Seq<u8>, rest: Seq<u8>, max: nat)
    requires
        payload.len() + 5 <= i32::MAX,
        varint_encoding(id).len() + payload.len() <= max,
    ensures
        frame_decode(frame_bytes(id, payload) + rest, max) == Ok::<
            (i32, Seq<u8>, nat),
            ProtocolError,
        >((id, payload, frame_bytes(id, payload).len())),
{
    let body = varint_encoding(id) + payload;
    lemma_varint_round_trip(id, payload);
    let len = body.len() as i32;
    assert(len as int == body.len());
    let b = frame_bytes(id, payload) + rest;
    lemma_varint_round_trip(len, body + rest);
    assert(b =~= varint_encoding(len) + (body + rest));
    let n1 = varint_encoding(len).len();
    assert(b.subrange(n1 as int, n1 + len) =~= body);
    assert(body.subrange(varint_encoding(id).len() as int, len as int) =~= payload);
}


/// A port as two bytes, high byte first.
pub open spec fn u16_be(port: u16) -> Seq<u8> {
    seq![(port / 256) as u8, (port % 256) as u8]
}

/// The low `n` bytes of `u`, high byte first.
pub open spec fn be_bytes(u: nat, n: nat) -> Seq<u8>
    decreases n,
{
    if n == 0 {
        Seq::empty()
    } else {
        be_bytes(u / 256, (n - 1) as nat).push((u % 256) as u8)
    }
}

/// The handshake's payload: protocol version, server address as typed by
/// the user, port actually contacted, and the status state (1).
pub open spec fn handshake_payload(host: Seq<u8>, port: u16) -> Seq<u8> {
    varint_encoding(HANDSHAKE_PROTOCOL_VERSION) + varint_encoding(host.len() as i32) + host + u16_be(port)
        + varint_encoding(1)
}

/// The largest host name, in bytes, that a handshake takes. The protocol
/// reads the address as a string of at most 32767 bytes (and a DNS name is
/// at most 253), so no server address the probe can reach is turned away.
pub const MAX_HOST_LEN: usize = 32767;

/// The handshake packet (id 0) for `host`, announcing `port`.
pub fn handshake_packet(host: &str, port: u16) -> (r: Vec<u8>)
    requires
        host.spec_bytes().len() <= MAX_HOST_LEN,
    ensures
        r@ == frame_bytes(0, handshake_payload(host.spec_bytes(), port)),
{
    let mut payload: Vec<u8> = Vec::new();
    write_varint(HANDSHAKE_PROTOCOL_VERSION, &mut payload);
    write_mc_string(host, &mut payload);
    payload.push((port / 256) as u8);
    payload.push((port % 256) as u8);
    write_varint(1, &mut payload);
    proof {
        lemma_varint_round_trip(HANDSHAKE_PROTOCOL_VERSION, Seq::<u8>::empty());
        lemma_varint_round_trip(host.spec_bytes().len() as i32, Seq::<u8>::empty());
        lemma_varint_round_trip(1, Seq::<u8>::empty());
        assert(payload@ =~= handshake_payload(host.spec_bytes(), port));
    }
    write_packet(0, payload.as_slice())
}

/// The status request: an empty packet with id 0, the bytes `0x01 0x00`.
pub fn status_request_packet() -> (r: Vec<u8>)
    ensures
        r@ == frame_bytes(0, Seq::<u8>::empty()),
        r@ == seq![1u8, 0u8],
{
    let empty: Vec<u8> = Vec::new();
    let r = write_packet(0, empty.as_slice());
    proof {
        reveal_with_fuel(crate::varint::varint_bytes, 2);
        assert(varint_encoding(0) =~= seq![0u8]);
        assert(varint_encoding(1) =~= seq![1u8]);
        assert(r@ =~= seq![1u8, 0u8]);
    }
    r
}

fn push_be(u: u64, n: usize, out: &mut Vec<u8>)
    requires
        n <= 8,
    ensures
        final(out)@ == old(out)@ + be_bytes(u as nat, n as nat),
    decreases n,
{
    if n > 0 {
        push_be(u / 256, n - 1, out);
        out.push((u % 256) as u8);
        assert(be_bytes(u as nat, n as nat) == be_bytes((u / 256) as nat, (n - 1) as nat).push((u % 256) as u8));
        assert(out@ =~= old(out)@ + be_bytes(u as nat, n as nat));
    }
}


/// The ping packet (id 1) carrying `value` as eight bytes, high byte first.
pub fn ping_packet(value: i64) -> (r: Vec<u8>)
    ensures
        r@ == frame_bytes(1, be_bytes(value as u64 as nat, 8)),
        r@.len() == 10,
        r@[0] == 9,
        r@[1] == 1,
{
    let mut payload: Vec<u8> = Vec::new();
    push_be(#[verifier::truncate] (value as u64), 8, &mut payload);
    assert(payload@ =~= be_bytes(value as u64 as nat, 8));
    proof {
        reveal_with_fuel(be_bytes, 9);
        reveal_with_fuel(crate::varint::varint_bytes, 2);
        assert(varint_encoding(1) =~= seq![1u8]);
        assert(varint_encoding(9) =~= seq![9u8]);
    }
    write_packet(1, payload.as_slice())
}

/// What the status reply (packet id 0) carries: the bytes of its JSON text,
/// which the payload holds as a VarInt length and then the bytes.
pub open spec fn status_json_spec(id: i32, payload: Seq<u8>) -> Result<Seq<u8>, ProtocolError> {
    if id != 0 {
        Err(ProtocolError::UnexpectedPacketId)
    } else {
        match varint_decode(payload) {
            Err(e) => Err(e),
            Ok((n, k)) => {
                if n < 0 {
                    Err(ProtocolError::BadLength)
                } else if k + n > payload.len() {
                    Err(ProtocolError::UnexpectedEof)
                } else {
                    Ok(payload.subrange(k as int, k + n))
                }
            },
        }
    }
}

/// Takes the JSON bytes out of a status reply.
pub fn status_json_bytes(packet: &Packet) -> (r: Result<Vec<u8>, ProtocolError>)
    ensures
        r matches Ok(v) ==> status_json_spec(packet.id, packet.payload@) == Ok::<Seq<u8>, ProtocolError>(v@),
        r matches Err(e) ==> status_json_spec(packet.id, packet.payload@) == Err::<Seq<u8>, ProtocolError>(e),
{
    if packet.id != 0 {
        return Err(ProtocolError::UnexpectedPacketId);
    }
    let bytes = packet.payload.as_slice();
    let (n, k) = match decode_varint(bytes) {
        Ok(x) => x,
        Err(e) => {
            return Err(e);
        },
    };
    if n < 0 {
        return Err(ProtocolError::BadLength);
    }
    let n = n as usize;
    if n > bytes.len() - k {
        return Err(ProtocolError::UnexpectedEof);
    }
    let mut json: Vec<u8> = Vec::new();
    json.extend_from_slice(&bytes[k..k + n]);
    assert(json@ =~= bytes@.subrange(k as int, k + n));
    Ok(json)
}

/// Whether a reply to the ping is a pong: packet id 1 with eight bytes.
pub open spec fn pong_spec(id: i32, payload: Seq<u8>) -> Result<(), ProtocolError> {
    if id != 1 {
        Err(ProtocolError::UnexpectedPacketId)
    } else if payload.len() < 8 {
        Err(ProtocolError::UnexpectedEof)
    } else {
        Ok(())
    }
}

/// Checks the reply to the ping.
pub fn check_pong(packet: &Packet) -> (r: Result<(), ProtocolError>)
    ensures
        r == pong_spec(packet.id, packet.payload@),
{
    if packet.id != 1 {
        Err(ProtocolError::UnexpectedPacketId)
    } else if packet.payload.len() < 8 {
        Err(ProtocolError::UnexpectedEof)
    } else {
        Ok(())
    }
}

} // verus!
