use crate::varint::{decoded, encode_varint, lemma_decode_encode, lemma_varint_len, varint_encoding};
use crate::error::ProtocolError;
use vstd::prelude::*;
use vstd::string::StringSliceAdditionalSpecFns;

verus! {

/// The protocol version that the handshake declares.
pub const PROTOCOL_VERSION: i32 = 765;

/// The packet id of the handshake, of the status request and of its response.
pub const STATUS_PACKET_ID: i32 = 0x00;

/// The packet id of the ping and of the pong.
pub const PING_PACKET_ID: i32 = 0x01;

/// The state that the handshake asks the server to enter: status.
pub const NEXT_STATE_STATUS: i32 = 1;

/// The longest address, in bytes, whose handshake still has a length that the
/// frame's prefix can declare.
pub const MAX_ADDRESS_LEN: usize = 0x7fff_fff0;

/// The greatest length a payload can have: the prefix declares it as a
/// non-negative 32-bit value.
pub const MAX_PAYLOAD_LEN: usize = 0x7fff_ffff;

/// The number of payload bytes that follow the packet id of a ping or a pong.
pub const PING_BODY_LEN: usize = 8;

/// The server to probe.
#[derive(Clone, Debug)]
pub struct PingTarget {
    /// Host name or IP address.
    pub address: String,
    /// TCP port.
    pub port: u16,
}

impl PingTarget {
    /// The address as it goes on the wire.
    pub open spec fn address_bytes(&self) -> Seq<u8> {
        vstd::utf8::encode_utf8(self.address@)
    }

    /// The address is not empty and short enough to be framed.
    pub open spec fn wf(&self) -> bool {
        0 < self.address_bytes().len() <= MAX_ADDRESS_LEN
    }

    /// A target, unless the address is empty or too long to be framed.
    pub fn new(address: String, port: u16) -> (r: Option<PingTarget>)
        ensures
            match r {
                Some(t) => t.wf() && t.address == address && t.port == port,
                None => vstd::utf8::encode_utf8(address@).len() == 0
                    || vstd::utf8::encode_utf8(address@).len() > MAX_ADDRESS_LEN,
            },
    {
        let n = address.as_str().as_bytes().len();
        if n == 0 || n > MAX_ADDRESS_LEN {
            None
        } else {
            Some(PingTarget { address, port })
        }
    }
}

/// The two bytes of a port, high byte first.
pub open spec fn be16(v: u16) -> Seq<u8> {
    seq![(v >> 8) as u8, (v & 0xff) as u8]
}

/// The eight bytes of a 64-bit value, highest byte first.
pub open spec fn be64(v: u64) -> Seq<u8> {
    seq![
        ((v >> 56) & 0xff) as u8,
        ((v >> 48) & 0xff) as u8,
        ((v >> 40) & 0xff) as u8,
        ((v >> 32) & 0xff) as u8,
        ((v >> 24) & 0xff) as u8,
        ((v >> 16) & 0xff) as u8,
        ((v >> 8) & 0xff) as u8,
        (v & 0xff) as u8,
    ]
}

/// A payload behind the prefix that declares its length.
pub open spec fn framed(payload: Seq<u8>) -> Seq<u8> {
    varint_encoding(payload.len() as i32) + payload
}

/// The handshake's payload: packet id, protocol version, the address behind its
/// length, the port, and the state asked for.
pub open spec fn handshake_payload(version: i32, address: Seq<u8>, port: u16) -> Seq<u8> {
    varint_encoding(STATUS_PACKET_ID) + varint_encoding(version) + varint_encoding(
        address.len() as i32,
    ) + address + be16(port) + varint_encoding(NEXT_STATE_STATUS)
}

/// The status request as it goes on the wire: length one, packet id zero.
pub open spec fn status_request() -> Seq<u8> {
    seq![0x01u8, 0x00u8]
}

/// The ping's payload: packet id and eight bytes, highest first.
pub open spec fn ping_payload(value: u64) -> Seq<u8> {
    varint_encoding(PING_PACKET_ID) + be64(value)
}

/// Appends a copy of `src` to `out`.
pub fn append_bytes(out: &mut Vec<u8>, src: &[u8])
    ensures
        final(out)@ == old(out)@ + src@,
{
    let ghost before = out@;
    let mut i: usize = 0;
    while i < src.len()
        invariant
            i <= src.len(),
            out@ == before + src@.take(i as int),
        decreases src.len() - i,
    {
        out.push(src[i]);
        i += 1;
        assert(out@ =~= before + src@.take(i as int));
    }
    assert(src@.take(i as int) =~= src@);
}

/// Puts the length prefix in front of a payload. `None` where the payload is
/// longer than a prefix can declare.
pub fn frame(payload: &[u8]) -> (r: Option<Vec<u8>>)
    ensures
        r is Some <==> payload.len() <= MAX_PAYLOAD_LEN,
        r matches Some(bytes) ==> bytes@ == framed(payload@),
{
    if payload.len() > MAX_PAYLOAD_LEN {
        None
    } else {
        Some(prefixed(payload))
    }
}

fn prefixed(payload: &[u8]) -> (bytes: Vec<u8>)
    requires
        payload.len() <= MAX_PAYLOAD_LEN,
    ensures
        bytes@ == framed(payload@),
{
    let mut bytes = encode_varint(payload.len() as i32);
    append_bytes(&mut bytes, payload);
    bytes
}

/// Builds the handshake's payload for a target.
pub fn build_handshake(target: &PingTarget, version: i32) -> (bytes: Vec<u8>)
    requires
        target.wf(),
    ensures
        bytes@ == handshake_payload(version, target.address_bytes(), target.port),
        bytes.len() <= MAX_PAYLOAD_LEN,
{
    let address = target.address.as_str().as_bytes();
    let mut bytes = encode_varint(STATUS_PACKET_ID);
    let v = encode_varint(version);
    append_bytes(&mut bytes, v.as_slice());
    let n = encode_varint(address.len() as i32);
    append_bytes(&mut bytes, n.as_slice());
    append_bytes(&mut bytes, address);
    let port = target.port;
    bytes.push((port >> 8) as u8);
    bytes.push((port & 0xff) as u8);
    let s = encode_varint(NEXT_STATE_STATUS);
    append_bytes(&mut bytes, s.as_slice());
    proof {
        assert(bytes@ =~= handshake_payload(version, target.address_bytes(), target.port));
    }
    bytes
}

/// The handshake as it goes on the wire, for the protocol version of this
/// library.
pub fn handshake_frame(target: &PingTarget) -> (bytes: Vec<u8>)
    requires
        target.wf(),
    ensures
        bytes@ == framed(
            handshake_payload(PROTOCOL_VERSION, target.address_bytes(), target.port),
        ),
{
    let payload = build_handshake(target, PROTOCOL_VERSION);
    prefixed(payload.as_slice())
}

/// The status request as it goes on the wire.
pub fn status_request_frame() -> (bytes: Vec<u8>)
    ensures
        bytes@ == status_request(),
{
    let mut bytes: Vec<u8> = Vec::new();
    bytes.push(0x01);
    bytes.push(0x00);
    assert(bytes@ =~= status_request());
    bytes
}

/// The ping as it goes on the wire, with `value` as its eight bytes.
pub fn ping_frame(value: u64) -> (bytes: Vec<u8>)
    ensures
        bytes@ == framed(ping_payload(value)),
        bytes.len() == 10,
{
    let mut payload = encode_varint(PING_PACKET_ID);
    payload.push(((value >> 56) & 0xff) as u8);
    payload.push(((value >> 48) & 0xff) as u8);
    payload.push(((value >> 40) & 0xff) as u8);
    payload.push(((value >> 32) & 0xff) as u8);
    payload.push(((value >> 24) & 0xff) as u8);
    payload.push(((value >> 16) & 0xff) as u8);
    payload.push(((value >> 8) & 0xff) as u8);
    payload.push((value & 0xff) as u8);
    proof {
        assert(payload@ =~= ping_payload(value));
        lemma_varint_len(PING_PACKET_ID as u32);
        lemma_varint_len(payload.len() as u32);
    }
    prefixed(payload.as_slice())
}

/// The length that a frame declares is the length of its payload, and the
/// payload follows the prefix unchanged.
pub proof fn lemma_frame_declares_length(payload: Seq<u8>)
    requires
        payload.len() <= MAX_PAYLOAD_LEN,
    ensures
        decoded(framed(payload)) == Ok::<(i32, usize), ProtocolError>(
            (payload.len() as i32, varint_encoding(payload.len() as i32).len() as usize),
        ),
        framed(payload).len() == varint_encoding(payload.len() as i32).len() + payload.len(),
        framed(payload).skip(varint_encoding(payload.len() as i32).len() as int) == payload,
{
    let prefix = varint_encoding(payload.len() as i32);
    lemma_decode_encode(payload.len() as i32, payload);
    assert(framed(payload).skip(prefix.len() as int) =~= payload);
}

/// Whether `bytes` is one whole frame: a prefix that declares a length, and
/// exactly so many bytes behind it.
pub open spec fn is_frame(bytes: Seq<u8>) -> bool {
    match decoded(bytes) {
        Ok((declared, prefix_len)) => declared >= 0 && bytes.len() == prefix_len + declared,
        Err(_) => false,
    }
}

/// A payload behind its prefix is one whole frame.
pub proof fn lemma_framed_is_frame(payload: Seq<u8>)
    requires
        payload.len() <= MAX_PAYLOAD_LEN,
    ensures
        is_frame(framed(payload)),
{
    lemma_frame_declares_length(payload);
    lemma_varint_len(payload.len() as u32);
}

/// The status request is the frame of a payload that holds the packet id zero
/// and nothing else.
pub proof fn lemma_status_request_is_frame()
    ensures
        status_request() == framed(varint_encoding(STATUS_PACKET_ID)),
        is_frame(status_request()),
{
    let payload = varint_encoding(STATUS_PACKET_ID);
    lemma_varint_len(STATUS_PACKET_ID as u32);
    lemma_varint_len(1u32);
    assert(payload =~= seq![0x00u8]);
    assert(varint_encoding(1) =~= seq![0x01u8]);
    assert(status_request() =~= framed(payload));
    lemma_framed_is_frame(payload);
}

proof fn lemma_port_bytes(port: u16, hi: u8, lo: u8)
    by (bit_vector)
    requires
        hi == (port >> 8) as u8,
        lo == (port & 0xff) as u8,
    ensures
        ((hi as u16) << 8) | (lo as u16) == port,
{
}

/// A handshake gives its fields back: read from the front with the codec, its
/// payload yields the packet id zero, the protocol version, the length of the
/// address and then the address itself, the port in two bytes with the high one
/// first, and the state asked for, with nothing behind it. The frame around it
/// declares the payload's length.
pub proof fn lemma_handshake_fields(version: i32, address: Seq<u8>, port: u16)
    requires
        address.len() <= MAX_ADDRESS_LEN,
    ensures
        ({
            let p = handshake_payload(version, address, port);
            let at_length = (1 + varint_encoding(version).len()) as int;
            let at_address = (at_length + varint_encoding(address.len() as i32).len()) as int;
            let at_port = (at_address + address.len()) as int;
            &&& p.len() == at_port + 3
            &&& p.len() <= MAX_PAYLOAD_LEN
            &&& decoded(p) == Ok::<(i32, usize), ProtocolError>((STATUS_PACKET_ID, 1))
            &&& decoded(p.skip(1)) == Ok::<(i32, usize), ProtocolError>(
                (version, varint_encoding(version).len() as usize),
            )
            &&& decoded(p.skip(at_length)) == Ok::<(i32, usize), ProtocolError>(
                (address.len() as i32, varint_encoding(address.len() as i32).len() as usize),
            )
            &&& p.subrange(at_address, at_port) == address
            &&& ((p[at_port] as u16) << 8) | (p[at_port + 1] as u16) == port
            &&& decoded(p.skip(at_port + 2)) == Ok::<(i32, usize), ProtocolError>(
                (NEXT_STATE_STATUS, 1),
            )
            &&& decoded(framed(p)) == Ok::<(i32, usize), ProtocolError>(
                (p.len() as i32, varint_encoding(p.len() as i32).len() as usize),
            )
            &&& framed(p).skip(varint_encoding(p.len() as i32).len() as int) == p
        }),
{
    let p = handshake_payload(version, address, port);
    let id = varint_encoding(STATUS_PACKET_ID);
    let ver = varint_encoding(version);
    let len = varint_encoding(address.len() as i32);
    let next = varint_encoding(NEXT_STATE_STATUS);
    lemma_varint_len(STATUS_PACKET_ID as u32);
    lemma_varint_len(version as u32);
    lemma_varint_len(address.len() as i32 as u32);
    lemma_varint_len(NEXT_STATE_STATUS as u32);
    let at_length = (1 + ver.len()) as int;
    let at_address = (at_length + len.len()) as int;
    let at_port = (at_address + address.len()) as int;
    assert(id.len() == 1 && next.len() == 1);

    let after_id = ver + len + address + be16(port) + next;
    assert(p =~= id + after_id);
    lemma_decode_encode(STATUS_PACKET_ID, after_id);

    let after_version = len + address + be16(port) + next;
    assert(p.skip(1) =~= ver + after_version);
    lemma_decode_encode(version, after_version);

    let after_length = address + be16(port) + next;
    assert(p.skip(at_length) =~= len + after_length);
    lemma_decode_encode(address.len() as i32, after_length);

    assert(p.subrange(at_address, at_port) =~= address);
    assert(p[at_port] == be16(port)[0]);
    assert(p[at_port + 1] == be16(port)[1]);
    lemma_port_bytes(port, p[at_port], p[at_port + 1]);

    assert(p.skip(at_port + 2) =~= next + Seq::<u8>::empty());
    lemma_decode_encode(NEXT_STATE_STATUS, Seq::empty());

    lemma_frame_declares_length(p);
}

} // verus!
