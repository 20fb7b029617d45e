use crate::error::ProtocolError;
use vstd::prelude::*;

verus! {

/// The largest number of bytes a 32-bit value is written in.
pub const MAX_VARINT_LEN: usize = 5;

/// Whether a byte announces that another byte of the same integer follows.
pub open spec fn continues(b: u8) -> bool {
    b & 0x80 != 0
}

/// The bytes of an unsigned 32-bit value: seven bits per byte, lowest group
/// first, the high bit set on every byte but the last.
pub open spec fn varint_seq(x: u32) -> Seq<u8>
    decreases x,
{
    if x < 0x80 {
        seq![x as u8]
    } else {
        seq![(0x80 + x % 0x80) as u8] + varint_seq(x / 0x80)
    }
}

/// The bytes of a signed 32-bit value: those of its two's complement bits.
pub open spec fn varint_encoding(v: i32) -> Seq<u8> {
    varint_seq(v as u32)
}

/// How many bytes an unsigned 32-bit value is written in.
pub open spec fn varint_len(x: u32) -> nat {
    if x < 0x80 {
        1
    } else if x < 0x4000 {
        2
    } else if x < 0x20_0000 {
        3
    } else if x < 0x1000_0000 {
        4
    } else {
        5
    }
}

/// The index of the first byte that does not ask for another, or the length
/// of the sequence where every byte does.
pub open spec fn terminator_index(bytes: Seq<u8>) -> nat
    decreases bytes.len(),
{
    if bytes.len() == 0 || !continues(bytes[0]) {
        0
    } else {
        1 + terminator_index(bytes.skip(1))
    }
}

/// The value that the first `n` bytes carry: the low seven bits of byte `i`
/// stand at bit `7 * i`, and bits beyond the 32nd are dropped.
pub open spec fn group_value(bytes: Seq<u8>, n: nat) -> u32
    decreases n,
{
    if n == 0 {
        0
    } else {
        group_value(bytes, (n - 1) as nat) | (((bytes[n - 1] & 0x7f) as u32) << ((7 * (n - 1)) as u32))
    }
}

/// What decoding the front of a byte sequence yields: the value and the number
/// of bytes it took, or the reason why there is none.
pub open spec fn decoded(bytes: Seq<u8>) -> Result<(i32, usize), ProtocolError> {
    let t = terminator_index(bytes);
    if t < 5 && t < bytes.len() {
        Ok((group_value(bytes, t + 1) as i32, (t + 1) as usize))
    } else if t >= 5 {
        Err(ProtocolError::MalformedVarInt)
    } else {
        Err(ProtocolError::ConnectionClosed)
    }
}

proof fn lemma_shift_smaller(x: u32)
    by (bit_vector)
    requires
        x >= 0x80,
    ensures
        x >> 7 == x / 0x80,
        (x & 0x7f) | 0x80 == 0x80 + x % 0x80,
        x >> 7 < x,
        x < 0x4000 ==> (x >> 7) < 0x80,
        x < 0x20_0000 ==> (x >> 7) < 0x4000,
        x < 0x1000_0000 ==> (x >> 7) < 0x20_0000,
        (x >> 7) < 0x1000_0000,
        x >= 0x4000 ==> (x >> 7) >= 0x80,
        x >= 0x20_0000 ==> (x >> 7) >= 0x4000,
        x >= 0x1000_0000 ==> (x >> 7) >= 0x20_0000,
{
}

/// An encoding is as long as `varint_len` says: between one and five bytes.
pub proof fn lemma_varint_len(x: u32)
    ensures
        varint_seq(x).len() == varint_len(x),
        1 <= varint_seq(x).len() <= 5,
    decreases x,
{
    if x >= 0x80 {
        lemma_shift_smaller(x);
        lemma_varint_len(x / 0x80);
    }
}

/// The encoding of a signed value has between one and five bytes.
pub proof fn lemma_encoding_len(v: i32)
    ensures
        1 <= varint_encoding(v).len() <= 5,
        varint_encoding(v).len() == varint_len(v as u32),
{
    lemma_varint_len(v as u32);
}

/// Writes a signed 32-bit value in the variable-length format.
pub fn encode_varint(value: i32) -> (bytes: Vec<u8>)
    ensures
        bytes@ == varint_encoding(value),
        1 <= bytes.len() <= MAX_VARINT_LEN,
{
    let mut bytes: Vec<u8> = Vec::new();
    let mut rest: u32 = value as u32;
    while rest >= 0x80
        invariant
            bytes@ + varint_seq(rest) == varint_seq(value as u32),
        decreases rest,
    {
        let low: u32 = (rest & 0x7f) | 0x80;
        proof {
            lemma_shift_smaller(rest);
            assert(bytes@.push(low as u8) + varint_seq(rest >> 7) =~= bytes@ + varint_seq(rest));
        }
        bytes.push(low as u8);
        rest = rest >> 7;
    }
    proof {
        assert(bytes@.push(rest as u8) =~= bytes@ + varint_seq(rest));
        lemma_varint_len(value as u32);
    }
    bytes.push(rest as u8);
    bytes
}

/// Where the first `i` bytes all ask for another, the terminator is not among
/// them; where byte `i` is there and does not, it is the terminator.
pub proof fn lemma_terminator(bytes: Seq<u8>, i: nat)
    requires
        i <= bytes.len(),
        forall|j: int| 0 <= j < i ==> continues(#[trigger] bytes[j]),
    ensures
        terminator_index(bytes) >= i,
        i < bytes.len() && !continues(bytes[i as int]) ==> terminator_index(bytes) == i,
        i == bytes.len() ==> terminator_index(bytes) == i,
    decreases i,
{
    if i > 0 {
        let tail = bytes.skip(1);
        assert forall|j: int| 0 <= j < i - 1 implies continues(#[trigger] tail[j]) by {
            assert(tail[j] == bytes[j + 1]);
        }
        lemma_terminator(tail, (i - 1) as nat);
        if i < bytes.len() {
            assert(tail[i - 1] == bytes[i as int]);
        }
    }
}

proof fn lemma_last_group(x: u32, b: u8)
    by (bit_vector)
    requires
        x < 0x80,
        b == x as u8,
    ensures
        b & 0x80 == 0,
        (b & 0x7f) as u32 == x,
{
}

proof fn lemma_inner_group(x: u32, b: u8, sh: u32)
    by (bit_vector)
    requires
        x >= 0x80,
        b == (0x80 + x % 0x80) as u8,
        sh <= 21,
    ensures
        b & 0x80 != 0,
        (((b & 0x7f) as u32) << sh) | ((x / 0x80) << ((sh + 7) as u32)) == x << sh,
{
}

proof fn lemma_or_shift(a: u32, b: u32, c: u32)
    by (bit_vector)
    ensures
        (a | b) | c == a | (b | c),
        0u32 | (a << 0u32) == a,
{
}

/// Where the encoding of `x` stands in `s` from index `k` on, behind `k` bytes
/// that all ask for another, its last byte is the first terminator of `s`, and
/// the groups up to it carry what the first `k` carry, with `x` above them.
proof fn lemma_groups_of_encoding(s: Seq<u8>, k: nat, x: u32)
    requires
        k + varint_len(x) <= 5,
        s.len() >= k + varint_len(x),
        s.subrange(k as int, (k + varint_len(x)) as int) == varint_seq(x),
        forall|j: int| 0 <= j < k ==> continues(#[trigger] s[j]),
    ensures
        forall|j: int| 0 <= j < k + varint_len(x) - 1 ==> continues(#[trigger] s[j]),
        !continues(s[k + varint_len(x) - 1]),
        group_value(s, k + varint_len(x)) == group_value(s, k) | (x << ((7 * k) as u32)),
    decreases x,
{
    let n = varint_len(x);
    let part = s.subrange(k as int, (k + n) as int);
    lemma_varint_len(x);
    assert(part[0] == s[k as int]);
    let sh = (7 * k) as u32;
    if x < 0x80 {
        lemma_last_group(x, s[k as int]);
        assert(group_value(s, k + 1) == group_value(s, k) | (((s[k as int] & 0x7f) as u32) << sh));
    } else {
        lemma_shift_smaller(x);
        let y = (x / 0x80) as u32;
        lemma_varint_len(y);
        assert(varint_len(x) == 1 + varint_len(y));
        assert(s.subrange((k + 1) as int, (k + 1 + varint_len(y)) as int) =~= varint_seq(x).skip(1));
        assert(varint_seq(x).skip(1) =~= varint_seq(y));
        lemma_inner_group(x, s[k as int], sh);
        assert forall|j: int| 0 <= j < k + 1 implies continues(#[trigger] s[j]) by {}
        lemma_groups_of_encoding(s, k + 1, y);
        let low = ((s[k as int] & 0x7f) as u32) << sh;
        assert(group_value(s, k + 1) == group_value(s, k) | low);
        assert((7 * (k + 1)) as u32 == (sh + 7) as u32);
        lemma_or_shift(group_value(s, k), low, y << ((sh + 7) as u32));
    }
}

/// Decoding what `encode_varint` wrote gives the value back, and the number of
/// bytes written, whatever follows them.
pub proof fn lemma_decode_encode(v: i32, rest: Seq<u8>)
    ensures
        decoded(varint_encoding(v) + rest) == Ok::<(i32, usize), ProtocolError>(
            (v, varint_encoding(v).len() as usize),
        ),
{
    let x = v as u32;
    let s = varint_encoding(v) + rest;
    let n = varint_len(x);
    lemma_varint_len(x);
    assert(s.subrange(0, n as int) =~= varint_seq(x));
    lemma_groups_of_encoding(s, 0, x);
    lemma_terminator(s, (n - 1) as nat);
    lemma_or_shift(x, 0, 0);
    assert(group_value(s, 0) == 0);
    assert(x as i32 == v) by (bit_vector)
        requires
            x == v as u32,
    ;
}

/// Decoding an encoding alone gives the value and the encoding's length.
pub proof fn lemma_round_trip(v: i32)
    ensures
        decoded(varint_encoding(v)) == Ok::<(i32, usize), ProtocolError>(
            (v, varint_encoding(v).len() as usize),
        ),
        1 <= varint_encoding(v).len() <= 5,
{
    lemma_decode_encode(v, Seq::empty());
    assert(varint_encoding(v) + Seq::<u8>::empty() =~= varint_encoding(v));
    lemma_varint_len(v as u32);
}

/// Five bytes that all ask for another are no integer, whatever follows them.
pub proof fn lemma_five_continuations(bytes: Seq<u8>)
    requires
        bytes.len() >= 5,
        forall|j: int| 0 <= j < 5 ==> continues(#[trigger] bytes[j]),
    ensures
        decoded(bytes) == Err::<(i32, usize), ProtocolError>(ProtocolError::MalformedVarInt),
{
    lemma_terminator(bytes, 5);
}

/// What reading one more byte of an integer leads to.
#[derive(Clone, Copy, Debug, PartialEq, Eq, Structural)]
pub enum VarIntStep {
    /// The byte asked for another: the decoder to go on with.
    More(VarIntDecoder),
    /// The byte was the last: the value.
    Done(i32),
    /// The byte was the fifth and still asked for another.
    Malformed,
}

/// An integer in the course of being read, one byte at a time.
#[derive(Clone, Copy, Debug, PartialEq, Eq, Structural)]
pub struct VarIntDecoder {
    /// The groups read so far, each at its place.
    pub acc: u32,
    /// How many bytes were read so far.
    pub count: u8,
}

impl VarIntDecoder {
    /// Whether the decoder stands behind exactly the first bytes of `bytes`,
    /// all of which asked for another.
    pub open spec fn has_read(self, bytes: Seq<u8>, n: nat) -> bool {
        &&& n <= bytes.len()
        &&& n < 5
        &&& self.count == n
        &&& self.acc == group_value(bytes, n)
        &&& forall|j: int| 0 <= j < n ==> continues(#[trigger] bytes[j])
    }

    /// What `push` returns.
    pub open spec fn spec_push(self, b: u8) -> VarIntStep {
        if self.count >= 5 {
            VarIntStep::Malformed
        } else {
            let acc = self.acc | (((b & 0x7f) as u32) << ((7 * self.count) as u32));
            if !continues(b) {
                VarIntStep::Done(acc as i32)
            } else if self.count == 4 {
                VarIntStep::Malformed
            } else {
                VarIntStep::More(VarIntDecoder { acc, count: (self.count + 1) as u8 })
            }
        }
    }

    /// A decoder that has read nothing.
    pub fn new() -> (d: VarIntDecoder)
        ensures
            d == (VarIntDecoder { acc: 0, count: 0 }),
            forall|bytes: Seq<u8>| d.has_read(bytes, 0),
    {
        VarIntDecoder { acc: 0, count: 0 }
    }

    /// Takes the next byte of the stream.
    pub fn push(self, b: u8) -> (step: VarIntStep)
        ensures
            step == self.spec_push(b),
    {
        if self.count >= 5 {
            return VarIntStep::Malformed;
        }
        let shift: u32 = 7 * (self.count as u32);
        let group: u32 = (b & 0x7f) as u32;
        let acc: u32 = self.acc | (group << shift);
        if b & 0x80 == 0 {
            VarIntStep::Done(acc as i32)
        } else if self.count == 4 {
            VarIntStep::Malformed
        } else {
            VarIntStep::More(VarIntDecoder { acc, count: self.count + 1 })
        }
    }
}

/// A decoder that has read the first `n` bytes of a stream does with byte `n`
/// what decoding the stream as a whole comes to.
pub proof fn lemma_push_decodes(d: VarIntDecoder, bytes: Seq<u8>, n: nat)
    requires
        d.has_read(bytes, n),
        n < bytes.len(),
    ensures
        match d.spec_push(bytes[n as int]) {
            VarIntStep::More(next) => next.has_read(bytes, n + 1),
            VarIntStep::Done(v) => decoded(bytes) == Ok::<(i32, usize), ProtocolError>(
                (v, (n + 1) as usize),
            ),
            VarIntStep::Malformed => decoded(bytes) == Err::<(i32, usize), ProtocolError>(
                ProtocolError::MalformedVarInt,
            ),
        },
{
    let b = bytes[n as int];
    if continues(b) {
        assert forall|j: int| 0 <= j < n + 1 implies continues(#[trigger] bytes[j]) by {}
        lemma_terminator(bytes, n + 1);
    } else {
        lemma_terminator(bytes, n);
    }
}

/// Reads one integer from the front of `bytes`: its value and how many bytes it
/// took. Fails where five bytes bring no end, and where the bytes run out first.
pub fn decode_varint(bytes: &[u8]) -> (r: Result<(i32, usize), ProtocolError>)
    ensures
        r == decoded(bytes@),
{
    let mut d = VarIntDecoder::new();
    let mut i: usize = 0;
    while i < bytes.len()
        invariant
            d.has_read(bytes@, i as nat),
        decreases bytes.len() - i,
    {
        proof {
            lemma_push_decodes(d, bytes@, i as nat);
        }
        match d.push(bytes[i]) {
            VarIntStep::More(next) => {
                d = next;
                i += 1;
            },
            VarIntStep::Done(v) => {
                return Ok((v, i + 1));
            },
            VarIntStep::Malformed => {
                return Err(ProtocolError::MalformedVarInt);
            },
        }
    }
    proof {
        lemma_terminator(bytes@, i as nat);
    }
    Err(ProtocolError::ConnectionClosed)
}

} // verus!
