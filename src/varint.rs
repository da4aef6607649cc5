//! Minecraft VarInt: a 32-bit value in little-endian groups of seven bits,
//! where the high bit of each byte says that another byte follows.
use vstd::prelude::*;
use vstd::string::*;

verus! {

/// Errors of the wire protocol.
#[derive(Debug, Clone, Copy, PartialEq, Eq, Structural)]
pub enum ProtocolError {
    /// The bytes ended in the middle of a value or a frame.
    UnexpectedEof,
    /// A VarInt went on past its fifth byte.
    VarIntTooLong,
    /// A frame announced a length over the allowed bound.
    PacketTooLarge,
    /// A frame announced a length that cannot hold its packet id.
    BadLength,
    /// A reply carried another packet id than the one expected.
    UnexpectedPacketId,
    /// The status reply was not the JSON document that the protocol gives.
    BadJson,
}

/// 128 to the power `k`.
pub open spec fn pow128(k: nat) -> nat
    decreases k,
{
    if k == 0 {
        1
    } else {
        128 * pow128((k - 1) as nat)
    }
}

/// The bytes that encode the unsigned bit pattern `v`.
pub open spec fn varint_bytes(v: nat) -> Seq<u8>
    decreases v,
{
    if v < 128 {
        seq![v as u8]
    } else {
        seq![(v % 128 + 128) as u8] + varint_bytes(v / 128)
    }
}

/// The encoding of `n`: that of its 32-bit two's-complement pattern.
pub open spec fn varint_encoding(n: i32) -> Seq<u8> {
    varint_bytes(n as u32 as nat)
}

/// The value that a completed decode yields from the accumulated groups.
pub open spec fn varint_result(acc: nat) -> i32 {
    (acc % 0x1_0000_0000) as u32 as i32
}

/// Decoding from position `i` of `b`, `acc` holding the groups read so far.
pub open spec fn varint_decode_from(b: Seq<u8>, i: nat, acc: nat) -> Result<(i32, nat), ProtocolError>
    decreases 6 - i,
{
    if i >= b.len() {
        Err(ProtocolError::UnexpectedEof)
    } else if i >= 5 {
        Err(ProtocolError::VarIntTooLong)
    } else {
        let acc2 = acc + (b[i as int] % 128) as nat * pow128(i);
        if b[i as int] < 128 {
            Ok((varint_result(acc2), i + 1))
        } else {
            varint_decode_from(b, i + 1, acc2)
        }
    }
}

/// The value at the front of `b` and the number of bytes it takes.
pub open spec fn varint_decode(b: Seq<u8>) -> Result<(i32, nat), ProtocolError> {
    varint_decode_from(b, 0, 0)
}

/// Appends the encoding of `n` to `out`.
pub fn write_varint(n: i32, out: &mut Vec<u8>)
    ensures
        final(out)@ == old(out)@ + varint_encoding(n),
{
    let mut u: u32 = #[verifier::truncate] (n as u32);
    loop
        invariant_except_break
            out@ + varint_bytes(u as nat) == old(out)@ + varint_encoding(n),
        ensures
            out@ == old(out)@ + varint_encoding(n),
        decreases u,
    {
        if u < 128 {
            out.push(u as u8);
            assert(out@ =~= old(out)@ + varint_encoding(n));
            break;
        } else {
            let ghost before = out@;
            let ghost u0 = u as nat;
            out.push((u % 128 + 128) as u8);
            u = u / 128;
            assert(varint_bytes(u0) == seq![(u0 % 128 + 128) as u8] + varint_bytes(u as nat));
            assert(out@ + varint_bytes(u as nat) =~= before + varint_bytes(u0));
        }
    }
}


/// One step of decoding: state `(count, acc)` takes `byte`. Gives the
/// outcome (`Ok(None)`: another byte is needed) and the next state.
pub open spec fn varint_step(count: nat, acc: nat, byte: u8) -> (Result<Option<i32>, ProtocolError>, nat, nat) {
    if count >= 5 {
        (Err(ProtocolError::VarIntTooLong), count, acc)
    } else {
        let acc2 = acc + (byte % 128) as nat * pow128(count);
        if byte < 128 {
            (Ok(Some(varint_result(acc2))), count + 1, acc2)
        } else {
            (Ok(None), count + 1, acc2)
        }
    }
}

/// Incremental VarInt decoder, fed one byte at a time from a stream.
pub struct VarIntReader {
    count: u8,
    acc: u64,
    mult: u64,
}

impl VarIntReader {
    /// Bytes taken so far.
    pub closed spec fn count(&self) -> nat {
        self.count as nat
    }

    /// Sum of the groups taken so far.
    pub closed spec fn acc(&self) -> nat {
        self.acc as nat
    }

    pub closed spec fn wf(&self) -> bool {
        &&& self.count <= 5
        &&& self.mult == pow128(self.count as nat)
        &&& self.acc < self.mult
    }

    /// A decoder that has taken no byte.
    pub fn new() -> (r: Self)
        ensures
            r.wf(),
            r.count() == 0,
            r.acc() == 0,
    {
        VarIntReader { count: 0, acc: 0, mult: 1 }
    }

    /// Takes the next byte: `Ok(Some(v))` when the value is complete,
    /// `Ok(None)` when another byte is needed, `VarIntTooLong` for a sixth.
    pub fn push(&mut self, byte: u8) -> (r: Result<Option<i32>, ProtocolError>)
        requires
            old(self).wf(),
        ensures
            final(self).wf(),
            r == varint_step(old(self).count(), old(self).acc(), byte).0,
            r is Ok ==> final(self).count() == varint_step(old(self).count(), old(self).acc(), byte).1,
            r is Ok ==> final(self).acc() == varint_step(old(self).count(), old(self).acc(), byte).2,
    {
        if self.count >= 5 {
            return Err(ProtocolError::VarIntTooLong);
        }
        let group: u64 = (byte % 128) as u64;
        proof {
            lemma_pow128_bound(self.count as nat);
            let (a, g, m) = (self.acc as int, group as int, self.mult as int);
            assert(a + g * m < 128 * m) by (nonlinear_arith)
                requires a < m, g <= 127, m > 0;
            assert(128 * m <= 0x8_0000_0000) by (nonlinear_arith)
                requires m <= 0x1000_0000;
        }
        let acc2: u64 = self.acc + group * self.mult;
        self.acc = acc2;
        self.count = self.count + 1;
        self.mult = self.mult * 128;
        if byte < 128 {
            let low: u32 = (acc2 % 0x1_0000_0000) as u32;
            Ok(Some(#[verifier::truncate] (low as i32)))
        } else {
            Ok(None)
        }
    }
}

/// `pow128(k)` is positive, and at most `2^28` up to `k == 4`.
pub proof fn lemma_pow128_bound(k: nat)
    requires
        k <= 4,
    ensures
        0 < pow128(k) <= 0x1000_0000,
{
    reveal_with_fuel(pow128, 5);
    assert(pow128(4) == 0x1000_0000);
}

/// Decodes the VarInt at the front of `bytes`: its value and its length.
pub fn decode_varint(bytes: &[u8]) -> (r: Result<(i32, usize), ProtocolError>)
    ensures
        r matches Ok((v, n)) ==> varint_decode(bytes@) == Ok::<(i32, nat), ProtocolError>((v, n as nat)),
        r matches Ok((v, n)) ==> 1 <= n <= bytes@.len(),
        r matches Err(e) ==> varint_decode(bytes@) == Err::<(i32, nat), ProtocolError>(e),
{
    let mut reader = VarIntReader::new();
    let mut i: usize = 0;
    loop
        invariant
            reader.wf(),
            reader.count() == i,
            i <= 5,
            varint_decode(bytes@) == varint_decode_from(bytes@, i as nat, reader.acc()),
        decreases 6 - i,
    {
        if i >= bytes.len() {
            return Err(ProtocolError::UnexpectedEof);
        }
        match reader.push(bytes[i]) {
            Ok(Some(v)) => {
                return Ok((v, i + 1));
            },
            Ok(None) => {
                i = i + 1;
            },
            Err(e) => {
                return Err(e);
            },
        }
    }
}

/// Appends `s` as a protocol string: its UTF-8 length as a VarInt, then its bytes.
pub fn write_mc_string(s: &str, out: &mut Vec<u8>)
    requires
        s.spec_bytes().len() <= i32::MAX,
    ensures
        final(out)@ == old(out)@ + varint_encoding(s.spec_bytes().len() as i32) + s.spec_bytes(),
{
    let bytes = s.as_bytes();
    write_varint(bytes.len() as i32, out);
    let ghost mid = out@;
    out.extend_from_slice(bytes);
    assert(out@ =~= mid + s.spec_bytes());
}


proof fn lemma_decode_groups(pre: Seq<u8>, v: nat, suffix: Seq<u8>, acc: nat, total: nat)
    requires
        pre.len() <= 4,
        v < pow128((5 - pre.len()) as nat),
        acc + v * pow128(pre.len()) == total,
    ensures
        1 <= varint_bytes(v).len(),
        pre.len() + varint_bytes(v).len() <= 5,
        varint_decode_from(pre + varint_bytes(v) + suffix, pre.len(), acc) == Ok::<(i32, nat), ProtocolError>(
            (varint_result(total), pre.len() + varint_bytes(v).len()),
        ),
    decreases v,
{
    let i = pre.len();
    let b = pre + varint_bytes(v) + suffix;
    let p = pow128(i);
    if v < 128 {
        assert(b[i as int] == v as u8);
    } else {
        reveal_with_fuel(pow128, 2);
        let j = (5 - i) as nat;
        if j < 2 {
            assert(pow128(j) <= 128);
        }
        let byte = (v % 128 + 128) as u8;
        assert(b[i as int] == byte);
        let acc2 = acc + (byte % 128) as nat * p;
        assert(pow128(j) == 128 * pow128((j - 1) as nat));
        let q = v / 128;
        assert(q < pow128((j - 1) as nat)) by (nonlinear_arith)
            requires v < 128 * pow128((j - 1) as nat), q == v / 128;
        assert(pow128(i + 1) == 128 * p);
        assert(acc2 + q * pow128(i + 1) == total) by (nonlinear_arith)
            requires
                acc2 == acc + (v % 128) * p,
                pow128(i + 1) == 128 * p,
                q == v / 128,
                acc + v * p == total;
        assert(b =~= pre.push(byte) + varint_bytes(q) + suffix);
        lemma_decode_groups(pre.push(byte), q, suffix, acc2, total);
    }
}

/// Decoding the encoding of any `n`, whatever follows it, gives back `n` and
/// the length of the encoding, which is between one and five bytes.
pub proof fn lemma_varint_round_trip(n: i32, rest: Seq<u8>)
    ensures
        1 <= varint_encoding(n).len() <= 5,
        varint_decode(varint_encoding(n) + rest) == Ok::<(i32, nat), ProtocolError>(
            (n, varint_encoding(n).len()),
        ),
{
    let v = n as u32 as nat;
    reveal_with_fuel(pow128, 6);
    assert(((n as u32) as i32) == n) by (bit_vector);
    assert(v % 0x1_0000_0000 == v);
    assert(varint_result(v) == n);
    let empty = Seq::<u8>::empty();
    assert(empty.len() == 0);
    assert(pow128(0) == 1);
    assert(0 + v * pow128(empty.len()) == v);
    assert(Seq::<u8>::empty() + varint_bytes(v) + rest =~= varint_encoding(n) + rest);
    lemma_decode_groups(empty, v, rest, 0, v);
}

/// Five bytes that each announce a successor are followed by an error,
/// whatever the sixth byte holds.
pub proof fn lemma_varint_sixth_byte(b: Seq<u8>)
    requires
        b.len() >= 6,
        forall|k: int| 0 <= k < 5 ==> b[k] >= 128,
    ensures
        varint_decode(b) == Err::<(i32, nat), ProtocolError>(ProtocolError::VarIntTooLong),
{
    reveal_with_fuel(varint_decode_from, 7);
}

} // verus!
