//! Base-128 variable length integers, the building block of the schema
//! encoding used for headers and payloads.

use vstd::prelude::*;

verus! {

/// One past the largest `u64`.
pub open spec fn u64_modulus() -> nat {
    0x1_0000_0000_0000_0000
}

/// Value of a little-endian base-128 digit sequence, ignoring the
/// continuation bit of each byte.
pub open spec fn leb_value(s: Seq<u8>) -> nat
    decreases s.len(),
{
    if s.len() == 0 {
        0
    } else {
        (s[0] % 128) as nat + 128 * leb_value(s.drop_first())
    }
}

/// Shortest base-128 encoding of `v`: seven bits per byte, least significant
/// first, the high bit set on every byte but the last.
pub open spec fn varint(v: nat) -> Seq<u8>
    decreases v,
{
    if v < 128 {
        seq![v as u8]
    } else {
        seq![(v % 128 + 128) as u8] + varint(v / 128)
    }
}

/// Length of the varint that starts `s`: the position after its first byte
/// below 0x80, provided that byte lies within the first `limit` bytes.
pub open spec fn varint_len(s: Seq<u8>, limit: nat) -> Option<nat>
    decreases limit,
{
    if s.len() == 0 || limit == 0 {
        None
    } else if s[0] < 128 {
        Some(1)
    } else {
        match varint_len(s.drop_first(), (limit - 1) as nat) {
            Some(k) => Some(k + 1),
            None => None,
        }
    }
}

/// What reading a varint from the start of `s` yields: its value modulo
/// 2^64 and its length, or nothing when no terminating byte comes within
/// ten bytes.
pub open spec fn read_varint_spec(s: Seq<u8>) -> Option<(u64, nat)> {
    match varint_len(s, 10) {
        Some(k) => Some(((leb_value(s.subrange(0, k as int)) % u64_modulus()) as u64, k)),
        None => None,
    }
}

/// prost's error for malformed schema-encoded data, carried opaquely.
#[verifier::external_type_specification]
#[verifier::external_body]
pub struct ExDecodeError(prost::DecodeError);

/// Relies on prost's `encoding::encode_varint`, writing into a `Vec<u8>`
/// through bytes' `BufMut`: it appends the shortest base-128 encoding.
#[verifier::external_body]
pub(crate) fn write_varint(value: u64, buf: &mut Vec<u8>)
    ensures
        final(buf)@ == old(buf)@ + varint(value as nat),
{
    prost::encoding::encode_varint(value, buf)
}

/// Relies on prost's `encoding::decode_varint`, reading from a
/// `std::io::Cursor` over `b[pos..]`: it reads bytes up to and including the
/// first one below 0x80, at most ten, and returns their base-128 value
/// truncated to 64 bits; with no such byte in reach it returns an error. The
/// cursor's position after the call is the number of bytes read, which is
/// returned with the value.
#[verifier::external_body]
pub(crate) fn read_varint(b: &[u8], pos: usize) -> (r: Result<(u64, usize), prost::DecodeError>)
    requires
        pos <= b@.len(),
    ensures
        match read_varint_spec(b@.subrange(pos as int, b@.len() as int)) {
            Some((v, k)) => r == Ok::<(u64, usize), prost::DecodeError>((v, k as usize)),
            None => r is Err,
        },
{
    let mut cursor = std::io::Cursor::new(&b[pos..]);
    match prost::encoding::decode_varint(&mut cursor) {
        Ok(v) => Ok((v, cursor.position() as usize)),
        Err(e) => Err(e),
    }
}

/// What reading a field key from the start of `s` yields: its field number,
/// its wire type and its length; nothing when the key is not a varint, does
/// not fit 32 bits, names a wire type other than 0, 1, 2 or 5, or names
/// field 0.
pub open spec fn read_key_spec(s: Seq<u8>) -> Option<(u32, u64, nat)> {
    match read_varint_spec(s) {
        None => None,
        Some((key, k)) => {
            let wire = key % 8;
            if key > 0xffff_ffff || key / 8 == 0 || !(wire == 0 || wire == 1 || wire == 2 || wire
                == 5) {
                None
            } else {
                Some(((key / 8) as u32, wire, k))
            }
        },
    }
}

/// Relies on prost's `encoding::decode_key`, reading from a
/// `std::io::Cursor` over `b[pos..]`: it reads a varint key and refuses one
/// above `u32::MAX`, one whose low three bits are not a wire type (0, 1, 2
/// or 5), and one whose field number (the key shifted right by three) is 0.
/// The wire type is handed out as its number, with the bytes read.
#[verifier::external_body]
pub(crate) fn read_key(b: &[u8], pos: usize) -> (r: Result<(u32, u64, usize), prost::DecodeError>)
    requires
        pos <= b@.len(),
    ensures
        match read_key_spec(b@.subrange(pos as int, b@.len() as int)) {
            Some((tag, wire, k)) => r == Ok::<(u32, u64, usize), prost::DecodeError>(
                (tag, wire, k as usize),
            ),
            None => r is Err,
        },
{
    let mut cursor = std::io::Cursor::new(&b[pos..]);
    match prost::encoding::decode_key(&mut cursor) {
        Ok((tag, prost::encoding::WireType::Varint)) => Ok((tag, 0, cursor.position() as usize)),
        Ok((tag, prost::encoding::WireType::SixtyFourBit)) => Ok((tag, 1, cursor.position() as usize)),
        Ok((tag, prost::encoding::WireType::LengthDelimited)) => Ok((tag, 2, cursor.position() as usize)),
        Ok((tag, prost::encoding::WireType::ThirtyTwoBit)) => Ok((tag, 5, cursor.position() as usize)),
        Err(e) => Err(e),
    }
}

/// Relies on prost's `encoding::encode_key`, writing into a `Vec<u8>`: it
/// appends the varint of the field number shifted left by three, or'd with
/// the wire type.
#[verifier::external_body]
pub(crate) fn write_key(tag: u32, wire: u64, buf: &mut Vec<u8>)
    requires
        1 <= tag < 0x2000_0000,
        wire == 0 || wire == 1 || wire == 2 || wire == 5,
    ensures
        final(buf)@ == old(buf)@ + varint((tag * 8 + wire) as nat),
{
    let wire_type = match wire {
        0 => prost::encoding::WireType::Varint,
        1 => prost::encoding::WireType::SixtyFourBit,
        2 => prost::encoding::WireType::LengthDelimited,
        _ => prost::encoding::WireType::ThirtyTwoBit,
    };
    prost::encoding::encode_key(tag, wire_type, buf)
}

/// `128^n`.
pub open spec fn pow128(n: nat) -> nat
    decreases n,
{
    if n == 0 {
        1
    } else {
        128 * pow128((n - 1) as nat)
    }
}

/// The encoding of a value below `128^n` has at most `n` bytes, and at
/// least one.
pub proof fn lemma_varint_len_bound(v: nat, n: nat)
    requires
        v < pow128(n),
        n >= 1,
    ensures
        1 <= varint(v).len() <= n,
    decreases v,
{
    if v >= 128 {
        let p = pow128((n - 1) as nat);
        if n == 1 {
            assert(pow128(0) == 1);
            assert(false);
        }
        assert(v / 128 < p) by (nonlinear_arith)
            requires
                v < 128 * p,
        ;
        lemma_varint_len_bound(v / 128, (n - 1) as nat);
    }
}

/// Any 64-bit value encodes in at most ten bytes.
pub proof fn lemma_varint_len_u64(v: u64)
    ensures
        1 <= varint(v as nat).len() <= 10,
{
    reveal_with_fuel(pow128, 11);
    assert(pow128(10) == 1180591620717411303424nat);
    lemma_varint_len_bound(v as nat, 10);
}

/// The encoding of `v`, followed by anything, is recognised as a varint of
/// exactly its own length, and its digits add up to `v`.
pub proof fn lemma_varint_decodes(v: nat, rest: Seq<u8>, limit: nat)
    requires
        varint(v).len() <= limit,
    ensures
        varint_len(varint(v) + rest, limit) == Some(varint(v).len()),
        leb_value(varint(v)) == v,
    decreases v,
{
    let s = varint(v) + rest;
    if v < 128 {
        assert(s[0] == v as u8);
        assert(varint(v).drop_first() =~= Seq::<u8>::empty());
        assert(leb_value(Seq::<u8>::empty()) == 0);
    } else {
        let tail = varint(v / 128);
        assert(s.drop_first() =~= tail + rest);
        assert(varint(v).drop_first() =~= tail);
        lemma_varint_decodes(v / 128, rest, (limit - 1) as nat);
        assert((v % 128 + 128) as u8 % 128 == v % 128);
        assert(leb_value(varint(v)) == v % 128 + 128 * leb_value(tail));
        assert(v % 128 + 128 * (v / 128) == v);
    }
}

/// Reading a varint from the encoding of a 64-bit value, followed by
/// anything, gives back the value and the encoding's length.
pub proof fn lemma_read_varint(v: u64, rest: Seq<u8>)
    ensures
        read_varint_spec(varint(v as nat) + rest) == Some((v, varint(v as nat).len())),
{
    lemma_varint_len_u64(v);
    lemma_varint_decodes(v as nat, rest, 10);
    let s = varint(v as nat) + rest;
    assert(s.subrange(0, varint(v as nat).len() as int) =~= varint(v as nat));
}

} // verus!
