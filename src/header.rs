//! The frame header: addressing and metadata of a frame, in the schema
//! encoding (a sequence of keyed fields, each key a varint holding the field
//! number and a wire type).

use vstd::prelude::*;
use crate::varint::{
    lemma_read_varint, lemma_varint_len_bound, pow128, read_key, read_key_spec, read_varint,
    read_varint_spec, varint, varint_len, write_key, write_varint,
};

verus! {

/// Field number of the service id.
pub const FIELD_SERVICE_ID: u64 = 1;
/// Field number of the method id.
pub const FIELD_METHOD_ID: u64 = 2;
/// Field number of the correlation token.
pub const FIELD_TOKEN: u64 = 3;
/// Field number of the declared body size.
pub const FIELD_SIZE: u64 = 5;
/// Field number of the status.
pub const FIELD_STATUS: u64 = 6;

/// Wire type of a varint field.
pub const WIRE_VARINT: u64 = 0;
/// Wire type of an eight byte field.
pub const WIRE_FIXED64: u64 = 1;
/// Wire type of a length-delimited field.
pub const WIRE_LENGTH_DELIMITED: u64 = 2;
/// Wire type of a four byte field.
pub const WIRE_FIXED32: u64 = 5;

/// Addressing and metadata of a frame.
#[derive(Debug, Clone, Copy, PartialEq, Eq, Structural)]
pub struct Header {
    /// Service the frame is addressed to.
    pub service_id: u32,
    /// Method of that service, if any.
    pub method_id: Option<u32>,
    /// Correlation token, copied from a request into its response.
    pub token: u32,
    /// Declared size of the body that follows the header.
    pub size: Option<u32>,
    /// Status of a response.
    pub status: Option<u32>,
}

/// The header that decoding starts from before any field is read.
pub open spec fn empty_header() -> Header {
    Header { service_id: 0, method_id: None, token: 0, size: None, status: None }
}

/// Little-endian value of four bytes.
pub open spec fn le32(s: Seq<u8>) -> u32 {
    (s[0] as nat + 256 * s[1] as nat + 65536 * s[2] as nat + 16777216 * s[3] as nat) as u32
}

/// Reads one field from the start of `s`: its field number, wire type,
/// value and the number of bytes it spans. The value of a varint field is
/// the varint, of a four byte field its little-endian value, of a
/// length-delimited field the length of its payload (which ends the
/// field); an eight byte field is skipped with value 0.
pub open spec fn parse_field_spec(s: Seq<u8>) -> Option<(u64, u64, u64, nat)> {
    match read_varint_spec(s) {
        None => None,
        Some((key, k)) => {
            if key > 0xffff_ffff || key / 8 == 0 {
                None
            } else {
                let wire = key % 8;
                let tag = key / 8;
                let rest = s.subrange(k as int, s.len() as int);
                if wire == WIRE_VARINT {
                    match read_varint_spec(rest) {
                        None => None,
                        Some((v, j)) => Some((tag, wire, v, k + j)),
                    }
                } else if wire == WIRE_FIXED64 {
                    if rest.len() >= 8 {
                        Some((tag, wire, 0u64, k + 8))
                    } else {
                        None
                    }
                } else if wire == WIRE_LENGTH_DELIMITED {
                    match read_varint_spec(rest) {
                        None => None,
                        Some((l, j)) => if j + l <= rest.len() {
                            Some((tag, wire, l, (k + j + l) as nat))
                        } else {
                            None
                        },
                    }
                } else if wire == WIRE_FIXED32 {
                    if rest.len() >= 4 {
                        Some((tag, wire, le32(rest) as u64, k + 4))
                    } else {
                        None
                    }
                } else {
                    None
                }
            }
        },
    }
}

/// The header after one field is read into it; fields of unknown number
/// are skipped, a known field with a wire type other than varint is
/// malformed. Values are truncated to 32 bits.
pub open spec fn apply_field(h: Header, tag: u64, wire: u64, v: u64) -> Option<Header> {
    if tag == FIELD_SERVICE_ID || tag == FIELD_METHOD_ID || tag == FIELD_TOKEN || tag == FIELD_SIZE
        || tag == FIELD_STATUS {
        if wire != WIRE_VARINT {
            None
        } else if tag == FIELD_SERVICE_ID {
            Some(Header { service_id: v as u32, ..h })
        } else if tag == FIELD_METHOD_ID {
            Some(Header { method_id: Some(v as u32), ..h })
        } else if tag == FIELD_TOKEN {
            Some(Header { token: v as u32, ..h })
        } else if tag == FIELD_SIZE {
            Some(Header { size: Some(v as u32), ..h })
        } else {
            Some(Header { status: Some(v as u32), ..h })
        }
    } else {
        Some(h)
    }
}

/// Reads all fields of `s` into `h`, in order; a later field overrides an
/// earlier one with the same number.
pub open spec fn parse_fields(s: Seq<u8>, h: Header) -> Option<Header>
    decreases s.len(),
{
    if s.len() == 0 {
        Some(h)
    } else {
        match parse_field_spec(s) {
            None => None,
            Some((tag, wire, v, n)) => {
                if 1 <= n <= s.len() {
                    match apply_field(h, tag, wire, v) {
                        None => None,
                        Some(h2) => parse_fields(s.subrange(n as int, s.len() as int), h2),
                    }
                } else {
                    None
                }
            },
        }
    }
}

/// The header that the bytes `s` encode, if they are well formed.
pub open spec fn decode_header_spec(s: Seq<u8>) -> Option<Header> {
    parse_fields(s, empty_header())
}

/// Encoding of one varint field.
pub open spec fn field_bytes(tag: u64, v: u32) -> Seq<u8> {
    varint((tag * 8) as nat) + varint(v as nat)
}

/// Encoding of an optional varint field: nothing when absent.
pub open spec fn opt_field_bytes(tag: u64, v: Option<u32>) -> Seq<u8> {
    match v {
        Some(x) => field_bytes(tag, x),
        None => Seq::empty(),
    }
}

/// Encoding of a header: the fields in order of their numbers, the
/// required ones always, the optional ones when present.
pub open spec fn header_bytes(h: Header) -> Seq<u8> {
    field_bytes(FIELD_SERVICE_ID, h.service_id) + (opt_field_bytes(FIELD_METHOD_ID, h.method_id) + (
    field_bytes(FIELD_TOKEN, h.token) + (opt_field_bytes(FIELD_SIZE, h.size) + opt_field_bytes(
        FIELD_STATUS,
        h.status,
    ))))
}

proof fn lemma_read_varint_len(s: Seq<u8>)
    ensures
        read_varint_spec(s) matches Some((v, k)) ==> 1 <= k <= s.len() && k <= 10,
{
    lemma_varint_len_range(s, 10);
}

proof fn lemma_varint_len_range(s: Seq<u8>, limit: nat)
    ensures
        varint_len(s, limit) matches Some(k) ==> 1 <= k <= s.len() && k <= limit,
    decreases limit,
{
    if s.len() > 0 && limit > 0 && s[0] >= 128 {
        lemma_varint_len_range(s.drop_first(), (limit - 1) as nat);
    }
}

/// A field spans at least one byte and no more than there are.
pub(crate) proof fn lemma_parse_field_len(s: Seq<u8>)
    ensures
        parse_field_spec(s) matches Some((t, w, v, n)) ==> 1 <= n <= s.len() && (w
            == WIRE_LENGTH_DELIMITED ==> v <= n),
{
    lemma_read_varint_len(s);
    if let Some((key, k)) = read_varint_spec(s) {
        lemma_read_varint_len(s.subrange(k as int, s.len() as int));
    }
}

/// Reads one field of `b` at `pos`, as `parse_field_spec` describes.
pub(crate) fn parse_field(b: &[u8], pos: usize) -> (r: Option<(u64, u64, u64, usize)>)
    requires
        pos <= b@.len(),
    ensures
        match parse_field_spec(b@.subrange(pos as int, b@.len() as int)) {
            Some((t, w, v, n)) => r == Some((t, w, v, (pos + n) as usize)),
            None => r is None,
        },
        r matches Some((t, w, v, next)) ==> pos < next <= b@.len() && next == pos + parse_field_spec(
            b@.subrange(pos as int, b@.len() as int),
        )->Some_0.3,
{
    let ghost s = b@.subrange(pos as int, b@.len() as int);
    proof {
        lemma_read_varint_len(s);
        lemma_parse_field_len(s);
    }
    let blen = b.len();
    let (tag32, wire, n1) = match read_key(b, pos) {
        Ok(x) => x,
        Err(_) => return None,
    };
    proof {
        assert(read_key_spec(s) is Some ==> read_varint_spec(s) is Some);
    }
    let ghost k = read_varint_spec(s)->Some_0.1;
    let p1 = pos + n1;
    let tag = tag32 as u64;
    let ghost rest = s.subrange(k as int, s.len() as int);
    assert(b@.subrange(p1 as int, b@.len() as int) =~= rest);
    proof {
        lemma_read_varint_len(rest);
    }
    if wire == WIRE_VARINT {
        match read_varint(b, p1) {
            Ok((v, n2)) => Some((tag, wire, v, p1 + n2)),
            Err(_) => None,
        }
    } else if wire == WIRE_FIXED64 {
        if b.len() - p1 >= 8 {
            Some((tag, wire, 0, p1 + 8))
        } else {
            None
        }
    } else if wire == WIRE_LENGTH_DELIMITED {
        match read_varint(b, p1) {
            Ok((l, n2)) => {
                let p2 = p1 + n2;
                if l <= (b.len() - p2) as u64 {
                    Some((tag, wire, l, p2 + l as usize))
                } else {
                    None
                }
            },
            Err(_) => None,
        }
    } else if wire == WIRE_FIXED32 {
        if b.len() - p1 >= 4 {
            let v = b[p1] as u64 + 256 * (b[p1 + 1] as u64) + 65536 * (b[p1 + 2] as u64) + 16777216 * (
            b[p1 + 3] as u64);
            Some((tag, wire, v, p1 + 4))
        } else {
            None
        }
    } else {
        None
    }
}

/// Reads one decoded field into the header, as `apply_field` describes.
fn set_field(h: &mut Header, tag: u64, wire: u64, v: u64) -> (ok: bool)
    ensures
        match apply_field(*old(h), tag, wire, v) {
            Some(h2) => ok && *final(h) == h2,
            None => !ok,
        },
{
    if tag == FIELD_SERVICE_ID || tag == FIELD_METHOD_ID || tag == FIELD_TOKEN || tag == FIELD_SIZE
        || tag == FIELD_STATUS {
        if wire != WIRE_VARINT {
            return false;
        }
        let x = v as u32;
        if tag == FIELD_SERVICE_ID {
            h.service_id = x;
        } else if tag == FIELD_METHOD_ID {
            h.method_id = Some(x);
        } else if tag == FIELD_TOKEN {
            h.token = x;
        } else if tag == FIELD_SIZE {
            h.size = Some(x);
        } else {
            h.status = Some(x);
        }
    }
    true
}

/// Decodes a header from exactly the bytes `b`.
pub fn decode_header(b: &[u8]) -> (r: Option<Header>)
    ensures
        r == decode_header_spec(b@),
{
    let mut h = Header { service_id: 0, method_id: None, token: 0, size: None, status: None };
    let mut pos: usize = 0;
    assert(b@.subrange(0, b@.len() as int) =~= b@);
    while pos < b.len()
        invariant
            pos <= b@.len(),
            decode_header_spec(b@) == parse_fields(b@.subrange(pos as int, b@.len() as int), h),
        decreases b@.len() - pos,
    {
        let ghost s = b@.subrange(pos as int, b@.len() as int);
        proof {
            lemma_parse_field_len(s);
        }
        match parse_field(b, pos) {
            None => return None,
            Some((tag, wire, v, next)) => {
                let ghost h_old = h;
                assert(parse_field_spec(s) == Some((tag, wire, v, (next - pos) as nat)));
                if !set_field(&mut h, tag, wire, v) {
                    return None;
                }
                assert(apply_field(h_old, tag, wire, v) == Some(h));
                assert(s.len() > 0);
                assert(parse_fields(s, h_old) == parse_fields(
                    s.subrange((next - pos) as int, s.len() as int),
                    h,
                ));
                assert(s.subrange((next - pos) as int, s.len() as int) =~= b@.subrange(
                    next as int,
                    b@.len() as int,
                ));
                pos = next;
            },
        }
    }
    Some(h)
}

/// Appends one varint field.
pub(crate) fn write_field(tag: u64, v: u32, buf: &mut Vec<u8>)
    requires
        1 <= tag < 16,
    ensures
        final(buf)@ == old(buf)@ + field_bytes(tag, v),
{
    let ghost start = buf@;
    write_key(tag as u32, WIRE_VARINT, buf);
    write_varint(v as u64, buf);
    assert(buf@ =~= start + field_bytes(tag, v));
}

/// Appends an optional varint field, when present.
fn write_opt_field(tag: u64, v: Option<u32>, buf: &mut Vec<u8>)
    requires
        1 <= tag < 16,
    ensures
        final(buf)@ == old(buf)@ + opt_field_bytes(tag, v),
{
    match v {
        Some(x) => write_field(tag, x, buf),
        None => {
            assert(buf@ =~= buf@ + Seq::<u8>::empty());
        },
    }
}

/// Appends the encoding of `h` to `buf`.
pub fn encode_header(h: &Header, buf: &mut Vec<u8>)
    ensures
        final(buf)@ == old(buf)@ + header_bytes(*h),
{
    let ghost start = buf@;
    write_field(FIELD_SERVICE_ID, h.service_id, buf);
    write_opt_field(FIELD_METHOD_ID, h.method_id, buf);
    write_field(FIELD_TOKEN, h.token, buf);
    write_opt_field(FIELD_SIZE, h.size, buf);
    write_opt_field(FIELD_STATUS, h.status, buf);
    assert(buf@ =~= start + header_bytes(*h));
}

/// A varint field followed by anything is read as that field.
proof fn lemma_parse_field(tag: u64, v: u32, rest: Seq<u8>)
    requires
        1 <= tag < 16,
    ensures
        parse_field_spec(field_bytes(tag, v) + rest) == Some(
            (tag, WIRE_VARINT, v as u64, field_bytes(tag, v).len()),
        ),
{
    let key = (tag * 8) as u64;
    let s = field_bytes(tag, v) + rest;
    let tail = varint(v as nat) + rest;
    assert(varint(key as nat) =~= seq![key as u8]);
    assert(s =~= varint(key as nat) + tail);
    lemma_read_varint(key, tail);
    assert(s.subrange(1, s.len() as int) =~= tail);
    lemma_read_varint(v as u64, rest);
    assert(key % 8 == 0 && key / 8 == tag);
}

/// Reading a varint field and then the rest is reading the rest into the
/// header with that field set.
proof fn lemma_parse_fields_step(tag: u64, v: u32, rest: Seq<u8>, h: Header)
    requires
        1 <= tag < 16,
    ensures
        parse_fields(field_bytes(tag, v) + rest, h) == match apply_field(
            h,
            tag,
            WIRE_VARINT,
            v as u64,
        ) {
            Some(h2) => parse_fields(rest, h2),
            None => None,
        },
{
    let s = field_bytes(tag, v) + rest;
    lemma_parse_field(tag, v, rest);
    let n = field_bytes(tag, v).len();
    assert(s.subrange(n as int, s.len() as int) =~= rest);
    assert(s.len() > 0);
}

proof fn lemma_parse_opt_step(tag: u64, v: Option<u32>, rest: Seq<u8>, h: Header)
    requires
        1 <= tag < 16,
    ensures
        parse_fields(opt_field_bytes(tag, v) + rest, h) == match v {
            Some(x) => match apply_field(h, tag, WIRE_VARINT, x as u64) {
                Some(h2) => parse_fields(rest, h2),
                None => None,
            },
            None => parse_fields(rest, h),
        },
{
    match v {
        Some(x) => lemma_parse_fields_step(tag, x, rest, h),
        None => {
            assert(opt_field_bytes(tag, v) + rest =~= rest);
        },
    }
}

/// Decoding the encoding of a header gives back that header.
pub proof fn lemma_header_round_trip(h: Header)
    ensures
        decode_header_spec(header_bytes(h)) == Some(h),
{
    let s5 = opt_field_bytes(FIELD_STATUS, h.status);
    let s4 = opt_field_bytes(FIELD_SIZE, h.size) + s5;
    let s3 = field_bytes(FIELD_TOKEN, h.token) + s4;
    let s2 = opt_field_bytes(FIELD_METHOD_ID, h.method_id) + s3;
    let h1 = Header { service_id: h.service_id, ..empty_header() };
    let h2 = Header { method_id: h.method_id, ..h1 };
    let h3 = Header { token: h.token, ..h2 };
    let h4 = Header { size: h.size, ..h3 };
    let h5 = Header { status: h.status, ..h4 };
    lemma_parse_fields_step(FIELD_SERVICE_ID, h.service_id, s2, empty_header());
    lemma_parse_opt_step(FIELD_METHOD_ID, h.method_id, s3, h1);
    lemma_parse_fields_step(FIELD_TOKEN, h.token, s4, h2);
    lemma_parse_opt_step(FIELD_SIZE, h.size, s5, h3);
    lemma_parse_opt_step(FIELD_STATUS, h.status, Seq::empty(), h4);
    assert(s5 =~= s5 + Seq::<u8>::empty());
    assert(h5 == h);
}

/// An encoded header never exceeds thirty bytes.
pub proof fn lemma_header_bytes_len(h: Header)
    ensures
        header_bytes(h).len() <= 30,
{
    lemma_field_len(FIELD_SERVICE_ID, h.service_id);
    lemma_field_len(FIELD_TOKEN, h.token);
    if let Some(x) = h.method_id {
        lemma_field_len(FIELD_METHOD_ID, x);
    }
    if let Some(x) = h.size {
        lemma_field_len(FIELD_SIZE, x);
    }
    if let Some(x) = h.status {
        lemma_field_len(FIELD_STATUS, x);
    }
}

proof fn lemma_field_len(tag: u64, v: u32)
    requires
        1 <= tag < 16,
    ensures
        field_bytes(tag, v).len() <= 6,
{
    assert(varint((tag * 8) as nat) =~= seq![(tag * 8) as u8]);
    reveal_with_fuel(pow128, 6);
    lemma_varint_len_bound(v as nat, 5);
}

} // verus!
