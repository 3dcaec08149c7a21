//! The streaming frame codec: turns a byte stream into frames and frames
//! back into bytes.
//!
//! On the wire a frame is a two byte big-endian header length, the encoded
//! header, then as many body bytes as the header declares. Decoding latches
//! through the three parts, so a frame that arrives over several reads
//! decodes as if it had arrived at once.

use vstd::prelude::*;
use crate::header::{
    decode_header, decode_header_spec, encode_header, header_bytes, lemma_header_bytes_len,
    lemma_header_round_trip, Header,
};

verus! {

/// Length of the preamble that holds the header length.
pub const HEADER_PREAMBLE_LENGTH: usize = 2;

/// Record type byte that opens a TLS handshake.
pub const TLS_HANDSHAKE_RECORD: u8 = 0x16;

/// Highest TLS major version byte that is recognised.
pub const TLS_MAX_VERSION: u8 = 0x03;

/// The unit exchanged between client and server: a header and an opaque
/// body.
#[derive(Debug)]
pub struct BNetPacket {
    /// Addressing and metadata.
    pub header: Header,
    /// Payload, interpreted by the addressed service.
    pub body: Vec<u8>,
}

impl BNetPacket {
    /// Constructs a new packet.
    pub fn new(header: Header, body: Vec<u8>) -> (r: BNetPacket)
        ensures
            r.header == header,
            r.body@ == body@,
    {
        BNetPacket { header, body }
    }

    /// The header of this packet.
    pub fn header(&self) -> (r: &Header)
        ensures
            *r == self.header,
    {
        &self.header
    }

    /// The payload of this packet.
    pub fn body(&self) -> (r: &Vec<u8>)
        ensures
            r@ == self.body@,
    {
        &self.body
    }

    /// Deconstructs this packet into its header and payload.
    pub fn split(self) -> (r: (Header, Vec<u8>))
        ensures
            r.0 == self.header,
            r.1@ == self.body@,
    {
        (self.header, self.body)
    }
}

/// Failure to turn bytes into a frame or a frame into bytes.
#[derive(Debug)]
pub enum CodecError {
    /// The peer opened a TLS handshake, which this protocol does not speak.
    TLSEnabled,
    /// A field that a frame needs is missing.
    MissingData {
        /// Name of the missing field.
        field_name: String,
    },
    /// The header bytes are not a well formed header.
    ProtoDecode,
    /// A header could not be encoded.
    ProtoEncode,
}

/// Whether two bytes open a TLS handshake record.
pub open spec fn is_tls_preamble(b0: u8, b1: u8) -> bool {
    b0 == TLS_HANDSHAKE_RECORD && b1 <= TLS_MAX_VERSION
}

/// Big-endian value of two bytes.
pub open spec fn be16(b0: u8, b1: u8) -> u16 {
    (b0 as nat * 256 + b1 as nat) as u16
}

/// Latched state of a decoder between calls.
#[derive(Debug, Clone, Copy, PartialEq, Eq, Structural)]
pub struct BNetCodec {
    /// Header length, once the preamble is read.
    pub header_length: Option<u16>,
    /// Header, once it is read.
    pub header: Option<Header>,
    /// Declared body size, once the header is read.
    pub body_size: Option<u32>,
}

/// The decoder state between frames, with nothing latched.
pub open spec fn fresh_codec() -> BNetCodec {
    BNetCodec { header_length: None, header: None, body_size: None }
}

/// What one decode call produces.
pub enum DecodeOutcome {
    /// Not enough bytes yet; nothing is lost.
    NeedMore,
    /// A complete frame.
    Frame(Header, Seq<u8>),
    /// The stream opens with a TLS handshake.
    Tls,
    /// The header declares no body size.
    MissingSize,
    /// The header bytes are malformed.
    Malformed,
}

/// Body stage: once the declared size is buffered, yield the frame and
/// reset every latch.
pub open spec fn decode_body_stage(c: BNetCodec, b: Seq<u8>) -> (DecodeOutcome, BNetCodec, Seq<u8>) {
    match (c.header, c.body_size) {
        (Some(h), Some(size)) => if b.len() >= size {
            (
                DecodeOutcome::Frame(h, b.subrange(0, size as int)),
                fresh_codec(),
                b.subrange(size as int, b.len() as int),
            )
        } else {
            (DecodeOutcome::NeedMore, c, b)
        },
        _ => (DecodeOutcome::NeedMore, c, b),
    }
}

/// Header stage: once the declared header length is buffered, decode the
/// header and latch it with its body size.
pub open spec fn decode_header_stage(c: BNetCodec, b: Seq<u8>) -> (DecodeOutcome, BNetCodec, Seq<u8>) {
    if c.header is Some {
        decode_body_stage(c, b)
    } else {
        let hl = match c.header_length {
            Some(l) => l as nat,
            None => 0,
        };
        if b.len() < hl {
            (DecodeOutcome::NeedMore, c, b)
        } else {
            let rest = b.subrange(hl as int, b.len() as int);
            match decode_header_spec(b.subrange(0, hl as int)) {
                None => (DecodeOutcome::Malformed, c, rest),
                Some(h) => match h.size {
                    None => (DecodeOutcome::MissingSize, c, rest),
                    Some(size) => decode_body_stage(
                        BNetCodec { header: Some(h), body_size: Some(size), ..c },
                        rest,
                    ),
                },
            }
        }
    }
}

/// One decode call from state `c` on buffered bytes `b`: the outcome, the
/// state after it and the bytes left buffered.
pub open spec fn decode_spec(c: BNetCodec, b: Seq<u8>) -> (DecodeOutcome, BNetCodec, Seq<u8>) {
    if c.header_length is None {
        if b.len() < 2 {
            (DecodeOutcome::NeedMore, c, b)
        } else if is_tls_preamble(b[0], b[1]) {
            (DecodeOutcome::Tls, c, b.subrange(2, b.len() as int))
        } else {
            decode_header_stage(
                BNetCodec { header_length: Some(be16(b[0], b[1])), ..c },
                b.subrange(2, b.len() as int),
            )
        }
    } else {
        decode_header_stage(c, b)
    }
}

/// Whether a decode result is the outcome that the model gives.
pub open spec fn result_matches(r: Result<Option<BNetPacket>, CodecError>, o: DecodeOutcome) -> bool {
    match o {
        DecodeOutcome::NeedMore => r matches Ok(None),
        DecodeOutcome::Frame(h, body) => r matches Ok(Some(p)) && p.header == h && p.body@ == body,
        DecodeOutcome::Tls => r matches Err(CodecError::TLSEnabled),
        DecodeOutcome::MissingSize => r matches Err(CodecError::MissingData { field_name }) && field_name@
            == seq!['S', 'i', 'z', 'e'],
        DecodeOutcome::Malformed => r matches Err(CodecError::ProtoDecode),
    }
}

/// Bytes of one frame on the wire.
pub open spec fn frame_bytes(h: Header, body: Seq<u8>) -> Seq<u8> {
    let hb = header_bytes(h);
    seq![(hb.len() / 256) as u8, (hb.len() % 256) as u8] + hb + body
}

/// Removes the first `n` bytes of `src` and returns them.
fn split_to(src: &mut Vec<u8>, n: usize) -> (head: Vec<u8>)
    requires
        n <= old(src)@.len(),
    ensures
        head@ == old(src)@.subrange(0, n as int),
        final(src)@ == old(src)@.subrange(n as int, old(src)@.len() as int),
{
    let mut head = src.split_off(n);
    core::mem::swap(src, &mut head);
    head
}

impl BNetCodec {
    /// Creates a decoder with nothing latched.
    pub fn new() -> (r: BNetCodec)
        ensures
            r == fresh_codec(),
    {
        BNetCodec { header_length: None, header: None, body_size: None }
    }

    /// Body stage of `decode`.
    fn decode_body(&mut self, src: &mut Vec<u8>) -> (r: Result<Option<BNetPacket>, CodecError>)
        ensures
            ({
                let (o, c2, b2) = decode_body_stage(*old(self), old(src)@);
                result_matches(r, o) && *final(self) == c2 && final(src)@ == b2
            }),
    {
        match (self.header, self.body_size) {
            (Some(h), Some(size)) => {
                if src.len() as u64 >= size as u64 {
                    let body = split_to(src, size as usize);
                    self.header_length = None;
                    self.header = None;
                    self.body_size = None;
                    Ok(Some(BNetPacket::new(h, body)))
                } else {
                    Ok(None)
                }
            },
            _ => Ok(None),
        }
    }

    /// Header and body stages of `decode`.
    fn decode_header_and_body(&mut self, src: &mut Vec<u8>) -> (r: Result<
        Option<BNetPacket>,
        CodecError,
    >)
        ensures
            ({
                let (o, c2, b2) = decode_header_stage(*old(self), old(src)@);
                result_matches(r, o) && *final(self) == c2 && final(src)@ == b2
            }),
    {
        if self.header.is_some() {
            return self.decode_body(src);
        }
        let hl: usize = match self.header_length {
            Some(l) => l as usize,
            None => 0,
        };
        if src.len() < hl {
            return Ok(None);
        }
        let header_buf = split_to(src, hl);
        match decode_header(header_buf.as_slice()) {
            None => Err(CodecError::ProtoDecode),
            Some(h) => match h.size {
                None => {
                    proof {
                        reveal_strlit("Size");
                    }
                    let field_name = "Size".to_owned();
                    assert(field_name@ == seq!['S', 'i', 'z', 'e']);
                    Err(CodecError::MissingData { field_name })
                },
                Some(size) => {
                    self.header = Some(h);
                    self.body_size = Some(size);
                    self.decode_body(src)
                },
            },
        }
    }

    /// Decodes the next frame from `src`, consuming the bytes it uses.
    ///
    /// Returns `Ok(None)` when more bytes are needed; what was consumed so
    /// far stays latched in the decoder for the next call.
    pub fn decode(&mut self, src: &mut Vec<u8>) -> (r: Result<Option<BNetPacket>, CodecError>)
        ensures
            ({
                let (o, c2, b2) = decode_spec(*old(self), old(src)@);
                result_matches(r, o) && *final(self) == c2 && final(src)@ == b2
            }),
    {
        if self.header_length.is_none() {
            if src.len() < HEADER_PREAMBLE_LENGTH {
                return Ok(None);
            }
            let preamble = split_to(src, HEADER_PREAMBLE_LENGTH);
            let b0 = preamble[0];
            let b1 = preamble[1];
            if b0 == TLS_HANDSHAKE_RECORD && b1 <= TLS_MAX_VERSION {
                return Err(CodecError::TLSEnabled);
            }
            self.header_length = Some((b0 as u16) * 256 + b1 as u16);
        }
        self.decode_header_and_body(src)
    }

    /// Appends the wire bytes of `item` to `destination`: the header length,
    /// the encoded header, then the body.
    pub fn encode(&mut self, item: BNetPacket, destination: &mut Vec<u8>) -> (r: Result<(), CodecError>)
        ensures
            r is Ok,
            final(destination)@ == old(destination)@ + frame_bytes(item.header, item.body@),
            *final(self) == *old(self),
    {
        let (header, body) = item.split();
        let mut header_buf: Vec<u8> = Vec::new();
        encode_header(&header, &mut header_buf);
        proof {
            lemma_header_bytes_len(header);
        }
        let header_len = header_buf.len();
        let ghost start = destination@;
        destination.push((header_len / 256) as u8);
        destination.push((header_len % 256) as u8);
        let mut i: usize = 0;
        while i < header_buf.len()
            invariant
                i <= header_buf@.len(),
                destination@ == start + seq![(header_len / 256) as u8, (header_len % 256) as u8]
                    + header_buf@.subrange(0, i as int),
            decreases header_buf@.len() - i,
        {
            destination.push(header_buf[i]);
            i = i + 1;
            assert(destination@ =~= start + seq![(header_len / 256) as u8, (header_len % 256) as u8]
                + header_buf@.subrange(0, i as int));
        }
        let ghost mid = destination@;
        let mut j: usize = 0;
        while j < body.len()
            invariant
                j <= body@.len(),
                destination@ == mid + body@.subrange(0, j as int),
            decreases body@.len() - j,
        {
            destination.push(body[j]);
            j = j + 1;
            assert(destination@ =~= mid + body@.subrange(0, j as int));
        }
        assert(header_buf@.subrange(0, header_buf@.len() as int) =~= header_buf@);
        assert(body@.subrange(0, body@.len() as int) =~= body@);
        assert(destination@ =~= start + frame_bytes(header, body@));
        Ok(())
    }
}

/// A frame whose header declares its body's length.
pub open spec fn valid_frame(h: Header, body: Seq<u8>) -> bool {
    body.len() <= u32::MAX && h.size == Some(body.len() as u32)
}

/// Round trip: from a decoder between frames, the wire bytes of a valid
/// frame, followed by anything, decode to exactly that header and body,
/// leave the decoder between frames and leave what followed buffered.
pub proof fn lemma_frame_round_trip(h: Header, body: Seq<u8>, rest: Seq<u8>)
    requires
        valid_frame(h, body),
    ensures
        decode_spec(fresh_codec(), frame_bytes(h, body) + rest) == (
            DecodeOutcome::Frame(h, body),
            fresh_codec(),
            rest,
        ),
{
    let hb = header_bytes(h);
    let e = frame_bytes(h, body) + rest;
    lemma_header_bytes_len(h);
    lemma_header_round_trip(h);
    assert(e[0] == 0u8);
    assert(e[1] == hb.len() as u8);
    let c1 = BNetCodec { header_length: Some(hb.len() as u16), ..fresh_codec() };
    assert(be16(e[0], e[1]) == hb.len() as u16);
    let b1 = e.subrange(2, e.len() as int);
    assert(b1 =~= hb + (body + rest));
    assert(b1.subrange(0, hb.len() as int) =~= hb);
    let b2 = b1.subrange(hb.len() as int, b1.len() as int);
    assert(b2 =~= body + rest);
    assert(b2.subrange(0, body.len() as int) =~= body);
    assert(b2.subrange(body.len() as int, b2.len() as int) =~= rest);
}

/// Resumption: a decode call that needs more bytes loses nothing. Calling
/// again from the state it left, on what it left buffered followed by new
/// bytes, does exactly what one call on all the bytes would have done.
pub proof fn lemma_decode_resumes(c: BNetCodec, b: Seq<u8>, x: Seq<u8>)
    requires
        decode_spec(c, b).0 is NeedMore,
    ensures
        decode_spec(decode_spec(c, b).1, decode_spec(c, b).2 + x) == decode_spec(c, b + x),
{
    if c.header_length is None {
        if b.len() >= 2 {
            let c1 = BNetCodec { header_length: Some(be16(b[0], b[1])), ..c };
            let b1 = b.subrange(2, b.len() as int);
            assert((b + x).subrange(2, (b + x).len() as int) =~= b1 + x);
            lemma_header_stage_resumes(c1, b1, x);
        }
    } else {
        lemma_header_stage_resumes(c, b, x);
    }
}

proof fn lemma_header_stage_resumes(c: BNetCodec, b: Seq<u8>, x: Seq<u8>)
    requires
        c.header_length is Some,
        decode_header_stage(c, b).0 is NeedMore,
    ensures
        decode_header_stage(c, b).1.header_length is Some,
        decode_spec(decode_header_stage(c, b).1, decode_header_stage(c, b).2 + x)
            == decode_header_stage(c, b + x),
{
    if c.header is None {
        let hl = c.header_length->0 as nat;
        if b.len() >= hl {
            assert((b + x).subrange(0, hl as int) =~= b.subrange(0, hl as int));
            assert((b + x).subrange(hl as int, (b + x).len() as int) =~= b.subrange(
                hl as int,
                b.len() as int,
            ) + x);
        }
    }
}

/// A strict prefix of a valid frame's wire bytes never errors: from a
/// decoder between frames it needs more bytes.
proof fn lemma_prefix_needs_more(h: Header, body: Seq<u8>, k: nat)
    requires
        valid_frame(h, body),
        k < frame_bytes(h, body).len(),
    ensures
        decode_spec(fresh_codec(), frame_bytes(h, body).subrange(0, k as int)).0 is NeedMore,
{
    let hb = header_bytes(h);
    let e = frame_bytes(h, body);
    let p = e.subrange(0, k as int);
    lemma_header_bytes_len(h);
    lemma_header_round_trip(h);
    if k >= 2 {
        assert(p[0] == 0u8);
        assert(p[1] == hb.len() as u8);
        assert(be16(p[0], p[1]) == hb.len() as u16);
        let b1 = p.subrange(2, p.len() as int);
        if b1.len() >= hb.len() {
            assert(b1.subrange(0, hb.len() as int) =~= hb);
        }
    }
}

/// Partial reads: split the wire bytes of a valid frame at any byte
/// boundary and feed the two pieces to two decode calls. The first needs
/// more bytes; the second yields the same frame, in the same state, as a
/// single call on all the bytes.
pub proof fn lemma_split_frame(h: Header, body: Seq<u8>, k: nat)
    requires
        valid_frame(h, body),
        k < frame_bytes(h, body).len(),
    ensures
        ({
            let e = frame_bytes(h, body);
            let (o1, c1, b1) = decode_spec(fresh_codec(), e.subrange(0, k as int));
            &&& o1 is NeedMore
            &&& decode_spec(c1, b1 + e.subrange(k as int, e.len() as int)) == decode_spec(
                fresh_codec(),
                e,
            )
            &&& decode_spec(fresh_codec(), e) == (
                DecodeOutcome::Frame(h, body),
                fresh_codec(),
                Seq::<u8>::empty(),
            )
        }),
{
    let e = frame_bytes(h, body);
    lemma_prefix_needs_more(h, body, k);
    lemma_decode_resumes(
        fresh_codec(),
        e.subrange(0, k as int),
        e.subrange(k as int, e.len() as int),
    );
    assert(e.subrange(0, k as int) + e.subrange(k as int, e.len() as int) =~= e);
    lemma_frame_round_trip(h, body, Seq::empty());
    assert(e + Seq::<u8>::empty() =~= e);
}

/// TLS detection: at the start of a frame, bytes that open a TLS handshake
/// record yield the encryption error, whatever follows them.
pub proof fn lemma_tls_detected(c: BNetCodec, b: Seq<u8>)
    requires
        c.header_length is None,
        b.len() >= 2,
        is_tls_preamble(b[0], b[1]),
    ensures
        decode_spec(c, b).0 is Tls,
{
}

/// Feeds `chunks` to successive decode calls from state `c` with `b`
/// buffered, each call on what the previous one left followed by the next
/// chunk, until one gives something other than a request for more bytes;
/// the chunks not fed yet stay buffered after what that call left. With no
/// chunk left it is one call on what is buffered.
pub open spec fn feed(c: BNetCodec, b: Seq<u8>, chunks: Seq<Seq<u8>>) -> (
    DecodeOutcome,
    BNetCodec,
    Seq<u8>,
)
    decreases chunks.len(),
{
    if chunks.len() == 0 {
        decode_spec(c, b)
    } else {
        let (o, c2, b2) = decode_spec(c, b + chunks[0]);
        if o is NeedMore {
            feed(c2, b2, chunks.drop_first())
        } else {
            (o, c2, b2 + chunks.drop_first().flatten())
        }
    }
}

/// A decode call that does not need more bytes is not changed by bytes
/// that arrive after it: they stay buffered behind what it left.
pub proof fn lemma_decode_ignores_later_bytes(c: BNetCodec, b: Seq<u8>, x: Seq<u8>)
    requires
        !(decode_spec(c, b).0 is NeedMore),
    ensures
        decode_spec(c, b + x) == (decode_spec(c, b).0, decode_spec(c, b).1, decode_spec(c, b).2 + x),
{
    if c.header_length is None {
        assert((b + x)[0] == b[0] && (b + x)[1] == b[1]);
        let b1 = b.subrange(2, b.len() as int);
        assert((b + x).subrange(2, (b + x).len() as int) =~= b1 + x);
        if !is_tls_preamble(b[0], b[1]) {
            lemma_header_stage_ignores_later_bytes(
                BNetCodec { header_length: Some(be16(b[0], b[1])), ..c },
                b1,
                x,
            );
        }
    } else {
        lemma_header_stage_ignores_later_bytes(c, b, x);
    }
}

proof fn lemma_header_stage_ignores_later_bytes(c: BNetCodec, b: Seq<u8>, x: Seq<u8>)
    requires
        !(decode_header_stage(c, b).0 is NeedMore),
    ensures
        decode_header_stage(c, b + x) == (
            decode_header_stage(c, b).0,
            decode_header_stage(c, b).1,
            decode_header_stage(c, b).2 + x,
        ),
{
    if c.header is Some {
        lemma_body_stage_ignores_later_bytes(c, b, x);
    } else {
        let hl = match c.header_length {
            Some(l) => l as nat,
            None => 0,
        };
        assert((b + x).subrange(0, hl as int) =~= b.subrange(0, hl as int));
        let rest = b.subrange(hl as int, b.len() as int);
        assert((b + x).subrange(hl as int, (b + x).len() as int) =~= rest + x);
        match decode_header_spec(b.subrange(0, hl as int)) {
            Some(h) => match h.size {
                Some(size) => lemma_body_stage_ignores_later_bytes(
                    BNetCodec { header: Some(h), body_size: Some(size), ..c },
                    rest,
                    x,
                ),
                None => {},
            },
            None => {},
        }
    }
}

proof fn lemma_body_stage_ignores_later_bytes(c: BNetCodec, b: Seq<u8>, x: Seq<u8>)
    requires
        !(decode_body_stage(c, b).0 is NeedMore),
    ensures
        decode_body_stage(c, b + x) == (
            decode_body_stage(c, b).0,
            decode_body_stage(c, b).1,
            decode_body_stage(c, b).2 + x,
        ),
{
    if let (Some(h), Some(size)) = (c.header, c.body_size) {
        assert((b + x).subrange(0, size as int) =~= b.subrange(0, size as int));
        assert((b + x).subrange(size as int, (b + x).len() as int) =~= b.subrange(
            size as int,
            b.len() as int,
        ) + x);
    }
}

/// Partial reads, in any number of pieces: feeding the bytes chunk by
/// chunk to successive decode calls gives exactly what one call on all of
/// them gives.
pub proof fn lemma_feed_is_one_call(c: BNetCodec, b: Seq<u8>, chunks: Seq<Seq<u8>>)
    ensures
        feed(c, b, chunks) == decode_spec(c, b + chunks.flatten()),
    decreases chunks.len(),
{
    if chunks.len() == 0 {
        assert(chunks.flatten() =~= Seq::<u8>::empty());
        assert(b + chunks.flatten() =~= b);
    } else {
        let rest = chunks.drop_first();
        assert(chunks.flatten() =~= chunks[0] + rest.flatten());
        assert(b + chunks.flatten() =~= (b + chunks[0]) + rest.flatten());
        let (o, c2, b2) = decode_spec(c, b + chunks[0]);
        if o is NeedMore {
            lemma_feed_is_one_call(c2, b2, rest);
            lemma_decode_resumes(c, b + chunks[0], rest.flatten());
        } else {
            lemma_decode_ignores_later_bytes(c, b + chunks[0], rest.flatten());
        }
    }
}

/// The state and bytes left after `k` successive decode calls from state
/// `c` on bytes `b`, each of which yields a frame; `None` when one of them
/// yields something else.
pub open spec fn decode_frames(c: BNetCodec, b: Seq<u8>, k: nat) -> Option<(BNetCodec, Seq<u8>)>
    decreases k,
{
    if k == 0 {
        Some((c, b))
    } else {
        let (o, c2, b2) = decode_spec(c, b);
        if o is Frame {
            decode_frames(c2, b2, (k - 1) as nat)
        } else {
            None
        }
    }
}

/// One more decode call that yields a frame extends a run of them.
pub proof fn lemma_decode_frames_extend(c: BNetCodec, b: Seq<u8>, k: nat, c1: BNetCodec, b1: Seq<u8>)
    requires
        decode_frames(c, b, k) == Some((c1, b1)),
        decode_spec(c1, b1).0 is Frame,
    ensures
        decode_frames(c, b, k + 1) == Some((decode_spec(c1, b1).1, decode_spec(c1, b1).2)),
    decreases k,
{
    reveal_with_fuel(decode_frames, 2);
    if k > 0 {
        let (o, c2, b2) = decode_spec(c, b);
        lemma_decode_frames_extend(c2, b2, (k - 1) as nat, c1, b1);
    }
}

/// A measure of what a decoder still holds: twice the buffered bytes, plus
/// one while a preamble is latched.
pub open spec fn pending_measure(c: BNetCodec, b: Seq<u8>) -> int {
    2 * b.len() + if c.header_length is Some {
        1int
    } else {
        0int
    }
}

/// A decode call that yields a frame leaves the decoder between frames and
/// holding strictly less.
pub proof fn lemma_frame_shrinks(c: BNetCodec, b: Seq<u8>)
    requires
        decode_spec(c, b).0 is Frame,
    ensures
        decode_spec(c, b).1 == fresh_codec(),
        pending_measure(decode_spec(c, b).1, decode_spec(c, b).2) < pending_measure(c, b),
{
}

} // verus!
