//! Schema encoding of the connect exchange: the peer's bind request and
//! this process's connect response.

use vstd::prelude::*;
use crate::header::{
    field_bytes, lemma_parse_field_len, parse_field, parse_field_spec, write_field, WIRE_FIXED32,
    WIRE_LENGTH_DELIMITED, WIRE_VARINT,
};
use crate::varint::{varint, write_key, write_varint};

verus! {

/// Label of this server's process id.
pub const SERVER_PROCESS_LABEL: u32 = 3868510373;

/// Label given to the client's process id.
pub const CLIENT_PROCESS_LABEL: u32 = 1255760;

/// Bind result that reports success.
pub const BIND_RESULT_OK: u32 = 0;

/// Payload of a length-delimited field whose parse gave wire type `w`,
/// value `v` and length `n`: its last `v` bytes.
pub open spec fn field_payload(s: Seq<u8>, w: u64, v: u64, n: nat) -> Seq<u8> {
    if w == WIRE_LENGTH_DELIMITED {
        s.subrange(n - v, n as int)
    } else {
        Seq::empty()
    }
}

/// Reads every field of the message `s` in order, folding each into `acc`
/// with `step` (given the field number, wire type, value and payload).
pub open spec fn fold_fields<A>(
    s: Seq<u8>,
    acc: A,
    step: spec_fn(A, u64, u64, u64, Seq<u8>) -> Option<A>,
) -> Option<A>
    decreases s.len(),
{
    if s.len() == 0 {
        Some(acc)
    } else {
        match parse_field_spec(s) {
            None => None,
            Some((t, w, v, n)) => {
                if 1 <= n <= s.len() {
                    match step(acc, t, w, v, field_payload(s, w, v, n)) {
                        None => None,
                        Some(a) => fold_fields(s.subrange(n as int, s.len() as int), a, step),
                    }
                } else {
                    None
                }
            },
        }
    }
}

/// A service the peer exposes, with the id it declares for it.
#[derive(Debug, Clone, Copy, PartialEq, Eq, Structural)]
pub struct BoundService {
    /// Name hash of the service.
    pub hash: u32,
    /// Id the peer binds it to.
    pub id: u32,
}

/// Reads one field of a bound service: the hash is field 1 (four bytes),
/// the id field 2 (varint); other fields are skipped.
pub open spec fn bound_step(a: BoundService, t: u64, w: u64, v: u64, p: Seq<u8>) -> Option<BoundService> {
    if t == 1 {
        if w == WIRE_FIXED32 {
            Some(BoundService { hash: v as u32, ..a })
        } else {
            None
        }
    } else if t == 2 {
        if w == WIRE_VARINT {
            Some(BoundService { id: v as u32, ..a })
        } else {
            None
        }
    } else {
        Some(a)
    }
}

/// `bound_step` as a value.
pub open spec fn bound_step_fn() -> spec_fn(BoundService, u64, u64, u64, Seq<u8>) -> Option<
    BoundService,
> {
    |a: BoundService, t: u64, w: u64, v: u64, p: Seq<u8>| bound_step(a, t, w, v, p)
}

/// The bound service before any field is read.
pub open spec fn empty_bound() -> BoundService {
    BoundService { hash: 0, id: 0 }
}

/// What the peer declares in its bind request.
pub struct BindView {
    /// Hashes of the services the peer expects this process to expose.
    pub hashes: Seq<u32>,
    /// Services the peer exposes.
    pub exported: Seq<BoundService>,
}

/// The bind request before any field is read.
pub open spec fn empty_bind() -> BindView {
    BindView { hashes: Seq::empty(), exported: Seq::empty() }
}

/// The little-endian four byte words of `s`.
pub open spec fn le32_words(s: Seq<u8>) -> Seq<u32> {
    Seq::new(
        s.len() / 4,
        |i: int|
            (s[4 * i] as nat + 256 * s[4 * i + 1] as nat + 65536 * s[4 * i + 2] as nat + 16777216 * s[4
                * i + 3] as nat) as u32,
    )
}

/// Reads one field of a bind request: field 1 holds expected service
/// hashes, packed or one per field; field 2 holds one exposed service;
/// other fields are skipped.
pub open spec fn bind_step(a: BindView, t: u64, w: u64, v: u64, p: Seq<u8>) -> Option<BindView> {
    if t == 1 {
        if w == WIRE_LENGTH_DELIMITED {
            if p.len() % 4 == 0 {
                Some(BindView { hashes: a.hashes + le32_words(p), ..a })
            } else {
                None
            }
        } else if w == WIRE_FIXED32 {
            Some(BindView { hashes: a.hashes.push(v as u32), ..a })
        } else {
            None
        }
    } else if t == 2 {
        if w == WIRE_LENGTH_DELIMITED {
            match fold_fields(p, empty_bound(), bound_step_fn()) {
                Some(b) => Some(BindView { exported: a.exported.push(b), ..a }),
                None => None,
            }
        } else {
            None
        }
    } else {
        Some(a)
    }
}

/// `bind_step` as a value.
pub open spec fn bind_step_fn() -> spec_fn(BindView, u64, u64, u64, Seq<u8>) -> Option<BindView> {
    |a: BindView, t: u64, w: u64, v: u64, p: Seq<u8>| bind_step(a, t, w, v, p)
}

/// Reads one field of a connect request: field 2 is the bind request
/// (repeated occurrences merge), field 1 the client's process id and
/// field 3 a flag, both skipped; other fields are skipped too.
pub open spec fn connect_step(a: Option<BindView>, t: u64, w: u64, v: u64, p: Seq<u8>) -> Option<
    Option<BindView>,
> {
    if t == 2 {
        if w == WIRE_LENGTH_DELIMITED {
            let start = match a {
                Some(b) => b,
                None => empty_bind(),
            };
            match fold_fields(p, start, bind_step_fn()) {
                Some(b) => Some(Some(b)),
                None => None,
            }
        } else {
            None
        }
    } else if t == 1 {
        if w == WIRE_LENGTH_DELIMITED {
            Some(a)
        } else {
            None
        }
    } else if t == 3 {
        if w == WIRE_VARINT {
            Some(a)
        } else {
            None
        }
    } else {
        Some(a)
    }
}

/// `connect_step` as a value.
pub open spec fn connect_step_fn() -> spec_fn(Option<BindView>, u64, u64, u64, Seq<u8>) -> Option<
    Option<BindView>,
> {
    |a: Option<BindView>, t: u64, w: u64, v: u64, p: Seq<u8>| connect_step(a, t, w, v, p)
}

/// The bind request that the connect request `s` carries: `None` when `s`
/// is malformed, `Some(None)` when it carries none.
pub open spec fn decode_connect_spec(s: Seq<u8>) -> Option<Option<BindView>> {
    fold_fields(s, None, connect_step_fn())
}

/// A bind request as values.
#[derive(Debug)]
pub struct BindRequest {
    /// Hashes of the services the peer expects this process to expose.
    pub imported_service_hash: Vec<u32>,
    /// Services the peer exposes.
    pub exported_service: Vec<BoundService>,
}

impl BindRequest {
    /// The declarations this request holds.
    pub open spec fn view(&self) -> BindView {
        BindView { hashes: self.imported_service_hash@, exported: self.exported_service@ }
    }
}

/// Copies `b[start..end]`.
fn copy_range(b: &[u8], start: usize, end: usize) -> (r: Vec<u8>)
    requires
        start <= end <= b@.len(),
    ensures
        r@ == b@.subrange(start as int, end as int),
{
    let mut r: Vec<u8> = Vec::new();
    let mut i: usize = start;
    while i < end
        invariant
            start <= i <= end,
            end <= b@.len(),
            r@ == b@.subrange(start as int, i as int),
        decreases end - i,
    {
        r.push(b[i]);
        i = i + 1;
        assert(r@ =~= b@.subrange(start as int, i as int));
    }
    r
}

/// Appends `src` to `dst`.
pub(crate) fn extend_bytes(dst: &mut Vec<u8>, src: &[u8])
    ensures
        final(dst)@ == old(dst)@ + src@,
{
    let ghost start = dst@;
    let mut i: usize = 0;
    while i < src.len()
        invariant
            i <= src@.len(),
            dst@ == start + src@.subrange(0, i as int),
        decreases src@.len() - i,
    {
        dst.push(src[i]);
        i = i + 1;
        assert(dst@ =~= start + src@.subrange(0, i as int));
    }
    assert(src@.subrange(0, src@.len() as int) =~= src@);
}

/// Reads one field of `b` at `pos` and returns it with its payload.
fn next_field(b: &[u8], pos: usize) -> (r: Option<(u64, u64, u64, usize, Vec<u8>)>)
    requires
        pos < b@.len(),
    ensures
        ({
            let s = b@.subrange(pos as int, b@.len() as int);
            match parse_field_spec(s) {
                Some((t, w, v, n)) => r matches Some((t2, w2, v2, next, p)) && t2 == t && w2 == w && v2
                    == v && next == pos + n && pos < next <= b@.len() && 1 <= n <= s.len() && p@
                    == field_payload(s, w, v, n),
                None => r is None,
            }
        }),
{
    let ghost s = b@.subrange(pos as int, b@.len() as int);
    proof {
        lemma_parse_field_len(s);
    }
    match parse_field(b, pos) {
        None => None,
        Some((t, w, v, next)) => {
            let payload = if w == WIRE_LENGTH_DELIMITED {
                let p = copy_range(b, next - v as usize, next);
                assert(p@ =~= field_payload(s, w, v, (next - pos) as nat));
                p
            } else {
                let p: Vec<u8> = Vec::new();
                assert(p@ =~= field_payload(s, w, v, (next - pos) as nat));
                p
            };
            Some((t, w, v, next, payload))
        },
    }
}

/// One step of a fold: what `fold_fields` on the rest of the message is
/// after reading the field at `pos`.
proof fn lemma_fold_step<A>(
    b: Seq<u8>,
    pos: nat,
    next: nat,
    acc: A,
    acc2: A,
    step: spec_fn(A, u64, u64, u64, Seq<u8>) -> Option<A>,
)
    requires
        pos < next <= b.len(),
        parse_field_spec(b.subrange(pos as int, b.len() as int)) matches Some((t, w, v, n)) && n == next
            - pos && step(acc, t, w, v, field_payload(b.subrange(pos as int, b.len() as int), w, v, n))
            == Some(acc2),
    ensures
        fold_fields(b.subrange(pos as int, b.len() as int), acc, step) == fold_fields(
            b.subrange(next as int, b.len() as int),
            acc2,
            step,
        ),
{
    let s = b.subrange(pos as int, b.len() as int);
    assert(s.subrange((next - pos) as int, s.len() as int) =~= b.subrange(next as int, b.len() as int));
}

/// Decodes a bound service from exactly the bytes `b`.
pub fn decode_bound_service(b: &[u8]) -> (r: Option<BoundService>)
    ensures
        r == fold_fields(b@, empty_bound(), bound_step_fn()),
{
    let mut acc = BoundService { hash: 0, id: 0 };
    let mut pos: usize = 0;
    assert(b@.subrange(0, b@.len() as int) =~= b@);
    while pos < b.len()
        invariant
            pos <= b@.len(),
            fold_fields(b@, empty_bound(), bound_step_fn()) == fold_fields(
                b@.subrange(pos as int, b@.len() as int),
                acc,
                bound_step_fn(),
            ),
        decreases b@.len() - pos,
    {
        match next_field(b, pos) {
            None => return None,
            Some((t, w, v, next, _p)) => {
                let ghost old_acc = acc;
                if t == 1 {
                    if w == WIRE_FIXED32 {
                        acc.hash = v as u32;
                    } else {
                        return None;
                    }
                } else if t == 2 {
                    if w == WIRE_VARINT {
                        acc.id = v as u32;
                    } else {
                        return None;
                    }
                }
                proof {
                    lemma_fold_step(b@, pos as nat, next as nat, old_acc, acc, bound_step_fn());
                }
                pos = next;
            },
        }
    }
    Some(acc)
}

/// Appends the little-endian words of `p` to `hashes`.
fn push_words(hashes: &mut Vec<u32>, p: &[u8])
    requires
        p@.len() % 4 == 0,
    ensures
        final(hashes)@ == old(hashes)@ + le32_words(p@),
{
    let ghost start = hashes@;
    let mut i: usize = 0;
    while i < p.len()
        invariant
            i <= p@.len(),
            i % 4 == 0,
            p@.len() % 4 == 0,
            hashes@ == start + le32_words(p@.subrange(0, i as int)),
        decreases p@.len() - i,
    {
        let w = p[i] as u32 + 256 * (p[i + 1] as u32) + 65536 * (p[i + 2] as u32) + 16777216 * (p[i
            + 3] as u32);
        hashes.push(w);
        i = i + 4;
        assert(hashes@ =~= start + le32_words(p@.subrange(0, i as int)));
    }
    assert(p@.subrange(0, p@.len() as int) =~= p@);
}

/// Reads the fields of the bind request `b` into `acc`, in order.
pub fn decode_bind_request(b: &[u8], acc: &mut BindRequest) -> (ok: bool)
    ensures
        match fold_fields(b@, old(acc).view(), bind_step_fn()) {
            Some(v) => ok && final(acc).view() == v,
            None => !ok,
        },
{
    let mut pos: usize = 0;
    assert(b@.subrange(0, b@.len() as int) =~= b@);
    while pos < b.len()
        invariant
            pos <= b@.len(),
            fold_fields(b@, old(acc).view(), bind_step_fn()) == fold_fields(
                b@.subrange(pos as int, b@.len() as int),
                acc.view(),
                bind_step_fn(),
            ),
        decreases b@.len() - pos,
    {
        match next_field(b, pos) {
            None => return false,
            Some((t, w, v, next, p)) => {
                let ghost old_view = acc.view();
                if t == 1 {
                    if w == WIRE_LENGTH_DELIMITED {
                        if p.len() % 4 != 0 {
                            return false;
                        }
                        push_words(&mut acc.imported_service_hash, p.as_slice());
                    } else if w == WIRE_FIXED32 {
                        acc.imported_service_hash.push(v as u32);
                    } else {
                        return false;
                    }
                } else if t == 2 {
                    if w == WIRE_LENGTH_DELIMITED {
                        match decode_bound_service(p.as_slice()) {
                            Some(bs) => acc.exported_service.push(bs),
                            None => return false,
                        }
                    } else {
                        return false;
                    }
                }
                assert(bind_step(old_view, t, w, v, p@) == Some(acc.view())) by {
                    assert(acc.view().hashes =~= bind_step(old_view, t, w, v, p@)->Some_0.hashes);
                    assert(acc.view().exported =~= bind_step(old_view, t, w, v, p@)->Some_0.exported);
                }
                proof {
                    lemma_fold_step(b@, pos as nat, next as nat, old_view, acc.view(), bind_step_fn());
                }
                pos = next;
            },
        }
    }
    true
}

/// The declarations of an optional bind request.
pub open spec fn bind_view_of(acc: Option<BindRequest>) -> Option<BindView> {
    match acc {
        Some(br) => Some(br.view()),
        None => None,
    }
}

/// Decodes a connect request from exactly the bytes `b`: `None` when they
/// are malformed, `Some(None)` when they carry no bind request.
pub fn decode_connect_request(b: &[u8]) -> (r: Option<Option<BindRequest>>)
    ensures
        match decode_connect_spec(b@) {
            None => r is None,
            Some(None) => r matches Some(None),
            Some(Some(v)) => r matches Some(Some(br)) && br.view() == v,
        },
{
    let mut acc: Option<BindRequest> = None;
    let mut pos: usize = 0;
    assert(b@.subrange(0, b@.len() as int) =~= b@);
    while pos < b.len()
        invariant
            pos <= b@.len(),
            decode_connect_spec(b@) == fold_fields(
                b@.subrange(pos as int, b@.len() as int),
                bind_view_of(acc),
                connect_step_fn(),
            ),
        decreases b@.len() - pos,
    {
        match next_field(b, pos) {
            None => return None,
            Some((t, w, v, next, p)) => {
                let ghost old_view = bind_view_of(acc);
                if t == 2 {
                    if w == WIRE_LENGTH_DELIMITED {
                        let mut br = match acc {
                            Some(br) => br,
                            None => {
                                let e = BindRequest {
                                    imported_service_hash: Vec::new(),
                                    exported_service: Vec::new(),
                                };
                                assert(e.view().hashes =~= empty_bind().hashes);
                                assert(e.view().exported =~= empty_bind().exported);
                                e
                            },
                        };
                        if !decode_bind_request(p.as_slice(), &mut br) {
                            return None;
                        }
                        acc = Some(br);
                    } else {
                        return None;
                    }
                } else if t == 1 {
                    if w != WIRE_LENGTH_DELIMITED {
                        return None;
                    }
                } else if t == 3 {
                    if w != WIRE_VARINT {
                        return None;
                    }
                }
                proof {
                    let new_view = bind_view_of(acc);
                    assert(connect_step(old_view, t, w, v, p@) == Some(new_view));
                    lemma_fold_step(b@, pos as nat, next as nat, old_view, new_view, connect_step_fn());
                }
                pos = next;
            },
        }
    }
    match acc {
        Some(br) => Some(Some(br)),
        None => Some(None),
    }
}

/// Encoding of a process id message.
pub open spec fn process_id_bytes(label: u32, epoch: u32) -> Seq<u8> {
    field_bytes(1, label) + field_bytes(2, epoch)
}

/// Encoding of a length-delimited field.
pub open spec fn delimited_bytes(tag: u64, payload: Seq<u8>) -> Seq<u8> {
    varint((tag * 8 + WIRE_LENGTH_DELIMITED) as nat) + varint(payload.len()) + payload
}

/// Packed encoding of varints: each in turn, with no keys.
pub open spec fn packed_ids(ids: Seq<u32>) -> Seq<u8>
    decreases ids.len(),
{
    if ids.len() == 0 {
        Seq::empty()
    } else {
        packed_ids(ids.drop_last()) + varint(ids.last() as nat)
    }
}

/// Encoding of a bind response: the ids as one packed field, omitted when
/// there are none.
pub open spec fn bind_response_bytes(ids: Seq<u32>) -> Seq<u8> {
    if ids.len() == 0 {
        Seq::empty()
    } else {
        delimited_bytes(1, packed_ids(ids))
    }
}

/// Encoding of the connect response: the server's and the client's process
/// ids (labelled, stamped with `epoch`), the bind result, the bind response
/// carrying `ids`, and the server time.
pub open spec fn connect_response_bytes(ids: Seq<u32>, epoch: u32, server_time: u64) -> Seq<u8> {
    delimited_bytes(1, process_id_bytes(SERVER_PROCESS_LABEL, epoch)) + delimited_bytes(
        2,
        process_id_bytes(CLIENT_PROCESS_LABEL, epoch),
    ) + field_bytes(3, BIND_RESULT_OK) + delimited_bytes(4, bind_response_bytes(ids)) + varint(
        (6 * 8 + WIRE_VARINT) as nat,
    ) + varint(server_time as nat)
}

/// Appends a length-delimited field.
fn write_delimited(tag: u64, payload: &Vec<u8>, buf: &mut Vec<u8>)
    requires
        1 <= tag < 16,
    ensures
        final(buf)@ == old(buf)@ + delimited_bytes(tag, payload@),
{
    let ghost start = buf@;
    write_key(tag as u32, WIRE_LENGTH_DELIMITED, buf);
    write_varint(payload.len() as u64, buf);
    extend_bytes(buf, payload.as_slice());
    assert(buf@ =~= start + delimited_bytes(tag, payload@));
}

/// Encodes a process id message.
fn encode_process_id(label: u32, epoch: u32) -> (r: Vec<u8>)
    ensures
        r@ == process_id_bytes(label, epoch),
{
    let mut r: Vec<u8> = Vec::new();
    write_field(1, label, &mut r);
    write_field(2, epoch, &mut r);
    assert(r@ =~= process_id_bytes(label, epoch));
    r
}

/// Encodes a bind response carrying `ids`.
fn encode_bind_response(ids: &Vec<u32>) -> (r: Vec<u8>)
    ensures
        r@ == bind_response_bytes(ids@),
{
    let mut packed: Vec<u8> = Vec::new();
    let mut i: usize = 0;
    while i < ids.len()
        invariant
            i <= ids@.len(),
            packed@ == packed_ids(ids@.subrange(0, i as int)),
        decreases ids@.len() - i,
    {
        write_varint(ids[i] as u64, &mut packed);
        proof {
            let next = ids@.subrange(0, i + 1);
            assert(next.drop_last() =~= ids@.subrange(0, i as int));
        }
        i = i + 1;
    }
    assert(ids@.subrange(0, ids@.len() as int) =~= ids@);
    let mut r: Vec<u8> = Vec::new();
    if ids.len() > 0 {
        write_delimited(1, &packed, &mut r);
        assert(r@ =~= bind_response_bytes(ids@));
    } else {
        assert(r@ =~= bind_response_bytes(ids@));
    }
    r
}

/// Encodes the connect response carrying the bound `ids`.
pub fn encode_connect_response(ids: &Vec<u32>, epoch: u32, server_time: u64) -> (r: Vec<u8>)
    ensures
        r@ == connect_response_bytes(ids@, epoch, server_time),
{
    let mut r: Vec<u8> = Vec::new();
    let server = encode_process_id(SERVER_PROCESS_LABEL, epoch);
    write_delimited(1, &server, &mut r);
    let client = encode_process_id(CLIENT_PROCESS_LABEL, epoch);
    write_delimited(2, &client, &mut r);
    write_field(3, BIND_RESULT_OK, &mut r);
    let bind = encode_bind_response(ids);
    write_delimited(4, &bind, &mut r);
    write_key(6, WIRE_VARINT, &mut r);
    write_varint(server_time, &mut r);
    assert(r@ =~= connect_response_bytes(ids@, epoch, server_time));
    r
}

/// Accepts every field: folding with it checks only that a message is well
/// formed.
pub open spec fn skip_step_fn() -> spec_fn(nat, u64, u64, u64, Seq<u8>) -> Option<nat> {
    |a: nat, t: u64, w: u64, v: u64, p: Seq<u8>| Some(a)
}

/// Whether `s` is a well formed message: a sequence of complete fields.
pub open spec fn well_formed_message(s: Seq<u8>) -> bool {
    fold_fields(s, 0nat, skip_step_fn()) is Some
}

/// Checks that `b` is a well formed message.
pub fn is_well_formed(b: &[u8]) -> (r: bool)
    ensures
        r == well_formed_message(b@),
{
    let mut pos: usize = 0;
    assert(b@.subrange(0, b@.len() as int) =~= b@);
    while pos < b.len()
        invariant
            pos <= b@.len(),
            fold_fields(b@, 0nat, skip_step_fn()) == fold_fields(
                b@.subrange(pos as int, b@.len() as int),
                0nat,
                skip_step_fn(),
            ),
        decreases b@.len() - pos,
    {
        match next_field(b, pos) {
            None => return false,
            Some((t, w, v, next, p)) => {
                proof {
                    lemma_fold_step(b@, pos as nat, next as nat, 0nat, 0nat, skip_step_fn());
                }
                pos = next;
            },
        }
    }
    true
}

} // verus!
