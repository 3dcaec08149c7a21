//! The per-connection session lifecycle.
//!
//! An accepted connection is handshaking: within a fixed deadline it must
//! send one connect request, which is answered; the session then becomes
//! active and the routing engine takes the connection over. A failure or
//! the deadline closes it. Whoever drives the connection hands each event
//! to `step`, with the time on its monotonic clock, and writes the bytes
//! that `step` produces.

use vstd::prelude::*;
use crate::connection::{
    connect_direct, connect_outcome, handshake_answer, session_connect_reply,
    validate_connect_spec,
};
use crate::message::connect_response_bytes;
use crate::message::extend_bytes;
use crate::frame::{
    decode_frames, decode_spec, fresh_codec, frame_bytes, lemma_decode_frames_extend,
    lemma_frame_shrinks, pending_measure, result_matches, BNetCodec, BNetPacket, CodecError,
    DecodeOutcome,
};
use crate::hashing::{default_digest, ClientHash, PeerAddress};
use crate::router::{has_room, RoutingLogistic};
use crate::service::{ClientSharedData, RPCError};
use crate::transport::{is_response_header, response_header, Request, Response};

verus! {

/// Time a new connection has to complete the handshake, in milliseconds.
pub const HANDSHAKE_DEADLINE_MILLIS: u64 = 5000;

/// Why a session ended.
#[derive(Debug)]
pub enum SessionError {
    /// The client disconnected.
    ClientDisconnect,
    /// The client did not send the expected request.
    MissingRequest,
    /// The handshake deadline passed.
    Timeout,
    /// The byte stream is malformed.
    Codec(CodecError),
    /// A service refused or could not route a request.
    RPC(RPCError),
    /// A deferred operation found every pending slot occupied.
    PendingLimit,
}

/// The smallest session that can talk to a new client: enough to run the
/// handshake.
#[derive(Debug)]
pub struct LightWeightSession {
    /// Endpoint of the client.
    pub address: PeerAddress,
    /// Decoder of the inbound byte stream.
    pub codec: BNetCodec,
    /// Bytes read from the client and not decoded yet.
    pub inbound: Vec<u8>,
    /// Time by which the handshake must complete.
    pub deadline: u64,
}

/// A complete session: the client's endpoint and the routing engine that
/// serves it.
#[derive(Debug)]
pub struct ClientSession {
    /// Endpoint of the client.
    pub address: PeerAddress,
    /// The routing engine of the connection.
    pub router: RoutingLogistic,
}

impl ClientSession {
    /// Creates the session of the client at `address`, served by `router`.
    pub fn new(address: PeerAddress, router: RoutingLogistic) -> (r: ClientSession)
        ensures
            r.address == address,
            r.router == router,
    {
        ClientSession { address, router }
    }
}

/// The deadline of a handshake that starts at `now`.
pub open spec fn handshake_deadline(now: u64) -> u64 {
    if now <= u64::MAX - HANDSHAKE_DEADLINE_MILLIS {
        (now + HANDSHAKE_DEADLINE_MILLIS) as u64
    } else {
        u64::MAX
    }
}

impl LightWeightSession {
    /// Creates the session of a client that connected at `now`.
    pub fn new(address: PeerAddress, now: u64) -> (r: LightWeightSession)
        ensures
            r.address == address,
            r.codec == fresh_codec(),
            r.inbound@.len() == 0,
            r.deadline == handshake_deadline(now),
    {
        let deadline = if now <= u64::MAX - HANDSHAKE_DEADLINE_MILLIS {
            now + HANDSHAKE_DEADLINE_MILLIS
        } else {
            u64::MAX
        };
        LightWeightSession { address, codec: BNetCodec::new(), inbound: Vec::new(), deadline }
    }

    /// The endpoint of the client.
    pub fn address(&self) -> (r: &PeerAddress)
        ensures
            *r == self.address,
    {
        &self.address
    }

    /// Reads the request the client sent, once a whole frame is buffered:
    /// `None` while more bytes are needed; a response is not a request.
    pub fn read_request(&mut self) -> (r: Result<Option<Request<BNetPacket>>, SessionError>)
        ensures
            final(self).address == old(self).address,
            final(self).deadline == old(self).deadline,
            ({
                let (o, c, b) = decode_spec(old(self).codec, old(self).inbound@);
                &&& final(self).codec == c
                &&& final(self).inbound@ == b
                &&& match o {
                    DecodeOutcome::NeedMore => r matches Ok(None),
                    DecodeOutcome::Frame(h, body) => if is_response_header(h) {
                        r matches Err(SessionError::MissingRequest)
                    } else {
                        r matches Ok(Some(req)) && req.0.header == h && req.0.body@ == body
                    },
                    _ => r matches Err(SessionError::Codec(e)) && result_matches(
                        Err::<Option<BNetPacket>, CodecError>(e),
                        o,
                    ),
                }
            }),
    {
        match self.codec.decode(&mut self.inbound) {
            Err(e) => Err(SessionError::Codec(e)),
            Ok(None) => Ok(None),
            Ok(Some(packet)) => match packet.try_as_request() {
                Ok(request) => Ok(Some(request)),
                Err(_) => Err(SessionError::MissingRequest),
            },
        }
    }

    /// Appends the wire bytes of `response` to `out`.
    pub fn send_response(&mut self, response: Response<BNetPacket>, out: &mut Vec<u8>)
        ensures
            final(out)@ == old(out)@ + frame_bytes(response.0.header, response.0.body@),
            *final(self) == *old(self),
    {
        let mut encoder = BNetCodec::new();
        let _ = encoder.encode(response.unwrap(), out);
    }

    /// Turns this session into a complete one: the client's identifier is
    /// derived from its address, and the routing engine takes over the
    /// decoder and the bytes not decoded yet.
    pub fn into_full_session(self) -> (r: ClientSession)
        ensures
            r.address == self.address,
            r.router.wf(),
            r.router.codec == self.codec,
            r.router.inbound@ == self.inbound@,
            r.router.queue().len() == 0,
            forall|i: int| 0 <= i < r.router.slots().len() ==> r.router.slots()[i] is None,
            r.router.shared_data.client_id == ClientHash(default_digest(self.address.spec_bytes())),
            r.router.bnet_request_handlers.services@.len() == 2,
            r.router.bnet_request_handlers.services@[0] is Connection,
            r.router.bnet_request_handlers.services@[1] is Authentication,
    {
        let client_id = ClientHash::from_socket_address(&self.address);
        let shared_data = ClientSharedData::new(client_id);
        let mut router = RoutingLogistic::default_handlers(shared_data, self.codec);
        router.receive(self.inbound.as_slice());
        assert(router.inbound@ =~= self.inbound@);
        ClientSession::new(self.address, router)
    }
}

/// Where a connection stands.
#[derive(Debug)]
pub enum SessionState {
    /// Waiting for the connect request.
    Handshaking(LightWeightSession),
    /// Served by the routing engine.
    Active(ClientSession),
    /// Ended, with the reason.
    Closed(SessionError),
}

/// Something that happened to a connection.
#[derive(Debug)]
pub enum SessionEvent {
    /// Bytes arrived from the client.
    Received(Vec<u8>),
    /// Time passed; the driver sends this at the latest when the handshake
    /// deadline comes.
    Tick,
    /// The client closed the connection.
    Disconnected,
}

/// Whether a state is well formed: an active session's engine has its
/// slots.
pub open spec fn state_wf(state: SessionState) -> bool {
    match state {
        SessionState::Active(a) => a.router.wf(),
        _ => true,
    }
}

/// What handling `event` at time `now` does to the handshaking session
/// `s`, given the state `r` it leads to and the output before (`out0`) and
/// after (`out1`).
pub open spec fn handshake_step(
    s: LightWeightSession,
    event: SessionEvent,
    now: u64,
    r: SessionState,
    out0: Seq<u8>,
    out1: Seq<u8>,
) -> bool {
    if now >= s.deadline {
        (r matches SessionState::Closed(SessionError::Timeout)) && out1 == out0
    } else {
        match event {
            SessionEvent::Disconnected => (r matches SessionState::Closed(
                SessionError::ClientDisconnect,
            )) && out1 == out0,
            SessionEvent::Tick => r == SessionState::Handshaking(s) && out1 == out0,
            SessionEvent::Received(bytes) => {
                let (o, c, b) = decode_spec(s.codec, s.inbound@ + bytes@);
                match o {
                    DecodeOutcome::NeedMore => (r matches SessionState::Handshaking(s2) && s2.codec == c
                        && s2.inbound@ == b && s2.deadline == s.deadline && s2.address == s.address)
                        && out1 == out0,
                    DecodeOutcome::Frame(h, body) => if is_response_header(h) {
                        (r matches SessionState::Closed(SessionError::MissingRequest)) && out1 == out0
                    } else {
                        &&& match r {
                            SessionState::Active(_) => exists|epoch: u32, server_time: u64|
                                #[trigger] handshake_answer(h, body, epoch, server_time) matches Some(
                                    (_ids, reply),
                                ) && out1 == out0 + frame_bytes(
                                    response_header(h.token, reply.len()),
                                    reply,
                                ),
                            SessionState::Closed(SessionError::RPC(_)) => out1 == out0,
                            _ => false,
                        }
                        &&& (validate_connect_spec(h) is Err || connect_outcome(body) is Err) ==> r is Closed
                        &&& validate_connect_spec(h) is Ok ==> match connect_outcome(body) {
                            Ok(ids) => r is Active || ((r matches SessionState::Closed(
                                SessionError::RPC(RPCError::ProtoEncode),
                            )) && exists|epoch: u32, server_time: u64|
                                #[trigger] connect_response_bytes(ids, epoch, server_time).len()
                                    > u32::MAX),
                            Err(_) => true,
                        }
                    },
                    _ => (r matches SessionState::Closed(SessionError::Codec(_))) && out1 == out0,
                }
            },
        }
    }
}

/// Whether `r` is what an active session `a` becomes once `bytes` are
/// received: closed by a failure, or active with the same client, its
/// engine having decoded and admitted some number of frames from what it
/// held followed by `bytes`, and stopped because no slot is free or because
/// one more decode call needed more bytes.
pub open spec fn served(a: ClientSession, bytes: Seq<u8>, r: SessionState) -> bool {
    match r {
        SessionState::Closed(_) => true,
        SessionState::Active(a2) => {
            &&& a2.address == a.address
            &&& a2.router.bnet_request_handlers.services@ == a.router.bnet_request_handlers.services@
            &&& a2.router.shared_data == a.router.shared_data
            &&& exists|k: nat, c1: BNetCodec, b1: Seq<u8>|
                #![trigger decode_frames(a.router.codec, a.router.inbound@ + bytes, k), decode_spec(c1, b1)]
                decode_frames(a.router.codec, a.router.inbound@ + bytes, k) == Some((c1, b1))
                    && ((!has_room(a2.router.slots()) && a2.router.codec == c1 && a2.router.inbound@
                    == b1) || decode_spec(c1, b1) == (
                    DecodeOutcome::NeedMore,
                    a2.router.codec,
                    a2.router.inbound@,
                ))
        },
        _ => false,
    }
}

/// What handling `event` does to the active session `a`.
pub open spec fn active_step(a: ClientSession, event: SessionEvent, r: SessionState) -> bool {
    match event {
        SessionEvent::Disconnected => r matches SessionState::Closed(SessionError::ClientDisconnect),
        SessionEvent::Tick => r == SessionState::Active(a),
        SessionEvent::Received(bytes) => served(a, bytes@, r),
    }
}

/// Hands bytes received on an active session to its routing engine, which
/// admits the buffered frames until no slot is free or no whole frame is
/// buffered; a failure closes the session.
fn serve_active(active: ClientSession, bytes: &[u8]) -> (r: SessionState)
    requires
        active.router.wf(),
    ensures
        state_wf(r),
        served(active, bytes@, r),
{
    let ghost a = active;
    let mut client = active;
    client.router.receive(bytes);
    let ghost c0 = client.router.codec;
    let ghost b0 = client.router.inbound@;
    let ghost mut k: nat = 0;
    loop
        invariant
            a == active,
            client.router.wf(),
            client.address == a.address,
            client.router.bnet_request_handlers.services@ == a.router.bnet_request_handlers.services@,
            client.router.shared_data == a.router.shared_data,
            b0 == a.router.inbound@ + bytes@,
            c0 == a.router.codec,
            decode_frames(c0, b0, k) == Some((client.router.codec, client.router.inbound@)),
        decreases pending_measure(client.router.codec, client.router.inbound@),
    {
        let ghost before_codec = client.router.codec;
        let ghost before_inbound = client.router.inbound@;
        let ghost before_slots = client.router.slots();
        match client.router.admit_next() {
            Err(e) => return SessionState::Closed(e),
            Ok(false) => {
                assert(decode_frames(c0, b0, k) == Some((before_codec, before_inbound)));
                proof {
                    let after = decode_spec(before_codec, before_inbound);
                    if has_room(before_slots) {
                        assert(after.0 is NeedMore);
                        assert(after == (
                            DecodeOutcome::NeedMore,
                            client.router.codec,
                            client.router.inbound@,
                        ));
                    } else {
                        assert(!has_room(client.router.slots()));
                    }
                    assert(decode_frames(a.router.codec, a.router.inbound@ + bytes@, k) == Some(
                        (before_codec, before_inbound),
                    ) && ((!has_room(client.router.slots()) && client.router.codec == before_codec
                        && client.router.inbound@ == before_inbound) || decode_spec(
                        before_codec,
                        before_inbound,
                    ) == (DecodeOutcome::NeedMore, client.router.codec, client.router.inbound@)));
                }
                return SessionState::Active(client);
            },
            Ok(true) => {
                proof {
                    lemma_decode_frames_extend(c0, b0, k, before_codec, before_inbound);
                    lemma_frame_shrinks(before_codec, before_inbound);
                    k = k + 1;
                }
            },
        }
    }
}

/// Handles `event`, which happened at time `now`, in state `state`; the
/// bytes to write to the client are appended to `out`.
///
/// While handshaking: at or after the deadline every event closes the
/// connection with a timeout. Before it, a disconnect closes it; bytes are
/// buffered and, once a whole frame is there, it must be a connect request
/// that the connection service accepts: its response is written and the
/// session becomes active; anything else closes the connection. Once
/// active, received bytes go to the routing engine, which admits the
/// buffered frames while it has a free slot; a failure closes the
/// connection. A closed connection stays closed.
pub fn step(state: SessionState, event: SessionEvent, now: u64, out: &mut Vec<u8>) -> (r: SessionState)
    requires
        state_wf(state),
    ensures
        state_wf(r),
        match state {
            SessionState::Handshaking(s) => handshake_step(s, event, now, r, old(out)@, final(out)@),
            SessionState::Active(a) => active_step(a, event, r),
            SessionState::Closed(_) => r is Closed,
        },
{
    match state {
        SessionState::Closed(e) => SessionState::Closed(e),
        SessionState::Handshaking(mut session) => {
            if now >= session.deadline {
                return SessionState::Closed(SessionError::Timeout);
            }
            match event {
                SessionEvent::Disconnected => SessionState::Closed(SessionError::ClientDisconnect),
                SessionEvent::Tick => SessionState::Handshaking(session),
                SessionEvent::Received(bytes) => {
                    extend_bytes(&mut session.inbound, bytes.as_slice());
                    let request = match session.read_request() {
                        Err(e) => return SessionState::Closed(e),
                        Ok(None) => return SessionState::Handshaking(session),
                        Ok(Some(request)) => request,
                    };
                    let ghost h = request.0.header;
                    let ghost body = request.0.body@;
                    match connect_direct(request) {
                        Err(e) => SessionState::Closed(SessionError::RPC(e)),
                        Ok(response) => {
                            let ghost resp = response;
                            session.send_response(response, out);
                            proof {
                                let (epoch, server_time) = choose|epoch: u32, server_time: u64|
                                    session_connect_reply(h, body, epoch, server_time, Ok(resp));
                                assert(handshake_answer(h, body, epoch, server_time) is Some);
                            }
                            SessionState::Active(session.into_full_session())
                        },
                    }
                },
            }
        },
        SessionState::Active(mut client) => {
            match event {
                SessionEvent::Disconnected => SessionState::Closed(SessionError::ClientDisconnect),
                SessionEvent::Tick => SessionState::Active(client),
                SessionEvent::Received(bytes) => serve_active(client, bytes.as_slice()),
            }
        },
    }
}

} // verus!
