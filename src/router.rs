//! The routing engine of one connection: it admits frames from the codec
//! while a pending slot is free, dispatches them through the registry,
//! keeps deferred operations in a fixed number of slots, and queues the
//! responses for the socket, first in, first out.
//!
//! The engine makes the decisions; whoever drives the connection performs
//! the input and output. It hands the engine the bytes it read and the
//! operations that completed, takes the frames to write from the head of
//! the queue, and puts a frame the socket refused back at the head.

use vstd::prelude::*;
use std::collections::VecDeque;
use crate::frame::{decode_spec, result_matches, BNetCodec, BNetPacket, CodecError, DecodeOutcome};
use crate::header::Header;
use crate::message::extend_bytes;
use crate::registry::{routed, Registry, ServiceHandler};
use crate::service::{
    ClientSharedData, PendingOperation, ProcessResult, RPCError, RPCResult, RouteDecision,
    ServiceBinderGenerator,
};
use crate::service_info::ExportedServiceID;
use crate::session::SessionError;
use crate::transport::{is_response_header, InternalPacket, Request, Response};

verus! {

/// Number of pending slots of a connection.
pub const PENDING_SLOTS: usize = 2;

/// How many times one decision may be forwarded between services.
pub const MAX_FORWARD_DEPTH: u32 = 4;

/// Whether some slot of `slots` is free.
pub open spec fn has_room(slots: Seq<Option<PendingOperation>>) -> bool {
    exists|i: int| 0 <= i < slots.len() && slots[i] is None
}

/// Index of the first free slot at or after `i`; the length when there is
/// none.
pub open spec fn first_free_from(slots: Seq<Option<PendingOperation>>, i: int) -> int
    decreases slots.len() - i,
{
    if i >= slots.len() {
        slots.len() as int
    } else if slots[i] is None {
        i
    } else {
        first_free_from(slots, i + 1)
    }
}

/// Number of occupied slots.
pub open spec fn count_occupied(slots: Seq<Option<PendingOperation>>) -> nat
    decreases slots.len(),
{
    if slots.len() == 0 {
        0
    } else {
        count_occupied(slots.drop_last()) + if slots.last() is Some {
            1nat
        } else {
            0nat
        }
    }
}

/// Facts about the first free slot at or after `i`: every slot before it
/// is occupied, and it is a free slot whenever one exists from `i` on.
pub proof fn lemma_first_free(slots: Seq<Option<PendingOperation>>, i: int)
    requires
        0 <= i <= slots.len(),
    ensures
        i <= first_free_from(slots, i) <= slots.len(),
        forall|j: int| i <= j < first_free_from(slots, i) ==> slots[j] is Some,
        first_free_from(slots, i) < slots.len() ==> slots[first_free_from(slots, i)] is None,
        (exists|j: int| i <= j < slots.len() && slots[j] is None) ==> first_free_from(slots, i)
            < slots.len(),
    decreases slots.len() - i,
{
    if i < slots.len() && slots[i] is Some {
        lemma_first_free(slots, i + 1);
    }
}

/// Index of the first free slot of `slots`; their number when none is.
pub fn first_free(slots: &Vec<Option<PendingOperation>>) -> (r: usize)
    ensures
        r == first_free_from(slots@, 0),
{
    let mut i: usize = 0;
    while i < slots.len()
        invariant
            i <= slots@.len(),
            first_free_from(slots@, 0) == first_free_from(slots@, i as int),
        decreases slots@.len() - i,
    {
        if slots[i].is_none() {
            return i;
        }
        i = i + 1;
    }
    i
}

/// What applying the reply `result` does to the response queue and the
/// slots, and what it returns, with `services` to route forwarded packets
/// through, at most `depth` more times. An error ends the connection; a
/// response is queued behind those already there; a deferred operation
/// takes the first free slot; a forwarded packet becomes a request to the
/// exported service its hash names and is routed and applied in turn.
pub open spec fn dispatch_effect(
    result: RPCResult<ProcessResult<Response<BNetPacket>>>,
    services: Seq<ServiceHandler>,
    depth: nat,
    old_queue: Seq<Response<BNetPacket>>,
    old_slots: Seq<Option<PendingOperation>>,
    queue: Seq<Response<BNetPacket>>,
    slots: Seq<Option<PendingOperation>>,
    r: Result<(), SessionError>,
) -> bool
    decreases depth,
{
    let unchanged = queue == old_queue && slots == old_slots;
    match result {
        Err(e) => (r matches Err(SessionError::RPC(e2)) && e2 == e) && unchanged,
        Ok(ProcessResult::Immediate(RouteDecision::Stop)) => r is Ok && unchanged,
        Ok(ProcessResult::Immediate(RouteDecision::Out(resp))) => r is Ok && queue == old_queue.push(
            resp,
        ) && slots == old_slots,
        Ok(ProcessResult::Immediate(RouteDecision::Forward(ip))) => {
            match ExportedServiceID::spec_from_hash(ip.header.service_hash.0) {
                Some(target) => if depth > 0 && ip.payload@.len() <= u32::MAX {
                    exists|p: BNetPacket, reply: RPCResult<ProcessResult<Response<BNetPacket>>>|
                        p.header == forwarded_header(ip, target.spec_id()) && p.body@ == ip.payload@
                            && #[trigger] routed(services, Request(p), reply) && dispatch_effect(
                            reply,
                            services,
                            (depth - 1) as nat,
                            old_queue,
                            old_slots,
                            queue,
                            slots,
                            r,
                        )
                } else {
                    (r matches Err(SessionError::RPC(RPCError::NoRoute))) && unchanged
                },
                None => (r matches Err(SessionError::RPC(RPCError::NoRoute))) && unchanged,
            }
        },
        Ok(ProcessResult::NotReady(op)) => if has_room(old_slots) {
            r is Ok && queue == old_queue && slots == old_slots.update(
                first_free_from(old_slots, 0),
                Some(op),
            )
        } else {
            (r matches Err(SessionError::PendingLimit)) && unchanged
        },
    }
}

/// A result with its value dropped.
pub open spec fn unit_of<T>(r: Result<T, SessionError>) -> Result<(), SessionError> {
    match r {
        Ok(_) => Ok(()),
        Err(e) => Err(e),
    }
}

/// The header of the request that an internal packet addressed to
/// exported service `id` becomes.
pub open spec fn forwarded_header(ip: InternalPacket, id: u32) -> Header {
    Header {
        service_id: id,
        method_id: Some(ip.header.method_id),
        token: match ip.header.token {
            Some(t) => t.id,
            None => 0,
        },
        size: Some(ip.payload@.len() as u32),
        status: None,
    }
}

/// Turns an internal packet into a request to the exported service its
/// hash names; `None` when no such service is exported or the payload is
/// too long for a frame.
pub fn internal_to_request(ip: InternalPacket) -> (r: Option<Request<BNetPacket>>)
    ensures
        match ExportedServiceID::spec_from_hash(ip.header.service_hash.0) {
            Some(s) => if ip.payload@.len() <= u32::MAX {
                r matches Some(req) && req.0.header == forwarded_header(ip, s.spec_id())
                    && req.0.body@ == ip.payload@
            } else {
                r is None
            },
            None => r is None,
        },
{
    let service = match ExportedServiceID::from_hash(ip.header.service_hash.0) {
        Some(s) => s,
        None => return None,
    };
    if ip.payload.len() as u64 > 0xffff_ffff {
        return None;
    }
    let token = match ip.header.token {
        Some(t) => t.id,
        None => 0,
    };
    let header = Header {
        service_id: service.id(),
        method_id: Some(ip.header.method_id),
        token,
        size: Some(ip.payload.len() as u32),
        status: None,
    };
    Some(Request::new(BNetPacket::new(header, ip.payload)))
}

/// Routing state of one connection.
#[derive(Debug)]
pub struct RoutingLogistic {
    /// Services that requests are routed to.
    pub bnet_request_handlers: Registry,
    /// Pending slots, each free or holding a deferred operation.
    pub bnet_blocking_ops_queue: Vec<Option<PendingOperation>>,
    /// Responses waiting to be written, oldest first.
    pub queued_responses: VecDeque<Response<BNetPacket>>,
    /// Decoder of the inbound byte stream.
    pub codec: BNetCodec,
    /// Bytes read from the peer and not decoded yet.
    pub inbound: Vec<u8>,
    /// Data shared by the handlers of this connection.
    pub shared_data: ClientSharedData,
}

impl RoutingLogistic {
    /// The engine has its fixed number of slots.
    pub open spec fn wf(&self) -> bool {
        self.bnet_blocking_ops_queue@.len() == PENDING_SLOTS
    }

    /// The slots of the engine.
    pub open spec fn slots(&self) -> Seq<Option<PendingOperation>> {
        self.bnet_blocking_ops_queue@
    }

    /// The responses waiting to be written.
    pub open spec fn queue(&self) -> Seq<Response<BNetPacket>> {
        self.queued_responses@
    }

    /// Creates an engine with free slots, an empty queue and no buffered
    /// bytes.
    pub fn new(shared_data: ClientSharedData, codec: BNetCodec, bnet_request_handlers: Registry) -> (r:
        RoutingLogistic)
        ensures
            r.wf(),
            forall|i: int| 0 <= i < PENDING_SLOTS ==> r.slots()[i] is None,
            r.queue().len() == 0,
            r.inbound@.len() == 0,
            r.codec == codec,
            r.shared_data == shared_data,
            r.bnet_request_handlers.services@ == bnet_request_handlers.services@,
    {
        let mut slots: Vec<Option<PendingOperation>> = Vec::new();
        let mut i: usize = 0;
        while i < PENDING_SLOTS
            invariant
                i <= PENDING_SLOTS,
                slots@.len() == i,
                forall|j: int| 0 <= j < i ==> slots@[j] is None,
            decreases PENDING_SLOTS - i,
        {
            slots.push(None);
            i = i + 1;
        }
        RoutingLogistic {
            bnet_request_handlers,
            bnet_blocking_ops_queue: slots,
            queued_responses: VecDeque::new(),
            codec,
            inbound: Vec::new(),
            shared_data,
        }
    }

    /// Creates an engine routing to the services bound by default.
    pub fn default_handlers(shared_data: ClientSharedData, codec: BNetCodec) -> (r: RoutingLogistic)
        ensures
            r.bnet_request_handlers.services@.len() == 2,
            r.bnet_request_handlers.services@[0] is Connection,
            r.bnet_request_handlers.services@[1] is Authentication,
            r.wf(),
            forall|i: int| 0 <= i < PENDING_SLOTS ==> r.slots()[i] is None,
            r.queue().len() == 0,
            r.inbound@.len() == 0,
            r.codec == codec,
            r.shared_data == shared_data,
    {
        RoutingLogistic::new(shared_data, codec, <Registry as ServiceBinderGenerator>::default())
    }

    /// Whether a slot is free, so that a new frame may be admitted.
    pub fn queue_room_available(&self) -> (r: bool)
        ensures
            r == has_room(self.slots()),
    {
        let mut i: usize = 0;
        while i < self.bnet_blocking_ops_queue.len()
            invariant
                i <= self.slots().len(),
                forall|j: int| 0 <= j < i ==> self.slots()[j] is Some,
            decreases self.slots().len() - i,
        {
            if self.bnet_blocking_ops_queue[i].is_none() {
                return true;
            }
            i = i + 1;
        }
        false
    }

    /// Stores `item` in the first free slot and returns its index; hands
    /// the item back, changing nothing, when every slot is occupied.
    pub fn push_to_queue(&mut self, item: PendingOperation) -> (r: Result<usize, PendingOperation>)
        ensures
            final(self).queue() == old(self).queue(),
            final(self).inbound@ == old(self).inbound@,
            final(self).codec == old(self).codec,
            final(self).shared_data == old(self).shared_data,
            final(self).bnet_request_handlers == old(self).bnet_request_handlers,
            final(self).slots().len() == old(self).slots().len(),
            has_room(old(self).slots()) ==> r == Ok::<usize, PendingOperation>(
                first_free_from(old(self).slots(), 0) as usize,
            ) && final(self).slots() == old(self).slots().update(
                first_free_from(old(self).slots(), 0),
                Some(item),
            ),
            !has_room(old(self).slots()) ==> r == Err::<usize, PendingOperation>(item)
                && final(self).slots() == old(self).slots(),
    {
        let i = first_free(&self.bnet_blocking_ops_queue);
        proof {
            lemma_first_free(self.slots(), 0);
        }
        if i < self.bnet_blocking_ops_queue.len() {
            self.bnet_blocking_ops_queue.set(i, Some(item));
            Ok(i)
        } else {
            Err(item)
        }
    }

    /// Applies the reply `result` of a service: an error ends the
    /// connection; a response is queued; a deferred operation takes the
    /// first free slot; a forwarded packet is routed again, at most
    /// `depth` more times.
    pub fn dispatch(&mut self, result: RPCResult<ProcessResult<Response<BNetPacket>>>, depth: u32) -> (r:
        Result<(), SessionError>)
        requires
            old(self).wf(),
        ensures
            final(self).wf(),
            final(self).inbound@ == old(self).inbound@,
            final(self).codec == old(self).codec,
            final(self).shared_data == old(self).shared_data,
            final(self).bnet_request_handlers.services@ == old(self).bnet_request_handlers.services@,
            dispatch_effect(
                result,
                old(self).bnet_request_handlers.services@,
                depth as nat,
                old(self).queue(),
                old(self).slots(),
                final(self).queue(),
                final(self).slots(),
                r,
            ),
        decreases depth,
    {
        match result {
            Err(e) => Err(SessionError::RPC(e)),
            Ok(ProcessResult::Immediate(RouteDecision::Stop)) => Ok(()),
            Ok(ProcessResult::Immediate(RouteDecision::Out(response))) => {
                self.queued_responses.push_back(response);
                Ok(())
            },
            Ok(ProcessResult::Immediate(RouteDecision::Forward(packet))) => {
                if depth == 0 {
                    return Err(SessionError::RPC(RPCError::NoRoute));
                }
                let request = match internal_to_request(packet) {
                    Some(request) => request,
                    None => return Err(SessionError::RPC(RPCError::NoRoute)),
                };
                let ghost req = request;
                let ghost services = self.bnet_request_handlers.services@;
                let reply = self.bnet_request_handlers.route_packet(&mut self.shared_data, request);
                let ghost reply_view = reply;
                let r = self.dispatch(reply, depth - 1);
                proof {
                    assert(routed(services, Request(req.0), reply_view));
                }
                r
            },
            Ok(ProcessResult::NotReady(operation)) => {
                match self.push_to_queue(operation) {
                    Ok(_) => Ok(()),
                    Err(_) => Err(SessionError::PendingLimit),
                }
            },
        }
    }

    /// Frees `slot`, whose operation completed with `decision`, and applies
    /// the decision.
    pub fn complete_operation(
        &mut self,
        slot: usize,
        decision: RouteDecision<Response<BNetPacket>>,
    ) -> (r: Result<(), SessionError>)
        requires
            old(self).wf(),
            slot < PENDING_SLOTS,
            old(self).slots()[slot as int] is Some,
        ensures
            final(self).wf(),
            final(self).inbound@ == old(self).inbound@,
            final(self).codec == old(self).codec,
            final(self).bnet_request_handlers.services@ == old(self).bnet_request_handlers.services@,
            dispatch_effect(
                Ok(ProcessResult::Immediate(decision)),
                old(self).bnet_request_handlers.services@,
                MAX_FORWARD_DEPTH as nat,
                old(self).queue(),
                old(self).slots().update(slot as int, None),
                final(self).queue(),
                final(self).slots(),
                r,
            ),
    {
        self.bnet_blocking_ops_queue.set(slot, None);
        self.dispatch(Ok(ProcessResult::Immediate(decision)), MAX_FORWARD_DEPTH)
    }

    /// Classifies a decoded frame and routes it: a request goes to the
    /// registry and its reply is applied; no service handles responses, so
    /// a response has no route.
    pub fn process_external_bnet(&mut self, packet: BNetPacket) -> (r: Result<(), SessionError>)
        requires
            old(self).wf(),
            has_room(old(self).slots()),
        ensures
            final(self).wf(),
            final(self).inbound@ == old(self).inbound@,
            final(self).codec == old(self).codec,
            is_response_header(packet.header) ==> (r matches Err(SessionError::RPC(RPCError::NoRoute)))
                && final(self).queue() == old(self).queue() && final(self).slots() == old(self).slots(),
            final(self).shared_data == old(self).shared_data,
            final(self).bnet_request_handlers.services@ == old(self).bnet_request_handlers.services@,
            !is_response_header(packet.header) ==> exists|
                reply: RPCResult<ProcessResult<Response<BNetPacket>>>,
            |
                #[trigger] routed(old(self).bnet_request_handlers.services@, Request(packet), reply)
                    && dispatch_effect(
                    reply,
                    old(self).bnet_request_handlers.services@,
                    MAX_FORWARD_DEPTH as nat,
                    old(self).queue(),
                    old(self).slots(),
                    final(self).queue(),
                    final(self).slots(),
                    r,
                ),
    {
        let ghost p = packet;
        match packet.try_as_request() {
            Ok(request) => {
                let ghost services = self.bnet_request_handlers.services@;
                let ghost q0 = self.queue();
                let ghost s0 = self.slots();
                let reply = self.bnet_request_handlers.route_packet(&mut self.shared_data, request);
                let ghost reply_view = reply;
                let r = self.dispatch(reply, MAX_FORWARD_DEPTH);
                proof {
                    assert(routed(services, Request(p), reply_view));
                }
                r
            },
            Err(_) => Err(SessionError::RPC(RPCError::NoRoute)),
        }
    }

    /// Appends bytes read from the peer to the inbound buffer.
    pub fn receive(&mut self, bytes: &[u8])
        requires
            old(self).wf(),
        ensures
            final(self).wf(),
            final(self).inbound@ == old(self).inbound@ + bytes@,
            final(self).codec == old(self).codec,
            final(self).shared_data == old(self).shared_data,
            final(self).bnet_request_handlers == old(self).bnet_request_handlers,
            final(self).queue() == old(self).queue(),
            final(self).slots() == old(self).slots(),
    {
        extend_bytes(&mut self.inbound, bytes);
    }

    /// Admits the next frame, if a slot is free and a whole frame is
    /// buffered, and processes it. Returns whether a frame was admitted.
    /// With every slot occupied nothing is decoded and nothing changes.
    pub fn admit_next(&mut self) -> (r: Result<bool, SessionError>)
        requires
            old(self).wf(),
        ensures
            final(self).wf(),
            !has_room(old(self).slots()) ==> r == Ok::<bool, SessionError>(false) && final(self).codec
                == old(self).codec && final(self).inbound@ == old(self).inbound@ && final(self).queue()
                == old(self).queue() && final(self).slots() == old(self).slots(),
            final(self).shared_data == old(self).shared_data,
            final(self).bnet_request_handlers.services@ == old(self).bnet_request_handlers.services@,
            has_room(old(self).slots()) ==> ({
                let (o, c, b) = decode_spec(old(self).codec, old(self).inbound@);
                let services = old(self).bnet_request_handlers.services@;
                let unchanged = final(self).queue() == old(self).queue() && final(self).slots() == old(
                    self,
                ).slots();
                &&& final(self).codec == c
                &&& final(self).inbound@ == b
                &&& match o {
                    DecodeOutcome::NeedMore => r == Ok::<bool, SessionError>(false) && unchanged,
                    DecodeOutcome::Frame(h, body) => (r is Err || r == Ok::<bool, SessionError>(true))
                        && if is_response_header(h) {
                        (r matches Err(SessionError::RPC(RPCError::NoRoute))) && unchanged
                    } else {
                        exists|p: BNetPacket, reply: RPCResult<ProcessResult<Response<BNetPacket>>>|
                            p.header == h && p.body@ == body && #[trigger] routed(
                                services,
                                Request(p),
                                reply,
                            ) && dispatch_effect(
                                reply,
                                services,
                                MAX_FORWARD_DEPTH as nat,
                                old(self).queue(),
                                old(self).slots(),
                                final(self).queue(),
                                final(self).slots(),
                                unit_of(r),
                            )
                    },
                    _ => (r matches Err(SessionError::Codec(e)) && result_matches(
                        Err::<Option<BNetPacket>, CodecError>(e),
                        o,
                    )) && unchanged,
                }
            }),
    {
        if !self.queue_room_available() {
            return Ok(false);
        }
        match self.codec.decode(&mut self.inbound) {
            Err(e) => Err(SessionError::Codec(e)),
            Ok(None) => Ok(false),
            Ok(Some(packet)) => {
                let ghost pk = packet;
                let ghost services = self.bnet_request_handlers.services@;
                let ghost q0 = self.queue();
                let ghost s0 = self.slots();
                let r0 = self.process_external_bnet(packet);
                let ghost r0v = r0;
                let r = match r0 {
                    Ok(()) => Ok(true),
                    Err(e) => Err(e),
                };
                proof {
                    match r0v {
                        Ok(u) => {
                            assert(u == ());
                            assert(unit_of(r) == r0v);
                        },
                        Err(e) => assert(unit_of(r) == r0v),
                    }
                    if !is_response_header(pk.header) {
                        let reply = choose|reply: RPCResult<ProcessResult<Response<BNetPacket>>>|
                            #[trigger] routed(services, Request(pk), reply) && dispatch_effect(
                                reply,
                                services,
                                MAX_FORWARD_DEPTH as nat,
                                q0,
                                s0,
                                self.queue(),
                                self.slots(),
                                r0v,
                            );
                        assert(routed(services, Request(pk), reply));
                    }
                }
                r
            },
        }
    }

    /// Takes the oldest queued response, to be written to the peer.
    pub fn pop_outbound(&mut self) -> (r: Option<BNetPacket>)
        requires
            old(self).wf(),
        ensures
            final(self).wf(),
            final(self).slots() == old(self).slots(),
            final(self).codec == old(self).codec,
            final(self).inbound@ == old(self).inbound@,
            old(self).queue().len() == 0 ==> r is None && final(self).queue() == old(self).queue(),
            old(self).queue().len() > 0 ==> r == Some(old(self).queue()[0].0) && final(self).queue()
                == old(self).queue().drop_first(),
    {
        match self.queued_responses.pop_front() {
            Some(response) => Some(response.unwrap()),
            None => None,
        }
    }

    /// Puts back a frame that the socket refused, ahead of every queued
    /// response, so that it is the first one written next time.
    pub fn requeue_rejected(&mut self, packet: BNetPacket)
        requires
            old(self).wf(),
        ensures
            final(self).wf(),
            final(self).slots() == old(self).slots(),
            final(self).codec == old(self).codec,
            final(self).inbound@ == old(self).inbound@,
            final(self).queue() == seq![Response(packet)] + old(self).queue(),
    {
        self.queued_responses.push_front(Response::new(packet));
    }

    /// Records the outcome of writing the frame last taken from the queue:
    /// `None` when the socket took it, the frame itself when the socket
    /// refused it for now. A refused frame goes back to the head of the
    /// queue and the flush stops; otherwise it goes on. Returns whether to
    /// go on.
    pub fn flush_result(&mut self, refused: Option<BNetPacket>) -> (go_on: bool)
        requires
            old(self).wf(),
        ensures
            final(self).wf(),
            final(self).slots() == old(self).slots(),
            final(self).codec == old(self).codec,
            final(self).inbound@ == old(self).inbound@,
            go_on == refused is None,
            match refused {
                None => final(self).queue() == old(self).queue(),
                Some(p) => final(self).queue() == seq![Response(p)] + old(self).queue(),
            },
    {
        match refused {
            None => true,
            Some(packet) => {
                self.requeue_rejected(packet);
                false
            },
        }
    }

    /// Whether responses are waiting to be written.
    pub fn has_outbound(&self) -> (r: bool)
        ensures
            r == (self.queue().len() > 0),
    {
        self.queued_responses.len() > 0
    }
}

/// Slot bound: the outstanding operations never outnumber the slots, and
/// when every slot is occupied there is no room, so no further frame is
/// admitted until one frees.
pub proof fn lemma_slot_bound(slots: Seq<Option<PendingOperation>>)
    ensures
        count_occupied(slots) <= slots.len(),
        count_occupied(slots) == slots.len() <==> !has_room(slots),
    decreases slots.len(),
{
    if slots.len() > 0 {
        let init = slots.drop_last();
        lemma_slot_bound(init);
        if has_room(init) {
            let j = choose|j: int| 0 <= j < init.len() && init[j] is None;
            assert(slots[j] is None);
        }
        if has_room(slots) && !has_room(init) {
            let j = choose|j: int| 0 <= j < slots.len() && slots[j] is None;
            if j < init.len() {
                assert(init[j] is None);
            }
        }
        if !has_room(slots) {
            assert forall|j: int| 0 <= j < init.len() implies init[j] is Some by {
                assert(slots[j] is Some);
            }
            assert(slots[slots.len() - 1] is Some);
        }
        if slots.last() is None {
            assert(slots[slots.len() - 1] is None);
        }
    }
}

/// Backpressure order: a frame put back after a refused write is the first
/// one taken next, ahead of every response queued before or after it.
pub proof fn lemma_rejected_first(
    queued: Seq<Response<BNetPacket>>,
    rejected: BNetPacket,
    later: Seq<Response<BNetPacket>>,
)
    ensures
        (seq![Response(rejected)] + queued + later)[0].0 == rejected,
        (seq![Response(rejected)] + queued + later).drop_first() == queued + later,
{
    assert((seq![Response(rejected)] + queued + later).drop_first() =~= queued + later);
}

} // verus!
