//! Types that give packets a role in the RPC system: requests, responses,
//! and the envelope for routing between services of one process.

use vstd::prelude::*;
use crate::frame::BNetPacket;
use crate::hashing::ServiceHash;
use crate::header::Header;

verus! {

/// Service id that addresses a response.
pub const RESPONSE_SERVICE_ID: u32 = 254;

/// Method id that addresses a response.
pub const RESPONSE_METHOD_ID: u32 = 0;

/// Marker for packets that are compatible with the RPC system.
pub trait RPCPacket {}

impl<'a, X: RPCPacket> RPCPacket for &'a X {}

/// A type that no code outside this module can build, for routes that
/// never produce a packet.
pub struct Never {
    unconstructible: (),
}

impl RPCPacket for Never {}

/// An RPC request.
#[derive(Debug)]
pub struct Request<Packet>(pub Packet);

impl<Packet> RPCPacket for Request<Packet> {}

impl<Packet> Request<Packet> {
    /// Wraps a packet into a request.
    pub fn new(data: Packet) -> (r: Self)
        ensures
            r.0 == data,
    {
        Request(data)
    }

    /// Takes the packet out of the request.
    pub fn unwrap(self) -> (r: Packet)
        ensures
            r == self.0,
    {
        self.0
    }

    /// A request that borrows the packet of this one.
    pub fn as_ref(&self) -> (r: Request<&Packet>)
        ensures
            *r.0 == self.0,
    {
        Request(&self.0)
    }
}

/// An RPC response.
#[derive(Debug)]
pub struct Response<Packet>(pub Packet);

impl<Packet> RPCPacket for Response<Packet> {}

impl<Packet> Response<Packet> {
    /// Wraps a packet into a response.
    pub fn new(data: Packet) -> (r: Self)
        ensures
            r.0 == data,
    {
        Response(data)
    }

    /// Takes the packet out of the response.
    pub fn unwrap(self) -> (r: Packet)
        ensures
            r == self.0,
    {
        self.0
    }

    /// A response that borrows the packet of this one.
    pub fn as_ref(&self) -> (r: Response<&Packet>)
        ensures
            *r.0 == self.0,
    {
        Response(&self.0)
    }
}

/// Data linking a request and a response together.
#[derive(Debug, Clone, Copy, PartialEq, Eq, Structural)]
pub struct RouteToken {
    /// Identifier of the link.
    pub id: u32,
}

impl RouteToken {
    /// Creates a new token with the provided id.
    pub fn new(id: u32) -> (r: RouteToken)
        ensures
            r.id == id,
    {
        RouteToken { id }
    }
}

/// Addressing of a packet routed between services of this process.
#[derive(Debug, Clone, Copy, PartialEq, Eq, Structural)]
pub struct RouteHeader {
    /// Hash of the addressed service.
    pub service_hash: ServiceHash,
    /// Id of the addressed method.
    pub method_id: u32,
    /// Link to the originating request, if any.
    pub token: Option<RouteToken>,
}

/// A packet routed between services of this process.
#[derive(Debug)]
pub struct InternalPacket {
    /// Addressing of the packet.
    pub header: RouteHeader,
    /// The data the packet carries.
    pub payload: Vec<u8>,
}

/// Whether a header addresses the response service: the reserved service
/// id, and the response method id or no method at all.
pub open spec fn is_response_header(h: Header) -> bool {
    h.service_id == RESPONSE_SERVICE_ID && match h.method_id {
        Some(m) => m == RESPONSE_METHOD_ID,
        None => true,
    }
}

/// The header of a response to a request with token `token`, with a body
/// of `size` bytes.
pub open spec fn response_header(token: u32, size: nat) -> Header {
    Header {
        service_id: RESPONSE_SERVICE_ID,
        method_id: Some(RESPONSE_METHOD_ID),
        token,
        size: Some(size as u32),
        status: None,
    }
}

impl BNetPacket {
    /// Classifies this packet as a request: every packet that does not
    /// address the response service is one. Otherwise hands the packet
    /// back.
    pub fn try_as_request(self) -> (r: Result<Request<BNetPacket>, BNetPacket>)
        ensures
            r is Ok <==> !is_response_header(self.header),
            r matches Ok(req) ==> req.0 == self,
            r matches Err(p) ==> p == self,
    {
        match self.try_as_response() {
            Ok(response) => Err(response.unwrap()),
            Err(packet) => Ok(Request::new(packet)),
        }
    }

    /// Classifies this packet as a response: it addresses the response
    /// service. Otherwise hands the packet back.
    pub fn try_as_response(self) -> (r: Result<Response<BNetPacket>, BNetPacket>)
        ensures
            r is Ok <==> is_response_header(self.header),
            r matches Ok(resp) ==> resp.0 == self,
            r matches Err(p) ==> p == self,
    {
        let service = self.header.service_id;
        let method = match self.header.method_id {
            Some(m) => m,
            None => RESPONSE_METHOD_ID,
        };
        if service == RESPONSE_SERVICE_ID && method == RESPONSE_METHOD_ID {
            Ok(Response::new(self))
        } else {
            Err(self)
        }
    }
}

impl Response<BNetPacket> {
    /// Builds the response to `request` that carries `body`: the request's
    /// token, the response service and method, and the body's size.
    pub fn from_request(request: Request<BNetPacket>, body: Vec<u8>) -> (r: Response<BNetPacket>)
        requires
            body@.len() <= u32::MAX,
        ensures
            r.0.header == response_header(request.0.header.token, body@.len()),
            r.0.body@ == body@,
    {
        let request = request.unwrap();
        let token = request.header.token;
        let response_header = Header {
            service_id: RESPONSE_SERVICE_ID,
            method_id: Some(RESPONSE_METHOD_ID),
            token,
            size: Some(body.len() as u32),
            status: None,
        };
        Response::new(BNetPacket::new(response_header, body))
    }

    /// Builds the response to `request` that carries the empty message,
    /// whose encoding has no bytes.
    pub fn empty(request: Request<BNetPacket>) -> (r: Response<BNetPacket>)
        ensures
            r.0.header == response_header(request.0.header.token, 0),
            r.0.body@ == Seq::<u8>::empty(),
    {
        Response::from_request(request, Vec::new())
    }
}

/// Classification is total and exclusive: a header addresses either a
/// request or a response, never both; and the header of a built response
/// always classifies as a response and carries the originating token.
pub proof fn lemma_classification(h: Header, size: nat)
    ensures
        is_response_header(h) != !is_response_header(h),
        is_response_header(response_header(h.token, size)),
        response_header(h.token, size).token == h.token,
{
}

} // verus!
