//! What every service shares: errors, routing decisions, the results of
//! handling a request, per-connection shared data, and the registry that
//! routes a request to the first service that accepts it.

use vstd::prelude::*;
use crate::frame::BNetPacket;
use crate::hashing::{ClientHash, ServiceHash};
use crate::header::Header;
use crate::transport::{InternalPacket, Request, Response};

verus! {

/// Failure to handle an RPC request or response.
#[derive(Debug, Clone, Copy)]
pub enum RPCError {
    /// The request addresses another service.
    UnknownRequest {
        /// Name of the service that was asked.
        service_name: &'static str,
    },
    /// The request addresses the service but is not what it expects.
    InvalidRequest {
        /// Name of the service that was asked.
        service_name: &'static str,
        /// Method that was addressed.
        method_id: u32,
    },
    /// A response arrived that no request is waiting for.
    InvalidResponse {
        /// Token found in the response.
        token: u32,
    },
    /// No service accepts the packet.
    NoRoute,
    /// The addressed method has no implementation.
    NotImplemented,
    /// A payload could not be decoded.
    ProtoDecode,
    /// A payload could not be encoded.
    ProtoEncode,
}

/// Opaque handle of an operation that a service started and that
/// completes later; whoever runs the engine resolves it.
#[derive(Debug, Clone, Copy, PartialEq, Eq, Structural)]
pub struct PendingOperation {
    /// Identifier of the operation.
    pub ticket: u64,
}

/// What a service wants done with the result of handling a packet.
#[derive(Debug)]
pub enum RouteDecision<Packet> {
    /// Stop routing; nothing is sent.
    Stop,
    /// Send the packet to the connected peer.
    Out(Packet),
    /// Route the packet to another service of this process.
    Forward(InternalPacket),
}

/// The result of handling a packet: known now, or later.
#[derive(Debug)]
pub enum ProcessResult<Packet> {
    /// The decision is known.
    Immediate(RouteDecision<Packet>),
    /// The decision comes when the operation completes.
    NotReady(PendingOperation),
}

/// Data shared by all handlers of one client session.
#[derive(Debug, Clone, Copy, PartialEq, Eq, Structural)]
pub struct ClientSharedData {
    /// Stable identifier of the client.
    pub client_id: ClientHash,
}

impl ClientSharedData {
    /// Creates the shared data of the session with client `client_id`.
    pub fn new(client_id: ClientHash) -> (r: ClientSharedData)
        ensures
            r.client_id == client_id,
    {
        ClientSharedData { client_id }
    }

    /// Shared data for a session whose client is not identified yet.
    pub fn stub() -> (r: ClientSharedData)
        ensures
            r.client_id == ClientHash(0),
    {
        ClientSharedData { client_id: ClientHash(0) }
    }
}

/// Result type of RPC handling.
pub type RPCResult<Item> = Result<Item, RPCError>;

/// Whether `r` is an immediate decision to send a response with header
/// `h` and body `body`.
pub open spec fn is_out_response(
    r: RPCResult<ProcessResult<Response<BNetPacket>>>,
    h: Header,
    body: Seq<u8>,
) -> bool {
    r matches Ok(ProcessResult::Immediate(RouteDecision::Out(resp))) && resp.0.header == h
        && resp.0.body@ == body
}

/// An object that exposes itself through the RPC interface: addressable by
/// its bound id and its name hash, its methods by their ids.
pub trait RPCService {
    /// Type used for addressing the service's methods.
    type Method;

    /// Name hash of the service.
    fn get_hash() -> ServiceHash;

    /// Id the service is bound to.
    fn get_id() -> u32;

    /// Fully qualified name of the service.
    fn get_name() -> &'static str;

    /// The addressable methods with their names, in order of id.
    fn get_methods() -> Vec<(Self::Method, &'static str)>;
}

/// Accepts the requests addressed to it and handles them.
pub trait RPCRouter {
    /// Type used for addressing the service's methods.
    type Method;

    /// Tests whether the request with header `header` is for this service,
    /// and which method it addresses.
    fn can_accept(header: &Header) -> RPCResult<Self::Method>;

    /// Handles `request`, addressed to `method`: the decision is known now
    /// or comes later.
    fn handle(
        &mut self,
        method: Self::Method,
        shared_data: &mut ClientSharedData,
        request: Request<BNetPacket>,
    ) -> RPCResult<ProcessResult<Response<BNetPacket>>>;
}

/// The ability to create a service object.
pub trait ServiceBinder: Sized {
    /// Creates a new service instance.
    fn bind() -> Self;
}

/// The ability to build a collection of services with default parameters.
pub trait ServiceBinderGenerator: Sized {
    /// Generates the services with their default parameters.
    fn default() -> Self;
}

/// How a service with id `service_id`, name `service_name` and method ids
/// `methods` answers a header: a header with no method, or for another
/// service, is an unknown request; a method the table lacks is an invalid
/// request for that method; otherwise the method id.
pub open spec fn accept_check_spec(
    h: Header,
    service_id: u32,
    service_name: &'static str,
    methods: Seq<u32>,
) -> Result<u32, RPCError> {
    match h.method_id {
        None => Err(RPCError::UnknownRequest { service_name }),
        Some(k) => if h.service_id != service_id {
            Err(RPCError::UnknownRequest { service_name })
        } else if methods.contains(k) {
            Ok(k)
        } else {
            Err(RPCError::InvalidRequest { service_name, method_id: k })
        },
    }
}

/// Tests whether `header` addresses a method of the service with id
/// `service_id`, name `service_name` and method ids `methods`, and returns
/// the addressed method id.
pub fn default_accept_check(
    header: &Header,
    service_id: u32,
    service_name: &'static str,
    methods: &[u32],
) -> (r: RPCResult<u32>)
    ensures
        r == accept_check_spec(*header, service_id, service_name, methods@),
{
    let k = match header.method_id {
        None => return Err(RPCError::UnknownRequest { service_name }),
        Some(k) => k,
    };
    if header.service_id != service_id {
        return Err(RPCError::UnknownRequest { service_name });
    }
    let mut i: usize = 0;
    while i < methods.len()
        invariant
            i <= methods@.len(),
            header.method_id == Some(k),
            header.service_id == service_id,
            forall|j: int| 0 <= j < i ==> methods@[j] != k,
        decreases methods@.len() - i,
    {
        if methods[i] == k {
            assert(methods@.contains(k));
            return Ok(k);
        }
        i = i + 1;
    }
    Err(RPCError::InvalidRequest { service_name, method_id: k })
}

} // verus!
