//! The connection service: the handshake that binds service ids between
//! the peer and this process, and the other requests that manage the
//! connection.

use vstd::prelude::*;
use vstd::string::StringSliceAdditionalSpecFns;
use crate::frame::BNetPacket;
use crate::hashing::{fnv1a, ServiceHash};
use crate::header::Header;
use crate::message::{
    connect_response_bytes, decode_connect_request, decode_connect_spec, encode_connect_response,
    BoundService,
};
use crate::service::{
    default_accept_check, is_out_response, ClientSharedData, ProcessResult, RPCError, RPCResult,
    RouteDecision, RPCRouter, RPCService, ServiceBinder,
};
use crate::service_info::{
    exported_id_or_sentinel, import_matches, ExportedServiceID, ImportedServiceID,
};
use crate::transport::{response_header, Request, Response};

verus! {

/// Fully qualified name of the connection service.
pub const CONNECTION_SERVICE_NAME: &'static str = "bnet.protocol.connection.ConnectionService";

/// Nanoseconds in a second.
pub const NANOS_PER_SECOND: i64 = 1_000_000_000;

/// Addressable methods of the connection service.
#[derive(Debug, Clone, Copy, PartialEq, Eq, Structural)]
pub enum Methods {
    Connect,
    Bind,
    Echo,
    ForceDisconnect,
    KeepAlive,
    Encrypt,
    RequestDisconnect,
}

impl Methods {
    /// The id the method is addressed by.
    pub open spec fn spec_id(self) -> u32 {
        match self {
            Methods::Connect => 1,
            Methods::Bind => 2,
            Methods::Echo => 3,
            Methods::ForceDisconnect => 4,
            Methods::KeepAlive => 5,
            Methods::Encrypt => 6,
            Methods::RequestDisconnect => 7,
        }
    }

    /// The method addressed by `id`, if any.
    pub open spec fn spec_from_id(id: u32) -> Option<Methods> {
        match id {
            1 => Some(Methods::Connect),
            2 => Some(Methods::Bind),
            3 => Some(Methods::Echo),
            4 => Some(Methods::ForceDisconnect),
            5 => Some(Methods::KeepAlive),
            6 => Some(Methods::Encrypt),
            7 => Some(Methods::RequestDisconnect),
            _ => None,
        }
    }

    /// The id the method is addressed by.
    pub fn as_u32(self) -> (r: u32)
        ensures
            r == self.spec_id(),
    {
        match self {
            Methods::Connect => 1,
            Methods::Bind => 2,
            Methods::Echo => 3,
            Methods::ForceDisconnect => 4,
            Methods::KeepAlive => 5,
            Methods::Encrypt => 6,
            Methods::RequestDisconnect => 7,
        }
    }

    /// The method addressed by `id`, if any.
    pub fn from_id(id: u32) -> (r: Option<Methods>)
        ensures
            r == Self::spec_from_id(id),
    {
        match id {
            1 => Some(Methods::Connect),
            2 => Some(Methods::Bind),
            3 => Some(Methods::Echo),
            4 => Some(Methods::ForceDisconnect),
            5 => Some(Methods::KeepAlive),
            6 => Some(Methods::Encrypt),
            7 => Some(Methods::RequestDisconnect),
            _ => None,
        }
    }
}

/// Id the connection service is bound to.
pub open spec fn connection_service_id() -> u32 {
    ExportedServiceID::ConnectionService.spec_id()
}

/// How the service answers a header: the method it addresses, or the
/// error. A header with no method, or for another service, is an unknown
/// request; a method the service lacks is an invalid request for it.
pub open spec fn connection_accept_spec(h: Header) -> Result<Methods, RPCError> {
    match h.method_id {
        None => Err(RPCError::UnknownRequest { service_name: CONNECTION_SERVICE_NAME }),
        Some(k) => if h.service_id != connection_service_id() {
            Err(RPCError::UnknownRequest { service_name: CONNECTION_SERVICE_NAME })
        } else {
            match Methods::spec_from_id(k) {
                Some(method) => Ok(method),
                None => Err(RPCError::InvalidRequest { service_name: CONNECTION_SERVICE_NAME, method_id: k }),
            }
        },
    }
}

/// Why a connect request is refused.
pub enum ConnectFault {
    /// The payload is not a well formed connect request.
    Malformed,
    /// The payload carries no bind request.
    NoBind,
    /// A service the peer exposes is declared under another id than the
    /// imported table holds, or is unknown.
    BadImport,
}

/// Whether every service the peer exposes is declared as the imported
/// table holds it.
pub open spec fn imports_match(exported: Seq<BoundService>) -> bool {
    forall|i: int| 0 <= i < exported.len() ==> import_matches(exported[i].hash, exported[i].id)
}

/// The ids bound to the services the peer expects, in the order it asked
/// for them; 0 for a service this process does not expose.
pub open spec fn resolve_ids(hashes: Seq<u32>) -> Seq<u32> {
    hashes.map_values(|h: u32| exported_id_or_sentinel(h))
}

/// What a connect request with payload `body` asks for: the resolved ids,
/// or why it is refused.
pub open spec fn connect_outcome(body: Seq<u8>) -> Result<Seq<u32>, ConnectFault> {
    match decode_connect_spec(body) {
        None => Err(ConnectFault::Malformed),
        Some(None) => Err(ConnectFault::NoBind),
        Some(Some(b)) => if imports_match(b.exported) {
            Ok(resolve_ids(b.hashes))
        } else {
            Err(ConnectFault::BadImport)
        },
    }
}

/// Whether `r` is the connect service's error for `fault`.
pub open spec fn is_connect_error(r: Result<(), RPCError>, fault: ConnectFault) -> bool {
    match fault {
        ConnectFault::Malformed => r matches Err(RPCError::ProtoDecode),
        _ => (r matches Err(RPCError::InvalidRequest { service_name, method_id }) && service_name
            == CONNECTION_SERVICE_NAME && method_id == Methods::Connect.spec_id()),
    }
}

/// The error part of a result, with the value dropped.
pub open spec fn error_of<T>(r: RPCResult<T>) -> Result<(), RPCError> {
    match r {
        Ok(_) => Ok(()),
        Err(e) => Err(e),
    }
}

/// Whether `r` is the reply to the connect request `request` when the
/// clock reads `epoch` seconds and `server_time` nanoseconds: the response
/// carrying the resolved ids, or the error for why it is refused. A
/// response too long for a frame's size field is an encoding error.
pub open spec fn connect_reply(
    request: Request<BNetPacket>,
    epoch: u32,
    server_time: u64,
    r: RPCResult<ProcessResult<Response<BNetPacket>>>,
) -> bool {
    match connect_outcome(request.0.body@) {
        Err(fault) => is_connect_error(error_of(r), fault),
        Ok(ids) => {
            let bytes = connect_response_bytes(ids, epoch, server_time);
            if bytes.len() <= u32::MAX {
                is_out_response(r, response_header(request.0.header.token, bytes.len()), bytes)
            } else {
                r matches Err(RPCError::ProtoEncode)
            }
        },
    }
}

/// The connection service.
#[derive(Debug)]
pub struct ConnectionService {}

impl ServiceBinder for ConnectionService {
    fn bind() -> ConnectionService {
        ConnectionService {}
    }
}

/// Relies on chrono's `Utc::now`, read out by `timestamp_nanos_opt`:
/// nanoseconds since the Unix epoch when called, or nothing when that does
/// not fit 64 bits. Nothing is promised of the value.
#[verifier::external_body]
fn local_now_nanos() -> Option<i64> {
    chrono::Utc::now().timestamp_nanos_opt()
}

/// The clock as the connect response reports it: whole seconds since the
/// Unix epoch, truncated to 32 bits, and nanoseconds since then.
fn clock_reading() -> (r: (u32, u64)) {
    let nanos: i64 = match local_now_nanos() {
        Some(n) => n,
        None => 0,
    };
    ((nanos / NANOS_PER_SECOND) as u32, nanos as u64)
}

impl ConnectionService {
    /// Fully qualified name of the service.
    pub fn get_name() -> (r: &'static str)
        ensures
            r == CONNECTION_SERVICE_NAME,
    {
        CONNECTION_SERVICE_NAME
    }

    /// Id the service is bound to.
    pub fn get_id() -> (r: u32)
        ensures
            r == connection_service_id(),
    {
        ExportedServiceID::ConnectionService.id()
    }

    /// Name hash of the service.
    pub fn get_hash() -> (r: ServiceHash)
        ensures
            r.0 == fnv1a(CONNECTION_SERVICE_NAME.spec_bytes()),
    {
        ServiceHash::from_name(CONNECTION_SERVICE_NAME)
    }

    /// The addressable methods with their names, in order of id.
    pub fn get_methods() -> (r: Vec<(Methods, &'static str)>)
        ensures
            r@.len() == 7,
            forall|i: int| 0 <= i < 7 ==> (#[trigger] r@[i]).0.spec_id() == i + 1,
    {
        let mut r: Vec<(Methods, &'static str)> = Vec::new();
        r.push((Methods::Connect, "Connect"));
        r.push((Methods::Bind, "Bind"));
        r.push((Methods::Echo, "Echo"));
        r.push((Methods::ForceDisconnect, "ForceDisconnect"));
        r.push((Methods::KeepAlive, "KeepAlive"));
        r.push((Methods::Encrypt, "Encrypt"));
        r.push((Methods::RequestDisconnect, "RequestDisconnect"));
        r
    }

    /// Tests whether this service accepts a request with header `header`,
    /// and which method it addresses.
    pub fn can_accept(header: &Header) -> (r: RPCResult<Methods>)
        ensures
            r == connection_accept_spec(*header),
    {
        let methods = Self::get_methods();
        let mut ids: Vec<u32> = Vec::new();
        let mut i: usize = 0;
        while i < methods.len()
            invariant
                i <= methods@.len(),
                methods@.len() == 7,
                forall|j: int| 0 <= j < 7 ==> (#[trigger] methods@[j]).0.spec_id() == j + 1,
                ids@.len() == i,
                forall|j: int| 0 <= j < i ==> #[trigger] ids@[j] == j + 1,
            decreases methods@.len() - i,
        {
            ids.push(methods[i].0.as_u32());
            i = i + 1;
        }
        proof {
            if let Some(k) = header.method_id {
                if Methods::spec_from_id(k) is Some {
                    assert(ids@[k - 1] == k);
                }
            }
        }
        let m = default_accept_check(header, Self::get_id(), CONNECTION_SERVICE_NAME, ids.as_slice())?;
        match Methods::from_id(m) {
            Some(method) => Ok(method),
            None => Err(RPCError::InvalidRequest { service_name: CONNECTION_SERVICE_NAME, method_id: m }),
        }
    }

    /// Handles `request`, addressed to `method`. Connect is answered at
    /// once, at the current time; the other methods have no implementation.
    pub fn handle(
        &mut self,
        method: Methods,
        shared_data: &mut ClientSharedData,
        request: Request<BNetPacket>,
    ) -> (r: RPCResult<ProcessResult<Response<BNetPacket>>>)
        ensures
            *final(shared_data) == *old(shared_data),
            method == Methods::Connect ==> exists|epoch: u32, server_time: u64|
                connect_reply(request, epoch, server_time, r),
            method != Methods::Connect ==> r matches Err(RPCError::NotImplemented),
    {
        match method {
            Methods::Connect => {
                let (epoch, server_time) = clock_reading();
                let ghost req = request;
                let r = match op_connect(request, epoch, server_time) {
                    Ok(response) => Ok(ProcessResult::Immediate(RouteDecision::Out(response))),
                    Err(e) => Err(e),
                };
                assert(connect_reply(req, epoch, server_time, r));
                r
            },
            _ => Err(RPCError::NotImplemented),
        }
    }
}

/// How a request with header `h` is checked to be a connect request: it
/// must name a method, and that method must be Connect.
pub open spec fn validate_connect_spec(h: Header) -> Result<(), RPCError> {
    match h.method_id {
        None => Err(RPCError::UnknownRequest { service_name: CONNECTION_SERVICE_NAME }),
        Some(k) => if k == Methods::Connect.spec_id() {
            Ok(())
        } else {
            Err(
                RPCError::InvalidRequest {
                    service_name: CONNECTION_SERVICE_NAME,
                    method_id: Methods::Connect.spec_id(),
                },
            )
        },
    }
}

/// Checks that `request` addresses the connect method.
pub fn validate_connect_request(request: &Request<BNetPacket>) -> (r: RPCResult<()>)
    ensures
        r == validate_connect_spec(request.0.header),
{
    match request.0.header.method_id {
        None => Err(RPCError::UnknownRequest { service_name: CONNECTION_SERVICE_NAME }),
        Some(k) => if k == Methods::Connect.as_u32() {
            Ok(())
        } else {
            Err(
                RPCError::InvalidRequest {
                    service_name: CONNECTION_SERVICE_NAME,
                    method_id: Methods::Connect.as_u32(),
                },
            )
        },
    }
}

/// Answers the connect request `request` when the clock reads `epoch`
/// seconds and `server_time` nanoseconds: validates the services the peer
/// exposes against the imported table, resolves the services it expects
/// against the exported table, and builds the response.
pub fn op_connect(request: Request<BNetPacket>, epoch: u32, server_time: u64) -> (r: RPCResult<
    Response<BNetPacket>,
>)
    ensures
        match connect_outcome(request.0.body@) {
            Err(fault) => is_connect_error(error_of(r), fault),
            Ok(ids) => {
                let bytes = connect_response_bytes(ids, epoch, server_time);
                if bytes.len() <= u32::MAX {
                    r matches Ok(resp) && resp.0.header == response_header(
                        request.0.header.token,
                        bytes.len(),
                    ) && resp.0.body@ == bytes
                } else {
                    r matches Err(RPCError::ProtoEncode)
                }
            },
        },
{
    let bind = match decode_connect_request(request.0.body.as_slice()) {
        None => return Err(RPCError::ProtoDecode),
        Some(None) => {
            return Err(
                RPCError::InvalidRequest {
                    service_name: CONNECTION_SERVICE_NAME,
                    method_id: Methods::Connect.as_u32(),
                },
            )
        },
        Some(Some(b)) => b,
    };
    // The peer's exported services are the ones this process imports.
    let mut i: usize = 0;
    while i < bind.exported_service.len()
        invariant
            decode_connect_spec(request.0.body@) == Some(Some(bind.view())),
            i <= bind.exported_service@.len(),
            forall|j: int|
                0 <= j < i ==> import_matches(
                    #[trigger] bind.exported_service@[j].hash,
                    bind.exported_service@[j].id,
                ),
        decreases bind.exported_service@.len() - i,
    {
        let s = bind.exported_service[i];
        let known = match ImportedServiceID::from_hash(s.hash) {
            Some(service) => service.id() == s.id,
            None => false,
        };
        assert(known == import_matches(bind.exported_service@[i as int].hash, bind.exported_service@[i as int].id));
        if !known {
            assert(!imports_match(bind.view().exported));
            return Err(
                RPCError::InvalidRequest {
                    service_name: CONNECTION_SERVICE_NAME,
                    method_id: Methods::Connect.as_u32(),
                },
            );
        }
        i = i + 1;
    }
    assert(imports_match(bind.view().exported));
    // The services the peer imports are the ones this process exports.
    let mut ids: Vec<u32> = Vec::new();
    let mut k: usize = 0;
    while k < bind.imported_service_hash.len()
        invariant
            decode_connect_spec(request.0.body@) == Some(Some(bind.view())),
            imports_match(bind.view().exported),
            k <= bind.imported_service_hash@.len(),
            ids@ == resolve_ids(bind.imported_service_hash@.subrange(0, k as int)),
        decreases bind.imported_service_hash@.len() - k,
    {
        let id = match ExportedServiceID::from_hash(bind.imported_service_hash[k]) {
            Some(service) => service.id(),
            None => 0,
        };
        ids.push(id);
        k = k + 1;
        assert(ids@ =~= resolve_ids(bind.imported_service_hash@.subrange(0, k as int)));
    }
    assert(bind.imported_service_hash@.subrange(0, k as int) =~= bind.imported_service_hash@);
    let body = encode_connect_response(&ids, epoch, server_time);
    if body.len() as u64 > 0xffff_ffff {
        return Err(RPCError::ProtoEncode);
    }
    Ok(Response::from_request(request, body))
}

/// What the handshake's connect request with header `h` and payload
/// `body` is answered with when the clock reads `epoch` seconds and
/// `server_time` nanoseconds: the resolved ids and the response body, or
/// nothing when it is refused. A request that does not pass
/// `validate_connect_spec` is refused.
pub open spec fn handshake_answer(h: Header, body: Seq<u8>, epoch: u32, server_time: u64) -> Option<
    (Seq<u32>, Seq<u8>),
> {
    if validate_connect_spec(h) is Err {
        None
    } else {
        match connect_outcome(body) {
            Err(_) => None,
            Ok(ids) => {
                let bytes = connect_response_bytes(ids, epoch, server_time);
                if bytes.len() <= u32::MAX {
                    Some((ids, bytes))
                } else {
                    None
                }
            },
        }
    }
}

/// Whether `r` is the reply to the connect request with header `h` and
/// payload `body`, sent during the handshake, when the clock reads `epoch`
/// seconds and `server_time` nanoseconds: a request that does not pass
/// `validate_connect_spec` gets its error, and its payload is not read;
/// otherwise as `op_connect` answers.
pub open spec fn session_connect_reply(
    h: Header,
    body: Seq<u8>,
    epoch: u32,
    server_time: u64,
    r: RPCResult<Response<BNetPacket>>,
) -> bool {
    if validate_connect_spec(h) is Err {
        error_of(r) == validate_connect_spec(h)
    } else {
        match connect_outcome(body) {
            Err(fault) => is_connect_error(error_of(r), fault),
            Ok(ids) => {
                let bytes = connect_response_bytes(ids, epoch, server_time);
                if bytes.len() <= u32::MAX {
                    r matches Ok(resp) && resp.0.header == response_header(h.token, bytes.len())
                        && resp.0.body@ == bytes
                } else {
                    r matches Err(RPCError::ProtoEncode)
                }
            },
        }
    }
}

/// Performs the connect operation for a session that is still in its
/// handshake: checks that `request` is a connect request, then answers it
/// as `op_connect` does.
pub fn lightweight_session_connect(request: Request<BNetPacket>, epoch: u32, server_time: u64) -> (r:
    RPCResult<Response<BNetPacket>>)
    ensures
        session_connect_reply(request.0.header, request.0.body@, epoch, server_time, r),
{
    validate_connect_request(&request)?;
    op_connect(request, epoch, server_time)
}


/// Answers the connect request that opens a session, at the current time:
/// as `lightweight_session_connect` does, whatever the clock reads.
pub fn connect_direct(request: Request<BNetPacket>) -> (r: RPCResult<Response<BNetPacket>>)
    ensures
        exists|epoch: u32, server_time: u64| session_connect_reply(request.0.header, request.0.body@, epoch, server_time, r),
{
    let (epoch, server_time) = clock_reading();
    let ghost req = request;
    let r = lightweight_session_connect(request, epoch, server_time);
    assert(session_connect_reply(req.0.header, req.0.body@, epoch, server_time, r));
    r
}

impl RPCService for ConnectionService {
    type Method = Methods;

    fn get_hash() -> ServiceHash {
        ConnectionService::get_hash()
    }

    fn get_id() -> u32 {
        ConnectionService::get_id()
    }

    fn get_name() -> &'static str {
        ConnectionService::get_name()
    }

    fn get_methods() -> Vec<(Methods, &'static str)> {
        ConnectionService::get_methods()
    }
}

impl RPCRouter for ConnectionService {
    type Method = Methods;

    fn can_accept(header: &Header) -> RPCResult<Methods> {
        ConnectionService::can_accept(header)
    }

    fn handle(
        &mut self,
        method: Methods,
        shared_data: &mut ClientSharedData,
        request: Request<BNetPacket>,
    ) -> RPCResult<ProcessResult<Response<BNetPacket>>> {
        ConnectionService::handle(self, method, shared_data, request)
    }
}

} // verus!
