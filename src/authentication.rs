//! The authentication service: the logon request that follows the
//! handshake.

use vstd::prelude::*;
use vstd::string::StringSliceAdditionalSpecFns;
use crate::frame::BNetPacket;
use crate::hashing::{fnv1a, ServiceHash};
use crate::header::Header;
use crate::message::{is_well_formed, well_formed_message};
use crate::service::{
    default_accept_check, is_out_response, ClientSharedData, ProcessResult, RPCError, RPCResult,
    RouteDecision, RPCRouter, RPCService, ServiceBinder,
};
use crate::service_info::ExportedServiceID;
use crate::transport::{response_header, Request, Response};

verus! {

/// Fully qualified name of the authentication service.
pub const AUTHENTICATION_SERVICE_NAME: &'static str = "bnet.protocol.authentication.AuthenticationServer";

/// Addressable methods of the authentication service.
#[derive(Debug, Clone, Copy, PartialEq, Eq, Structural)]
pub enum Methods {
    Logon,
    ModuleNotify,
    ModuleMessage,
    SelectGameAccountDeprecated,
    GenerateSSOToken,
    SelectGameAccount,
    VerifyWebCredentials,
}

impl Methods {
    /// The id the method is addressed by.
    pub open spec fn spec_id(self) -> u32 {
        match self {
            Methods::Logon => 1,
            Methods::ModuleNotify => 2,
            Methods::ModuleMessage => 3,
            Methods::SelectGameAccountDeprecated => 4,
            Methods::GenerateSSOToken => 5,
            Methods::SelectGameAccount => 6,
            Methods::VerifyWebCredentials => 7,
        }
    }

    /// The method addressed by `id`, if any.
    pub open spec fn spec_from_id(id: u32) -> Option<Methods> {
        match id {
            1 => Some(Methods::Logon),
            2 => Some(Methods::ModuleNotify),
            3 => Some(Methods::ModuleMessage),
            4 => Some(Methods::SelectGameAccountDeprecated),
            5 => Some(Methods::GenerateSSOToken),
            6 => Some(Methods::SelectGameAccount),
            7 => Some(Methods::VerifyWebCredentials),
            _ => None,
        }
    }

    /// The id the method is addressed by.
    pub fn as_u32(self) -> (r: u32)
        ensures
            r == self.spec_id(),
    {
        match self {
            Methods::Logon => 1,
            Methods::ModuleNotify => 2,
            Methods::ModuleMessage => 3,
            Methods::SelectGameAccountDeprecated => 4,
            Methods::GenerateSSOToken => 5,
            Methods::SelectGameAccount => 6,
            Methods::VerifyWebCredentials => 7,
        }
    }

    /// The method addressed by `id`, if any.
    pub fn from_id(id: u32) -> (r: Option<Methods>)
        ensures
            r == Self::spec_from_id(id),
    {
        match id {
            1 => Some(Methods::Logon),
            2 => Some(Methods::ModuleNotify),
            3 => Some(Methods::ModuleMessage),
            4 => Some(Methods::SelectGameAccountDeprecated),
            5 => Some(Methods::GenerateSSOToken),
            6 => Some(Methods::SelectGameAccount),
            7 => Some(Methods::VerifyWebCredentials),
            _ => None,
        }
    }
}

/// Id the authentication service is bound to.
pub open spec fn authentication_service_id() -> u32 {
    ExportedServiceID::AuthenticationServer.spec_id()
}

/// How the service answers a header: the method it addresses, or the
/// error. A header with no method, or for another service, is an unknown
/// request; a method the service lacks is an invalid request for it.
pub open spec fn authentication_accept_spec(h: Header) -> Result<Methods, RPCError> {
    match h.method_id {
        None => Err(RPCError::UnknownRequest { service_name: AUTHENTICATION_SERVICE_NAME }),
        Some(k) => if h.service_id != authentication_service_id() {
            Err(RPCError::UnknownRequest { service_name: AUTHENTICATION_SERVICE_NAME })
        } else {
            match Methods::spec_from_id(k) {
                Some(method) => Ok(method),
                None => Err(RPCError::InvalidRequest { service_name: AUTHENTICATION_SERVICE_NAME, method_id: k }),
            }
        },
    }
}

/// Whether `r` is the reply to the logon request `request`: the empty
/// response when its payload is a well formed message, else a decoding
/// error.
pub open spec fn logon_reply(request: Request<BNetPacket>, r: RPCResult<ProcessResult<Response<BNetPacket>>>) -> bool {
    if well_formed_message(request.0.body@) {
        is_out_response(r, response_header(request.0.header.token, 0), Seq::empty())
    } else {
        r matches Err(RPCError::ProtoDecode)
    }
}

/// The authentication service.
#[derive(Debug)]
pub struct AuthenticationServer {}

impl ServiceBinder for AuthenticationServer {
    fn bind() -> AuthenticationServer {
        AuthenticationServer {}
    }
}

impl AuthenticationServer {
    /// Fully qualified name of the service.
    pub fn get_name() -> (r: &'static str)
        ensures
            r == AUTHENTICATION_SERVICE_NAME,
    {
        AUTHENTICATION_SERVICE_NAME
    }

    /// Id the service is bound to.
    pub fn get_id() -> (r: u32)
        ensures
            r == authentication_service_id(),
    {
        ExportedServiceID::AuthenticationServer.id()
    }

    /// Name hash of the service.
    pub fn get_hash() -> (r: ServiceHash)
        ensures
            r.0 == fnv1a(AUTHENTICATION_SERVICE_NAME.spec_bytes()),
    {
        ServiceHash::from_name(AUTHENTICATION_SERVICE_NAME)
    }

    /// The addressable methods with their names, in order of id.
    pub fn get_methods() -> (r: Vec<(Methods, &'static str)>)
        ensures
            r@.len() == 7,
            forall|i: int| 0 <= i < 7 ==> (#[trigger] r@[i]).0.spec_id() == i + 1,
    {
        let mut r: Vec<(Methods, &'static str)> = Vec::new();
        r.push((Methods::Logon, "Logon"));
        r.push((Methods::ModuleNotify, "ModuleNotify"));
        r.push((Methods::ModuleMessage, "ModuleMessage"));
        r.push((Methods::SelectGameAccountDeprecated, "SelectGameAccountDeprecated"));
        r.push((Methods::GenerateSSOToken, "GenerateSSOToken"));
        r.push((Methods::SelectGameAccount, "SelectGameAccount"));
        r.push((Methods::VerifyWebCredentials, "VerifyWebCredentials"));
        r
    }

    /// Tests whether this service accepts a request with header `header`,
    /// and which method it addresses.
    pub fn can_accept(header: &Header) -> (r: RPCResult<Methods>)
        ensures
            r == authentication_accept_spec(*header),
    {
        let methods = Self::get_methods();
        let mut ids: Vec<u32> = Vec::new();
        let mut i: usize = 0;
        while i < methods.len()
            invariant
                i <= methods@.len(),
                methods@.len() == 7,
                forall|j: int| 0 <= j < 7 ==> (#[trigger] methods@[j]).0.spec_id() == j + 1,
                ids@.len() == i,
                forall|j: int| 0 <= j < i ==> #[trigger] ids@[j] == j + 1,
            decreases methods@.len() - i,
        {
            ids.push(methods[i].0.as_u32());
            i = i + 1;
        }
        proof {
            if let Some(k) = header.method_id {
                if Methods::spec_from_id(k) is Some {
                    assert(ids@[k - 1] == k);
                }
            }
        }
        let m = default_accept_check(header, Self::get_id(), AUTHENTICATION_SERVICE_NAME, ids.as_slice())?;
        match Methods::from_id(m) {
            Some(method) => Ok(method),
            None => Err(RPCError::InvalidRequest { service_name: AUTHENTICATION_SERVICE_NAME, method_id: m }),
        }
    }

    /// Handles `request`, addressed to `method`. Logon is answered at once;
    /// the other methods have no implementation.
    pub fn handle(
        &mut self,
        method: Methods,
        shared_data: &mut ClientSharedData,
        request: Request<BNetPacket>,
    ) -> (r: RPCResult<ProcessResult<Response<BNetPacket>>>)
        ensures
            *final(shared_data) == *old(shared_data),
            method == Methods::Logon ==> logon_reply(request, r),
            method != Methods::Logon ==> r matches Err(RPCError::NotImplemented),
    {
        match method {
            Methods::Logon => match op_logon(request) {
                Ok(response) => Ok(ProcessResult::Immediate(RouteDecision::Out(response))),
                Err(e) => Err(e),
            },
            _ => Err(RPCError::NotImplemented),
        }
    }
}

/// Answers a logon request: its payload must be a well formed message; the
/// reply is the empty response.
fn op_logon(request: Request<BNetPacket>) -> (r: RPCResult<Response<BNetPacket>>)
    ensures
        well_formed_message(request.0.body@) ==> (r matches Ok(resp) && resp.0.header
            == response_header(request.0.header.token, 0) && resp.0.body@ == Seq::<u8>::empty()),
        !well_formed_message(request.0.body@) ==> r matches Err(RPCError::ProtoDecode),
{
    if !is_well_formed(request.0.body.as_slice()) {
        return Err(RPCError::ProtoDecode);
    }
    Ok(Response::empty(request))
}

impl RPCService for AuthenticationServer {
    type Method = Methods;

    fn get_hash() -> ServiceHash {
        AuthenticationServer::get_hash()
    }

    fn get_id() -> u32 {
        AuthenticationServer::get_id()
    }

    fn get_name() -> &'static str {
        AuthenticationServer::get_name()
    }

    fn get_methods() -> Vec<(Methods, &'static str)> {
        AuthenticationServer::get_methods()
    }
}

impl RPCRouter for AuthenticationServer {
    type Method = Methods;

    fn can_accept(header: &Header) -> RPCResult<Methods> {
        AuthenticationServer::can_accept(header)
    }

    fn handle(
        &mut self,
        method: Methods,
        shared_data: &mut ClientSharedData,
        request: Request<BNetPacket>,
    ) -> RPCResult<ProcessResult<Response<BNetPacket>>> {
        AuthenticationServer::handle(self, method, shared_data, request)
    }
}

} // verus!
