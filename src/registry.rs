//! The registry: a fixed, ordered chain of bound services. A request goes
//! to the first service, in registration order, that accepts it.

use vstd::prelude::*;
use crate::authentication::{
    authentication_accept_spec, logon_reply, AuthenticationServer, Methods as AuthenticationMethods,
};
use crate::connection::{
    connect_reply, connection_accept_spec, ConnectionService, Methods as ConnectionMethods,
};
use crate::frame::BNetPacket;
use crate::header::Header;
use crate::service::{
    ClientSharedData, ProcessResult, RPCError, RPCResult, ServiceBinder, ServiceBinderGenerator,
};
use crate::transport::{Request, Response};

verus! {

/// A service bound into the registry.
#[derive(Debug)]
pub enum ServiceHandler {
    /// The connection service.
    Connection(ConnectionService),
    /// The authentication service.
    Authentication(AuthenticationServer),
}

/// Whether the service `s` accepts a request with header `h`.
pub open spec fn handler_accepts(s: ServiceHandler, h: Header) -> bool {
    match s {
        ServiceHandler::Connection(_) => connection_accept_spec(h) is Ok,
        ServiceHandler::Authentication(_) => authentication_accept_spec(h) is Ok,
    }
}

/// Whether `r` is what the service `s` replies to `request`, which it
/// accepts.
pub open spec fn handled_by(
    s: ServiceHandler,
    request: Request<BNetPacket>,
    r: RPCResult<ProcessResult<Response<BNetPacket>>>,
) -> bool {
    match s {
        ServiceHandler::Connection(_) => match connection_accept_spec(request.0.header) {
            Ok(m) => if m == ConnectionMethods::Connect {
                exists|epoch: u32, server_time: u64| connect_reply(request, epoch, server_time, r)
            } else {
                r matches Err(RPCError::NotImplemented)
            },
            Err(_) => false,
        },
        ServiceHandler::Authentication(_) => match authentication_accept_spec(request.0.header) {
            Ok(m) => if m == AuthenticationMethods::Logon {
                logon_reply(request, r)
            } else {
                r matches Err(RPCError::NotImplemented)
            },
            Err(_) => false,
        },
    }
}

/// Whether the service at `i` is the first of `services` that accepts
/// header `h`.
pub open spec fn first_acceptor(services: Seq<ServiceHandler>, h: Header, i: int) -> bool {
    &&& 0 <= i < services.len()
    &&& handler_accepts(services[i], h)
    &&& forall|j: int| 0 <= j < i ==> !handler_accepts(#[trigger] services[j], h)
}

/// Whether no service of `services` accepts header `h`.
pub open spec fn none_accepts(services: Seq<ServiceHandler>, h: Header) -> bool {
    forall|j: int| 0 <= j < services.len() ==> !handler_accepts(#[trigger] services[j], h)
}

/// Whether `reply` is what routing `request` through `services` gives: no
/// route when no service accepts it, otherwise the reply of the first
/// service that does.
pub open spec fn routed(
    services: Seq<ServiceHandler>,
    request: Request<BNetPacket>,
    reply: RPCResult<ProcessResult<Response<BNetPacket>>>,
) -> bool {
    &&& none_accepts(services, request.0.header) ==> (reply matches Err(RPCError::NoRoute))
    &&& forall|i: int|
        first_acceptor(services, request.0.header, i) ==> #[trigger] handled_by(
            services[i],
            request,
            reply,
        )
}

/// An ordered chain of bound services.
#[derive(Debug)]
pub struct Registry {
    /// The services, in registration order.
    pub services: Vec<ServiceHandler>,
}

impl ServiceBinderGenerator for Registry {
    /// The services this process binds by default: the connection service,
    /// then the authentication service.
    fn default() -> (r: Registry)
        ensures
            r.services@.len() == 2,
            r.services@[0] is Connection,
            r.services@[1] is Authentication,
    {
        let mut services: Vec<ServiceHandler> = Vec::new();
        services.push(ServiceHandler::Connection(ConnectionService::bind()));
        services.push(ServiceHandler::Authentication(AuthenticationServer::bind()));
        Registry { services }
    }
}

impl Registry {
    /// A registry of `services`, tried in the order given.
    pub fn new(services: Vec<ServiceHandler>) -> (r: Registry)
        ensures
            r.services@ == services@,
    {
        Registry { services }
    }

    /// Routes `request` to the first service that accepts it and returns
    /// that service's reply; with no such service, `NoRoute`.
    pub fn route_packet(
        &mut self,
        shared_data: &mut ClientSharedData,
        request: Request<BNetPacket>,
    ) -> (r: RPCResult<ProcessResult<Response<BNetPacket>>>)
        ensures
            *final(shared_data) == *old(shared_data),
            final(self).services@ == old(self).services@,
            routed(old(self).services@, request, r),
    {
        let header = request.0.header;
        let mut i: usize = 0;
        while i < self.services.len()
            invariant
                header == request.0.header,
                self.services@ == old(self).services@,
                *shared_data == *old(shared_data),
                i <= self.services@.len(),
                forall|j: int| 0 <= j < i ==> !handler_accepts(#[trigger] self.services@[j], header),
            decreases self.services@.len() - i,
        {
            match &mut self.services[i] {
                ServiceHandler::Connection(service) => {
                    if let Ok(method) = ConnectionService::can_accept(&header) {
                        return service.handle(method, shared_data, request);
                    }
                },
                ServiceHandler::Authentication(service) => {
                    if let Ok(method) = AuthenticationServer::can_accept(&header) {
                        return service.handle(method, shared_data, request);
                    }
                },
            }
            i = i + 1;
        }
        Err(RPCError::NoRoute)
    }
}

/// Visits each item of a container, in the container's order.
pub trait Visitor {
    /// The items visited.
    type Item;

    /// The items, in visiting order.
    spec fn items(&self) -> Seq<Self::Item>;

    /// Calls `closure` on each item, in order.
    fn visit<F: Fn(&Self::Item)>(&self, closure: F)
        requires
            forall|s: &Self::Item| #[trigger] closure.requires((s,)),
    ;
}

/// Visits each item of a container and stores what a closure computes of
/// it in a collector, from the back to the front: the first item's result
/// goes to the last position of the visited range.
pub trait Gatherer {
    /// The items visited.
    type Item;

    /// The items, in visiting order.
    spec fn items(&self) -> Seq<Self::Item>;

    /// Calls `closure` on each item, in order, and stores the result for
    /// the item at position `i` of `n` at position `n - 1 - i` of
    /// `collector`; the positions from `n` on keep their values.
    fn gather<R, F: Fn(&Self::Item) -> R>(&self, collector: &mut Vec<Option<R>>, closure: F)
        requires
            old(collector)@.len() >= self.items().len(),
            forall|s: &Self::Item| #[trigger] closure.requires((s,)),
        ensures
            final(collector)@.len() == old(collector)@.len(),
            forall|i: int|
                0 <= i < self.items().len() ==> (#[trigger] final(collector)@[self.items().len() - 1
                    - i] matches Some(x) && closure.ensures((&self.items()[i],), x)),
            forall|k: int|
                self.items().len() <= k < old(collector)@.len() ==> #[trigger] final(collector)@[k]
                    == old(collector)@[k],
    ;
}

impl Visitor for Registry {
    type Item = ServiceHandler;

    open spec fn items(&self) -> Seq<ServiceHandler> {
        self.services@
    }

    fn visit<F: Fn(&ServiceHandler)>(&self, closure: F) {
        let mut i: usize = 0;
        while i < self.services.len()
            invariant
                i <= self.services@.len(),
                forall|s: &ServiceHandler| #[trigger] closure.requires((s,)),
            decreases self.services@.len() - i,
        {
            closure(&self.services[i]);
            i = i + 1;
        }
    }
}

impl Gatherer for Registry {
    type Item = ServiceHandler;

    open spec fn items(&self) -> Seq<ServiceHandler> {
        self.services@
    }

    fn gather<R, F: Fn(&ServiceHandler) -> R>(&self, collector: &mut Vec<Option<R>>, closure: F) {
        let n = self.services.len();
        let ghost start = collector@;
        let mut i: usize = 0;
        while i < n
            invariant
                n == self.services@.len(),
                i <= n,
                collector@.len() == start.len(),
                start.len() >= n,
                forall|s: &ServiceHandler| #[trigger] closure.requires((s,)),
                forall|j: int|
                    0 <= j < i ==> (#[trigger] collector@[n - 1 - j] matches Some(x) && closure.ensures(
                        (&self.services@[j],),
                        x,
                    )),
                forall|k: int| n <= k < start.len() ==> #[trigger] collector@[k] == start[k],
            decreases n - i,
        {
            let value = closure(&self.services[i]);
            collector.set(n - 1 - i, Some(value));
            i = i + 1;
        }
    }
}

} // verus!
