use std::cell::Cell;

use firestarter::authentication::{AuthenticationServer, Methods as AuthenticationMethods};
use firestarter::connection::{
    lightweight_session_connect, op_connect, validate_connect_request, ConnectionService, Methods,
};
use firestarter::frame::BNetPacket;
use firestarter::header::Header;
use firestarter::registry::{Gatherer, Registry, ServiceHandler};
use firestarter::service::{
    default_accept_check, ClientSharedData, ProcessResult, RPCError, RouteDecision, ServiceBinder,
    ServiceBinderGenerator,
};
use firestarter::service_info::{ExportedServiceID, ImportedServiceID};
use firestarter::transport::Request;

fn varint(mut v: u64) -> Vec<u8> {
    let mut out = Vec::new();
    loop {
        if v < 0x80 {
            out.push(v as u8);
            return out;
        }
        out.push((v as u8 & 0x7f) | 0x80);
        v >>= 7;
    }
}

fn delimited(key: u8, payload: &[u8]) -> Vec<u8> {
    let mut out = vec![key];
    out.extend(varint(payload.len() as u64));
    out.extend_from_slice(payload);
    out
}

fn connect_body(expected: &[u32], exposed: &[(u32, u32)]) -> Vec<u8> {
    let mut bind = Vec::new();
    let mut packed = Vec::new();
    for h in expected {
        packed.extend_from_slice(&h.to_le_bytes());
    }
    if !packed.is_empty() {
        bind.extend(delimited(0x0a, &packed));
    }
    for (hash, id) in exposed {
        let mut service = vec![0x0d];
        service.extend_from_slice(&hash.to_le_bytes());
        service.push(0x10);
        service.extend(varint(*id as u64));
        bind.extend(delimited(0x12, &service));
    }
    delimited(0x12, &bind)
}

fn connect_request(token: u32, body: Vec<u8>) -> Request<BNetPacket> {
    let header = Header {
        service_id: 0,
        method_id: Some(1),
        token,
        size: Some(body.len() as u32),
        status: None,
    };
    Request::new(BNetPacket::new(header, body))
}

fn expected_response(ids: &[u32], epoch: u32, server_time: u64) -> Vec<u8> {
    let pid = |label: u32| {
        let mut p = vec![0x08];
        p.extend(varint(label as u64));
        p.push(0x10);
        p.extend(varint(epoch as u64));
        p
    };
    let mut out = delimited(0x0a, &pid(3868510373));
    out.extend(delimited(0x12, &pid(1255760)));
    out.extend_from_slice(&[0x18, 0x00]);
    let mut packed = Vec::new();
    for id in ids {
        packed.extend(varint(*id as u64));
    }
    let bind = if ids.is_empty() { Vec::new() } else { delimited(0x0a, &packed) };
    out.extend(delimited(0x22, &bind));
    out.push(0x30);
    out.extend(varint(server_time));
    out
}

fn header(service_id: u32, method_id: Option<u32>) -> Header {
    Header { service_id, method_id, token: 1, size: Some(0), status: None }
}

#[test]
fn registration_tables() {
    assert_eq!(ExportedServiceID::from_hash(1698982289), Some(ExportedServiceID::ConnectionService));
    assert_eq!(ExportedServiceID::AuthenticationServer.id(), 3);
    assert_eq!(ExportedServiceID::ResponseService.id(), 254);
    assert_eq!(ExportedServiceID::from_hash(12345), None);
    assert_eq!(ImportedServiceID::from_hash(3213656212), Some(ImportedServiceID::ChannelSubscriber));
    assert_eq!(ImportedServiceID::ChannelSubscriber.id(), 6);
}

#[test]
fn accept_check_distinguishes_service_and_method() {
    let table = [1, 2, 3];
    assert!(matches!(
        default_accept_check(&header(5, Some(1)), 0, "x", &table),
        Err(RPCError::UnknownRequest { service_name: "x" })
    ));
    assert!(matches!(
        default_accept_check(&header(0, None), 0, "x", &table),
        Err(RPCError::UnknownRequest { service_name: "x" })
    ));
    assert!(matches!(
        default_accept_check(&header(0, Some(99)), 0, "x", &table),
        Err(RPCError::InvalidRequest { service_name: "x", method_id: 99 })
    ));
    assert!(matches!(default_accept_check(&header(0, Some(3)), 0, "x", &table), Ok(3)));
}

#[test]
fn connection_service_accepts_its_methods() {
    assert!(matches!(ConnectionService::can_accept(&header(0, Some(1))), Ok(Methods::Connect)));
    assert!(matches!(ConnectionService::can_accept(&header(0, Some(7))), Ok(Methods::RequestDisconnect)));
    assert!(matches!(
        ConnectionService::can_accept(&header(0, Some(8))),
        Err(RPCError::InvalidRequest { method_id: 8, .. })
    ));
    assert!(matches!(
        ConnectionService::can_accept(&header(3, Some(1))),
        Err(RPCError::UnknownRequest { .. })
    ));
    assert_eq!(ConnectionService::get_hash().as_uint(), 1698982289);
    assert_eq!(ConnectionService::get_id(), 0);
    assert_eq!(Methods::from_id(3), Some(Methods::Echo));
    assert_eq!(Methods::KeepAlive.as_u32(), 5);
}

#[test]
fn authentication_service_accepts_its_methods() {
    assert!(matches!(
        AuthenticationServer::can_accept(&header(3, Some(1))),
        Ok(AuthenticationMethods::Logon)
    ));
    assert!(matches!(
        AuthenticationServer::can_accept(&header(0, Some(1))),
        Err(RPCError::UnknownRequest { .. })
    ));
    assert_eq!(AuthenticationServer::get_hash().as_uint(), 233634817);
    assert_eq!(AuthenticationServer::get_name(), "bnet.protocol.authentication.AuthenticationServer");
}

#[test]
fn connect_resolves_bindings() {
    let body = connect_body(&[1698982289, 233634817, 12345], &[(1423956503, 1), (3213656212, 6)]);
    let resp = op_connect(connect_request(77, body), 1, 2).unwrap();
    let expected = expected_response(&[0, 3, 0], 1, 2);
    assert_eq!(resp.0.body, expected);
    assert_eq!(
        resp.0.header,
        Header {
            service_id: 254,
            method_id: Some(0),
            token: 77,
            size: Some(expected.len() as u32),
            status: None,
        }
    );
}

#[test]
fn connect_with_no_expected_services() {
    let body = connect_body(&[], &[]);
    let resp = op_connect(connect_request(1, body), 0, 0).unwrap();
    assert_eq!(resp.0.body, expected_response(&[], 0, 0));
}

#[test]
fn connect_rejects_a_wrong_import_id() {
    let body = connect_body(&[], &[(1423956503, 2)]);
    assert!(matches!(
        op_connect(connect_request(1, body), 0, 0),
        Err(RPCError::InvalidRequest { method_id: 1, .. })
    ));
    let body = connect_body(&[], &[(99, 1)]);
    assert!(op_connect(connect_request(1, body), 0, 0).is_err());
}

#[test]
fn connect_requires_a_bind_request() {
    assert!(matches!(
        op_connect(connect_request(1, vec![]), 0, 0),
        Err(RPCError::InvalidRequest { method_id: 1, .. })
    ));
    assert!(matches!(op_connect(connect_request(1, vec![0x12, 0x05]), 0, 0), Err(RPCError::ProtoDecode)));
}

#[test]
fn validation_reports_the_connect_method() {
    let mut request = connect_request(1, vec![]);
    request.0.header.method_id = Some(2);
    assert!(matches!(
        validate_connect_request(&request),
        Err(RPCError::InvalidRequest { method_id: 1, .. })
    ));
    request.0.header.method_id = None;
    assert!(matches!(validate_connect_request(&request), Err(RPCError::UnknownRequest { .. })));
    request.0.header.method_id = Some(2);
    assert!(matches!(
        lightweight_session_connect(request, 0, 0),
        Err(RPCError::InvalidRequest { method_id: 1, .. })
    ));
}

#[test]
fn authentication_refuses_an_unknown_method() {
    assert!(matches!(
        AuthenticationServer::can_accept(&header(3, Some(99))),
        Err(RPCError::InvalidRequest { method_id: 99, .. })
    ));
    assert!(matches!(
        AuthenticationServer::can_accept(&header(3, None)),
        Err(RPCError::UnknownRequest { .. })
    ));
    assert_eq!(AuthenticationServer::get_methods().len(), 7);
    assert_eq!(ConnectionService::get_methods()[0].1, "Connect");
}

#[test]
fn session_connect_checks_the_method() {
    let body = connect_body(&[], &[]);
    let mut request = connect_request(1, body.clone());
    request.0.header.method_id = Some(2);
    assert!(validate_connect_request(&request).is_err());
    assert!(lightweight_session_connect(request, 0, 0).is_err());
    let request = connect_request(1, body);
    assert!(validate_connect_request(&request).is_ok());
    assert!(lightweight_session_connect(request, 0, 0).is_ok());
}

#[test]
fn registry_routes_to_the_first_accepting_service() {
    let mut registry = <Registry as ServiceBinderGenerator>::default();
    let mut shared = ClientSharedData::stub();
    let body = connect_body(&[233634817], &[]);
    match registry.route_packet(&mut shared, connect_request(5, body)) {
        Ok(ProcessResult::Immediate(RouteDecision::Out(resp))) => {
            assert_eq!(resp.0.header.token, 5);
            assert_eq!(resp.0.header.service_id, 254);
        },
        _ => panic!("expected a response"),
    }
    let logon = Request::new(BNetPacket::new(header(3, Some(1)), vec![0x08, 0x01]));
    match registry.route_packet(&mut shared, logon) {
        Ok(ProcessResult::Immediate(RouteDecision::Out(resp))) => assert!(resp.0.body.is_empty()),
        _ => panic!("expected the empty response"),
    }
    let bad_logon = Request::new(BNetPacket::new(header(3, Some(1)), vec![0x08]));
    assert!(matches!(registry.route_packet(&mut shared, bad_logon), Err(RPCError::ProtoDecode)));
    let echo = Request::new(BNetPacket::new(header(0, Some(3)), vec![]));
    assert!(matches!(registry.route_packet(&mut shared, echo), Err(RPCError::NotImplemented)));
    let nowhere = Request::new(BNetPacket::new(header(42, Some(1)), vec![]));
    assert!(matches!(registry.route_packet(&mut shared, nowhere), Err(RPCError::NoRoute)));
}

#[test]
fn empty_registry_has_no_route() {
    let mut registry = Registry::new(Vec::new());
    let mut shared = ClientSharedData::stub();
    let r = registry.route_packet(&mut shared, connect_request(1, vec![]));
    assert!(matches!(r, Err(RPCError::NoRoute)));
}

#[test]
fn frunk_gather() {
    let counter = Cell::new(0u32);

    let example = Registry::new(vec![
        ServiceHandler::Connection(ConnectionService::bind()),
        ServiceHandler::Authentication(AuthenticationServer::bind()),
        ServiceHandler::Connection(ConnectionService::bind()),
    ]);
    let mut collector = vec![None; 3];

    example.gather(&mut collector, move |_service| {
        let value = counter.get();
        counter.set(value + 1);
        value
    });

    assert_eq!(collector, [Some(2), Some(1), Some(0)]);
}
