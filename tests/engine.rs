use firestarter::frame::{BNetCodec, BNetPacket};
use firestarter::header::Header;
use firestarter::router::{internal_to_request, RoutingLogistic, PENDING_SLOTS};
use firestarter::service::{ClientSharedData, PendingOperation, RPCError, RouteDecision};
use firestarter::hashing::ServiceHash;
use firestarter::session::SessionError;
use firestarter::transport::{InternalPacket, Response, RouteHeader, RouteToken};

fn engine() -> RoutingLogistic {
    RoutingLogistic::default_handlers(ClientSharedData::stub(), BNetCodec::new())
}

fn response(token: u32) -> Response<BNetPacket> {
    let h = Header { service_id: 254, method_id: Some(0), token, size: Some(0), status: None };
    Response::new(BNetPacket::new(h, vec![]))
}

fn frame(h: Header, body: Vec<u8>) -> Vec<u8> {
    let mut out = Vec::new();
    let mut codec = BNetCodec::new();
    codec.encode(BNetPacket::new(h, body), &mut out).unwrap();
    out
}

#[test]
fn slots_bound_outstanding_operations() {
    let mut e = engine();
    assert_eq!(PENDING_SLOTS, 2);
    assert!(e.queue_room_available());
    assert!(matches!(e.push_to_queue(PendingOperation { ticket: 1 }), Ok(0)));
    assert!(matches!(e.push_to_queue(PendingOperation { ticket: 2 }), Ok(1)));
    assert!(!e.queue_room_available());
    match e.push_to_queue(PendingOperation { ticket: 3 }) {
        Err(op) => assert_eq!(op.ticket, 3),
        Ok(_) => panic!("a third operation was admitted"),
    }
    assert_eq!(e.bnet_blocking_ops_queue[0], Some(PendingOperation { ticket: 1 }));
    assert_eq!(e.bnet_blocking_ops_queue[1], Some(PendingOperation { ticket: 2 }));
}

#[test]
fn full_slots_stop_admission_until_one_frees() {
    let mut e = engine();
    e.push_to_queue(PendingOperation { ticket: 1 }).unwrap();
    e.push_to_queue(PendingOperation { ticket: 2 }).unwrap();
    let h = Header { service_id: 3, method_id: Some(1), token: 4, size: Some(0), status: None };
    let bytes = frame(h, vec![]);
    e.receive(&bytes);
    assert!(matches!(e.admit_next(), Ok(false)));
    assert_eq!(e.inbound, bytes);
    assert!(!e.has_outbound());

    e.complete_operation(0, RouteDecision::Out(response(9))).unwrap();
    assert!(e.bnet_blocking_ops_queue[0].is_none());
    assert!(e.queue_room_available());
    assert!(matches!(e.admit_next(), Ok(true)));
    assert!(e.inbound.is_empty());
    assert_eq!(e.pop_outbound().unwrap().header.token, 9);
    assert_eq!(e.pop_outbound().unwrap().header.token, 4);
    assert!(e.pop_outbound().is_none());
}

#[test]
fn completed_operation_with_stop_sends_nothing() {
    let mut e = engine();
    e.push_to_queue(PendingOperation { ticket: 1 }).unwrap();
    e.complete_operation(0, RouteDecision::Stop).unwrap();
    assert!(!e.has_outbound());
    assert!(e.bnet_blocking_ops_queue.iter().all(|s| s.is_none()));
}

#[test]
fn rejected_frame_is_retried_first() {
    let mut e = engine();
    e.complete_operation(0, RouteDecision::Stop).unwrap_or(());
    e.dispatch(Ok(firestarter::service::ProcessResult::Immediate(RouteDecision::Out(response(1)))), 0)
        .unwrap();
    e.dispatch(Ok(firestarter::service::ProcessResult::Immediate(RouteDecision::Out(response(2)))), 0)
        .unwrap();
    let first = e.pop_outbound().unwrap();
    assert_eq!(first.header.token, 1);
    e.requeue_rejected(first);
    e.dispatch(Ok(firestarter::service::ProcessResult::Immediate(RouteDecision::Out(response(3)))), 0)
        .unwrap();
    let order: Vec<u32> = std::iter::from_fn(|| e.pop_outbound()).map(|p| p.header.token).collect();
    assert_eq!(order, vec![1, 2, 3]);
}

#[test]
fn response_frames_have_no_route() {
    let mut e = engine();
    let r = e.process_external_bnet(response(1).unwrap());
    assert!(matches!(r, Err(SessionError::RPC(RPCError::NoRoute))));
}

#[test]
fn malformed_stream_is_fatal() {
    let mut e = engine();
    e.receive(&[0x16, 0x01]);
    assert!(matches!(e.admit_next(), Err(SessionError::Codec(_))));
}

#[test]
fn unrouted_request_is_fatal() {
    let mut e = engine();
    let h = Header { service_id: 77, method_id: Some(1), token: 4, size: Some(0), status: None };
    e.receive(&frame(h, vec![]));
    assert!(matches!(e.admit_next(), Err(SessionError::RPC(RPCError::NoRoute))));
}

#[test]
fn deferred_operation_takes_a_slot() {
    let mut e = engine();
    let r = e.dispatch(Ok(firestarter::service::ProcessResult::NotReady(PendingOperation { ticket: 8 })), 0);
    assert!(r.is_ok());
    assert_eq!(e.bnet_blocking_ops_queue[0], Some(PendingOperation { ticket: 8 }));
    e.push_to_queue(PendingOperation { ticket: 9 }).unwrap();
    let r = e.dispatch(Ok(firestarter::service::ProcessResult::NotReady(PendingOperation { ticket: 10 })), 0);
    assert!(matches!(r, Err(SessionError::PendingLimit)));
}

#[test]
fn forwarded_packet_is_routed_again() {
    let packet = InternalPacket {
        header: RouteHeader {
            service_hash: ServiceHash(233634817),
            method_id: 1,
            token: Some(RouteToken::new(12)),
        },
        payload: vec![],
    };
    let req = internal_to_request(packet).unwrap();
    assert_eq!(req.0.header.service_id, 3);
    assert_eq!(req.0.header.token, 12);

    let mut e = engine();
    let forward = InternalPacket {
        header: RouteHeader { service_hash: ServiceHash(233634817), method_id: 1, token: None },
        payload: vec![],
    };
    e.dispatch(Ok(firestarter::service::ProcessResult::Immediate(RouteDecision::Forward(forward))), 1)
        .unwrap();
    assert_eq!(e.pop_outbound().unwrap().header.token, 0);

    let mut e = engine();
    let nowhere = InternalPacket {
        header: RouteHeader { service_hash: ServiceHash(5), method_id: 1, token: None },
        payload: vec![],
    };
    let r = e.dispatch(Ok(firestarter::service::ProcessResult::Immediate(RouteDecision::Forward(nowhere))), 1);
    assert!(matches!(r, Err(SessionError::RPC(RPCError::NoRoute))));
}

#[test]
fn refused_write_goes_back_to_the_head() {
    let mut e = engine();
    e.dispatch(Ok(firestarter::service::ProcessResult::Immediate(RouteDecision::Out(response(1)))), 0)
        .unwrap();
    e.dispatch(Ok(firestarter::service::ProcessResult::Immediate(RouteDecision::Out(response(2)))), 0)
        .unwrap();
    let first = e.pop_outbound().unwrap();
    assert!(!e.flush_result(Some(first)));
    assert_eq!(e.pop_outbound().unwrap().header.token, 1);
    assert!(e.flush_result(None));
    assert_eq!(e.pop_outbound().unwrap().header.token, 2);
}

#[test]
fn admitted_frame_keeps_occupied_slots_and_queue_order() {
    let mut e = engine();
    e.push_to_queue(PendingOperation { ticket: 1 }).unwrap();
    e.dispatch(Ok(firestarter::service::ProcessResult::Immediate(RouteDecision::Out(response(5)))), 0)
        .unwrap();
    let h = Header { service_id: 3, method_id: Some(1), token: 6, size: Some(0), status: None };
    e.receive(&frame(h, vec![]));
    assert!(matches!(e.admit_next(), Ok(true)));
    assert_eq!(e.bnet_blocking_ops_queue[0], Some(PendingOperation { ticket: 1 }));
    assert_eq!(e.pop_outbound().unwrap().header.token, 5);
    assert_eq!(e.pop_outbound().unwrap().header.token, 6);
}
