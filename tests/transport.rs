use firestarter::frame::BNetPacket;
use firestarter::header::Header;
use firestarter::transport::{Request, Response, RouteToken};

fn header(service_id: u32, method_id: Option<u32>, token: u32) -> Header {
    Header { service_id, method_id, token, size: Some(0), status: None }
}

#[test]
fn response_service_classifies_as_response() {
    let p = BNetPacket::new(header(254, Some(0), 3), vec![]);
    assert!(p.try_as_response().is_ok());
    let p = BNetPacket::new(header(254, None, 3), vec![]);
    assert!(p.try_as_request().is_err());
}

#[test]
fn other_frames_classify_as_requests() {
    let p = BNetPacket::new(header(254, Some(1), 3), vec![]);
    let r = p.try_as_request().unwrap();
    assert_eq!(r.0.header.method_id, Some(1));
    let p = BNetPacket::new(header(0, Some(0), 3), vec![]);
    let back = p.try_as_response().unwrap_err();
    assert_eq!(back.header.service_id, 0);
}

#[test]
fn built_response_carries_token_and_size() {
    let req = Request::new(BNetPacket::new(header(0, Some(1), 42), vec![1, 2]));
    let resp = Response::from_request(req, vec![7, 7, 7]);
    assert_eq!(
        resp.0.header,
        Header { service_id: 254, method_id: Some(0), token: 42, size: Some(3), status: None }
    );
    assert_eq!(resp.0.body, vec![7, 7, 7]);
    assert!(resp.unwrap().try_as_response().is_ok());
}

#[test]
fn empty_response_has_no_body() {
    let req = Request::new(BNetPacket::new(header(3, Some(1), 9), vec![1]));
    let resp = Response::empty(req);
    assert_eq!(resp.0.header.size, Some(0));
    assert_eq!(resp.0.header.token, 9);
    assert!(resp.0.body.is_empty());
}

#[test]
fn wrappers_give_their_packet_back() {
    let req = Request::new(5u8);
    assert_eq!(*req.as_ref().0, 5);
    assert_eq!(req.unwrap(), 5);
    let resp = Response::new(6u8);
    assert_eq!(*resp.as_ref().0, 6);
    assert_eq!(resp.unwrap(), 6);
    assert_eq!(RouteToken::new(11).id, 11);
}
