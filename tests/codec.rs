use firestarter::frame::{BNetCodec, BNetPacket, CodecError};
use firestarter::header::{decode_header, encode_header, Header};

fn sample_header(size: u32) -> Header {
    Header { service_id: 1, method_id: Some(2), token: 7, size: Some(size), status: None }
}

fn encoded(header: Header, body: Vec<u8>) -> Vec<u8> {
    let mut codec = BNetCodec::new();
    let mut out = Vec::new();
    assert!(codec.encode(BNetPacket::new(header, body), &mut out).is_ok());
    out
}

#[test]
fn header_encoding_is_exact() {
    let mut buf = Vec::new();
    encode_header(&sample_header(3), &mut buf);
    assert_eq!(buf, vec![0x08, 0x01, 0x10, 0x02, 0x18, 0x07, 0x28, 0x03]);
    assert_eq!(decode_header(&buf), Some(sample_header(3)));
}

#[test]
fn header_with_large_values_round_trips() {
    let h = Header {
        service_id: u32::MAX,
        method_id: None,
        token: 300,
        size: Some(0),
        status: Some(5),
    };
    let mut buf = Vec::new();
    encode_header(&h, &mut buf);
    assert_eq!(&buf[0..6], &[0x08, 0xff, 0xff, 0xff, 0xff, 0x0f]);
    assert_eq!(&buf[6..9], &[0x18, 0xac, 0x02]);
    assert_eq!(decode_header(&buf), Some(h));
}

#[test]
fn header_decoding_skips_unknown_fields() {
    // object id (field 4, varint), then a length-delimited field 7, then
    // the known fields.
    let bytes = vec![0x20, 0x05, 0x3a, 0x02, 0xaa, 0xbb, 0x08, 0x09, 0x18, 0x01, 0x28, 0x00];
    let h = decode_header(&bytes).unwrap();
    assert_eq!(h.service_id, 9);
    assert_eq!(h.token, 1);
    assert_eq!(h.size, Some(0));
    assert_eq!(h.method_id, None);
}

#[test]
fn header_decoding_rejects_malformed_input() {
    assert_eq!(decode_header(&[0x08]), None);
    assert_eq!(decode_header(&[0x0f, 0x01]), None);
    assert_eq!(decode_header(&[0x0d, 0x01, 0x02, 0x03, 0x04]), None);
    assert_eq!(decode_header(&[0x00, 0x01]), None);
}

#[test]
fn frame_encoding_is_exact() {
    let out = encoded(sample_header(3), vec![9, 8, 7]);
    assert_eq!(out, vec![0, 8, 0x08, 0x01, 0x10, 0x02, 0x18, 0x07, 0x28, 0x03, 9, 8, 7]);
}

#[test]
fn frame_round_trip() {
    let mut bytes = encoded(sample_header(3), vec![9, 8, 7]);
    bytes.extend_from_slice(&[1, 2]);
    let mut codec = BNetCodec::new();
    let packet = codec.decode(&mut bytes).unwrap().unwrap();
    assert_eq!(packet.header, sample_header(3));
    assert_eq!(packet.body, vec![9, 8, 7]);
    assert_eq!(bytes, vec![1, 2]);
    assert_eq!(codec, BNetCodec::new());
}

#[test]
fn frame_split_at_every_boundary_decodes_the_same() {
    let whole = encoded(sample_header(4), vec![1, 2, 3, 4]);
    for k in 0..whole.len() {
        let mut codec = BNetCodec::new();
        let mut buffer = whole[..k].to_vec();
        assert!(codec.decode(&mut buffer).unwrap().is_none(), "split at {}", k);
        buffer.extend_from_slice(&whole[k..]);
        let packet = codec.decode(&mut buffer).unwrap().unwrap();
        assert_eq!(packet.header, sample_header(4));
        assert_eq!(packet.body, vec![1, 2, 3, 4]);
        assert!(buffer.is_empty());
    }
}

#[test]
fn frame_fed_one_byte_at_a_time() {
    let whole = encoded(sample_header(2), vec![5, 6]);
    let mut codec = BNetCodec::new();
    let mut buffer = Vec::new();
    let mut found = None;
    for b in whole.iter() {
        buffer.push(*b);
        if let Some(p) = codec.decode(&mut buffer).unwrap() {
            found = Some(p);
        }
    }
    let p = found.unwrap();
    assert_eq!(p.body, vec![5, 6]);
}

#[test]
fn two_frames_back_to_back() {
    let mut bytes = encoded(sample_header(1), vec![1]);
    bytes.extend(encoded(sample_header(0), vec![]));
    let mut codec = BNetCodec::new();
    assert_eq!(codec.decode(&mut bytes).unwrap().unwrap().body, vec![1]);
    let second = codec.decode(&mut bytes).unwrap().unwrap();
    assert_eq!(second.header, sample_header(0));
    assert!(second.body.is_empty());
    assert!(codec.decode(&mut bytes).unwrap().is_none());
}

#[test]
fn short_preamble_needs_more_bytes() {
    let mut codec = BNetCodec::new();
    let mut bytes = vec![0x00];
    assert!(codec.decode(&mut bytes).unwrap().is_none());
    assert_eq!(bytes, vec![0x00]);
    assert_eq!(codec, BNetCodec::new());
}

#[test]
fn tls_handshake_is_detected() {
    for version in 0u8..=3 {
        let mut codec = BNetCodec::new();
        let mut bytes = vec![0x16, version, 0xff, 0xff, 0x01];
        assert!(matches!(codec.decode(&mut bytes), Err(CodecError::TLSEnabled)));
    }
    let mut codec = BNetCodec::new();
    let mut bytes = vec![0x16, 0x03];
    assert!(matches!(codec.decode(&mut bytes), Err(CodecError::TLSEnabled)));
}

#[test]
fn tls_lookalike_with_higher_version_is_a_length() {
    let mut codec = BNetCodec::new();
    let mut bytes = vec![0x16, 0x04];
    assert!(codec.decode(&mut bytes).unwrap().is_none());
    assert_eq!(codec.header_length, Some(0x1604));
}

#[test]
fn missing_size_is_reported() {
    let mut codec = BNetCodec::new();
    let mut bytes = vec![0, 4, 0x08, 0x01, 0x18, 0x02];
    match codec.decode(&mut bytes) {
        Err(CodecError::MissingData { field_name }) => assert_eq!(field_name, "Size"),
        _ => panic!("expected missing data"),
    }
}

#[test]
fn malformed_header_is_reported() {
    let mut codec = BNetCodec::new();
    let mut bytes = vec![0, 1, 0x0f];
    assert!(matches!(codec.decode(&mut bytes), Err(CodecError::ProtoDecode)));
}

#[test]
fn packet_accessors() {
    let p = BNetPacket::new(sample_header(1), vec![4]);
    assert_eq!(*p.header(), sample_header(1));
    assert_eq!(*p.body(), vec![4]);
    let (h, b) = p.split();
    assert_eq!(h, sample_header(1));
    assert_eq!(b, vec![4]);
}
