use firestarter::hashing::{fnv_hash_bytes, hash_item, ClientHash, PeerAddress, ServiceHash};

#[test]
fn hash_verification() {
    let test_one = "bnet.protocol.authentication.AuthenticationServer";
    let hash_one = fnv_hash_bytes(test_one.as_bytes());
    assert_eq!(233634817, hash_one);

    let test_two = "bnet.protocol.channel.ChannelSubscriber";
    let hash_two = fnv_hash_bytes(test_two.as_bytes());
    assert_eq!(3213656212, hash_two);

    let response_test = "bnet.protocol.ResponseService";
    let hash_response = fnv_hash_bytes(response_test.as_bytes());
    println!("{:} - {:}", hash_response, response_test);
}

#[test]
fn fnv_of_empty_input_is_the_offset_basis() {
    assert_eq!(fnv_hash_bytes(&[]), 0x811c9dc5);
}

#[test]
fn fnv_of_one_byte() {
    // (0x811c9dc5 ^ 0x61) * 0x01000193 mod 2^32
    assert_eq!(fnv_hash_bytes(b"a"), 0xe40c292c);
}

#[test]
fn service_hash_from_name_matches_tables() {
    assert_eq!(
        ServiceHash::from_name("bnet.protocol.connection.ConnectionService").as_uint(),
        1698982289
    );
    assert_eq!(ServiceHash::from_name("bnet.protocol.ResponseService").as_uint(), 3625566374);
}

#[test]
fn client_hash_is_stable_within_a_process() {
    let a = PeerAddress { octets: vec![127, 0, 0, 1], port: 1119 };
    let b = PeerAddress { octets: vec![127, 0, 0, 1], port: 1120 };
    assert_eq!(ClientHash::from_socket_address(&a), ClientHash::from_socket_address(&a));
    assert_ne!(ClientHash::from_socket_address(&a), ClientHash::from_socket_address(&b));
    assert_eq!(a.to_bytes(), vec![127, 0, 0, 1, 4, 95]);
    assert_eq!(hash_item(&[1, 2, 3]), hash_item(&[1, 2, 3]));
    assert_eq!(ClientHash::from_socket_address(&a).as_uint(), hash_item(&a.to_bytes()));
}
