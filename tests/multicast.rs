use idgener::address::{Address, IpAddress};
use idgener::multicast::{
    bind_address, decode_reply, discovered, encode_reply, is_multicast, is_search_request,
    reply_for, search_request,
};
use idgener::nodes::{Node, Nodes};

#[test]
fn search_request_bytes() {
    assert_eq!(vec![0xAA, 0xBB, 0x01, 0x02], search_request());
    assert!(is_search_request(&[0xAA, 0xBB, 0x01, 0x02]));
    assert!(!is_search_request(&[0xAA, 0xBB, 0x01]));
    assert!(!is_search_request(&[0xAA, 0xBB, 0x01, 0x03]));
}

#[test]
fn reply_is_big_endian_port_then_id() {
    assert_eq!(vec![0x1D, 0xE8, 0x01, 0x2C], encode_reply(7656, 300));
    assert_eq!(Some((7656, 300)), decode_reply(&encode_reply(7656, 300)));
    assert_eq!(None, decode_reply(&[1, 2, 3]));
}

#[test]
fn discovered_uses_responder_host_and_announced_port() {
    let responder = Address::new(IpAddress::V4(0x0A00_0005), 40000);
    let (at, id) = discovered(&responder, &encode_reply(4567, 0)).unwrap();
    assert_eq!(Address::new(IpAddress::V4(0x0A00_0005), 4567), at);
    assert_eq!(0, id);
    assert!(discovered(&responder, &[0, 1]).is_none());
}

#[test]
fn listener_answers_only_as_leader() {
    let mut nodes = Nodes::default();
    nodes
        .join(Node::new(0, Address::new(IpAddress::V4(0), 4567)))
        .set_current(0)
        .set_leader(Some(0));
    let request = search_request();
    assert_eq!(Some(encode_reply(4567, 0)), reply_for(&nodes, &request));
    assert_eq!(None, reply_for(&nodes, &[1, 2, 3, 4]));
    nodes.set_leader(Some(1));
    assert_eq!(None, reply_for(&nodes, &request));
}

#[test]
fn multicast_ranges() {
    assert!(is_multicast(&IpAddress::V4(0xEA04_0A18)));
    assert!(!is_multicast(&IpAddress::V4(0x7F00_0001)));
    assert!(is_multicast(&IpAddress::V6(0xFF02u128 << 112 | 1)));
    assert!(!is_multicast(&IpAddress::V6(1)));
}

#[test]
fn bind_address_is_unspecified_at_offset_port() {
    let group = Address::new(IpAddress::V4(0xEA04_0A18), 7657);
    assert_eq!(Address::new(IpAddress::V4(0), 7658), bind_address(&group, 1));
    let group6 = Address::new(IpAddress::V6(0xFF02u128 << 112), 9);
    assert_eq!(Address::new(IpAddress::V6(0), 9), bind_address(&group6, 0));
}
