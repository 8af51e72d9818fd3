use vstd::prelude::*;

use crate::address::{Address, IpAddress};
use crate::nodes::{find_id, Nodes};

verus! {

/// The request that a finder sends to the multicast group.
pub open spec fn search_token() -> Seq<u8> {
    seq![0xAAu8, 0xBBu8, 0x01u8, 0x02u8]
}

/// A reply: the responder's service port, then its id, both big-endian.
pub open spec fn reply_bytes(port: u16, id: u16) -> Seq<u8> {
    seq![(port / 256) as u8, (port % 256) as u8, (id / 256) as u8, (id % 256) as u8]
}

/// The big-endian 16-bit value of two bytes.
pub open spec fn be16(hi: u8, lo: u8) -> u16 {
    (hi * 256 + lo) as u16
}

/// What a reply of `data` announces: a port and an id, where it has four bytes.
pub open spec fn parse_reply(data: Seq<u8>) -> Option<(u16, u16)> {
    if data.len() == 4 {
        Some((be16(data[0], data[1]), be16(data[2], data[3])))
    } else {
        None
    }
}

/// A reply reads back as the port and id it was made from.
pub proof fn lemma_reply_round_trip(port: u16, id: u16)
    ensures
        parse_reply(reply_bytes(port, id)) == Some((port, id)),
{
}

/// Whether an IP address lies in the multicast range (224.0.0.0/4, ff00::/8).
pub open spec fn is_multicast_ip(ip: IpAddress) -> bool {
    match ip {
        IpAddress::V4(v) => v / 0x1000_0000 == 14,
        IpAddress::V6(v) => v / 0x0100_0000_0000_0000_0000_0000_0000_0000 == 0xFF,
    }
}

/// The request that a finder sends.
pub fn search_request() -> (r: Vec<u8>)
    ensures
        r@ == search_token(),
{
    let r: Vec<u8> = vec![0xAAu8, 0xBBu8, 0x01u8, 0x02u8];
    assert(r@ =~= search_token());
    r
}

/// Whether `data` is the finder's request.
pub fn is_search_request(data: &[u8]) -> (r: bool)
    ensures
        r == (data@ == search_token()),
{
    if data.len() == 4 && data[0] == 0xAA && data[1] == 0xBB && data[2] == 0x01 && data[3] == 0x02 {
        assert(data@ =~= search_token());
        true
    } else {
        false
    }
}

/// The reply that announces `port` and `id`.
pub fn encode_reply(port: u16, id: u16) -> (r: Vec<u8>)
    ensures
        r@ == reply_bytes(port, id),
{
    let r: Vec<u8> = vec![(port / 256) as u8, (port % 256) as u8, (id / 256) as u8, (id % 256) as u8];
    assert(r@ =~= reply_bytes(port, id));
    r
}

/// The port and id that a reply announces, if it has four bytes.
pub fn decode_reply(data: &[u8]) -> (r: Option<(u16, u16)>)
    ensures
        r == parse_reply(data@),
{
    if data.len() != 4 {
        return None;
    }
    let port = (data[0] as u16) * 256 + data[1] as u16;
    let id = (data[2] as u16) * 256 + data[3] as u16;
    Some((port, id))
}

/// What a finder learns from a reply of `data` sent from `responder`: the
/// responder's host at the announced port, and its id.
pub fn discovered(responder: &Address, data: &[u8]) -> (r: Option<(Address, u16)>)
    ensures
        r == match parse_reply(data@) {
            Some((port, id)) => Some((Address { ip: responder.ip, port }, id)),
            None => None,
        },
{
    match decode_reply(data) {
        Some((port, id)) => Some((Address { ip: responder.ip, port }, id)),
        None => None,
    }
}

/// What the listener answers to a datagram of `data`: where this process is
/// the leader and `data` is the finder's request, the reply that announces its
/// own node's port and id.
pub fn reply_for(nodes: &Nodes, data: &[u8]) -> (r: Option<Vec<u8>>)
    ensures
        r matches Some(v) <==> (nodes.current.is_some() && nodes.leader == nodes.current
            && data@ == search_token() && find_id(nodes.nodes@, nodes.current->Some_0) is Some),
        r matches Some(v) ==> ({
            let n = find_id(nodes.nodes@, nodes.current->Some_0)->Some_0;
            v@ == reply_bytes(n.address.port, n.id)
        }),
{
    if !nodes.self_is_leader() || !is_search_request(data) {
        return None;
    }
    match nodes.get_current() {
        Some(node) => Some(encode_reply(node.address.port, node.id)),
        None => None,
    }
}

/// Whether `ip` is a multicast address.
pub fn is_multicast(ip: &IpAddress) -> (r: bool)
    ensures
        r == is_multicast_ip(*ip),
{
    match ip {
        IpAddress::V4(v) => *v / 0x1000_0000 == 14,
        IpAddress::V6(v) => *v / 0x0100_0000_0000_0000_0000_0000_0000_0000 == 0xFF,
    }
}

/// The unspecified address of `address`'s family, at its port plus `add`.
pub fn bind_address(address: &Address, add: u16) -> (r: Address)
    requires
        address.port + add <= u16::MAX,
    ensures
        r.port == address.port + add,
        r.ip == match address.ip {
            IpAddress::V4(_) => IpAddress::V4(0),
            IpAddress::V6(_) => IpAddress::V6(0),
        },
{
    let ip = match address.ip {
        IpAddress::V4(_) => IpAddress::V4(0),
        IpAddress::V6(_) => IpAddress::V6(0),
    };
    Address { ip, port: address.port + add }
}

} // verus!
