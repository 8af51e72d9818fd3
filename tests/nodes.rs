use idgener::address::{Address, IpAddress};
use idgener::nodes::{Node, Nodes};

fn local(last: u8, port: u16) -> Address {
    Address::new(IpAddress::V4(0x7F00_0000 | last as u32), port)
}

fn nodes() -> Nodes {
    let mut nodes = Nodes {
        leader: Some(0_u16),
        current: Some(0_u16),
        nodes: vec![Node::new(0, local(1, 1024))],
    };
    let id = nodes.new_node_id();
    nodes.join(Node::new(id, local(1, 8685)));
    let id = nodes.new_node_id();
    nodes.join(Node::new(id, Address::new(IpAddress::V4(0xC0A8_0B2D), 8081)));
    nodes
}

fn ids(nodes: &Nodes) -> Vec<u16> {
    nodes.nodes.iter().map(|n| n.id).collect()
}

#[test]
fn new_node() {
    let mut nodes = nodes();
    assert_eq!(3, nodes.nodes.len());

    let id = nodes.new_node_id();
    assert_eq!(3, id, "now is 3");

    nodes.join(Node::new(id, local(1, 8685)));
    nodes.join(Node::new(5, local(2, 8685)));

    let id = nodes.new_node_id();
    assert_eq!(4, id, "now is 4");

    nodes.join(Node::new(id, local(3, 8685)));

    let id = nodes.new_node_id();
    assert_eq!(6, id, "now is 6");
}

#[test]
fn is_leader() {
    let mut nodes = nodes();
    assert_eq!(3, nodes.nodes.len());
    assert_eq!(true, nodes.self_is_leader());
    assert_eq!(false, nodes.is_leader(1));
    assert_eq!(false, nodes.is_leader(2));

    nodes.set_leader(Some(1));
    let node = nodes.get_leader().unwrap();
    assert_eq!(1, node.id);

    nodes.set_leader(Some(2));
    assert_eq!(false, nodes.self_is_leader());
    let node = nodes.get_leader().unwrap();
    assert_eq!(2, node.id);
}

#[test]
fn set_leader() {
    let mut nodes = nodes();
    assert_eq!(true, nodes.self_is_leader());

    let current = nodes.get_current().unwrap();
    assert_eq!(0, current.id);

    nodes.set_leader(Some(2));
    assert_eq!(2, nodes.get_leader().unwrap().id);
}

#[test]
fn test_none() {
    let mut nodes = Nodes::default();
    assert!(nodes.self_is_none());
    assert!(nodes.get_leader().is_none());
    assert!(nodes.get_current().is_none());

    nodes
        .join(Node::new(0, Address::new(IpAddress::V4(0), 1024)))
        .set_leader(Some(0_u16))
        .join(Node::new(1, Address::new(IpAddress::V4(0), 1025)))
        .set_current(1);

    assert_eq!(2, nodes.nodes.len());

    let leader = nodes.get_leader().expect("get leader error");
    assert_eq!(0, leader.id);
}

#[test]
fn test_next() {
    let nodes = nodes();

    let n1 = nodes.next(0);
    assert!(n1.is_some());
    assert_eq!(1, n1.unwrap().id);

    let n1 = nodes.next(2);
    assert!(n1.is_some());
    assert_eq!(0, n1.unwrap().id);
}

#[test]
fn join_keeps_id_order() {
    let mut nodes = Nodes::default();
    for id in [5u16, 1, 3] {
        nodes.join(Node::new(id, local(1, 1000 + id)));
    }
    assert_eq!(vec![1, 3, 5], ids(&nodes));
}

#[test]
fn join_duplicate_id_stands_beside_the_first() {
    let mut nodes = Nodes::default();
    nodes.join(Node::new(1, local(1, 1))).join(Node::new(2, local(1, 2)));
    nodes.join(Node::new(1, local(9, 9)));
    assert_eq!(vec![1, 1, 2], ids(&nodes));
    assert_eq!(local(9, 9), nodes.nodes[0].address);
}

#[test]
fn next_wraps_to_first() {
    let mut nodes = Nodes::default();
    for id in [0u16, 1, 2] {
        nodes.join(Node::new(id, local(1, 2000 + id)));
    }
    assert_eq!(0, nodes.next(2).unwrap().id);
    assert_eq!(2, nodes.next(1).unwrap().id);
    assert!(Nodes::default().next(0).is_none());
}

#[test]
fn next_of_absent_id_is_first_greater() {
    let mut nodes = Nodes::default();
    for id in [0u16, 2, 4] {
        nodes.join(Node::new(id, local(1, 5000 + id)));
    }
    assert_eq!(2, nodes.next(1).unwrap().id);
    assert_eq!(0, nodes.next(5).unwrap().id);
    assert_eq!(0, nodes.next(u16::MAX).unwrap().id);
}

#[test]
fn new_node_id_fills_gap() {
    let mut nodes = Nodes::default();
    for id in [0u16, 1, 2, 5] {
        nodes.join(Node::new(id, local(1, 3000 + id)));
    }
    assert_eq!(3, nodes.new_node_id());
    assert_eq!(0, Nodes::default().new_node_id());
}

#[test]
fn get_index_finds_first_not_smaller() {
    let mut nodes = Nodes::default();
    for id in [0u16, 2, 4] {
        nodes.join(Node::new(id, local(1, 4000 + id)));
    }
    assert_eq!(1, nodes.get_index(1));
    assert_eq!(1, nodes.get_index(2));
    assert_eq!(3, nodes.get_index(9));
}

#[test]
fn leader_lookup_needs_a_node_with_that_id() {
    let mut nodes = Nodes::default();
    nodes.join(Node::new(0, local(1, 1))).join(Node::new(4, local(1, 4)));
    nodes.set_leader(Some(2));
    assert!(nodes.get_leader().is_none());
    assert!(!nodes.self_is_leader());
}

#[test]
fn get_node_by_address_refreshes_in_place() {
    let mut nodes = nodes();
    let node = nodes.get_node_by_address(&local(1, 8685)).unwrap();
    assert_eq!(1, node.id);
    node.last_alive_timestamp = 42;
    assert_eq!(42, nodes.nodes[1].last_alive_timestamp);
    assert!(nodes.get_node_by_address(&local(7, 7)).is_none());
}

#[test]
fn snapshot_copies_all_nodes() {
    let nodes = nodes();
    let copy = nodes.snapshot();
    assert_eq!(vec![0, 1, 2], copy.iter().map(|n| n.id).collect::<Vec<_>>());
}

#[test]
fn well_formed_means_id_order() {
    let mut nodes = nodes();
    assert!(nodes.is_well_formed());
    nodes.nodes.swap(0, 2);
    assert!(!nodes.is_well_formed());
    assert!(Nodes::default().is_well_formed());
}
