use vstd::prelude::*;

use crate::membership::leader_node;
use crate::nodes::{find_id, Nodes};

verus! {

/// Whether this process has joined a cluster.
#[derive(Clone, Copy, Debug, PartialEq, Eq, Structural)]
pub enum HealthState {
    Prepare,
    Running,
}

/// What the health report shows.
#[derive(Clone, Copy, Debug, PartialEq, Eq, Structural)]
pub struct Health {
    pub state: HealthState,
    pub leader: Option<u16>,
    pub id: u16,
}

/// The health report: `Prepare` while this process's own node is unknown,
/// else `Running` with its id and the leader's id.
pub fn health(nodes: &Nodes) -> (r: Health)
    ensures
        match nodes.current {
            Some(c) => find_id(nodes.nodes@, c),
            None => None,
        } matches Some(n) ==> r == (Health {
            state: HealthState::Running,
            leader: match leader_node(*nodes) {
                Some(l) => Some(l.id),
                None => None,
            },
            id: n.id,
        }),
        match nodes.current {
            Some(c) => find_id(nodes.nodes@, c),
            None => None,
        } is None ==> r == (Health { state: HealthState::Prepare, leader: None, id: 0 }),
{
    match nodes.get_current() {
        None => Health { state: HealthState::Prepare, leader: None, id: 0 },
        Some(current) => {
            let leader = match nodes.get_leader() {
                Some(l) => Some(l.id),
                None => None,
            };
            Health { state: HealthState::Running, leader, id: current.id }
        },
    }
}

} // verus!
