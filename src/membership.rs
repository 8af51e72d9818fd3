use vstd::prelude::*;

use crate::address::Address;
use crate::nodes::{
    find_id, has_id, index_of_address, insert_sorted, lemma_index_of_address, lemma_update_same_id,
    join_all, successor, Node, Nodes, has_node_at, first_index_ge, lemma_first_index_ge,
};
use crate::options::KeepAlive;
use crate::snowflake::{AllocatorState, Snowflake};

verus! {

/// A join or keep-alive request, and the answer to an admission: an address,
/// an id, and possibly the full list of known nodes.
#[derive(Debug)]
pub struct JoinInfo {
    pub address: Address,
    pub current_id: Option<u16>,
    pub nodes: Option<Vec<Node>>,
}

/// The leader's answer to a join request.
#[derive(Debug)]
pub enum JoinReply {
    /// The node was known: its id, after its alive time was refreshed.
    KeepAlive(u16),
    /// The node was admitted: the leader's address, the assigned id and all
    /// known nodes.
    Admitted(JoinInfo),
}

/// Why a join request was refused.
#[derive(Clone, Copy, Debug, PartialEq, Eq, Structural)]
pub enum JoinError {
    /// This process does not know its own id yet.
    NotReady,
    /// The registry holds no node for the leader's id.
    NoLeader,
    /// Every id is taken.
    NoFreeId,
}

/// The node that the leader's id leads to, if any.
pub open spec fn leader_node(r: Nodes) -> Option<Node> {
    match r.leader {
        Some(l) => find_id(r.nodes@, l),
        None => None,
    }
}

/// Answers a join or keep-alive request at time `now`. A node already known at
/// the request's address is refreshed; another is admitted with the requested
/// id, or else the smallest free one, and the answer lists all nodes.
pub fn join(nodes: &mut Nodes, request: &JoinInfo, now: i64) -> (r: Result<JoinReply, JoinError>)
    requires
        old(nodes).well_formed(),
    ensures
        final(nodes).well_formed(),
        final(nodes).current == old(nodes).current,
        final(nodes).leader == old(nodes).leader,
        old(nodes).current is None ==> r == Err::<JoinReply, JoinError>(JoinError::NotReady)
            && *final(nodes) == *old(nodes),
        old(nodes).current is Some ==> (index_of_address(old(nodes).nodes@, request.address) matches Some(i)
            ==> (r matches Ok(JoinReply::KeepAlive(id)) && id == old(nodes).nodes@[i].id
            && final(nodes).nodes@ == old(nodes).nodes@.update(
            i,
            Node { last_alive_timestamp: now, ..old(nodes).nodes@[i] },
        ))),
        old(nodes).current is Some && index_of_address(old(nodes).nodes@, request.address) is None
            && leader_node(*old(nodes)) is None ==> r == Err::<JoinReply, JoinError>(
            JoinError::NoLeader,
        ) && *final(nodes) == *old(nodes),
        old(nodes).current is Some && index_of_address(old(nodes).nodes@, request.address) is None
            && leader_node(*old(nodes)) is Some && request.current_id is None
            && old(nodes).nodes@.len() >= 65536 ==> r == Err::<JoinReply, JoinError>(
            JoinError::NoFreeId,
        ) && *final(nodes) == *old(nodes),
        old(nodes).current is Some && index_of_address(old(nodes).nodes@, request.address) is None
            && leader_node(*old(nodes)) is Some && (request.current_id is Some
            || old(nodes).nodes@.len() < 65536) ==> (r matches Ok(JoinReply::Admitted(info)) && ({
            let id = info.current_id->Some_0;
            &&& info.current_id is Some
            &&& info.address == leader_node(*old(nodes))->Some_0.address
            &&& (request.current_id matches Some(x) ==> id == x)
            &&& (request.current_id is None ==> !has_id(old(nodes).nodes@, id as int) && forall|
                v: int,
            | 0 <= v < id ==> has_id(old(nodes).nodes@, v))
            &&& final(nodes).nodes@ == insert_sorted(
                old(nodes).nodes@,
                Node { id, address: request.address, last_alive_timestamp: now },
            )
            &&& info.nodes matches Some(v) && v@ == final(nodes).nodes@
        })),
{
    if nodes.self_is_none() {
        return Err(JoinError::NotReady);
    }
    proof {
        lemma_index_of_address(nodes.nodes@, request.address);
        if let Some(i) = index_of_address(nodes.nodes@, request.address) {
            lemma_update_same_id(nodes.nodes@, i, Node { last_alive_timestamp: now, ..nodes.nodes@[i] });
        }
    }
    match nodes.get_node_by_address(&request.address) {
        Some(node) => {
            node.last_alive_timestamp = now;
            return Ok(JoinReply::KeepAlive(node.id));
        },
        None => {},
    }
    let leader_address = match nodes.get_leader() {
        Some(leader) => leader.address,
        None => {
            return Err(JoinError::NoLeader);
        },
    };
    let new_id = match request.current_id {
        Some(id) => id,
        None => {
            if nodes.nodes.len() >= 65536 {
                return Err(JoinError::NoFreeId);
            }
            nodes.new_node_id()
        },
    };
    nodes.join(Node { id: new_id, address: request.address, last_alive_timestamp: now });
    Ok(
        JoinReply::Admitted(
            JoinInfo { address: leader_address, current_id: Some(new_id), nodes: Some(nodes.snapshot()) },
        ),
    )
}

/// How a process enters the cluster.
#[derive(Clone, Copy, Debug, PartialEq, Eq, Structural)]
pub enum Bootstrap {
    /// Take this id, without becoming leader.
    Explicit(u16),
    /// Look for a leader on this multicast group.
    Discover(Address),
    /// Found a cluster of one.
    Solo,
}

/// The way in: an explicit id first, else discovery where a multicast group is
/// set, else alone.
pub fn bootstrap_mode(id: Option<u16>, multicast_address: Option<Address>) -> (r: Bootstrap)
    ensures
        r == match (id, multicast_address) {
            (Some(x), _) => Bootstrap::Explicit(x),
            (None, Some(a)) => Bootstrap::Discover(a),
            (None, None) => Bootstrap::Solo,
        },
{
    match id {
        Some(x) => Bootstrap::Explicit(x),
        None => match multicast_address {
            Some(a) => Bootstrap::Discover(a),
            None => Bootstrap::Solo,
        },
    }
}

/// The id that `init_self` gives this process.
pub open spec fn own_id(self_id: Option<u16>) -> u16 {
    match self_id {
        Some(x) => x,
        None => 0,
    }
}

/// Registers this process's own node at `address`, with `self_id` or else id 0;
/// without `self_id` it also becomes leader. Creates the allocator if there is
/// none yet.
pub fn init_self(
    nodes: &mut Nodes,
    snowflake: &mut Option<Snowflake>,
    address: Address,
    self_id: Option<u16>,
    now: i64,
)
    ensures
        final(nodes).nodes@ == insert_sorted(
            old(nodes).nodes@,
            Node { id: own_id(self_id), address, last_alive_timestamp: now },
        ),
        old(nodes).well_formed() ==> final(nodes).well_formed(),
        final(nodes).current == Some(own_id(self_id)),
        final(nodes).leader == if self_id is None {
            Some(0u16)
        } else {
            old(nodes).leader
        },
        (*old(snowflake)) is Some ==> *final(snowflake) == *old(snowflake),
        (*old(snowflake)) is None ==> (*final(snowflake) matches Some(s) && s@ == (AllocatorState {
            worker_id: own_id(self_id) % 1024,
            sequence: 0,
            last_timestamp: 0,
        })),
{
    let current_id = match self_id {
        Some(x) => x,
        None => 0,
    };
    nodes.join(Node { id: current_id, address, last_alive_timestamp: now });
    nodes.set_current(current_id);
    if self_id.is_none() {
        nodes.set_leader(Some(0));
    }
    if snowflake.is_none() {
        *snowflake = Some(Snowflake::new(current_id));
    }
}

/// Seeds the registry from what discovery found: the leader that answered,
/// or, where none did, this process alone as leader with id 0.
pub fn join_discovered(
    nodes: &mut Nodes,
    snowflake: &mut Option<Snowflake>,
    found: Option<(Address, u16)>,
    self_address: Address,
    now: i64,
)
    ensures
        old(nodes).well_formed() ==> final(nodes).well_formed(),
        found matches Some((a, id)) ==> final(nodes).nodes@ == insert_sorted(
            old(nodes).nodes@,
            Node { id, address: a, last_alive_timestamp: now },
        ) && final(nodes).leader == Some(id) && final(nodes).current == old(nodes).current
            && *final(snowflake) == *old(snowflake),
        found is None ==> final(nodes).nodes@ == insert_sorted(
            old(nodes).nodes@,
            Node { id: 0, address: self_address, last_alive_timestamp: now },
        ) && final(nodes).leader == Some(0u16) && final(nodes).current == Some(0u16) && (
        (*old(snowflake)) is Some ==> *final(snowflake) == *old(snowflake)) && ((*old(snowflake)) is None
            ==> (*final(snowflake) matches Some(s) && s@ == (AllocatorState {
            worker_id: 0,
            sequence: 0,
            last_timestamp: 0,
        }))),
{
    match found {
        Some((leader_address, leader_id)) => {
            nodes.join(Node { id: leader_id, address: leader_address, last_alive_timestamp: now });
            nodes.set_leader(Some(leader_id));
        },
        None => {
            init_self(nodes, snowflake, self_address, None, now);
        },
    }
}

/// The keep-alive to send: the leader's address and the request, or `None`
/// where this process is the leader or the leader's node is unknown.
pub fn keep_alive_request(nodes: &Nodes, bind_address: Address) -> (r: Option<(Address, JoinInfo)>)
    ensures
        (nodes.current.is_some() && nodes.leader == nodes.current) ==> r is None,
        !(nodes.current.is_some() && nodes.leader == nodes.current) ==> match leader_node(*nodes) {
            None => r is None,
            Some(l) => (r matches Some((a, info)) && a == l.address && info.address == bind_address
                && info.nodes is None && info.current_id == match nodes.current {
                Some(c) => match find_id(nodes.nodes@, c) {
                    Some(n) => Some(n.id),
                    None => None,
                },
                None => None,
            }),
        },
{
    if nodes.self_is_leader() {
        return None;
    }
    let leader_address = match nodes.get_leader() {
        Some(leader) => leader.address,
        None => {
            return None;
        },
    };
    let current_id = match nodes.get_current() {
        Some(current) => Some(current.id),
        None => None,
    };
    Some((leader_address, JoinInfo { address: bind_address, current_id, nodes: None }))
}

/// Takes in the leader's answer to a keep-alive: every node listed is
/// joined; then a process without an id adopts the one assigned, with an
/// allocator for it, and its own node at `self_address` is joined where the
/// list did not hold it. A reply without an id leaves the own id unset. The
/// leader stays as it was.
pub fn apply_keep_alive_reply(
    nodes: &mut Nodes,
    snowflake: &mut Option<Snowflake>,
    self_address: Address,
    reply: &JoinInfo,
    now: i64,
)
    requires
        old(nodes).well_formed(),
    ensures
        final(nodes).well_formed(),
        final(nodes).leader == old(nodes).leader,
        final(nodes).current == if old(nodes).current is None {
            reply.current_id
        } else {
            old(nodes).current
        },
        ({
            let merged = match reply.nodes {
                Some(v) => join_all(old(nodes).nodes@, v@),
                None => old(nodes).nodes@,
            };
            let adopt = old(nodes).current is None && reply.current_id is Some;
            let id = reply.current_id->Some_0;
            &&& final(nodes).nodes@ == if adopt && !has_node_at(merged, id, self_address) {
                insert_sorted(merged, Node { id, address: self_address, last_alive_timestamp: now })
            } else {
                merged
            }
            &&& adopt ==> has_node_at(final(nodes).nodes@, id, self_address)
        }),
        !(old(nodes).current is None && reply.current_id is Some && (*old(snowflake)) is None)
            ==> *final(snowflake) == *old(snowflake),
        old(nodes).current is None && reply.current_id is Some && (*old(snowflake)) is None ==> (
        *final(snowflake) matches Some(s) && s@ == (AllocatorState {
            worker_id: reply.current_id->Some_0 % 1024,
            sequence: 0,
            last_timestamp: 0,
        })),
{
    let adopt = if nodes.self_is_none() {
        reply.current_id
    } else {
        None
    };
    match &reply.nodes {
        Some(list) => {
            let ghost start = nodes.nodes@;
            let mut i: usize = 0;
            while i < list.len()
                invariant
                    i <= list@.len(),
                    nodes.well_formed(),
                    nodes.nodes@ == join_all(start, list@.subrange(0, i as int)),
                    nodes.current == old(nodes).current,
                    nodes.leader == old(nodes).leader,
                decreases list@.len() - i,
            {
                nodes.join(list[i]);
                proof {
                    let p = list@.subrange(0, i + 1);
                    assert(p.drop_last() =~= list@.subrange(0, i as int));
                }
                i += 1;
            }
            assert(list@.subrange(0, list@.len() as int) =~= list@);
        },
        None => {},
    }
    if let Some(id) = adopt {
        if !nodes.contains_node(id, &self_address) {
            let own = Node { id, address: self_address, last_alive_timestamp: now };
            proof {
                lemma_first_index_ge(nodes.nodes@, id);
                let k = first_index_ge(nodes.nodes@, id) as int;
                assert(insert_sorted(nodes.nodes@, own)[k] == own);
            }
            nodes.join(own);
        }
        nodes.set_current(id);
        if snowflake.is_none() {
            *snowflake = Some(Snowflake::new(id));
        }
    }
}

/// The id of the node that failover promotes in `s`: the successor of the
/// leader's node, where that node is known.
pub open spec fn promoted(s: Seq<Node>, leader: Option<u16>) -> Option<u16> {
    match leader {
        Some(l) => match find_id(s, l) {
            Some(n) => match successor(s, n.id) {
                Some(m) => Some(m.id),
                None => None,
            },
            None => None,
        },
        None => None,
    }
}

/// The leader's id after failover in `s`.
pub open spec fn failover_leader(s: Seq<Node>, leader: Option<u16>) -> Option<u16> {
    match promoted(s, leader) {
        Some(x) => Some(x),
        None => leader,
    }
}

/// Promotes the node after the current leader, in id order, to leader.
/// Returns its id, or `None` where the leader's node is unknown.
pub fn change_new_leader(nodes: &mut Nodes) -> (r: Option<u16>)
    ensures
        final(nodes).nodes@ == old(nodes).nodes@,
        final(nodes).current == old(nodes).current,
        r == promoted(old(nodes).nodes@, old(nodes).leader),
        final(nodes).leader == failover_leader(old(nodes).nodes@, old(nodes).leader),
{
    let leader_id = match nodes.get_leader() {
        Some(leader) => leader.id,
        None => {
            return None;
        },
    };
    let next_id = match nodes.next(leader_id) {
        Some(node) => node.id,
        None => {
            return None;
        },
    };
    nodes.set_leader(Some(next_id));
    Some(next_id)
}

/// Counts failed heartbeats: `remaining` more are tolerated before failover.
#[derive(Clone, Copy, Debug, PartialEq, Eq, Structural)]
pub struct Heartbeat {
    pub failure_threshold: u64,
    pub remaining: u64,
}

/// One failed heartbeat: the counter after it, and whether failover is due.
/// Failover comes once the counter has already reached zero.
pub open spec fn failure_step(h: Heartbeat) -> (Heartbeat, bool) {
    if h.remaining == 0 {
        (h, true)
    } else {
        (Heartbeat { remaining: (h.remaining - 1) as u64, ..h }, false)
    }
}

/// The counter and the leader's id after `k` failed heartbeats in a row,
/// each one handled by `heartbeat_failed` on a registry holding `s`.
pub open spec fn failed_heartbeats(h: Heartbeat, s: Seq<Node>, leader: Option<u16>, k: nat) -> (
    Heartbeat,
    Option<u16>,
)
    decreases k,
{
    if k == 0 {
        (h, leader)
    } else {
        let p = failed_heartbeats(h, s, leader, (k - 1) as nat);
        let st = failure_step(p.0);
        (st.0, if st.1 {
            failover_leader(s, p.1)
        } else {
            p.1
        })
    }
}

impl Heartbeat {
    /// A counter that tolerates `config.failure_threshold` failures.
    pub fn new(config: &KeepAlive) -> (r: Heartbeat)
        ensures
            r.failure_threshold == config.failure_threshold,
            r.remaining == config.failure_threshold,
    {
        Heartbeat { failure_threshold: config.failure_threshold, remaining: config.failure_threshold }
    }

    /// A heartbeat went through: the count starts over.
    pub fn on_success(&mut self)
        ensures
            final(self).failure_threshold == old(self).failure_threshold,
            final(self).remaining == old(self).failure_threshold,
    {
        self.remaining = self.failure_threshold;
    }

    /// A heartbeat failed; returns whether the leader is to be replaced.
    pub fn on_failure(&mut self) -> (r: bool)
        ensures
            (*final(self), r) == failure_step(*old(self)),
    {
        if self.remaining == 0 {
            true
        } else {
            self.remaining = self.remaining - 1;
            false
        }
    }
}

/// A heartbeat failed: counts it, and where the count was already used up,
/// promotes the leader's successor (see `change_new_leader`). Returns the
/// promoted node's id, if any.
pub fn heartbeat_failed(heartbeat: &mut Heartbeat, nodes: &mut Nodes) -> (r: Option<u16>)
    ensures
        *final(heartbeat) == failure_step(*old(heartbeat)).0,
        final(nodes).nodes@ == old(nodes).nodes@,
        final(nodes).current == old(nodes).current,
        final(nodes).leader == if failure_step(*old(heartbeat)).1 {
            failover_leader(old(nodes).nodes@, old(nodes).leader)
        } else {
            old(nodes).leader
        },
        r == if failure_step(*old(heartbeat)).1 {
            promoted(old(nodes).nodes@, old(nodes).leader)
        } else {
            None
        },
{
    if heartbeat.on_failure() {
        change_new_leader(nodes)
    } else {
        None
    }
}

/// From a fresh counter, the first `failure_threshold` failed heartbeats in a
/// row leave the leader as it is and use the counter up; the one after
/// promotes the successor of the leader's node.
pub proof fn lemma_failover_after_threshold(config: KeepAlive, s: Seq<Node>, leader: Option<u16>)
    ensures
        ({
            let h = Heartbeat { failure_threshold: config.failure_threshold, remaining: config.failure_threshold };
            let k = config.failure_threshold as nat;
            &&& forall|j: nat| j <= k ==> (#[trigger] failed_heartbeats(h, s, leader, j)).1 == leader
            &&& failed_heartbeats(h, s, leader, k).0.remaining == 0
            &&& failed_heartbeats(h, s, leader, k + 1).1 == failover_leader(s, leader)
        }),
{
    let h = Heartbeat { failure_threshold: config.failure_threshold, remaining: config.failure_threshold };
    let k = config.failure_threshold as nat;
    assert forall|j: nat| j <= k implies (#[trigger] failed_heartbeats(h, s, leader, j)).1 == leader by {
        lemma_failed_heartbeats(h, s, leader, j);
    }
    lemma_failed_heartbeats(h, s, leader, k);
}

proof fn lemma_failed_heartbeats(h: Heartbeat, s: Seq<Node>, leader: Option<u16>, k: nat)
    requires
        k <= h.remaining,
    ensures
        failed_heartbeats(h, s, leader, k).0.remaining == h.remaining - k,
        failed_heartbeats(h, s, leader, k).1 == leader,
    decreases k,
{
    if k > 0 {
        lemma_failed_heartbeats(h, s, leader, (k - 1) as nat);
    }
}

} // verus!
