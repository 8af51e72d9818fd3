use vstd::prelude::*;

use crate::address::Address;
use crate::clock::wall_clock_millis;

verus! {

/// A member of the cluster.
#[derive(Clone, Copy, Debug)]
pub struct Node {
    pub id: u16,
    pub address: Address,
    pub last_alive_timestamp: i64,
}

impl Node {
    /// A node seen alive now.
    pub fn new(id: u16, address: Address) -> (r: Node)
        ensures
            r.id == id,
            r.address == address,
    {
        Node { id, address, last_alive_timestamp: wall_clock_millis() }
    }
}

/// Ids never decrease along `s`.
pub open spec fn sorted_by_id(s: Seq<Node>) -> bool {
    forall|i: int, j: int| 0 <= i <= j < s.len() ==> s[i].id <= s[j].id
}

/// The first position of `s` whose id is at least `id` (`s.len()` if none is).
pub open spec fn first_index_ge(s: Seq<Node>, id: u16) -> nat
    decreases s.len(),
{
    if s.len() == 0 {
        0
    } else if id <= s[0].id {
        0
    } else {
        1 + first_index_ge(s.drop_first(), id)
    }
}

/// Some node of `s` has id `v`.
pub open spec fn has_id(s: Seq<Node>, v: int) -> bool {
    exists|j: int| 0 <= j < s.len() && s[j].id == v
}

/// The node that a lookup of `id` lands on: the one at `first_index_ge`, if it
/// carries that id.
pub open spec fn find_id(s: Seq<Node>, id: u16) -> Option<Node> {
    let i = first_index_ge(s, id) as int;
    if i < s.len() && s[i].id == id {
        Some(s[i])
    } else {
        None
    }
}

/// The node that a borrowed option refers to.
pub open spec fn copied(o: Option<&Node>) -> Option<Node> {
    match o {
        Some(n) => Some(*n),
        None => None,
    }
}

/// The first node whose id is greater than `id`; where there is none, the
/// first node of all.
pub open spec fn successor(s: Seq<Node>, id: u16) -> Option<Node> {
    let i = if id < u16::MAX {
        first_index_ge(s, (id + 1) as u16) as int
    } else {
        s.len() as int
    };
    if i < s.len() {
        Some(s[i])
    } else if s.len() > 0 {
        Some(s[0])
    } else {
        None
    }
}

/// `s` with `n` placed before the first node whose id is at least `n.id`.
pub open spec fn insert_sorted(s: Seq<Node>, n: Node) -> Seq<Node> {
    s.insert(first_index_ge(s, n.id) as int, n)
}

/// `s` after joining each node of `ns` in turn.
pub open spec fn join_all(s: Seq<Node>, ns: Seq<Node>) -> Seq<Node>
    decreases ns.len(),
{
    if ns.len() == 0 {
        s
    } else {
        insert_sorted(join_all(s, ns.drop_last()), ns.last())
    }
}

/// Some node of `s` has id `id` and is reached at `a`.
pub open spec fn has_node_at(s: Seq<Node>, id: u16, a: Address) -> bool {
    exists|j: int| 0 <= j < s.len() && s[j].id == id && s[j].address == a
}

/// The position of the first node of `s` reached at `a`.
pub open spec fn index_of_address(s: Seq<Node>, a: Address) -> Option<int> {
    if exists|i: int|
        0 <= i < s.len() && s[i].address == a && forall|k: int| 0 <= k < i ==> s[k].address != a {
        Some(choose|i: int| 0 <= i < s.len() && s[i].address == a
            && forall|k: int| 0 <= k < i ==> s[k].address != a)
    } else {
        None
    }
}

/// What `first_index_ge` is: every earlier id is smaller, and the id there, if
/// any, is not.
pub proof fn lemma_first_index_ge(s: Seq<Node>, id: u16)
    ensures
        first_index_ge(s, id) <= s.len(),
        forall|j: int| 0 <= j < first_index_ge(s, id) ==> s[j].id < id,
        first_index_ge(s, id) < s.len() ==> id <= s[first_index_ge(s, id) as int].id,
    decreases s.len(),
{
    if s.len() > 0 && s[0].id < id {
        let t = s.drop_first();
        lemma_first_index_ge(t, id);
        assert forall|j: int| 0 <= j < first_index_ge(s, id) implies s[j].id < id by {
            if j > 0 {
                assert(s[j] == t[j - 1]);
            }
        }
    }
}

/// The two properties of `lemma_first_index_ge` single out one position.
pub proof fn lemma_first_index_ge_unique(s: Seq<Node>, id: u16, r: int)
    requires
        0 <= r <= s.len(),
        forall|j: int| 0 <= j < r ==> s[j].id < id,
        r < s.len() ==> id <= s[r].id,
    ensures
        r == first_index_ge(s, id),
    decreases s.len(),
{
    if s.len() > 0 && r > 0 {
        assert(s[0].id < id);
        let t = s.drop_first();
        assert forall|j: int| 0 <= j < r - 1 implies t[j].id < id by {
            assert(t[j] == s[j + 1]);
        }
        lemma_first_index_ge_unique(t, id, r - 1);
    }
}

/// Inserting at `first_index_ge` keeps a sorted sequence sorted.
pub proof fn lemma_insert_sorted(s: Seq<Node>, n: Node)
    requires
        sorted_by_id(s),
    ensures
        sorted_by_id(insert_sorted(s, n)),
        insert_sorted(s, n).len() == s.len() + 1,
{
    lemma_first_index_ge(s, n.id);
    let k = first_index_ge(s, n.id) as int;
    let t = insert_sorted(s, n);
    assert forall|j: int| k <= j < s.len() implies n.id <= s[j].id by {
        assert(s[k].id <= s[j].id);
    }
    assert forall|i: int, j: int| 0 <= i <= j < t.len() implies t[i].id <= t[j].id by {
        if i < k {
            assert(t[i] == s[i]);
            if j > k {
                assert(t[j] == s[j - 1]);
            }
        } else if i == k {
            if j > k {
                assert(t[j] == s[j - 1]);
            }
        } else {
            assert(t[i] == s[i - 1]);
            assert(t[j] == s[j - 1]);
        }
    }
}

/// Joining any nodes, one after another, keeps a sorted sequence sorted.
pub proof fn lemma_join_all_sorted(s: Seq<Node>, ns: Seq<Node>)
    requires
        sorted_by_id(s),
    ensures
        sorted_by_id(join_all(s, ns)),
        join_all(s, ns).len() == s.len() + ns.len(),
    decreases ns.len(),
{
    if ns.len() > 0 {
        lemma_join_all_sorted(s, ns.drop_last());
        lemma_insert_sorted(join_all(s, ns.drop_last()), ns.last());
    }
}

/// Replacing a node by one with the same id keeps a sorted sequence sorted.
pub proof fn lemma_update_same_id(s: Seq<Node>, i: int, n: Node)
    requires
        sorted_by_id(s),
        0 <= i < s.len(),
        n.id == s[i].id,
    ensures
        sorted_by_id(s.update(i, n)),
{
    let t = s.update(i, n);
    assert forall|a: int, b: int| 0 <= a <= b < t.len() implies t[a].id <= t[b].id by {
        assert(t[a].id == s[a].id && t[b].id == s[b].id);
    }
}

/// The position that `index_of_address` gives holds a node at that address.
pub proof fn lemma_index_of_address(s: Seq<Node>, a: Address)
    ensures
        index_of_address(s, a) matches Some(i) ==> 0 <= i < s.len() && s[i].address == a,
{
}

/// The registry of known nodes, kept in ascending id order, with the ids of
/// this process's own node and of the leader.
#[derive(Clone, Debug)]
pub struct Nodes {
    pub current: Option<u16>,
    pub leader: Option<u16>,
    pub nodes: Vec<Node>,
}

impl Nodes {
    /// The registry's invariant: nodes in ascending id order.
    pub open spec fn well_formed(&self) -> bool {
        sorted_by_id(self.nodes@)
    }

    /// An empty registry, with neither own id nor leader.
    pub fn default() -> (r: Nodes)
        ensures
            r.nodes@.len() == 0,
            r.current.is_none(),
            r.leader.is_none(),
            r.well_formed(),
    {
        Nodes { leader: None, current: None, nodes: Vec::new() }
    }

    /// The first position whose id is at least `id`.
    pub fn get_index(&self, id: u16) -> (r: usize)
        ensures
            r == first_index_ge(self.nodes@, id),
    {
        let mut idx: usize = 0;
        while idx < self.nodes.len()
            invariant
                idx <= self.nodes@.len(),
                forall|j: int| 0 <= j < idx ==> self.nodes@[j].id < id,
            decreases self.nodes@.len() - idx,
        {
            if id <= self.nodes[idx].id {
                proof {
                    lemma_first_index_ge_unique(self.nodes@, id, idx as int);
                }
                return idx;
            }
            idx += 1;
        }
        proof {
            lemma_first_index_ge_unique(self.nodes@, id, idx as int);
        }
        idx
    }

    /// Whether this process's own node has no id yet.
    pub fn self_is_none(&self) -> (r: bool)
        ensures
            r == self.current.is_none(),
    {
        self.current.is_none()
    }

    /// The node found at `id` by `get_index`, if it carries that id.
    fn lookup(&self, id: u16) -> (r: Option<&Node>)
        ensures
            copied(r) == find_id(self.nodes@, id),
    {
        let idx = self.get_index(id);
        if idx < self.nodes.len() && self.nodes[idx].id == id {
            Some(&self.nodes[idx])
        } else {
            None
        }
    }

    /// This process's own node.
    pub fn get_current(&self) -> (r: Option<&Node>)
        ensures
            copied(r) == match self.current {
                Some(c) => find_id(self.nodes@, c),
                None => None,
            },
    {
        match self.current {
            Some(current_id) => self.lookup(current_id),
            None => None,
        }
    }

    /// The leader's node.
    pub fn get_leader(&self) -> (r: Option<&Node>)
        ensures
            copied(r) == match self.leader {
                Some(l) => find_id(self.nodes@, l),
                None => None,
            },
    {
        match self.leader {
            Some(leader_id) => self.lookup(leader_id),
            None => None,
        }
    }

    /// The node after `id` in id order: the first with a greater id; after
    /// the last one comes the first.
    pub fn next(&self, id: u16) -> (r: Option<&Node>)
        ensures
            copied(r) == successor(self.nodes@, id),
    {
        let idx = if id < u16::MAX {
            self.get_index(id + 1)
        } else {
            self.nodes.len()
        };
        if idx < self.nodes.len() {
            Some(&self.nodes[idx])
        } else if self.nodes.len() > 0 {
            Some(&self.nodes[0])
        } else {
            None
        }
    }

    /// Adds `node` before the first node whose id is at least its own. An
    /// existing node with the same id stays: the two stand side by side.
    pub fn join(&mut self, node: Node) -> (r: &mut Self)
        ensures
            r.nodes@ == insert_sorted(old(self).nodes@, node),
            r.current == old(self).current,
            r.leader == old(self).leader,
            old(self).well_formed() ==> r.well_formed(),
            *final(self) == *final(r),
    {
        let idx = self.get_index(node.id);
        proof {
            lemma_first_index_ge(self.nodes@, node.id);
            if self.well_formed() {
                lemma_insert_sorted(self.nodes@, node);
            }
        }
        self.nodes.insert(idx, node);
        self
    }

    /// The node reached at `address`, to refresh it in place.
    pub fn get_node_by_address(&mut self, address: &Address) -> (r: Option<&mut Node>)
        ensures
            index_of_address(old(self).nodes@, *address) is None ==> r is None && *final(self) == *old(self),
            index_of_address(old(self).nodes@, *address) matches Some(i) ==> r matches Some(n) && *n == old(self).nodes@[i]
                && final(self).nodes@ == old(self).nodes@.update(i, *final(n))
                && final(self).current == old(self).current
                && final(self).leader == old(self).leader,
    {
        let mut i: usize = 0;
        while i < self.nodes.len()
            invariant
                i <= self.nodes@.len(),
                *self == *old(self),
                forall|k: int| 0 <= k < i ==> self.nodes@[k].address != *address,
            decreases self.nodes@.len() - i,
        {
            if self.nodes[i].address == *address {
                proof {
                    let s = self.nodes@;
                    assert(0 <= i < s.len() && s[i as int].address == *address);
                    let c = choose|c: int| 0 <= c < s.len() && s[c].address == *address
                        && forall|k: int| 0 <= k < c ==> s[k].address != *address;
                    assert(0 <= i < s.len() && s[i as int].address == *address
                        && forall|k: int| 0 <= k < i ==> s[k].address != *address);
                    assert(c == i);
                }
                return Some(&mut self.nodes[i]);
            }
            i += 1;
        }
        proof {
            let s = self.nodes@;
            assert(!exists|c: int| 0 <= c < s.len() && s[c].address == *address);
        }
        None
    }

    /// The smallest id that no node has.
    pub fn new_node_id(&self) -> (r: u16)
        requires
            self.well_formed(),
            self.nodes@.len() < 65536,
        ensures
            !has_id(self.nodes@, r as int),
            forall|v: int| 0 <= v < r ==> has_id(self.nodes@, v),
    {
        let ghost s = self.nodes@;
        let mut node_id: u32 = 0;
        let mut i: usize = 0;
        while i < self.nodes.len()
            invariant
                s == self.nodes@,
                sorted_by_id(s),
                s.len() < 65536,
                i <= s.len(),
                node_id <= i,
                forall|k: int| 0 <= k < i ==> s[k].id < node_id,
                forall|v: int| 0 <= v < node_id ==> #[trigger] has_id(s, v),
            decreases s.len() - i,
        {
            let id = self.nodes[i].id;
            if (node_id as u16) < id {
                proof {
                    assert forall|k: int| 0 <= k < s.len() implies s[k].id != node_id by {
                        if k >= i {
                            assert(s[i as int].id <= s[k].id);
                        }
                    }
                }
                return node_id as u16;
            } else if node_id as u16 == id {
                proof {
                    assert(s[i as int].id == node_id);
                    assert(has_id(s, node_id as int));
                }
                node_id += 1;
            }
            i += 1;
        }
        node_id as u16
    }

    /// Whether `node_id` is the leader's id.
    pub fn is_leader(&self, node_id: u16) -> (r: bool)
        ensures
            r == (self.leader == Some(node_id)),
    {
        match self.leader {
            Some(leader_id) => leader_id == node_id,
            None => false,
        }
    }

    /// Sets the leader's id.
    pub fn set_leader(&mut self, leader_id: Option<u16>) -> (r: &mut Self)
        ensures
            r.leader == leader_id,
            r.current == old(self).current,
            r.nodes@ == old(self).nodes@,
            *final(self) == *final(r),
    {
        self.leader = leader_id;
        self
    }

    /// Sets the id of this process's own node.
    pub fn set_current(&mut self, current_id: u16) -> (r: &mut Self)
        ensures
            r.current == Some(current_id),
            r.leader == old(self).leader,
            r.nodes@ == old(self).nodes@,
            *final(self) == *final(r),
    {
        self.current = Some(current_id);
        self
    }

    /// Whether this process's own node is the leader.
    pub fn self_is_leader(&self) -> (r: bool)
        ensures
            r == (self.current.is_some() && self.leader == self.current),
    {
        match self.current {
            Some(current) => self.is_leader(current),
            None => false,
        }
    }

    /// A copy of all known nodes, in registry order.
    pub fn snapshot(&self) -> (r: Vec<Node>)
        ensures
            r@ == self.nodes@,
    {
        let mut r: Vec<Node> = Vec::new();
        let mut i: usize = 0;
        while i < self.nodes.len()
            invariant
                i <= self.nodes@.len(),
                r@ == self.nodes@.subrange(0, i as int),
            decreases self.nodes@.len() - i,
        {
            let n = self.nodes[i];
            r.push(n);
            i += 1;
            assert(r@ =~= self.nodes@.subrange(0, i as int));
        }
        assert(r@ =~= self.nodes@);
        r
    }

    /// Whether the nodes stand in ascending id order.
    pub fn is_well_formed(&self) -> (r: bool)
        ensures
            r == self.well_formed(),
    {
        let mut i: usize = 1;
        while i < self.nodes.len()
            invariant
                1 <= i,
                forall|a: int, b: int| 0 <= a <= b < i && b < self.nodes@.len() ==> self.nodes@[a].id <= self.nodes@[b].id,
            decreases self.nodes@.len() - i,
        {
            if self.nodes[i - 1].id > self.nodes[i].id {
                return false;
            }
            proof {
                assert forall|a: int, b: int| 0 <= a <= b < i + 1 && b < self.nodes@.len() implies self.nodes@[a].id
                    <= self.nodes@[b].id by {
                    if b == i && a < b {
                        assert(self.nodes@[a].id <= self.nodes@[i - 1].id);
                    }
                }
            }
            i += 1;
        }
        true
    }

    /// Whether some node has id `id` and is reached at `address`.
    pub fn contains_node(&self, id: u16, address: &Address) -> (r: bool)
        ensures
            r == has_node_at(self.nodes@, id, *address),
    {
        let mut i: usize = 0;
        while i < self.nodes.len()
            invariant
                i <= self.nodes@.len(),
                forall|k: int|
                    0 <= k < i ==> !(self.nodes@[k].id == id && self.nodes@[k].address == *address),
            decreases self.nodes@.len() - i,
        {
            if self.nodes[i].id == id && self.nodes[i].address == *address {
                return true;
            }
            i += 1;
        }
        false
    }
}

} // verus!
