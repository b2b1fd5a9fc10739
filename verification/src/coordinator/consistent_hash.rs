//! Deterministic consistent hashing ring with virtual nodes: each physical node owns
//! a number of ring positions, and a consumer group maps to the first position at or
//! after the hash of its id, wrapping around to the smallest position.
use crate::consensus::types::NodeId;
use crate::coordinator::shard::ShardId;
use crate::digest::{xxh64_digest, xxhash64};
use crate::text::{decimal, lemma_decimal_reads_back, push_decimal, push_str};
use vstd::prelude::*;
use vstd::utf8::encode_utf8;

verus! {

/// Default virtual nodes per physical node for uniform shard distribution.
pub const DEFAULT_VNODES_PER_NODE: usize = 128;

/// Total logical shards distributed across cluster.
pub const TOTAL_SHARDS: u32 = 1024;

/// xxHash64, seed 0, of the UTF-8 bytes of a string.
pub open spec fn xxh64_text(s: Seq<char>) -> u64 {
    xxh64_digest(0, encode_utf8(s))
}

/// Hash helper: 64-bit xxHash (seed 0) of the key's UTF-8 bytes.
fn hash_key(key: &str) -> (h: u64)
    ensures
        h == xxh64_text(key@),
{
    xxhash64(0, key.as_bytes())
}

/// The key hashed for virtual node `v` of a physical node: `node_{id}_vnode_{v}`.
pub open spec fn vnode_key(node: u64, v: nat) -> Seq<char> {
    "node_"@ + decimal(node as nat) + "_vnode_"@ + decimal(v)
}

/// The shard of the virtual node at a running position over all nodes.
pub open spec fn shard_of(position: nat) -> ShardId {
    ShardId((position % 1024) as u32)
}

/// A ring position: where on the 64-bit ring, and the node and shard that own it.
pub type RingEntry = (u64, NodeId, ShardId);

/// `m` with virtual nodes `0..v` of the node at index `idx` inserted in order; a later
/// position with an equal hash replaces an earlier one.
pub open spec fn insert_vnodes(
    m: Map<u64, (NodeId, ShardId)>,
    node: NodeId,
    idx: nat,
    vn: nat,
    v: nat,
) -> Map<u64, (NodeId, ShardId)>
    decreases v,
{
    if v == 0 {
        m
    } else {
        let w = (v - 1) as nat;
        insert_vnodes(m, node, idx, vn, w).insert(
            xxh64_text(vnode_key(node.0, w)),
            (node, shard_of(idx * vn + w)),
        )
    }
}

/// The ring built from the physical nodes in order, `vn` virtual nodes each.
pub open spec fn ring_map(nodes: Seq<NodeId>, vn: nat) -> Map<u64, (NodeId, ShardId)>
    decreases nodes.len(),
{
    if nodes.len() == 0 {
        Map::empty()
    } else {
        insert_vnodes(
            ring_map(nodes.drop_last(), vn),
            nodes.last(),
            (nodes.len() - 1) as nat,
            vn,
            vn,
        )
    }
}

/// `k` is the position a hash `h` lands on: the smallest at or after `h`, or the
/// smallest of all when every position lies before `h`.
pub open spec fn picks(m: Map<u64, (NodeId, ShardId)>, h: u64, k: u64) -> bool {
    &&& m.contains_key(k)
    &&& {
        ||| (k >= h && forall|k2: u64| #[trigger] m.contains_key(k2) && k2 >= h ==> k <= k2)
        ||| ((forall|k2: u64| #[trigger] m.contains_key(k2) ==> k2 < h) && forall|k2: u64|
            #[trigger] m.contains_key(k2) ==> k <= k2)
    }
}

/// The group a hash lands on.
pub open spec fn ring_lookup(m: Map<u64, (NodeId, ShardId)>, h: u64) -> Option<(ShardId, NodeId)> {
    if m.dom() == Set::<u64>::empty() {
        None
    } else {
        let k = choose|k: u64| picks(m, h, k);
        Some((m[k].1, m[k].0))
    }
}

/// Ring positions in strictly increasing order.
pub open spec fn keys_increasing(s: Seq<RingEntry>) -> bool {
    forall|i: int, j: int| 0 <= i < j < s.len() ==> s[i].0 < s[j].0
}

/// The map held by a sequence of ring positions.
pub open spec fn entries_map(s: Seq<RingEntry>) -> Map<u64, (NodeId, ShardId)> {
    Map::new(
        |k: u64| exists|i: int| 0 <= i < s.len() && s[i].0 == k,
        |k: u64|
            {
                let i = choose|i: int| 0 <= i < s.len() && s[i].0 == k;
                (s[i].1, s[i].2)
            },
    )
}

proof fn lemma_entries_lookup(s: Seq<RingEntry>, i: int)
    requires
        keys_increasing(s),
        0 <= i < s.len(),
    ensures
        entries_map(s).contains_key(s[i].0),
        entries_map(s)[s[i].0] == (s[i].1, s[i].2),
{
    let k = s[i].0;
    assert(exists|j: int| 0 <= j < s.len() && s[j].0 == k);
    let j = choose|j: int| 0 <= j < s.len() && s[j].0 == k;
    if j < i {
        assert(s[j].0 < s[i].0);
    } else if j > i {
        assert(s[i].0 < s[j].0);
    }
}

/// Inserts one position into an increasing ring, replacing an equal key.
fn ring_insert(ring: &mut Vec<RingEntry>, k: u64, node: NodeId, shard: ShardId)
    requires
        keys_increasing(old(ring)@),
    ensures
        keys_increasing(final(ring)@),
        entries_map(final(ring)@) == entries_map(old(ring)@).insert(k, (node, shard)),
{
    let ghost s = ring@;
    let mut i: usize = 0;
    while i < ring.len() && ring[i].0 < k
        invariant
            ring@ == s,
            keys_increasing(s),
            i <= s.len(),
            forall|j: int| 0 <= j < i ==> s[j].0 < k,
        decreases s.len() - i,
    {
        i = i + 1;
    }
    let e: RingEntry = (k, node, shard);
    if i < ring.len() && ring[i].0 == k {
        ring.set(i, e);
        let ghost t = ring@;
        assert(t == s.update(i as int, e));
        assert(keys_increasing(t));
        assert forall|x: u64|
            #![trigger entries_map(t).contains_key(x)]
            entries_map(t).contains_key(x) <==> entries_map(s).insert(k, (node, shard)).contains_key(
                x,
            ) by {
            if x == k {
                lemma_entries_lookup(t, i as int);
            } else {
                if entries_map(s).contains_key(x) {
                    let j = choose|j: int| 0 <= j < s.len() && s[j].0 == x;
                    assert(t[j].0 == x);
                }
                if entries_map(t).contains_key(x) {
                    let j = choose|j: int| 0 <= j < t.len() && t[j].0 == x;
                    assert(s[j].0 == x);
                }
            }
        }
        assert forall|x: u64| #[trigger]
            entries_map(t).contains_key(x) implies entries_map(t)[x] == entries_map(s).insert(
            k,
            (node, shard),
        )[x] by {
            if x == k {
                lemma_entries_lookup(t, i as int);
            } else {
                let j = choose|j: int| 0 <= j < t.len() && t[j].0 == x;
                lemma_entries_lookup(t, j);
                lemma_entries_lookup(s, j);
            }
        }
        assert(entries_map(t) =~= entries_map(s).insert(k, (node, shard)));
    } else {
        ring.insert(i, e);
        let ghost t = ring@;
        assert(t == s.insert(i as int, e));
        assert forall|a: int, b: int| 0 <= a < b < t.len() implies t[a].0 < t[b].0 by {
            if b < i {
            } else if b == i {
            } else if a < i {
                assert(t[b] == s[b - 1]);
                assert(s[a].0 < k);
                assert(k <= s[i as int].0);
                if b - 1 > i {
                    assert(s[i as int].0 < s[b - 1].0);
                }
            } else if a == i {
                assert(t[b] == s[b - 1]);
                if b - 1 > i {
                    assert(s[i as int].0 < s[b - 1].0);
                }
            } else {
                assert(t[a] == s[a - 1]);
                assert(t[b] == s[b - 1]);
            }
        }
        assert forall|x: u64|
            #![trigger entries_map(t).contains_key(x)]
            entries_map(t).contains_key(x) <==> entries_map(s).insert(k, (node, shard)).contains_key(
                x,
            ) by {
            if x == k {
                lemma_entries_lookup(t, i as int);
            } else {
                if entries_map(s).contains_key(x) {
                    let j = choose|j: int| 0 <= j < s.len() && s[j].0 == x;
                    if j < i {
                        assert(t[j].0 == x);
                    } else {
                        assert(t[j + 1].0 == x);
                    }
                }
                if entries_map(t).contains_key(x) {
                    let j = choose|j: int| 0 <= j < t.len() && t[j].0 == x;
                    if j < i {
                        assert(s[j].0 == x);
                    } else {
                        assert(s[j - 1].0 == x);
                    }
                }
            }
        }
        assert forall|x: u64| #[trigger]
            entries_map(t).contains_key(x) implies entries_map(t)[x] == entries_map(s).insert(
            k,
            (node, shard),
        )[x] by {
            if x == k {
                lemma_entries_lookup(t, i as int);
            } else {
                let j = choose|j: int| 0 <= j < t.len() && t[j].0 == x;
                lemma_entries_lookup(t, j);
                if j < i {
                    lemma_entries_lookup(s, j);
                } else {
                    lemma_entries_lookup(s, j - 1);
                }
            }
        }
        assert(entries_map(t) =~= entries_map(s).insert(k, (node, shard)));
    }
}

/// Abstract state of a ring: virtual nodes per physical node, and the physical nodes
/// in the order they joined.
pub struct RingView {
    pub vnodes_per_node: nat,
    pub nodes: Seq<NodeId>,
}

impl RingView {
    /// The ring positions this state builds.
    pub open spec fn positions(self) -> Map<u64, (NodeId, ShardId)> {
        ring_map(self.nodes, self.vnodes_per_node)
    }
}

/// Consistent hashing ring mapping consumer groups to shards and nodes.
#[derive(Debug)]
pub struct ConsistentHashRing {
    vnodes_per_node: usize,
    ring: Vec<RingEntry>,
    nodes: Vec<NodeId>,
}

impl View for ConsistentHashRing {
    type V = RingView;

    closed spec fn view(&self) -> RingView {
        RingView { vnodes_per_node: self.vnodes_per_node as nat, nodes: self.nodes@ }
    }
}

impl ConsistentHashRing {
    /// The ring positions match the node list, nodes are distinct, and every running
    /// virtual node position fits in `usize`.
    pub closed spec fn wf(&self) -> bool {
        &&& keys_increasing(self.ring@)
        &&& entries_map(self.ring@) == ring_map(self.nodes@, self.vnodes_per_node as nat)
        &&& self.nodes@.no_duplicates()
        &&& self.nodes@.len() * self.vnodes_per_node <= usize::MAX
    }

    /// Create a new consistent hashing ring with custom vnodes per physical node.
    pub fn new(vnodes_per_node: usize) -> (r: Self)
        ensures
            r.wf(),
            r@.vnodes_per_node == vnodes_per_node,
            r@.nodes == Seq::<NodeId>::empty(),
    {
        let r = ConsistentHashRing { vnodes_per_node, ring: Vec::new(), nodes: Vec::new() };
        assert(entries_map(r.ring@) =~= Map::<u64, (NodeId, ShardId)>::empty());
        r
    }

    /// Position of a node in the node list.
    fn node_position(&self, node_id: NodeId) -> (r: Option<usize>)
        ensures
            match r {
                Some(i) => i < self@.nodes.len() && self@.nodes[i as int] == node_id,
                None => !self@.nodes.contains(node_id),
            },
    {
        let mut i: usize = 0;
        while i < self.nodes.len()
            invariant
                i <= self.nodes@.len(),
                forall|j: int| 0 <= j < i ==> self.nodes@[j] != node_id,
            decreases self.nodes.len() - i,
        {
            if self.nodes[i].0 == node_id.0 {
                return Some(i);
            }
            i = i + 1;
        }
        None
    }

    /// Add a physical node to the ring; a node already present changes nothing.
    pub fn add_node(&mut self, node_id: NodeId)
        requires
            old(self).wf(),
            old(self)@.nodes.contains(node_id) || (old(self)@.nodes.len() + 1)
                * old(self)@.vnodes_per_node <= usize::MAX,
        ensures
            final(self).wf(),
            final(self)@.vnodes_per_node == old(self)@.vnodes_per_node,
            final(self)@.nodes == if old(self)@.nodes.contains(node_id) {
                old(self)@.nodes
            } else {
                old(self)@.nodes.push(node_id)
            },
    {
        match self.node_position(node_id) {
            Some(_) => {},
            None => {
                self.nodes.push(node_id);
                assert(self.nodes@.no_duplicates()) by {
                    let s = self.nodes@;
                    assert forall|a: int, b: int| 0 <= a < s.len() && 0 <= b < s.len() && a != b
                        implies s[a] != s[b] by {
                        if b == s.len() - 1 {
                            assert(old(self)@.nodes.contains(s[a]));
                        } else if a == s.len() - 1 {
                            assert(old(self)@.nodes.contains(s[b]));
                        }
                    }
                }
                self.rebuild();
            },
        }
    }

    /// Remove a physical node from the ring; an absent node changes nothing.
    pub fn remove_node(&mut self, node_id: NodeId)
        requires
            old(self).wf(),
        ensures
            final(self).wf(),
            final(self)@.vnodes_per_node == old(self)@.vnodes_per_node,
            !final(self)@.nodes.contains(node_id),
            old(self)@.nodes.contains(node_id) ==> exists|i: int|
                0 <= i < old(self)@.nodes.len() && old(self)@.nodes[i] == node_id
                    && final(self)@.nodes == old(self)@.nodes.remove(i),
            !old(self)@.nodes.contains(node_id) ==> final(self)@.nodes == old(self)@.nodes,
    {
        match self.node_position(node_id) {
            Some(pos) => {
                let ghost s = self.nodes@;
                let ghost vn = self.vnodes_per_node as nat;
                self.nodes.remove(pos);
                assert(self.nodes@ == s.remove(pos as int));
                assert forall|a: int, b: int|
                    0 <= a < self.nodes@.len() && 0 <= b < self.nodes@.len() && a != b implies
                    self.nodes@[a] != self.nodes@[b] by {
                    let a2 = if a < pos { a } else { a + 1 };
                    let b2 = if b < pos { b } else { b + 1 };
                    assert(self.nodes@[a] == s[a2]);
                    assert(self.nodes@[b] == s[b2]);
                }
                assert(!self.nodes@.contains(node_id)) by {
                    if self.nodes@.contains(node_id) {
                        let j = choose|j: int| 0 <= j < self.nodes@.len() && self.nodes@[j] == node_id;
                        let j2 = if j < pos { j } else { j + 1 };
                        assert(s[j2] == node_id);
                    }
                }
                assert((s.len() - 1) * vn <= s.len() * vn) by (nonlinear_arith)
                    requires s.len() >= 1;
                self.rebuild();
            },
            None => {},
        }
    }

    /// Rebuild virtual node positions across the 64-bit ring.
    fn rebuild(&mut self)
        requires
            old(self).nodes@.no_duplicates(),
            old(self).nodes@.len() * old(self).vnodes_per_node <= usize::MAX,
        ensures
            final(self).wf(),
            final(self).nodes == old(self).nodes,
            final(self).vnodes_per_node == old(self).vnodes_per_node,
    {
        let n = self.nodes.len();
        let vn = self.vnodes_per_node;
        let ghost nodes = self.nodes@;
        let mut ring: Vec<RingEntry> = Vec::new();
        assert(entries_map(ring@) =~= Map::<u64, (NodeId, ShardId)>::empty());
        assert(nodes.take(0) =~= Seq::<NodeId>::empty());
        let mut idx: usize = 0;
        while idx < n
            invariant
                n == nodes.len(),
                nodes == self.nodes@,
                vn == self.vnodes_per_node,
                n * vn <= usize::MAX,
                idx <= n,
                keys_increasing(ring@),
                entries_map(ring@) == ring_map(nodes.take(idx as int), vn as nat),
            decreases n - idx,
        {
            let node = self.nodes[idx];
            let ghost before = ring_map(nodes.take(idx as int), vn as nat);
            let mut v: usize = 0;
            while v < vn
                invariant
                    n == nodes.len(),
                    nodes == self.nodes@,
                    vn == self.vnodes_per_node,
                    n * vn <= usize::MAX,
                    idx < n,
                    node == nodes[idx as int],
                    v <= vn,
                    keys_increasing(ring@),
                    entries_map(ring@) == insert_vnodes(before, node, idx as nat, vn as nat, v as nat),
                decreases vn - v,
            {
                let mut key = String::new();
                push_str(&mut key, "node_");
                push_decimal(&mut key, node.0);
                push_str(&mut key, "_vnode_");
                push_decimal(&mut key, v as u64);
                let h = hash_key(key.as_str());
                assert(idx * vn + v < n * vn) by (nonlinear_arith)
                    requires idx < n, v < vn;
                let position: usize = idx * vn + v;
                let shard = ShardId((position % 1024) as u32);
                ring_insert(&mut ring, h, node, shard);
                v = v + 1;
            }
            assert(nodes.take(idx as int + 1).drop_last() =~= nodes.take(idx as int));
            assert(nodes.take(idx as int + 1).last() == nodes[idx as int]);
            idx = idx + 1;
        }
        assert(nodes.take(n as int) =~= nodes);
        self.ring = ring;
    }

    /// Deterministically map a consumer group ID to its coordinator shard and physical
    /// node: the owner of the first ring position at or after the group's hash, wrapping
    /// around; `None` when the ring holds no position.
    pub fn map_group(&self, group_id: &str) -> (r: Option<(ShardId, NodeId)>)
        requires
            self.wf(),
        ensures
            r == ring_lookup(self@.positions(), xxh64_text(group_id@)),
            r is None <==> (self@.nodes.len() == 0 || self@.vnodes_per_node == 0),
            r matches Some((s, n)) ==> self@.nodes.contains(n) && s.0 < TOTAL_SHARDS,
    {
        let ghost m = self@.positions();
        proof {
            lemma_ring_owners(self.nodes@, self.vnodes_per_node as nat);
            lemma_ring_nonempty(self.nodes@, self.vnodes_per_node as nat);
        }
        if self.ring.len() == 0 {
            assert(m.dom() =~= Set::<u64>::empty());
            return None;
        }
        proof {
            lemma_entries_lookup(self.ring@, 0);
        }
        let h = hash_key(group_id);
        let ghost s = self.ring@;
        let mut i: usize = 0;
        while i < self.ring.len() && self.ring[i].0 < h
            invariant
                s == self.ring@,
                i <= s.len(),
                forall|j: int| 0 <= j < i ==> s[j].0 < h,
            decreases s.len() - i,
        {
            i = i + 1;
        }
        let j: usize = if i < self.ring.len() {
            i
        } else {
            0
        };
        let e = self.ring[j];
        proof {
            lemma_entries_lookup(s, j as int);
            assert(m.dom() != Set::<u64>::empty()) by {
                assert(m.dom().contains(e.0));
            }
            assert(picks(m, h, e.0)) by {
                assert forall|k2: u64| #[trigger] m.contains_key(k2) implies (i < s.len() && k2 >= h
                    ==> e.0 <= k2) && (i == s.len() ==> k2 < h && e.0 <= k2) by {
                    let q = choose|q: int| 0 <= q < s.len() && s[q].0 == k2;
                    if q > j {
                        assert(s[j as int].0 < s[q].0);
                    }
                }
            }
            let k = choose|k: u64| picks(m, h, k);
            lemma_picks_unique(m, h, k, e.0);
        }
        Some((e.2, e.1))
    }

    /// Total active nodes in ring.
    pub fn node_count(&self) -> (n: usize)
        ensures
            n == self@.nodes.len(),
    {
        self.nodes.len()
    }
}

impl Default for ConsistentHashRing {
    fn default() -> (r: Self)
        ensures
            r.wf(),
            r@.vnodes_per_node == DEFAULT_VNODES_PER_NODE,
            r@.nodes == Seq::<NodeId>::empty(),
    {
        Self::new(DEFAULT_VNODES_PER_NODE)
    }
}

proof fn lemma_picks_unique(m: Map<u64, (NodeId, ShardId)>, h: u64, a: u64, b: u64)
    requires
        picks(m, h, a),
        picks(m, h, b),
    ensures
        a == b,
{
}

proof fn lemma_insert_vnodes_owners(
    m: Map<u64, (NodeId, ShardId)>,
    nodes: Seq<NodeId>,
    node: NodeId,
    idx: nat,
    vn: nat,
    v: nat,
)
    requires
        nodes.contains(node),
        forall|k: u64| #[trigger] m.contains_key(k) ==> nodes.contains(m[k].0) && m[k].1.0 < 1024,
    ensures
        forall|k: u64| #[trigger] insert_vnodes(m, node, idx, vn, v).contains_key(k) ==> nodes.contains(
            insert_vnodes(m, node, idx, vn, v)[k].0,
        ) && insert_vnodes(m, node, idx, vn, v)[k].1.0 < 1024,
    decreases v,
{
    if v > 0 {
        let w = (v - 1) as nat;
        lemma_insert_vnodes_owners(m, nodes, node, idx, vn, w);
        let p = idx * vn + w;
        assert(p % 1024 < 1024);
        assert(shard_of(p).0 < 1024);
        let r = insert_vnodes(m, node, idx, vn, v);
        let prev = insert_vnodes(m, node, idx, vn, w);
        assert(r == prev.insert(xxh64_text(vnode_key(node.0, w)), (node, shard_of(p))));
        assert forall|k: u64| #[trigger] r.contains_key(k) implies nodes.contains(r[k].0) && r[k].1.0
            < 1024 by {
            if k != xxh64_text(vnode_key(node.0, w)) {
                assert(prev.contains_key(k));
            }
        }
    }
}

/// Every ring position is owned by one of the nodes, with a shard below the total.
proof fn lemma_ring_owners(nodes: Seq<NodeId>, vn: nat)
    ensures
        forall|k: u64| #[trigger] ring_map(nodes, vn).contains_key(k) ==> nodes.contains(
            ring_map(nodes, vn)[k].0,
        ) && ring_map(nodes, vn)[k].1.0 < 1024,
    decreases nodes.len(),
{
    if nodes.len() > 0 {
        let rest = nodes.drop_last();
        lemma_ring_owners(rest, vn);
        assert forall|k: u64| #[trigger] ring_map(rest, vn).contains_key(k) implies nodes.contains(
            ring_map(rest, vn)[k].0,
        ) && ring_map(rest, vn)[k].1.0 < 1024 by {
            let j = choose|j: int| 0 <= j < rest.len() && rest[j] == ring_map(rest, vn)[k].0;
            assert(nodes[j] == rest[j]);
        }
        assert(nodes[nodes.len() - 1] == nodes.last());
        lemma_insert_vnodes_owners(
            ring_map(rest, vn),
            nodes,
            nodes.last(),
            (nodes.len() - 1) as nat,
            vn,
            vn,
        );
    }
}

proof fn lemma_insert_vnodes_dom(
    m: Map<u64, (NodeId, ShardId)>,
    node: NodeId,
    idx: nat,
    vn: nat,
    v: nat,
)
    ensures
        v > 0 ==> insert_vnodes(m, node, idx, vn, v).dom() != Set::<u64>::empty(),
        v == 0 ==> insert_vnodes(m, node, idx, vn, v) == m,
        m.dom() != Set::<u64>::empty() ==> insert_vnodes(m, node, idx, vn, v).dom() != Set::<
            u64,
        >::empty(),
    decreases v,
{
    if v > 0 {
        let w = (v - 1) as nat;
        lemma_insert_vnodes_dom(m, node, idx, vn, w);
        let k = xxh64_text(vnode_key(node.0, w));
        assert(insert_vnodes(m, node, idx, vn, v).dom().contains(k));
    } else {
        if m.dom() != Set::<u64>::empty() {
            let k = m.dom().choose();
            assert(m.dom().contains(k)) by {
                assert(exists|x: u64| m.dom().contains(x)) by {
                    if forall|x: u64| !m.dom().contains(x) {
                        assert(m.dom() =~= Set::<u64>::empty());
                    }
                }
            }
        }
    }
}

/// The ring is empty exactly when there are no nodes or no virtual nodes per node.
proof fn lemma_ring_nonempty(nodes: Seq<NodeId>, vn: nat)
    ensures
        ring_map(nodes, vn).dom() == Set::<u64>::empty() <==> (nodes.len() == 0 || vn == 0),
    decreases nodes.len(),
{
    if nodes.len() == 0 {
        assert(ring_map(nodes, vn).dom() =~= Set::<u64>::empty());
    } else {
        let rest = nodes.drop_last();
        lemma_ring_nonempty(rest, vn);
        lemma_insert_vnodes_dom(ring_map(rest, vn), nodes.last(), (nodes.len() - 1) as nat, vn, vn);
    }
}

/// Once a node has left the ring, it owns no ring position, so no group maps to it.
pub proof fn law_removed_node_owns_nothing(nodes: Seq<NodeId>, vn: nat, i: int)
    requires
        nodes.no_duplicates(),
        0 <= i < nodes.len(),
    ensures
        forall|k: u64| #[trigger] ring_map(nodes.remove(i), vn).contains_key(k) ==> ring_map(
            nodes.remove(i),
            vn,
        )[k].0 != nodes[i],
{
    let rest = nodes.remove(i);
    lemma_ring_owners(rest, vn);
    assert forall|k: u64| #[trigger] ring_map(rest, vn).contains_key(k) implies ring_map(rest, vn)[k].0
        != nodes[i] by {
        let j = choose|j: int| 0 <= j < rest.len() && rest[j] == ring_map(rest, vn)[k].0;
        let j2 = if j < i { j } else { j + 1 };
        assert(rest[j] == nodes[j2]);
    }
}

/// Virtual node keys name their node and their number: two keys are equal only for the
/// same physical node and the same virtual node.
pub proof fn law_vnode_keys_distinct(n1: u64, v1: nat, n2: u64, v2: nat)
    ensures
        vnode_key(n1, v1) == vnode_key(n2, v2) ==> n1 == n2 && v1 == v2,
{
    if vnode_key(n1, v1) == vnode_key(n2, v2) {
        reveal_strlit("node_");
        reveal_strlit("_vnode_");
        lemma_decimal_reads_back(n1 as nat);
        lemma_decimal_reads_back(n2 as nat);
        lemma_decimal_reads_back(v1);
        lemma_decimal_reads_back(v2);
        let d1 = decimal(n1 as nat);
        let d2 = decimal(n2 as nat);
        let sep = "_vnode_"@;
        let a1 = d1 + sep + decimal(v1);
        let a2 = d2 + sep + decimal(v2);
        let k1 = vnode_key(n1, v1);
        let k2 = vnode_key(n2, v2);
        assert(k1 =~= "node_"@ + a1);
        assert(k2 =~= "node_"@ + a2);
        assert(a1 =~= k1.skip(5));
        assert(a2 =~= k2.skip(5));
        assert(a1 == a2);
        if d1.len() < d2.len() {
            assert(a1[d1.len() as int] == '_');
            assert(a2[d1.len() as int] == d2[d1.len() as int]);
        }
        if d2.len() < d1.len() {
            assert(a2[d2.len() as int] == '_');
            assert(a1[d2.len() as int] == d1[d2.len() as int]);
        }
        assert(d1.len() == d2.len());
        assert(d1 =~= a1.take(d1.len() as int));
        assert(d2 =~= a2.take(d2.len() as int));
        assert(decimal(v1) =~= a1.skip((d1.len() + 7) as int));
        assert(decimal(v2) =~= a2.skip((d2.len() + 7) as int));
    }
}

proof fn lemma_insert_vnodes_owns(
    m: Map<u64, (NodeId, ShardId)>,
    node: NodeId,
    idx: nat,
    vn: nat,
    v: nat,
)
    ensures
        forall|w: nat| w < v ==> #[trigger] insert_vnodes(m, node, idx, vn, v).contains_key(
            xxh64_text(vnode_key(node.0, w)),
        ) && insert_vnodes(m, node, idx, vn, v)[xxh64_text(vnode_key(node.0, w))].0 == node,
        forall|k: u64|
            #[trigger] m.contains_key(k) && (forall|w: nat| w < v ==> k != xxh64_text(vnode_key(node.0, w)))
                ==> insert_vnodes(m, node, idx, vn, v).contains_key(k) && insert_vnodes(m, node, idx, vn, v)[k]
                == m[k],
    decreases v,
{
    if v > 0 {
        let w0 = (v - 1) as nat;
        lemma_insert_vnodes_owns(m, node, idx, vn, w0);
        let prev = insert_vnodes(m, node, idx, vn, w0);
        let cur = insert_vnodes(m, node, idx, vn, v);
        assert(cur == prev.insert(xxh64_text(vnode_key(node.0, w0)), (node, shard_of(idx * vn + w0))));
        assert forall|w: nat| w < v implies #[trigger] cur.contains_key(xxh64_text(vnode_key(node.0, w)))
            && cur[xxh64_text(vnode_key(node.0, w))].0 == node by {
            if w < w0 {
                assert(prev.contains_key(xxh64_text(vnode_key(node.0, w))));
            }
        }
        assert forall|k: u64|
            #[trigger] m.contains_key(k) && (forall|w: nat| w < v ==> k != xxh64_text(vnode_key(node.0, w)))
                implies cur.contains_key(k) && cur[k] == m[k] by {
            assert(k != xxh64_text(vnode_key(node.0, w0)));
            assert forall|w: nat| w < w0 implies k != xxh64_text(vnode_key(node.0, w)) by {
                assert(w < v);
            }
        }
    }
}

/// When no two distinct virtual node keys of the ring's nodes hash alike, every physical
/// node of the ring owns each of its own virtual node positions: the position hashed from
/// `node_{id}_vnode_{v}` for `v < vn` is on the ring and belongs to that node. So with at
/// least one virtual node per node, each node owns ring positions and receives groups.
pub proof fn law_every_node_owns_its_positions(nodes: Seq<NodeId>, vn: nat)
    requires
        nodes.no_duplicates(),
        forall|i1: int, x: nat, i2: int, y: nat|
            0 <= i1 < nodes.len() && 0 <= i2 < nodes.len() && x < vn && y < vn && #[trigger] xxh64_text(
                vnode_key(nodes[i1].0, x),
            ) == #[trigger] xxh64_text(vnode_key(nodes[i2].0, y)) ==> vnode_key(nodes[i1].0, x) == vnode_key(
                nodes[i2].0,
                y,
            ),
    ensures
        forall|j: int, v: nat|
            0 <= j < nodes.len() && v < vn ==> #[trigger] ring_map(nodes, vn).contains_key(
                xxh64_text(vnode_key(nodes[j].0, v)),
            ) && ring_map(nodes, vn)[xxh64_text(vnode_key(nodes[j].0, v))].0 == nodes[j],
    decreases nodes.len(),
{
    if nodes.len() > 0 {
        let rest = nodes.drop_last();
        let last = nodes.last();
        assert(rest.no_duplicates()) by {
            assert forall|a: int, b: int| 0 <= a < rest.len() && 0 <= b < rest.len() && a != b implies rest[a]
                != rest[b] by {
                assert(rest[a] == nodes[a] && rest[b] == nodes[b]);
            }
        }
        assert forall|i1: int, x: nat, i2: int, y: nat|
            0 <= i1 < rest.len() && 0 <= i2 < rest.len() && x < vn && y < vn && #[trigger] xxh64_text(
                vnode_key(rest[i1].0, x),
            ) == #[trigger] xxh64_text(vnode_key(rest[i2].0, y)) implies vnode_key(rest[i1].0, x) == vnode_key(
                rest[i2].0,
                y,
            ) by {
            assert(rest[i1] == nodes[i1] && rest[i2] == nodes[i2]);
        }
        law_every_node_owns_its_positions(rest, vn);
        let m = ring_map(rest, vn);
        lemma_insert_vnodes_owns(m, last, (nodes.len() - 1) as nat, vn, vn);
        assert(ring_map(nodes, vn) == insert_vnodes(m, last, (nodes.len() - 1) as nat, vn, vn));
        assert forall|j: int, v: nat| 0 <= j < nodes.len() && v < vn implies #[trigger] ring_map(
            nodes,
            vn,
        ).contains_key(xxh64_text(vnode_key(nodes[j].0, v))) && ring_map(nodes, vn)[xxh64_text(
            vnode_key(nodes[j].0, v),
        )].0 == nodes[j] by {
            let full = insert_vnodes(m, last, (nodes.len() - 1) as nat, vn, vn);
            if j == nodes.len() - 1 {
                assert(nodes[j] == last);
                assert(full.contains_key(xxh64_text(vnode_key(last.0, v))));
            } else {
                let k = xxh64_text(vnode_key(nodes[j].0, v));
                assert(rest[j] == nodes[j]);
                assert(m.contains_key(xxh64_text(vnode_key(rest[j].0, v))));
                assert(m.contains_key(k) && m[k].0 == nodes[j]);
                assert(nodes[j] != last);
                assert forall|w: nat| w < vn implies k != xxh64_text(vnode_key(last.0, w)) by {
                    if k == xxh64_text(vnode_key(last.0, w)) {
                        assert(nodes[nodes.len() - 1] == last);
                        let jl = nodes.len() - 1;
                        assert(xxh64_text(vnode_key(nodes[j].0, v)) == xxh64_text(vnode_key(nodes[jl].0, w)));
                        assert(vnode_key(nodes[j].0, v) == vnode_key(nodes[jl].0, w));
                        law_vnode_keys_distinct(nodes[j].0, v, last.0, w);
                        assert(nodes[j] == nodes[jl]);
                    }
                }
                assert(full.contains_key(k) && full[k] == m[k]);
            }
        }
    }
}

} // verus!
