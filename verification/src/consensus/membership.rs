//! Dynamic cluster membership: active, draining and decommissioned nodes.
use crate::consensus::engine::ids_view;
use crate::consensus::types::{duplicate_peers, ClusterConfig, NodeId, PeerEndpoint};
use vstd::prelude::*;

verus! {

/// Node lifecycle status.
#[derive(Debug, Clone, Copy, PartialEq, Eq, Structural)]
pub enum NodeStatus {
    /// Active member participating in consensus and shard hosting.
    Active,
    /// Draining member migrating coordinator shards before decommission.
    Draining,
    /// Fully decommissioned/offline node.
    Decommissioned,
}

/// Strictly increasing, hence free of repetitions.
pub open spec fn strictly_sorted(s: Seq<u64>) -> bool {
    forall|i: int, j: int| 0 <= i < j < s.len() ==> s[i] < s[j]
}

/// A set of node ids kept in strictly increasing order.
#[derive(Debug, Clone)]
pub struct NodeIdSet {
    ids: Vec<NodeId>,
}

impl NodeIdSet {
    /// The ids, in increasing order.
    pub closed spec fn seq(&self) -> Seq<u64> {
        ids_view(self.ids@)
    }

    /// The ids as a set.
    pub open spec fn set(&self) -> Set<u64> {
        self.seq().to_set()
    }

    /// Ordering invariant.
    pub closed spec fn wf(&self) -> bool {
        strictly_sorted(self.seq())
    }

    /// The empty set.
    pub fn new() -> (s: Self)
        ensures
            s.wf(),
            s.seq() == Seq::<u64>::empty(),
    {
        let s = NodeIdSet { ids: Vec::new() };
        assert(s.seq() =~= Seq::<u64>::empty());
        s
    }

    /// Position where `k` is or would be inserted.
    fn position(&self, k: NodeId) -> (r: (usize, bool))
        requires
            self.wf(),
        ensures
            r.0 <= self.seq().len(),
            forall|i: int| 0 <= i < r.0 ==> self.seq()[i] < k.0,
            r.1 ==> r.0 < self.seq().len() && self.seq()[r.0 as int] == k.0,
            !r.1 ==> forall|i: int| r.0 <= i < self.seq().len() ==> self.seq()[i] > k.0,
    {
        let mut i: usize = 0;
        while i < self.ids.len()
            invariant
                self.wf(),
                i <= self.ids@.len(),
                forall|j: int| 0 <= j < i ==> self.seq()[j] < k.0,
            decreases self.ids.len() - i,
        {
            if self.ids[i].0 == k.0 {
                return (i, true);
            }
            if self.ids[i].0 > k.0 {
                assert forall|j: int| i <= j < self.seq().len() implies self.seq()[j] > k.0 by {
                    if j > i {
                        assert(self.seq()[i as int] < self.seq()[j]);
                    }
                }
                return (i, false);
            }
            i = i + 1;
        }
        (i, false)
    }

    /// Whether `k` is in the set.
    pub fn contains(&self, k: NodeId) -> (r: bool)
        requires
            self.wf(),
        ensures
            r == self.set().contains(k.0),
    {
        let (_, found) = self.position(k);
        proof {
            if !found {
                assert(!self.seq().contains(k.0));
            }
        }
        found
    }

    /// Adds `k`.
    pub fn insert(&mut self, k: NodeId)
        requires
            old(self).wf(),
        ensures
            final(self).wf(),
            final(self).set() == old(self).set().insert(k.0),
    {
        let (p, found) = self.position(k);
        if !found {
            let ghost before = self.seq();
            self.ids.insert(p, k);
            assert(self.seq() =~= before.insert(p as int, k.0));
            assert(self.set() =~= old(self).set().insert(k.0)) by {
                assert forall|x: u64| self.seq().contains(x) implies old(self).set().insert(k.0).contains(x) by {
                    let j = choose|j: int| 0 <= j < self.seq().len() && self.seq()[j] == x;
                    if j < p {
                        assert(before[j] == x);
                    } else if j > p {
                        assert(before[j - 1] == x);
                    }
                }
                assert forall|x: u64| old(self).set().insert(k.0).contains(x) implies self.seq().contains(x) by {
                    if x == k.0 {
                        assert(self.seq()[p as int] == x);
                    } else {
                        let j = choose|j: int| 0 <= j < before.len() && before[j] == x;
                        if j < p {
                            assert(self.seq()[j] == x);
                        } else {
                            assert(self.seq()[j + 1] == x);
                        }
                    }
                }
            }
        } else {
            assert(old(self).set().insert(k.0) =~= old(self).set());
        }
    }

    /// Removes `k`.
    pub fn remove(&mut self, k: NodeId)
        requires
            old(self).wf(),
        ensures
            final(self).wf(),
            final(self).set() == old(self).set().remove(k.0),
    {
        let (p, found) = self.position(k);
        if found {
            let ghost before = self.seq();
            self.ids.remove(p);
            assert(self.seq() =~= before.remove(p as int));
            assert(self.set() =~= old(self).set().remove(k.0)) by {
                assert forall|x: u64| self.seq().contains(x) implies old(self).set().remove(k.0).contains(x) by {
                    let j = choose|j: int| 0 <= j < self.seq().len() && self.seq()[j] == x;
                    if j < p {
                        assert(before[j] == x);
                    } else {
                        assert(before[j + 1] == x);
                    }
                }
                assert forall|x: u64| old(self).set().remove(k.0).contains(x) implies self.seq().contains(x) by {
                    let j = choose|j: int| 0 <= j < before.len() && before[j] == x;
                    if j < p {
                        assert(self.seq()[j] == x);
                    } else {
                        assert(j != p);
                        assert(self.seq()[j - 1] == x);
                    }
                }
            }
        } else {
            assert(!old(self).seq().contains(k.0));
            assert(old(self).set().remove(k.0) =~= old(self).set());
        }
    }

    /// Number of ids.
    pub fn len(&self) -> (n: usize)
        requires
            self.wf(),
        ensures
            n == self.set().len(),
    {
        proof {
            assert(self.seq().no_duplicates());
            self.seq().unique_seq_to_set();
        }
        self.ids.len()
    }

    /// The ids in increasing order.
    pub fn to_vec(&self) -> (r: Vec<NodeId>)
        requires
            self.wf(),
        ensures
            ids_view(r@) == self.seq(),
            strictly_sorted(ids_view(r@)),
            ids_view(r@).to_set() == self.set(),
    {
        let r = self.ids.clone();
        assert(ids_view(r@) =~= self.seq());
        r
    }
}

/// Endpoints as (node, address) pairs.
pub open spec fn endpoints_view(v: Seq<PeerEndpoint>) -> Seq<(u64, Seq<char>)> {
    v.map_values(|p: PeerEndpoint| (p.node_id.0, p.address@))
}

/// Cluster membership manager tracking active, draining, and decommissioned nodes.
#[derive(Debug, Clone)]
pub struct MembershipManager {
    local_node_id: NodeId,
    active_members: NodeIdSet,
    draining_members: NodeIdSet,
    endpoints: Vec<PeerEndpoint>,
}

/// Mathematical state of the membership manager.
pub struct MembershipView {
    pub local: u64,
    pub active: Set<u64>,
    pub draining: Set<u64>,
    pub endpoints: Seq<(u64, Seq<char>)>,
}

impl View for MembershipManager {
    type V = MembershipView;

    closed spec fn view(&self) -> MembershipView {
        MembershipView {
            local: self.local_node_id.0,
            active: self.active_members.set(),
            draining: self.draining_members.set(),
            endpoints: endpoints_view(self.endpoints@),
        }
    }
}

/// Endpoints that do not name node `k`.
pub open spec fn other_than(k: u64) -> spec_fn((u64, Seq<char>)) -> bool {
    |e: (u64, Seq<char>)| e.0 != k
}

/// Whether some endpoint names node `k`.
pub open spec fn has_endpoint(e: Seq<(u64, Seq<char>)>, k: u64) -> bool {
    exists|i: int| 0 <= i < e.len() && e[i].0 == k
}

impl MembershipManager {
    /// Set invariants.
    pub closed spec fn wf(&self) -> bool {
        self.active_members.wf() && self.draining_members.wf()
    }

    /// Initialize membership manager from cluster configuration: the local node and
    /// every peer are active, none is draining, and the peers are the endpoints.
    pub fn new(config: &ClusterConfig) -> (m: Self)
        ensures
            m.wf(),
            m@.local == config.local_node_id.0,
            m@.active == crate::consensus::engine::peer_ids_view(*config).to_set().insert(
                config.local_node_id.0,
            ),
            m@.draining == Set::<u64>::empty(),
            m@.endpoints == endpoints_view(config.peers@),
    {
        let mut active_members = NodeIdSet::new();
        active_members.insert(config.local_node_id);
        let ghost ids = crate::consensus::engine::peer_ids_view(*config);
        let mut i: usize = 0;
        while i < config.peers.len()
            invariant
                i <= config.peers@.len(),
                active_members.wf(),
                ids == crate::consensus::engine::peer_ids_view(*config),
                active_members.set() == ids.subrange(0, i as int).to_set().insert(
                    config.local_node_id.0,
                ),
            decreases config.peers.len() - i,
        {
            active_members.insert(config.peers[i].node_id);
            proof {
                let pre = ids.subrange(0, i as int);
                let nxt = ids.subrange(0, i + 1);
                assert(nxt =~= pre.push(ids[i as int]));
                pre.lemma_push_to_set_commute(ids[i as int]);
                assert(nxt.to_set().insert(config.local_node_id.0) =~= pre.to_set().insert(
                    config.local_node_id.0,
                ).insert(ids[i as int]));
            }
            i = i + 1;
        }
        assert(ids.subrange(0, i as int) =~= ids);
        let draining_members = NodeIdSet::new();
        assert(draining_members.set() =~= Set::<u64>::empty());
        MembershipManager {
            local_node_id: config.local_node_id,
            active_members,
            draining_members,
            endpoints: duplicate_peers(&config.peers),
        }
    }

    /// Local node ID.
    pub fn local_node_id(&self) -> (r: NodeId)
        ensures
            r.0 == self@.local,
    {
        self.local_node_id
    }

    /// Add a new node to the active cluster membership: it becomes active, stops
    /// draining, and its endpoint is recorded unless one is already known for it.
    pub fn add_node(&mut self, node_id: NodeId, address: String)
        requires
            old(self).wf(),
        ensures
            final(self).wf(),
            final(self)@.local == old(self)@.local,
            final(self)@.active == old(self)@.active.insert(node_id.0),
            final(self)@.draining == old(self)@.draining.remove(node_id.0),
            final(self)@.endpoints == (if has_endpoint(old(self)@.endpoints, node_id.0) {
                old(self)@.endpoints
            } else {
                old(self)@.endpoints.push((node_id.0, address@))
            }),
    {
        self.active_members.insert(node_id);
        self.draining_members.remove(node_id);
        let mut found = false;
        let mut i: usize = 0;
        while i < self.endpoints.len()
            invariant
                i <= self.endpoints@.len(),
                found == exists|j: int| 0 <= j < i && self.endpoints@[j].node_id.0 == node_id.0,
            decreases self.endpoints.len() - i,
        {
            if self.endpoints[i].node_id.0 == node_id.0 {
                found = true;
            }
            i = i + 1;
        }
        proof {
            let e = endpoints_view(self.endpoints@);
            if found {
                let j = choose|j: int| 0 <= j < i && self.endpoints@[j].node_id.0 == node_id.0;
                assert(e[j].0 == node_id.0);
            } else {
                assert forall|j: int| 0 <= j < e.len() implies e[j].0 != node_id.0 by {
                    assert(self.endpoints@[j].node_id.0 != node_id.0);
                }
            }
        }
        if !found {
            let ghost before = self.endpoints@;
            self.endpoints.push(PeerEndpoint { node_id, address });
            assert(endpoints_view(self.endpoints@) =~= endpoints_view(before).push(
                (node_id.0, address@),
            ));
        }
    }

    /// Mark a node as draining; a node that is not active is left as it is.
    pub fn drain_node(&mut self, node_id: NodeId)
        requires
            old(self).wf(),
        ensures
            final(self).wf(),
            final(self)@ == (if old(self)@.active.contains(node_id.0) {
                MembershipView {
                    active: old(self)@.active.remove(node_id.0),
                    draining: old(self)@.draining.insert(node_id.0),
                    ..old(self)@
                }
            } else {
                old(self)@
            }),
            final(self)@.active.finite(),
            final(self)@.active.len() == if old(self)@.active.contains(node_id.0) {
                old(self)@.active.len() - 1
            } else {
                old(self)@.active.len() as int
            },
    {
        proof {
            vstd::seq_lib::seq_to_set_is_finite(self.active_members.seq());
        }
        if self.active_members.contains(node_id) {
            self.active_members.remove(node_id);
            self.draining_members.insert(node_id);
        }
        proof {
            vstd::seq_lib::seq_to_set_is_finite(self.active_members.seq());
        }
    }

    /// Remove a decommissioned node from cluster membership and drop its endpoints.
    pub fn remove_node(&mut self, node_id: NodeId)
        requires
            old(self).wf(),
        ensures
            final(self).wf(),
            final(self)@ == (MembershipView {
                active: old(self)@.active.remove(node_id.0),
                draining: old(self)@.draining.remove(node_id.0),
                endpoints: old(self)@.endpoints.filter(other_than(node_id.0)),
                ..old(self)@
            }),
    {
        self.active_members.remove(node_id);
        self.draining_members.remove(node_id);
        let ghost pred = other_than(node_id.0);
        let ghost old_e = endpoints_view(self.endpoints@);
        let mut kept: Vec<PeerEndpoint> = Vec::new();
        let mut i: usize = 0;
        while i < self.endpoints.len()
            invariant
                i <= self.endpoints@.len(),
                old_e == endpoints_view(self.endpoints@),
                pred == other_than(node_id.0),
                endpoints_view(kept@) == old_e.subrange(0, i as int).filter(pred),
            decreases self.endpoints.len() - i,
        {
            let ghost pre = old_e.subrange(0, i as int);
            assert(old_e.subrange(0, i + 1) =~= pre.push(old_e[i as int]));
            proof {
                pre.lemma_filter_push(old_e[i as int], pred);
                assert(old_e[i as int].0 == self.endpoints@[i as int].node_id.0);
                assert(pred(old_e[i as int]) == (self.endpoints@[i as int].node_id.0 != node_id.0));
            }
            if self.endpoints[i].node_id.0 != node_id.0 {
                let ghost before = kept@;
                kept.push(self.endpoints[i].duplicate());
                assert(endpoints_view(kept@) =~= endpoints_view(before).push(old_e[i as int]));
            }
            i = i + 1;
        }
        assert(old_e.subrange(0, i as int) =~= old_e);
        self.endpoints = kept;
    }

    /// Node status lookup.
    pub fn status_of(&self, node_id: NodeId) -> (r: NodeStatus)
        requires
            self.wf(),
        ensures
            r == (if self@.active.contains(node_id.0) {
                NodeStatus::Active
            } else if self@.draining.contains(node_id.0) {
                NodeStatus::Draining
            } else {
                NodeStatus::Decommissioned
            }),
    {
        if self.active_members.contains(node_id) {
            NodeStatus::Active
        } else if self.draining_members.contains(node_id) {
            NodeStatus::Draining
        } else {
            NodeStatus::Decommissioned
        }
    }

    /// Active member count.
    pub fn active_count(&self) -> (n: usize)
        requires
            self.wf(),
        ensures
            n == self@.active.len(),
    {
        self.active_members.len()
    }

    /// List of active member node IDs, in increasing order.
    pub fn active_nodes(&self) -> (r: Vec<NodeId>)
        requires
            self.wf(),
        ensures
            strictly_sorted(ids_view(r@)),
            ids_view(r@).to_set() == self@.active,
    {
        self.active_members.to_vec()
    }
}

} // verus!
