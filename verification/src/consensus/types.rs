//! Consensus identifiers, terms, log indices, replica roles and cluster topology.
use crate::text::{decimal, push_decimal, push_str};
use vstd::prelude::*;

verus! {

/// Unique numerical identifier for a cluster node.
#[derive(Debug, Clone, Copy, PartialEq, Eq, Structural, PartialOrd, Ord, Hash)]
pub struct NodeId(pub u64);

impl NodeId {
    /// Renders `Node-{id}`.
    pub fn to_string(&self) -> (s: String)
        ensures
            s@ == "Node-"@ + decimal(self.0 as nat),
    {
        let mut s = String::new();
        push_str(&mut s, "Node-");
        push_decimal(&mut s, self.0);
        s
    }
}

/// Monotonically increasing consensus term.
#[derive(Debug, Clone, Copy, PartialEq, Eq, Structural, PartialOrd, Ord, Hash)]
pub struct Term(pub u64);

impl Term {
    /// Advance term by one.
    pub fn next(self) -> (r: Self)
        requires
            self.0 < u64::MAX,
        ensures
            r.0 == self.0 + 1,
    {
        Term(self.0 + 1)
    }

    /// Renders `Term({n})`.
    pub fn to_string(&self) -> (s: String)
        ensures
            s@ == "Term("@ + decimal(self.0 as nat) + ")"@,
    {
        let mut s = String::new();
        push_str(&mut s, "Term(");
        push_decimal(&mut s, self.0);
        push_str(&mut s, ")");
        s
    }
}

/// 1-based log entry index in the Raft log.
#[derive(Debug, Clone, Copy, PartialEq, Eq, Structural, PartialOrd, Ord, Hash)]
pub struct LogIndex(pub u64);

impl LogIndex {
    /// Advance log index by one.
    pub fn next(self) -> (r: Self)
        requires
            self.0 < u64::MAX,
        ensures
            r.0 == self.0 + 1,
    {
        LogIndex(self.0 + 1)
    }

    /// Renders `Index({n})`.
    pub fn to_string(&self) -> (s: String)
        ensures
            s@ == "Index("@ + decimal(self.0 as nat) + ")"@,
    {
        let mut s = String::new();
        push_str(&mut s, "Index(");
        push_decimal(&mut s, self.0);
        push_str(&mut s, ")");
        s
    }
}

/// Raft replica state role.
#[derive(Debug, Clone, Copy, PartialEq, Eq, Structural)]
pub enum ReplicaRole {
    /// Follower accepting heartbeats and log replication from current leader.
    Follower,
    /// Candidate campaigning in leader election.
    Candidate,
    /// Quorum-elected leader coordinating log appends and heartbeats.
    Leader,
}

/// Upper-case text of a replica role.
pub open spec fn role_text(r: ReplicaRole) -> Seq<char> {
    match r {
        ReplicaRole::Follower => "FOLLOWER"@,
        ReplicaRole::Candidate => "CANDIDATE"@,
        ReplicaRole::Leader => "LEADER"@,
    }
}

impl ReplicaRole {
    /// Renders `FOLLOWER`, `CANDIDATE` or `LEADER`.
    pub fn to_string(&self) -> (s: String)
        ensures
            s@ == role_text(*self),
    {
        let mut s = String::new();
        match self {
            ReplicaRole::Follower => push_str(&mut s, "FOLLOWER"),
            ReplicaRole::Candidate => push_str(&mut s, "CANDIDATE"),
            ReplicaRole::Leader => push_str(&mut s, "LEADER"),
        }
        s
    }
}

/// Peer node network endpoint.
#[derive(Debug, Clone, PartialEq, Eq)]
pub struct PeerEndpoint {
    /// Target node ID.
    pub node_id: NodeId,
    /// Network address (host:port or in-mesh channel URI).
    pub address: String,
}

impl PeerEndpoint {
    /// An equal copy of this endpoint.
    pub fn duplicate(&self) -> (r: Self)
        ensures
            r == *self,
    {
        PeerEndpoint { node_id: self.node_id, address: self.address.clone() }
    }
}

/// An equal copy of a list of endpoints.
pub fn duplicate_peers(v: &Vec<PeerEndpoint>) -> (r: Vec<PeerEndpoint>)
    ensures
        r@ == v@,
{
    let mut r: Vec<PeerEndpoint> = Vec::new();
    let mut i: usize = 0;
    while i < v.len()
        invariant
            i <= v.len(),
            r@ == v@.subrange(0, i as int),
        decreases v.len() - i,
    {
        r.push(v[i].duplicate());
        i = i + 1;
        assert(r@ =~= v@.subrange(0, i as int));
    }
    assert(r@ =~= v@);
    r
}

/// Cluster configuration defining local node ID and peer topology.
#[derive(Debug, Clone)]
pub struct ClusterConfig {
    /// Local node ID.
    pub local_node_id: NodeId,
    /// Peer cluster nodes.
    pub peers: Vec<PeerEndpoint>,
    /// Minimum randomized election timeout in milliseconds.
    pub election_timeout_min_ms: u64,
    /// Maximum randomized election timeout in milliseconds.
    pub election_timeout_max_ms: u64,
    /// Leader heartbeat interval in milliseconds.
    pub heartbeat_interval_ms: u64,
}

/// The in-mesh address of a node: `mesh://node-{id}`.
pub open spec fn mesh_address(id: u64) -> Seq<char> {
    "mesh://node-"@ + decimal(id as nat)
}

/// Cluster size counting the local node.
pub open spec fn spec_total_nodes(peers: nat) -> nat {
    peers + 1
}

/// Strict majority of `n` members: floor(n/2) + 1.
pub open spec fn spec_quorum(n: nat) -> nat {
    n / 2 + 1
}

impl ClusterConfig {
    /// Create a standard 3-node cluster configuration.
    pub fn three_node(local_node_id: NodeId, peer_ids: [u64; 2]) -> (c: Self)
        ensures
            c.local_node_id == local_node_id,
            c.peers@.len() == 2,
            forall|i: int|
                0 <= i < 2 ==> (#[trigger] c.peers@[i]).node_id == NodeId(peer_ids@[i])
                    && c.peers@[i].address@ == mesh_address(peer_ids@[i]),
            c.election_timeout_min_ms == 150,
            c.election_timeout_max_ms == 300,
            c.heartbeat_interval_ms == 50,
    {
        let mut peers: Vec<PeerEndpoint> = Vec::new();
        let mut i: usize = 0;
        while i < 2
            invariant
                i <= 2,
                peer_ids@.len() == 2,
                peers@.len() == i,
                forall|j: int|
                    0 <= j < i ==> (#[trigger] peers@[j]).node_id == NodeId(peer_ids@[j])
                        && peers@[j].address@ == mesh_address(peer_ids@[j]),
            decreases 2 - i,
        {
            let id = peer_ids[i];
            let mut address = String::new();
            push_str(&mut address, "mesh://node-");
            push_decimal(&mut address, id);
            peers.push(PeerEndpoint { node_id: NodeId(id), address });
            i = i + 1;
        }
        ClusterConfig {
            local_node_id,
            peers,
            election_timeout_min_ms: 150,
            election_timeout_max_ms: 300,
            heartbeat_interval_ms: 50,
        }
    }

    /// Single node development configuration.
    pub fn single_node(local_node_id: NodeId) -> (c: Self)
        ensures
            c.local_node_id == local_node_id,
            c.peers@.len() == 0,
            c.election_timeout_min_ms == 150,
            c.election_timeout_max_ms == 300,
            c.heartbeat_interval_ms == 50,
    {
        ClusterConfig {
            local_node_id,
            peers: Vec::new(),
            election_timeout_min_ms: 150,
            election_timeout_max_ms: 300,
            heartbeat_interval_ms: 50,
        }
    }

    /// Total cluster size including local node.
    pub fn total_nodes(&self) -> (n: usize)
        requires
            self.peers@.len() < usize::MAX,
        ensures
            n == spec_total_nodes(self.peers@.len()),
    {
        self.peers.len() + 1
    }

    /// Quorum size: floor(N/2) + 1.
    pub fn quorum_size(&self) -> (q: usize)
        requires
            self.peers@.len() < usize::MAX,
        ensures
            q == spec_quorum(spec_total_nodes(self.peers@.len())),
    {
        (self.total_nodes() / 2) + 1
    }

    /// An equal copy of this configuration.
    pub fn duplicate(&self) -> (r: Self)
        ensures
            r.local_node_id == self.local_node_id,
            r.peers@ == self.peers@,
            r.election_timeout_min_ms == self.election_timeout_min_ms,
            r.election_timeout_max_ms == self.election_timeout_max_ms,
            r.heartbeat_interval_ms == self.heartbeat_interval_ms,
    {
        ClusterConfig {
            local_node_id: self.local_node_id,
            peers: duplicate_peers(&self.peers),
            election_timeout_min_ms: self.election_timeout_min_ms,
            election_timeout_max_ms: self.election_timeout_max_ms,
            heartbeat_interval_ms: self.heartbeat_interval_ms,
        }
    }
}

} // verus!
