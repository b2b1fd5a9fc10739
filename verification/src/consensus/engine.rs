//! Core Raft consensus state machine: elections, replication, commitment and snapshots.
use crate::consensus::log::{
    follows, law_append_replicated, replicate_all, LogPayload, LogPayloadView, RaftLog, RaftLogEntryView,
    RaftLogView,
};
use crate::consensus::rpc::{
    AppendEntriesRequest, AppendEntriesRequestView, AppendEntriesResponse,
    InstallSnapshotRequest, InstallSnapshotResponse, VoteRequest, VoteResponse,
};
use crate::consensus::types::{
    spec_quorum, spec_total_nodes, ClusterConfig, LogIndex, NodeId, ReplicaRole, Term,
};
use crate::error::KeiroxError;
use crate::text::{decimal, push_decimal, push_str};
use vstd::prelude::*;

verus! {

// ---------------------------------------------------------------------------------------
// Peer tables: association lists from node id to log index, one entry per node.
// ---------------------------------------------------------------------------------------

/// Position of node `k` in a table, or -1 when absent.
pub open spec fn table_pos(t: Seq<(u64, u64)>, k: u64) -> int
    decreases t.len(),
{
    if t.len() == 0 {
        -1
    } else if t.last().0 == k {
        t.len() - 1
    } else {
        table_pos(t.drop_last(), k)
    }
}

/// Index recorded for node `k`.
pub open spec fn table_lookup(t: Seq<(u64, u64)>, k: u64) -> Option<u64> {
    if table_pos(t, k) >= 0 {
        Some(t[table_pos(t, k)].1)
    } else {
        None
    }
}

/// Table with node `k` recorded at index `v` (replacing any earlier record).
pub open spec fn table_insert(t: Seq<(u64, u64)>, k: u64, v: u64) -> Seq<(u64, u64)> {
    if table_pos(t, k) >= 0 {
        t.update(table_pos(t, k), (k, v))
    } else {
        t.push((k, v))
    }
}

/// The indices recorded in a table.
pub open spec fn table_values(t: Seq<(u64, u64)>) -> Seq<u64> {
    t.map_values(|p: (u64, u64)| p.1)
}

/// No node occurs twice.
pub open spec fn keys_unique(t: Seq<(u64, u64)>) -> bool {
    forall|i: int, j: int| 0 <= i < j < t.len() ==> t[i].0 != t[j].0
}

/// No element occurs twice.
pub open spec fn ids_unique(s: Seq<u64>) -> bool {
    forall|i: int, j: int| 0 <= i < j < s.len() ==> s[i] != s[j]
}

proof fn lemma_table_pos(t: Seq<(u64, u64)>, k: u64)
    ensures
        -1 <= table_pos(t, k) < t.len(),
        table_pos(t, k) >= 0 ==> t[table_pos(t, k)].0 == k,
        table_pos(t, k) < 0 ==> forall|i: int| 0 <= i < t.len() ==> t[i].0 != k,
    decreases t.len(),
{
    if t.len() > 0 && t.last().0 != k {
        lemma_table_pos(t.drop_last(), k);
        assert forall|i: int| 0 <= i < t.len() && table_pos(t, k) < 0 implies t[i].0 != k by {
            if i < t.len() - 1 {
                assert(t.drop_last()[i] == t[i]);
            }
        }
    }
}

proof fn lemma_table_pos_unique(t: Seq<(u64, u64)>, k: u64, i: int)
    requires
        keys_unique(t),
        0 <= i < t.len(),
        t[i].0 == k,
    ensures
        table_pos(t, k) == i,
    decreases t.len(),
{
    if i < t.len() - 1 {
        assert(t.last().0 != k);
        lemma_table_pos_unique(t.drop_last(), k, i);
    }
}

fn table_find(t: &Vec<(NodeId, LogIndex)>, k: NodeId) -> (r: Option<usize>)
    requires
        keys_unique(table_view(t@)),
    ensures
        match r {
            Some(i) => i < t@.len() && table_pos(table_view(t@), k.0) == i,
            None => table_pos(table_view(t@), k.0) < 0,
        },
{
    let mut i: usize = 0;
    while i < t.len()
        invariant
            i <= t@.len(),
            keys_unique(table_view(t@)),
            forall|j: int| 0 <= j < i ==> (#[trigger] t@[j]).0.0 != k.0,
        decreases t.len() - i,
    {
        if t[i].0.0 == k.0 {
            proof {
                lemma_table_pos_unique(table_view(t@), k.0, i as int);
            }
            return Some(i);
        }
        i = i + 1;
    }
    proof {
        lemma_table_pos(table_view(t@), k.0);
        if table_pos(table_view(t@), k.0) >= 0 {
            let p = table_pos(table_view(t@), k.0);
            assert(t@[p].0.0 == k.0);
        }
    }
    None
}

fn table_get(t: &Vec<(NodeId, LogIndex)>, k: NodeId) -> (r: Option<LogIndex>)
    requires
        keys_unique(table_view(t@)),
    ensures
        match table_lookup(table_view(t@), k.0) {
            Some(v) => r == Some(LogIndex(v)),
            None => r is None,
        },
{
    match table_find(t, k) {
        Some(i) => Some(t[i].1),
        None => None,
    }
}

fn table_set(t: &mut Vec<(NodeId, LogIndex)>, k: NodeId, v: LogIndex)
    requires
        keys_unique(table_view(old(t)@)),
    ensures
        table_view(final(t)@) == table_insert(table_view(old(t)@), k.0, v.0),
        keys_unique(table_view(final(t)@)),
{
    proof {
        lemma_table_pos(table_view(t@), k.0);
    }
    match table_find(t, k) {
        Some(i) => {
            t.set(i, (k, v));
            assert(table_view(t@) =~= table_insert(table_view(old(t)@), k.0, v.0));
        },
        None => {
            t.push((k, v));
            assert(table_view(t@) =~= table_insert(table_view(old(t)@), k.0, v.0));
        },
    }
}

/// Table of node ids and indices as plain integers.
pub open spec fn table_view(t: Seq<(NodeId, LogIndex)>) -> Seq<(u64, u64)> {
    t.map_values(|p: (NodeId, LogIndex)| (p.0.0, p.1.0))
}

/// Node ids as plain integers.
pub open spec fn ids_view(t: Seq<NodeId>) -> Seq<u64> {
    t.map_values(|n: NodeId| n.0)
}

fn ids_contains(s: &Vec<NodeId>, k: NodeId) -> (r: bool)
    ensures
        r == ids_view(s@).contains(k.0),
{
    let mut i: usize = 0;
    while i < s.len()
        invariant
            i <= s@.len(),
            forall|j: int| 0 <= j < i ==> (#[trigger] s@[j]).0 != k.0,
        decreases s.len() - i,
    {
        if s[i].0 == k.0 {
            assert(ids_view(s@)[i as int] == k.0);
            return true;
        }
        i = i + 1;
    }
    assert(!ids_view(s@).contains(k.0)) by {
        if ids_view(s@).contains(k.0) {
            let j = choose|j: int| 0 <= j < ids_view(s@).len() && ids_view(s@)[j] == k.0;
            assert(s@[j].0 == k.0);
        }
    }
    false
}

// ---------------------------------------------------------------------------------------
// Quorum index: the highest value that at least `q` of the recorded indices reach.
// ---------------------------------------------------------------------------------------

/// How many elements of `s` are at least `v`.
pub open spec fn count_ge(s: Seq<u64>, v: u64) -> nat
    decreases s.len(),
{
    if s.len() == 0 {
        0
    } else {
        count_ge(s.drop_last(), v) + if s.last() >= v {
            1nat
        } else {
            0nat
        }
    }
}

/// `v` is an element reached by at least `q` elements and no larger element is.
/// This is the element at position `len - q` of `s` sorted ascending.
pub open spec fn is_quorum_value(s: Seq<u64>, q: nat, v: u64) -> bool {
    &&& s.contains(v)
    &&& count_ge(s, v) >= q
    &&& forall|w: u64| s.contains(w) && count_ge(s, w) >= q ==> w <= v
}

/// The `q`-th largest element of `s` (defined when `1 <= q <= s.len()`).
pub open spec fn quorum_value(s: Seq<u64>, q: nat) -> u64 {
    choose|v: u64| is_quorum_value(s, q, v)
}

proof fn lemma_quorum_value_unique(s: Seq<u64>, q: nat, v: u64)
    requires
        is_quorum_value(s, q, v),
    ensures
        quorum_value(s, q) == v,
{
    let c = quorum_value(s, q);
    assert(is_quorum_value(s, q, c));
}

proof fn lemma_count_ge_bound(s: Seq<u64>, v: u64)
    ensures
        count_ge(s, v) <= s.len(),
    decreases s.len(),
{
    if s.len() > 0 {
        lemma_count_ge_bound(s.drop_last(), v);
    }
}

/// The least element of a non-empty sequence is reached by all elements.
proof fn lemma_count_ge_min(s: Seq<u64>, v: u64)
    requires
        forall|i: int| 0 <= i < s.len() ==> s[i] >= v,
    ensures
        count_ge(s, v) == s.len(),
    decreases s.len(),
{
    if s.len() > 0 {
        lemma_count_ge_min(s.drop_last(), v);
    }
}

fn count_at_least(s: &Vec<u64>, v: u64) -> (c: usize)
    ensures
        c == count_ge(s@, v),
{
    let mut c: usize = 0;
    let mut j: usize = 0;
    while j < s.len()
        invariant
            j <= s@.len(),
            c == count_ge(s@.subrange(0, j as int), v),
            c <= j,
        decreases s.len() - j,
    {
        assert(s@.subrange(0, j + 1).drop_last() =~= s@.subrange(0, j as int));
        if s[j] >= v {
            c = c + 1;
        }
        j = j + 1;
    }
    assert(s@.subrange(0, j as int) =~= s@);
    c
}

/// Computes the `q`-th largest element of a non-empty list.
pub fn quorum_match_index(s: &Vec<u64>, q: usize) -> (r: u64)
    requires
        1 <= q <= s@.len(),
    ensures
        is_quorum_value(s@, q as nat, r),
        r == quorum_value(s@, q as nat),
{
    // the minimum is reached by every element, so some candidate always qualifies
    let mut min_i: usize = 0;
    let mut k: usize = 1;
    while k < s.len()
        invariant
            1 <= k <= s@.len(),
            min_i < s@.len(),
            forall|j: int| 0 <= j < k ==> s@[j] >= s@[min_i as int],
        decreases s.len() - k,
    {
        if s[k] < s[min_i] {
            min_i = k;
        }
        k = k + 1;
    }
    proof {
        lemma_count_ge_min(s@, s@[min_i as int]);
    }
    let mut best: u64 = s[min_i];
    let mut i: usize = 0;
    while i < s.len()
        invariant
            i <= s@.len(),
            s@.contains(best),
            count_ge(s@, best) >= q,
            forall|j: int| 0 <= j < i && count_ge(s@, s@[j]) >= q ==> s@[j] <= best,
        decreases s.len() - i,
    {
        let c = count_at_least(s, s[i]);
        if c >= q && s[i] > best {
            best = s[i];
        }
        i = i + 1;
    }
    assert forall|w: u64| s@.contains(w) && count_ge(s@, w) >= q implies w <= best by {
        let j = choose|j: int| 0 <= j < s@.len() && s@[j] == w;
        assert(count_ge(s@, s@[j]) >= q);
    }
    proof {
        lemma_quorum_value_unique(s@, q as nat, best);
    }
    best
}

// ---------------------------------------------------------------------------------------
// Engine state
// ---------------------------------------------------------------------------------------

/// Mathematical state of a Raft engine.
pub struct RaftEngineView {
    /// Local node.
    pub local: u64,
    /// Configured peers, in configuration order.
    pub peers: Seq<u64>,
    /// Current term.
    pub term: u64,
    /// Candidate voted for in the current term.
    pub voted_for: Option<u64>,
    /// Current role.
    pub role: ReplicaRole,
    /// Replicated log.
    pub log: RaftLogView,
    /// Leader tracking: next index to send to each peer.
    pub next_index: Seq<(u64, u64)>,
    /// Leader tracking: highest index known replicated on each node.
    pub match_index: Seq<(u64, u64)>,
    /// Votes granted in the current election.
    pub votes: Seq<u64>,
    /// Known leader.
    pub leader: Option<u64>,
}

impl RaftEngineView {
    /// Quorum size of the configured cluster.
    pub open spec fn quorum(self) -> nat {
        spec_quorum(spec_total_nodes(self.peers.len()))
    }

    /// State after stepping down to follower at `t`: votes, vote and leader are cleared.
    pub open spec fn stepped_down(self, t: u64) -> RaftEngineView {
        RaftEngineView {
            term: t,
            role: ReplicaRole::Follower,
            voted_for: None,
            votes: Seq::empty(),
            leader: None,
            ..self
        }
    }

    /// State after becoming leader: every peer's next index is set after the last entry,
    /// every peer's match index to zero, a no-op barrier is appended at the current term
    /// and the local match index is set to it.
    pub open spec fn became_leader(self) -> RaftEngineView {
        let next_idx = (self.log.last_log_index() + 1) as u64;
        let barrier = RaftLogEntryView {
            term: self.term,
            index: next_idx,
            payload: LogPayloadView::Noop,
        };
        RaftEngineView {
            role: ReplicaRole::Leader,
            leader: Some(self.local),
            next_index: set_all(self.next_index, self.peers, next_idx),
            match_index: table_insert(set_all(self.match_index, self.peers, 0), self.local, next_idx),
            log: RaftLogView { entries: self.log.entries.push(barrier), ..self.log },
            ..self
        }
    }
}

/// Table with every node of `ids` (in order) recorded at `v`.
pub open spec fn set_all(t: Seq<(u64, u64)>, ids: Seq<u64>, v: u64) -> Seq<(u64, u64)>
    decreases ids.len(),
{
    if ids.len() == 0 {
        t
    } else {
        table_insert(set_all(t, ids.drop_last(), v), ids.last(), v)
    }
}

/// Highest index known replicated on node `n`: its recorded match index, 0 before any.
pub open spec fn acked(t: Seq<(u64, u64)>, n: u64) -> u64 {
    match table_lookup(t, n) {
        Some(x) => x,
        None => 0,
    }
}

/// The acknowledgements a leader counts towards commitment, one per node: each
/// configured peer's match index, in configuration order, then the leader's own last
/// log index.
pub open spec fn ack_values(v: RaftEngineView) -> Seq<u64> {
    v.peers.map_values(|p: u64| acked(v.match_index, p)).push(v.log.last_log_index())
}

/// Peer ids of a configuration, in order.
pub open spec fn peer_ids_view(c: ClusterConfig) -> Seq<u64> {
    c.peers@.map_values(|p: crate::consensus::types::PeerEndpoint| p.node_id.0)
}

/// A candidate's log is at least as up to date as a voter's.
pub open spec fn log_up_to_date(req_last_term: u64, req_last_index: u64, last_term: u64, last_index: u64) -> bool {
    req_last_term > last_term || (req_last_term == last_term && req_last_index >= last_index)
}

/// Core Raft consensus state machine.
#[derive(Debug)]
pub struct RaftEngine {
    config: ClusterConfig,
    current_term: Term,
    voted_for: Option<NodeId>,
    role: ReplicaRole,
    log: RaftLog,
    next_index: Vec<(NodeId, LogIndex)>,
    match_index: Vec<(NodeId, LogIndex)>,
    votes_received: Vec<NodeId>,
    current_leader: Option<NodeId>,
}

/// A node id option as a plain integer option.
pub open spec fn opt_id(o: Option<NodeId>) -> Option<u64> {
    match o {
        Some(n) => Some(n.0),
        None => None,
    }
}

impl View for RaftEngine {
    type V = RaftEngineView;

    closed spec fn view(&self) -> RaftEngineView {
        RaftEngineView {
            local: self.config.local_node_id.0,
            peers: peer_ids_view(self.config),
            term: self.current_term.0,
            voted_for: opt_id(self.voted_for),
            role: self.role,
            log: self.log@,
            next_index: table_view(self.next_index@),
            match_index: table_view(self.match_index@),
            votes: ids_view(self.votes_received@),
            leader: opt_id(self.current_leader),
        }
    }
}

impl RaftEngine {
    /// Structural soundness: tables and the vote set hold each node once, and the
    /// configuration's size fits the machine.
    pub closed spec fn wf(&self) -> bool {
        &&& self.config.peers@.len() + 2 < usize::MAX
        &&& keys_unique(table_view(self.next_index@))
        &&& keys_unique(table_view(self.match_index@))
        &&& ids_unique(ids_view(self.votes_received@))
    }

    /// Initialize a new Raft consensus engine. A configuration without peers starts as
    /// leader of itself, otherwise as a follower with no known leader.
    pub fn new(config: ClusterConfig) -> (e: Self)
        requires
            config.peers@.len() + 2 < usize::MAX,
        ensures
            e.wf(),
            e@.local == config.local_node_id.0,
            e@.peers == peer_ids_view(config),
            e@.term == 0,
            e@.voted_for is None,
            e@.role == (if config.peers@.len() == 0 {
                ReplicaRole::Leader
            } else {
                ReplicaRole::Follower
            }),
            e@.leader == (if config.peers@.len() == 0 {
                Some(config.local_node_id.0)
            } else {
                None
            }),
            e@.log.entries.len() == 0,
            e@.log.snapshot_index == 0,
            e@.log.snapshot_term == 0,
            e@.log.commit_index == 0,
            e@.log.last_applied == 0,
            e@.next_index.len() == 0,
            e@.match_index.len() == 0,
            e@.votes.len() == 0,
    {
        let is_single = config.peers.len() == 0;
        let role = if is_single {
            ReplicaRole::Leader
        } else {
            ReplicaRole::Follower
        };
        let current_leader = if is_single {
            Some(config.local_node_id)
        } else {
            None
        };
        let e = RaftEngine {
            config,
            current_term: Term(0),
            voted_for: None,
            role,
            log: RaftLog::new(),
            next_index: Vec::new(),
            match_index: Vec::new(),
            votes_received: Vec::new(),
            current_leader,
        };
        assert(table_view(e.next_index@) =~= Seq::empty());
        assert(table_view(e.match_index@) =~= Seq::empty());
        assert(ids_view(e.votes_received@) =~= Seq::empty());
        e
    }

    /// Local node identifier.
    pub fn local_node_id(&self) -> (r: NodeId)
        ensures
            r.0 == self@.local,
    {
        self.config.local_node_id
    }

    /// List of configured peer node IDs.
    pub fn peer_ids(&self) -> (r: Vec<NodeId>)
        ensures
            ids_view(r@) == self@.peers,
    {
        let mut r: Vec<NodeId> = Vec::new();
        let mut i: usize = 0;
        while i < self.config.peers.len()
            invariant
                i <= self.config.peers@.len(),
                ids_view(r@) == peer_ids_view(self.config).subrange(0, i as int),
            decreases self.config.peers.len() - i,
        {
            let ghost prev = r@;
            r.push(self.config.peers[i].node_id);
            assert(ids_view(r@) =~= ids_view(prev).push(self.config.peers@[i as int].node_id.0));
            i = i + 1;
            assert(ids_view(r@) =~= peer_ids_view(self.config).subrange(0, i as int));
        }
        assert(peer_ids_view(self.config).subrange(0, i as int) =~= peer_ids_view(self.config));
        r
    }

    /// Current consensus term.
    pub fn current_term(&self) -> (r: Term)
        ensures
            r.0 == self@.term,
    {
        self.current_term
    }

    /// Current replica role.
    pub fn role(&self) -> (r: ReplicaRole)
        ensures
            r == self@.role,
    {
        self.role
    }

    /// Current known cluster leader.
    pub fn current_leader(&self) -> (r: Option<NodeId>)
        ensures
            opt_id(r) == self@.leader,
    {
        self.current_leader
    }

    /// Replicated log reference.
    pub fn log(&self) -> (r: &RaftLog)
        ensures
            r@ == self@.log,
    {
        &self.log
    }

    /// Mutable replicated log reference.
    pub fn log_mut(&mut self) -> (r: &mut RaftLog)
        ensures
            r@ == old(self)@.log,
            final(self)@ == (RaftEngineView { log: final(r)@, ..old(self)@ }),
            old(self).wf() ==> final(self).wf(),
    {
        &mut self.log
    }

    /// Commit index.
    pub fn commit_index(&self) -> (r: LogIndex)
        ensures
            r.0 == self@.log.commit_index,
    {
        self.log.commit_index()
    }

    /// True if this node is currently the quorum-elected leader.
    pub fn is_leader(&self) -> (r: bool)
        ensures
            r == (self@.role == ReplicaRole::Leader),
    {
        match self.role {
            ReplicaRole::Leader => true,
            _ => false,
        }
    }
}


/// Set of ids with `k` added.
pub open spec fn ids_insert(s: Seq<u64>, k: u64) -> Seq<u64> {
    if s.contains(k) {
        s
    } else {
        s.push(k)
    }
}

/// State after a vote response is handled: a newer term makes the node step down;
/// a granted vote in the node's own campaign is counted, and reaching the quorum makes
/// it leader. The boolean is whether it became leader.
pub open spec fn vote_response_outcome(v: RaftEngineView, from: u64, resp: VoteResponse) -> (
    RaftEngineView,
    bool,
) {
    if resp.term.0 > v.term {
        (v.stepped_down(resp.term.0), false)
    } else if v.role == ReplicaRole::Candidate && resp.term.0 == v.term && resp.vote_granted {
        let v1 = RaftEngineView { votes: ids_insert(v.votes, from), ..v };
        if v1.votes.len() >= v1.quorum() {
            (v1.became_leader(), true)
        } else {
            (v1, false)
        }
    } else {
        (v, false)
    }
}

/// State after a vote request is handled, and whether the vote is granted: a newer term
/// makes the node step down first; the vote goes to a candidate of the current term when
/// no other candidate got it and the candidate's log is at least as up to date.
pub open spec fn vote_request_outcome(v: RaftEngineView, req: VoteRequest) -> (RaftEngineView, bool) {
    let v1 = if req.term.0 > v.term {
        v.stepped_down(req.term.0)
    } else {
        v
    };
    if req.term.0 == v1.term && (v1.voted_for is None || v1.voted_for == Some(req.candidate_id.0))
        && log_up_to_date(
        req.last_log_term.0,
        req.last_log_index.0,
        v1.log.last_log_term(),
        v1.log.last_log_index(),
    ) {
        (RaftEngineView { voted_for: Some(req.candidate_id.0), ..v1 }, true)
    } else {
        (v1, false)
    }
}

/// State after an election starts: candidate of the next term voting for itself,
/// leader at once when its own vote is a quorum.
pub open spec fn election_outcome(v: RaftEngineView) -> RaftEngineView {
    let v1 = RaftEngineView {
        role: ReplicaRole::Candidate,
        term: (v.term + 1) as u64,
        voted_for: Some(v.local),
        votes: seq![v.local],
        leader: None,
        ..v
    };
    if 1 >= v1.quorum() {
        v1.became_leader()
    } else {
        v1
    }
}

/// State and response after an AppendEntries request: a newer term makes the node step
/// down; an older term is rejected; otherwise the sender becomes the known leader, a log
/// that lacks the entry at `prev_log_index` with `prev_log_term` rejects, and a matching
/// log takes the entries and advances its commit index to the leader's, bounded by its
/// last index. The response carries the term, the outcome and the last log index.
pub open spec fn append_entries_outcome(v: RaftEngineView, req: AppendEntriesRequestView) -> (
    RaftEngineView,
    (u64, bool, u64),
) {
    let v1 = if req.term > v.term {
        v.stepped_down(req.term)
    } else {
        v
    };
    if req.term < v1.term {
        (v1, (v1.term, false, v1.log.last_log_index()))
    } else {
        let v2 = RaftEngineView { role: ReplicaRole::Follower, leader: Some(req.leader_id), ..v1 };
        if req.prev_log_index > 0 && v2.log.term_at(req.prev_log_index) != Some(req.prev_log_term) {
            (v2, (v2.term, false, v2.log.last_log_index()))
        } else {
            let log1 = if req.prev_log_index > v2.log.last_log_index() {
                v2.log
            } else {
                RaftLogView {
                    entries: replicate_all(v2.log.entries, v2.log.snapshot_index, req.entries),
                    ..v2.log
                }
            };
            let log2 = if req.leader_commit > log1.commit_index {
                let target = if req.leader_commit < log1.last_log_index() {
                    req.leader_commit
                } else {
                    log1.last_log_index()
                };
                RaftLogView {
                    commit_index: if target > log1.commit_index {
                        target
                    } else {
                        log1.commit_index
                    },
                    ..log1
                }
            } else {
                log1
            };
            (RaftEngineView { log: log2, ..v2 }, (v2.term, true, log2.last_log_index()))
        }
    }
}

/// State after a follower's AppendEntries response: a newer term makes the leader step
/// down; responses are ignored unless the node leads in the response's term; success
/// records the follower's progress and commits the quorum index when it lies in the
/// current term; failure moves the follower's next index back by one (not below 1).
pub open spec fn append_response_outcome(v: RaftEngineView, from: u64, resp: AppendEntriesResponse) -> RaftEngineView {
    if resp.term.0 > v.term {
        v.stepped_down(resp.term.0)
    } else if v.role != ReplicaRole::Leader || resp.term.0 != v.term {
        v
    } else if resp.success {
        let v1 = RaftEngineView {
            next_index: table_insert(v.next_index, from, (resp.match_index.0 + 1) as u64),
            match_index: table_insert(v.match_index, from, resp.match_index.0),
            ..v
        };
        let target = quorum_value(ack_values(v1), v1.quorum());
        if target > v1.log.commit_index && v1.log.term_at(target) == Some(v1.term) {
            RaftEngineView { log: RaftLogView { commit_index: target, ..v1.log }, ..v1 }
        } else {
            v1
        }
    } else {
        match table_lookup(v.next_index, from) {
            Some(n) => if n > 1 {
                RaftEngineView { next_index: table_insert(v.next_index, from, (n - 1) as u64), ..v }
            } else {
                v
            },
            None => v,
        }
    }
}

/// State and response after an InstallSnapshot request: a newer term makes the node step
/// down; an older term is rejected; otherwise the sender becomes leader and a snapshot
/// beyond the commit index compacts the log and advances commit and applied indices.
pub open spec fn install_snapshot_outcome(
    v: RaftEngineView,
    term: u64,
    leader_id: u64,
    last_index: u64,
    last_term: u64,
) -> (RaftEngineView, (u64, bool)) {
    let v1 = if term > v.term {
        v.stepped_down(term)
    } else {
        v
    };
    if term < v1.term {
        (v1, (v1.term, false))
    } else {
        let v2 = RaftEngineView { role: ReplicaRole::Follower, leader: Some(leader_id), ..v1 };
        if last_index > v2.log.commit_index {
            let l = v2.log;
            let compacted = if last_index <= l.snapshot_index {
                l
            } else {
                let remove = last_index - l.snapshot_index;
                RaftLogView {
                    entries: if remove <= l.entries.len() {
                        l.entries.subrange(remove, l.entries.len() as int)
                    } else {
                        Seq::empty()
                    },
                    snapshot_index: last_index,
                    snapshot_term: last_term,
                    commit_index: if l.commit_index < last_index {
                        last_index
                    } else {
                        l.commit_index
                    },
                    last_applied: if l.last_applied < last_index {
                        last_index
                    } else {
                        l.last_applied
                    },
                }
            };
            let committed = RaftLogView {
                commit_index: if last_index > compacted.commit_index {
                    last_index
                } else {
                    compacted.commit_index
                },
                ..compacted
            };
            let applied = RaftLogView {
                last_applied: if last_index > committed.last_applied {
                    last_index
                } else {
                    committed.last_applied
                },
                ..committed
            };
            (RaftEngineView { log: applied, ..v2 }, (v2.term, true))
        } else {
            (v2, (v2.term, true))
        }
    }
}

/// The AppendEntries request a leader sends to peer `p`.
pub open spec fn request_for(v: RaftEngineView, p: u64) -> AppendEntriesRequestView {
    let next = match table_lookup(v.next_index, p) {
        Some(n) => n,
        None => (v.log.last_log_index() + 1) as u64,
    };
    let prev = if next > 0 {
        (next - 1) as u64
    } else {
        0
    };
    AppendEntriesRequestView {
        term: v.term,
        leader_id: v.local,
        prev_log_index: prev,
        prev_log_term: match v.log.term_at(prev) {
            Some(t) => t,
            None => 0,
        },
        entries: v.log.entries_from(next),
        leader_commit: v.log.commit_index,
    }
}

/// `Some(NodeId(n))` or `None`, as `{:?}` renders an optional node id.
pub open spec fn opt_node_debug(o: Option<u64>) -> Seq<char> {
    match o {
        Some(n) => "Some(NodeId("@ + decimal(n as nat) + "))"@,
        None => "None"@,
    }
}

fn push_opt_node_debug(s: &mut String, o: Option<NodeId>)
    ensures
        final(s)@ == old(s)@ + opt_node_debug(opt_id(o)),
{
    match o {
        Some(n) => {
            push_str(s, "Some(NodeId(");
            push_decimal(s, n.0);
            push_str(s, "))");
        },
        None => push_str(s, "None"),
    }
}

impl RaftEngine {
    fn ids_insert_exec(s: &mut Vec<NodeId>, k: NodeId)
        requires
            ids_unique(ids_view(old(s)@)),
        ensures
            ids_view(final(s)@) == ids_insert(ids_view(old(s)@), k.0),
            ids_unique(ids_view(final(s)@)),
    {
        if !ids_contains(s, k) {
            let ghost prev = s@;
            s.push(k);
            assert(ids_view(s@) =~= ids_view(prev).push(k.0));
        }
    }

    /// Step down to Follower role upon encountering a higher term.
    pub fn step_down_to_follower(&mut self, higher_term: Term)
        requires
            old(self).wf(),
        ensures
            final(self).wf(),
            final(self)@ == old(self)@.stepped_down(higher_term.0),
    {
        self.current_term = higher_term;
        self.role = ReplicaRole::Follower;
        self.voted_for = None;
        self.votes_received.clear();
        self.current_leader = None;
        assert(ids_view(self.votes_received@) =~= Seq::empty());
    }

    fn become_leader(&mut self)
        requires
            old(self).wf(),
            old(self)@.log.last_log_index() < u64::MAX,
        ensures
            final(self).wf(),
            final(self)@ == old(self)@.became_leader(),
    {
        let ghost v = self@;
        self.role = ReplicaRole::Leader;
        self.current_leader = Some(self.config.local_node_id);
        let next_idx = self.log.last_log_index().next();
        let mut i: usize = 0;
        while i < self.config.peers.len()
            invariant
                i <= self.config.peers@.len(),
                self.config == old(self).config,
                self.log == old(self).log,
                self.votes_received == old(self).votes_received,
                self.current_term == old(self).current_term,
                self.voted_for == old(self).voted_for,
                self.role == ReplicaRole::Leader,
                self.current_leader == Some(self.config.local_node_id),
                next_idx.0 == v.log.last_log_index() + 1,
                keys_unique(table_view(self.next_index@)),
                keys_unique(table_view(self.match_index@)),
                table_view(self.next_index@) == set_all(
                    v.next_index,
                    v.peers.subrange(0, i as int),
                    next_idx.0,
                ),
                table_view(self.match_index@) == set_all(
                    v.match_index,
                    v.peers.subrange(0, i as int),
                    0,
                ),
                v.peers == peer_ids_view(self.config),
            decreases self.config.peers.len() - i,
        {
            let id = self.config.peers[i].node_id;
            assert(v.peers.subrange(0, i + 1).drop_last() =~= v.peers.subrange(0, i as int));
            table_set(&mut self.next_index, id, next_idx);
            table_set(&mut self.match_index, id, LogIndex(0));
            i = i + 1;
        }
        assert(v.peers.subrange(0, i as int) =~= v.peers);
        let local = self.config.local_node_id;
        let last = self.log.last_log_index();
        table_set(&mut self.match_index, local, last);
        let barrier = self.log.append_new(self.current_term, LogPayload::Noop);
        let last2 = self.log.last_log_index();
        table_set(&mut self.match_index, local, last2);
        proof {
            lemma_insert_twice(
                set_all(v.match_index, v.peers, 0),
                v.local,
                v.log.last_log_index(),
                (v.log.last_log_index() + 1) as u64,
            );
        }
    }

    /// Propose a new payload to the Raft cluster (Leader only). A single-node cluster
    /// commits it at once.
    pub fn propose(&mut self, payload: LogPayload) -> (r: Result<LogIndex, KeiroxError>)
        requires
            old(self).wf(),
            old(self)@.log.last_log_index() < u64::MAX,
        ensures
            final(self).wf(),
            old(self)@.role != ReplicaRole::Leader ==> {
                &&& final(self)@ == old(self)@
                &&& r matches Err(KeiroxError::Consensus(m))
                &&& m@ == "Cannot propose to non-leader node (current leader: "@ + opt_node_debug(
                    old(self)@.leader,
                ) + ")"@
            },
            old(self)@.role == ReplicaRole::Leader ==> {
                let idx = (old(self)@.log.last_log_index() + 1) as u64;
                let log1 = RaftLogView {
                    entries: old(self)@.log.entries.push(
                        RaftLogEntryView { term: old(self)@.term, index: idx, payload: payload@ },
                    ),
                    ..old(self)@.log
                };
                &&& r == Ok::<LogIndex, KeiroxError>(LogIndex(idx))
                &&& final(self)@ == (RaftEngineView {
                    log: if old(self)@.peers.len() == 0 {
                        RaftLogView {
                            commit_index: if idx > log1.commit_index {
                                idx
                            } else {
                                log1.commit_index
                            },
                            ..log1
                        }
                    } else {
                        log1
                    },
                    match_index: table_insert(old(self)@.match_index, old(self)@.local, idx),
                    ..old(self)@
                })
            },
            old(self)@.log.positioned() ==> final(self)@.log.positioned(),
    {
        match self.role {
            ReplicaRole::Leader => {},
            _ => {
                let mut m = String::new();
                push_str(&mut m, "Cannot propose to non-leader node (current leader: ");
                push_opt_node_debug(&mut m, self.current_leader);
                push_str(&mut m, ")");
                return Err(KeiroxError::Consensus(m));
            },
        }
        let index = self.log.append_new(self.current_term, payload);
        table_set(&mut self.match_index, self.config.local_node_id, index);
        if self.config.peers.len() == 0 {
            self.log.set_commit_index(index);
        }
        Ok(index)
    }

    /// Transition to candidate and start leader election.
    pub fn start_election(&mut self) -> (r: VoteRequest)
        requires
            old(self).wf(),
            old(self)@.term < u64::MAX,
            old(self)@.log.last_log_index() < u64::MAX,
        ensures
            final(self).wf(),
            final(self)@ == election_outcome(old(self)@),
            r.term.0 == final(self)@.term,
            r.candidate_id.0 == old(self)@.local,
            r.last_log_index.0 == final(self)@.log.last_log_index(),
            r.last_log_term.0 == final(self)@.log.last_log_term(),
    {
        self.role = ReplicaRole::Candidate;
        self.current_term = self.current_term.next();
        self.voted_for = Some(self.config.local_node_id);
        self.votes_received.clear();
        self.votes_received.push(self.config.local_node_id);
        self.current_leader = None;
        assert(ids_view(self.votes_received@) =~= seq![self@.local]);
        if self.votes_received.len() >= self.config.quorum_size() {
            self.become_leader();
        }
        VoteRequest {
            term: self.current_term,
            candidate_id: self.config.local_node_id,
            last_log_index: self.log.last_log_index(),
            last_log_term: self.log.last_log_term(),
        }
    }

    /// Handle vote response from peer. Returns true if node transitioned to leader.
    pub fn handle_vote_response(&mut self, from: NodeId, resp: VoteResponse) -> (r: bool)
        requires
            old(self).wf(),
            old(self)@.log.last_log_index() < u64::MAX,
        ensures
            final(self).wf(),
            (final(self)@, r) == vote_response_outcome(old(self)@, from.0, resp),
    {
        if resp.term.0 > self.current_term.0 {
            self.step_down_to_follower(resp.term);
            return false;
        }
        let is_candidate = match self.role {
            ReplicaRole::Candidate => true,
            _ => false,
        };
        if is_candidate && resp.term.0 == self.current_term.0 && resp.vote_granted {
            Self::ids_insert_exec(&mut self.votes_received, from);
            if self.votes_received.len() >= self.config.quorum_size() {
                self.become_leader();
                return true;
            }
        }
        false
    }

    /// Handle RequestVote RPC from a candidate peer.
    pub fn handle_vote_request(&mut self, req: VoteRequest) -> (r: VoteResponse)
        requires
            old(self).wf(),
        ensures
            final(self).wf(),
            final(self)@ == vote_request_outcome(old(self)@, req).0,
            r.vote_granted == vote_request_outcome(old(self)@, req).1,
            r.term.0 == final(self)@.term,
    {
        if req.term.0 > self.current_term.0 {
            self.step_down_to_follower(req.term);
        }
        let mut vote_granted = false;
        let free = match self.voted_for {
            None => true,
            Some(c) => c.0 == req.candidate_id.0,
        };
        if req.term.0 == self.current_term.0 && free {
            let last_log_term = self.log.last_log_term();
            let last_log_index = self.log.last_log_index();
            let log_is_up_to_date = req.last_log_term.0 > last_log_term.0 || (req.last_log_term.0
                == last_log_term.0 && req.last_log_index.0 >= last_log_index.0);
            if log_is_up_to_date {
                vote_granted = true;
                self.voted_for = Some(req.candidate_id);
            }
        }
        VoteResponse { term: self.current_term, vote_granted }
    }

    /// Prepare AppendEntries requests for all peers (heartbeat or new entries); a node
    /// that is not leader prepares none.
    pub fn prepare_append_entries(&self) -> (r: Vec<(NodeId, AppendEntriesRequest)>)
        requires
            self.wf(),
            self@.log.last_log_index() < u64::MAX,
        ensures
            self@.role != ReplicaRole::Leader ==> r@.len() == 0,
            self@.role == ReplicaRole::Leader ==> {
                &&& r@.len() == self@.peers.len()
                &&& forall|i: int|
                    0 <= i < r@.len() ==> (#[trigger] r@[i]).0.0 == self@.peers[i] && r@[i].1@
                        == request_for(self@, self@.peers[i])
            },
    {
        let mut requests: Vec<(NodeId, AppendEntriesRequest)> = Vec::new();
        match self.role {
            ReplicaRole::Leader => {},
            _ => {
                return requests;
            },
        }
        let mut i: usize = 0;
        while i < self.config.peers.len()
            invariant
                self.wf(),
                self@.log.last_log_index() < u64::MAX,
                i <= self.config.peers@.len(),
                self@.peers == peer_ids_view(self.config),
                requests@.len() == i,
                forall|j: int|
                    0 <= j < i ==> (#[trigger] requests@[j]).0.0 == self@.peers[j] && requests@[j].1@
                        == request_for(self@, self@.peers[j]),
            decreases self.config.peers.len() - i,
        {
            let peer = self.config.peers[i].node_id;
            let next_idx = match table_get(&self.next_index, peer) {
                Some(n) => n,
                None => self.log.last_log_index().next(),
            };
            let prev_idx = LogIndex(if next_idx.0 > 0 { next_idx.0 - 1 } else { 0 });
            let prev_term = match self.log.term_at(prev_idx) {
                Some(t) => t,
                None => Term(0),
            };
            let entries = self.log.entries_from(next_idx);
            let req = AppendEntriesRequest {
                term: self.current_term,
                leader_id: self.config.local_node_id,
                prev_log_index: prev_idx,
                prev_log_term: prev_term,
                entries,
                leader_commit: self.log.commit_index(),
            };
            assert(req@ == request_for(self@, self@.peers[i as int]));
            requests.push((peer, req));
            i = i + 1;
        }
        requests
    }

    /// Handle AppendEntries RPC from leader.
    pub fn handle_append_entries(&mut self, req: AppendEntriesRequest) -> (r: AppendEntriesResponse)
        requires
            old(self).wf(),
        ensures
            final(self).wf(),
            final(self)@ == append_entries_outcome(old(self)@, req@).0,
            (r.term.0, r.success, r.match_index.0) == append_entries_outcome(old(self)@, req@).1,
    {
        if req.term.0 > self.current_term.0 {
            self.step_down_to_follower(req.term);
        }
        if req.term.0 < self.current_term.0 {
            return AppendEntriesResponse {
                term: self.current_term,
                success: false,
                match_index: self.log.last_log_index(),
            };
        }
        self.role = ReplicaRole::Follower;
        self.current_leader = Some(req.leader_id);
        if req.prev_log_index.0 > 0 {
            let consistent = match self.log.term_at(req.prev_log_index) {
                Some(term) => term.0 == req.prev_log_term.0,
                None => false,
            };
            if !consistent {
                return AppendEntriesResponse {
                    term: self.current_term,
                    success: false,
                    match_index: self.log.last_log_index(),
                };
            }
        }
        let leader_commit = req.leader_commit;
        self.log.append_replicated(req.prev_log_index, req.entries);
        if leader_commit.0 > self.log.commit_index().0 {
            let last = self.log.last_log_index();
            let new_commit = if leader_commit.0 < last.0 {
                leader_commit
            } else {
                last
            };
            self.log.set_commit_index(new_commit);
        }
        AppendEntriesResponse {
            term: self.current_term,
            success: true,
            match_index: self.log.last_log_index(),
        }
    }

    fn ack_values(&self) -> (r: Vec<u64>)
        requires
            self.wf(),
        ensures
            r@ == ack_values(self@),
    {
        let ghost acks = self@.peers.map_values(|p: u64| acked(self@.match_index, p));
        let mut r: Vec<u64> = Vec::new();
        let mut i: usize = 0;
        while i < self.config.peers.len()
            invariant
                self.wf(),
                acks == self@.peers.map_values(|p: u64| acked(self@.match_index, p)),
                i <= self.config.peers@.len(),
                r@ == acks.subrange(0, i as int),
            decreases self.config.peers.len() - i,
        {
            let v = match table_get(&self.match_index, self.config.peers[i].node_id) {
                Some(m) => m.0,
                None => 0,
            };
            r.push(v);
            i = i + 1;
            assert(r@ =~= acks.subrange(0, i as int));
        }
        assert(r@ =~= acks);
        r.push(self.log.last_log_index().0);
        r
    }

    /// Handle AppendEntries response from follower (Leader only).
    pub fn handle_append_response(&mut self, from: NodeId, resp: AppendEntriesResponse)
        requires
            old(self).wf(),
            resp.match_index.0 < u64::MAX,
        ensures
            final(self).wf(),
            final(self)@ == append_response_outcome(old(self)@, from.0, resp),
    {
        if resp.term.0 > self.current_term.0 {
            self.step_down_to_follower(resp.term);
            return;
        }
        let leading = match self.role {
            ReplicaRole::Leader => true,
            _ => false,
        };
        if !leading || resp.term.0 != self.current_term.0 {
            return;
        }
        if resp.success {
            table_set(&mut self.next_index, from, resp.match_index.next());
            table_set(&mut self.match_index, from, resp.match_index);
            let acks = self.ack_values();
            let quorum = self.config.quorum_size();
            let quorum_idx = quorum_match_index(&acks, quorum);
            let target_commit = LogIndex(quorum_idx);
            let in_term = match self.log.term_at(target_commit) {
                Some(t) => t.0 == self.current_term.0,
                None => false,
            };
            if target_commit.0 > self.log.commit_index().0 && in_term {
                self.log.set_commit_index(target_commit);
            }
        } else {
            match table_get(&self.next_index, from) {
                Some(n) => {
                    if n.0 > 1 {
                        table_set(&mut self.next_index, from, LogIndex(n.0 - 1));
                    }
                },
                None => {},
            }
        }
    }

    /// Handle InstallSnapshot RPC from leader.
    pub fn handle_install_snapshot(&mut self, req: InstallSnapshotRequest) -> (r: InstallSnapshotResponse)
        requires
            old(self).wf(),
        ensures
            final(self).wf(),
            final(self)@ == install_snapshot_outcome(
                old(self)@,
                req.term.0,
                req.leader_id.0,
                req.last_included_index.0,
                req.last_included_term.0,
            ).0,
            (r.term.0, r.success) == install_snapshot_outcome(
                old(self)@,
                req.term.0,
                req.leader_id.0,
                req.last_included_index.0,
                req.last_included_term.0,
            ).1,
    {
        if req.term.0 > self.current_term.0 {
            self.step_down_to_follower(req.term);
        }
        if req.term.0 < self.current_term.0 {
            return InstallSnapshotResponse { term: self.current_term, success: false };
        }
        self.role = ReplicaRole::Follower;
        self.current_leader = Some(req.leader_id);
        if req.last_included_index.0 > self.log.commit_index().0 {
            self.log.compact_to(req.last_included_index, req.last_included_term);
            self.log.set_commit_index(req.last_included_index);
            self.log.set_last_applied(req.last_included_index);
        }
        InstallSnapshotResponse { term: self.current_term, success: true }
    }
}

proof fn lemma_insert_twice(t: Seq<(u64, u64)>, k: u64, a: u64, b: u64)
    ensures
        table_insert(table_insert(t, k, a), k, b) == table_insert(t, k, b),
{
    lemma_table_pos(t, k);
    let t1 = table_insert(t, k, a);
    if table_pos(t, k) >= 0 {
        let p = table_pos(t, k);
        lemma_pos_update(t, k, p, (k, a));
        assert(table_insert(t1, k, b) =~= table_insert(t, k, b));
    } else {
        lemma_pos_push(t, k, a);
        assert(table_insert(t1, k, b) =~= table_insert(t, k, b));
    }
}

proof fn lemma_pos_update(t: Seq<(u64, u64)>, k: u64, p: int, x: (u64, u64))
    requires
        table_pos(t, k) == p,
        0 <= p < t.len(),
        x.0 == k,
    ensures
        table_pos(t.update(p, x), k) == p,
    decreases t.len(),
{
    if p < t.len() - 1 {
        assert(t.update(p, x).drop_last() =~= t.drop_last().update(p, x));
        lemma_pos_update(t.drop_last(), k, p, x);
    }
}

proof fn lemma_pos_push(t: Seq<(u64, u64)>, k: u64, a: u64)
    requires
        table_pos(t, k) < 0,
    ensures
        table_pos(t.push((k, a)), k) == t.len(),
{
    assert(t.push((k, a)).last().0 == k);
}

/// Terms never go backwards: every message handler and an election leave the node in
/// a term at least as high as before.
pub proof fn law_term_monotonic(
    v: RaftEngineView,
    from: u64,
    vresp: VoteResponse,
    vreq: VoteRequest,
    areq: AppendEntriesRequestView,
    aresp: AppendEntriesResponse,
    sterm: u64,
    sleader: u64,
    sidx: u64,
    sterm2: u64,
)
    requires
        v.term < u64::MAX,
    ensures
        vote_response_outcome(v, from, vresp).0.term >= v.term,
        vote_request_outcome(v, vreq).0.term >= v.term,
        append_entries_outcome(v, areq).0.term >= v.term,
        append_response_outcome(v, from, aresp).term >= v.term,
        install_snapshot_outcome(v, sterm, sleader, sidx, sterm2).0.term >= v.term,
        election_outcome(v).term == v.term + 1,
{
}

/// The commit index never goes backwards under AppendEntries, AppendEntries responses
/// and snapshot installation.
pub proof fn law_commit_monotonic(
    v: RaftEngineView,
    from: u64,
    areq: AppendEntriesRequestView,
    aresp: AppendEntriesResponse,
    sterm: u64,
    sleader: u64,
    sidx: u64,
    sterm2: u64,
)
    ensures
        append_entries_outcome(v, areq).0.log.commit_index >= v.log.commit_index,
        append_response_outcome(v, from, aresp).log.commit_index >= v.log.commit_index,
        install_snapshot_outcome(v, sterm, sleader, sidx, sterm2).0.log.commit_index
            >= v.log.commit_index,
{
}

/// A node votes for at most one candidate per term: once it has voted for `c` in term
/// `t`, a request from any other candidate in the same term is refused and the recorded
/// vote stays `c`.
pub proof fn law_one_vote_per_term(v: RaftEngineView, req: VoteRequest, c: u64)
    requires
        v.voted_for == Some(c),
        req.term.0 == v.term,
        req.candidate_id.0 != c,
    ensures
        !vote_request_outcome(v, req).1,
        vote_request_outcome(v, req).0.voted_for == Some(c),
{
}

/// A granted vote is recorded for exactly the requesting candidate in the request's term.
pub proof fn law_vote_granted_records_candidate(v: RaftEngineView, req: VoteRequest)
    requires
        vote_request_outcome(v, req).1,
    ensures
        vote_request_outcome(v, req).0.voted_for == Some(req.candidate_id.0),
        vote_request_outcome(v, req).0.term == req.term.0,
{
}

/// A leader advances its commit index only to an index whose entry lies in its current
/// term and that a quorum of acknowledgements reaches, the leader's own counted once.
pub proof fn law_leader_commits_current_term(v: RaftEngineView, from: u64, resp: AppendEntriesResponse)
    requires
        append_response_outcome(v, from, resp).log.commit_index != v.log.commit_index,
        resp.term.0 <= v.term,
    ensures
        ({
            let w = append_response_outcome(v, from, resp);
            &&& w.log.term_at(w.log.commit_index) == Some(v.term)
            &&& w.log.commit_index > v.log.commit_index
            &&& count_ge(ack_values(w), w.log.commit_index) >= w.quorum()
        }),
{
    let w = append_response_outcome(v, from, resp);
    let v1 = RaftEngineView {
        next_index: table_insert(v.next_index, from, (resp.match_index.0 + 1) as u64),
        match_index: table_insert(v.match_index, from, resp.match_index.0),
        ..v
    };
    let values = ack_values(v1);
    assert(ack_values(w) == values);
    lemma_quorum_value_exists(values, v1.quorum());
}

/// The index node `n` has acknowledged, as a leader counts it: its own last log index
/// for the leader, the recorded match index for any other node.
pub open spec fn node_ack(v: RaftEngineView, n: u64) -> u64 {
    if n == v.local {
        v.log.last_log_index()
    } else {
        acked(v.match_index, n)
    }
}

/// The nodes of the cluster (peers and leader) that have acknowledged index `c`.
pub open spec fn nodes_acked(v: RaftEngineView, c: u64) -> Set<u64> {
    Set::new(|n: u64| (n == v.local || v.peers.contains(n)) && node_ack(v, n) >= c)
}

/// In a cluster whose peers are distinct and exclude the leader, a commit index only
/// advances to an index that a strict majority of distinct nodes, the leader included,
/// has acknowledged: at least floor(N/2)+1 of the N nodes.
pub proof fn law_commit_has_majority(v: RaftEngineView, from: u64, resp: AppendEntriesResponse)
    requires
        append_response_outcome(v, from, resp).log.commit_index != v.log.commit_index,
        resp.term.0 <= v.term,
        v.peers.no_duplicates(),
        !v.peers.contains(v.local),
    ensures
        ({
            let w = append_response_outcome(v, from, resp);
            &&& nodes_acked(w, w.log.commit_index).finite()
            &&& nodes_acked(w, w.log.commit_index).len() >= spec_total_nodes(w.peers.len()) / 2 + 1
        }),
{
    law_leader_commits_current_term(v, from, resp);
    let w = append_response_outcome(v, from, resp);
    let c = w.log.commit_index;
    let nodes = w.peers.push(w.local);
    assert(nodes.no_duplicates()) by {
        assert forall|i: int, j: int| 0 <= i < nodes.len() && 0 <= j < nodes.len() && i != j implies nodes[i]
            != nodes[j] by {
            if i == nodes.len() - 1 {
                assert(w.peers.contains(nodes[j]));
            } else if j == nodes.len() - 1 {
                assert(w.peers.contains(nodes[i]));
            }
        }
    }
    let f = |n: u64| node_ack(w, n);
    assert(nodes.map_values(f) =~= ack_values(w)) by {
        assert forall|i: int| 0 <= i < w.peers.len() implies nodes.map_values(f)[i] == ack_values(w)[i] by {
            assert(w.peers.contains(w.peers[i]));
        }
    }
    lemma_count_distinct(nodes, f, c);
    assert(Set::new(|n: u64| nodes.contains(n) && f(n) >= c) =~= nodes_acked(w, c)) by {
        assert forall|n: u64| nodes.contains(n) <==> (n == w.local || w.peers.contains(n)) by {
            if w.peers.contains(n) {
                let k = choose|k: int| 0 <= k < w.peers.len() && w.peers[k] == n;
                assert(nodes[k] == n);
            }
            if nodes.contains(n) && n != w.local {
                let k = choose|k: int| 0 <= k < nodes.len() && nodes[k] == n;
                assert(w.peers[k] == n);
            }
            if n == w.local {
                assert(nodes[nodes.len() - 1] == n);
            }
        }
    }
}

/// Over distinct ids, the ids whose value reaches `c` are as many as the values that do.
proof fn lemma_count_distinct(ids: Seq<u64>, f: spec_fn(u64) -> u64, c: u64)
    requires
        ids.no_duplicates(),
    ensures
        Set::new(|n: u64| ids.contains(n) && f(n) >= c).finite(),
        Set::new(|n: u64| ids.contains(n) && f(n) >= c).len() == count_ge(ids.map_values(f), c),
    decreases ids.len(),
{
    let s = Set::new(|n: u64| ids.contains(n) && f(n) >= c);
    if ids.len() == 0 {
        assert(s =~= Set::<u64>::empty());
        assert(ids.map_values(f) =~= Seq::<u64>::empty());
    } else {
        let rest = ids.drop_last();
        let x = ids.last();
        assert(rest.no_duplicates()) by {
            assert forall|i: int, j: int| 0 <= i < rest.len() && 0 <= j < rest.len() && i != j implies rest[i]
                != rest[j] by {
                assert(rest[i] == ids[i] && rest[j] == ids[j]);
            }
        }
        lemma_count_distinct(rest, f, c);
        let s0 = Set::new(|n: u64| rest.contains(n) && f(n) >= c);
        assert(ids.map_values(f).drop_last() =~= rest.map_values(f));
        assert(ids.map_values(f).last() == f(x));
        assert(!rest.contains(x)) by {
            if rest.contains(x) {
                let k = choose|k: int| 0 <= k < rest.len() && rest[k] == x;
                assert(ids[k] == ids[ids.len() - 1]);
            }
        }
        assert forall|n: u64| ids.contains(n) <==> (rest.contains(n) || n == x) by {
            if ids.contains(n) && n != x {
                let k = choose|k: int| 0 <= k < ids.len() && ids[k] == n;
                assert(k != ids.len() - 1);
                assert(rest[k] == n);
            }
            if rest.contains(n) {
                let k = choose|k: int| 0 <= k < rest.len() && rest[k] == n;
                assert(ids[k] == n);
            }
            if n == x {
                assert(ids[ids.len() - 1] == n);
            }
        }
        if f(x) >= c {
            assert(s =~= s0.insert(x));
        } else {
            assert(s =~= s0);
        }
    }
}

proof fn lemma_quorum_value_exists(s: Seq<u64>, q: nat)
    requires
        1 <= q <= s.len(),
    ensures
        is_quorum_value(s, q, quorum_value(s, q)),
{
    let m = lemma_min_index(s, s.len() as int);
    lemma_count_ge_min(s, s[m]);
    let w = lemma_best_qualifying(s, q, s.len() as int, m);
    assert forall|x: u64| s.contains(x) && count_ge(s, x) >= q implies x <= w by {
        let j = choose|j: int| 0 <= j < s.len() && s[j] == x;
    }
    assert(is_quorum_value(s, q, w));
}

/// Position of a least element among the first `n`.
proof fn lemma_min_index(s: Seq<u64>, n: int) -> (m: int)
    requires
        1 <= n <= s.len(),
    ensures
        0 <= m < n,
        forall|j: int| 0 <= j < n ==> s[j] >= s[m],
    decreases n,
{
    if n == 1 {
        0
    } else {
        let m0 = lemma_min_index(s, n - 1);
        if s[n - 1] < s[m0] {
            n - 1
        } else {
            m0
        }
    }
}

/// Greatest element among the first `n` that at least `q` elements reach, given one
/// qualifying element `m` overall.
proof fn lemma_best_qualifying(s: Seq<u64>, q: nat, n: int, m: int) -> (w: u64)
    requires
        0 <= n <= s.len(),
        0 <= m < s.len(),
        count_ge(s, s[m]) >= q,
    ensures
        s.contains(w),
        count_ge(s, w) >= q,
        forall|j: int| 0 <= j < n && count_ge(s, s[j]) >= q ==> s[j] <= w,
        w >= s[m],
    decreases n,
{
    if n == 0 {
        s[m]
    } else {
        let w0 = lemma_best_qualifying(s, q, n - 1, m);
        if count_ge(s, s[n - 1]) >= q && s[n - 1] > w0 {
            s[n - 1]
        } else {
            w0
        }
    }
}

/// Becoming leader appends the barrier at the position after the last entry, so a log
/// whose entries sit at their positions keeps them so.
proof fn lemma_became_leader_positioned(v: RaftEngineView)
    requires
        v.log.positioned(),
        v.log.last_log_index() < u64::MAX,
    ensures
        v.became_leader().log.positioned(),
{
    let e = v.log.entries;
    if e.len() > 0 {
        assert(e[e.len() - 1].index == v.log.snapshot_index + e.len());
    }
    let t = v.became_leader().log.entries;
    assert forall|i: int| 0 <= i < t.len() implies #[trigger] t[i].index == v.log.snapshot_index + i + 1 by {
        if i < e.len() {
            assert(t[i] == e[i]);
        }
    }
}

/// Every handler keeps a log whose entries sit at the positions their indices name:
/// starting an election, counting a vote, answering a vote request, answering a
/// leader's AppendEntries whose entries follow its previous index, taking a follower's
/// reply, and installing a snapshot. (A leader whose entries skip indices is stored as
/// it is sent, and can break the positions.)
pub proof fn law_handlers_keep_log_positioned(
    v: RaftEngineView,
    from: u64,
    vote: VoteResponse,
    vreq: VoteRequest,
    areq: AppendEntriesRequestView,
    aresp: AppendEntriesResponse,
    term: u64,
    leader_id: u64,
    last_index: u64,
    last_term: u64,
)
    requires
        v.log.positioned(),
        v.log.last_log_index() < u64::MAX,
    ensures
        election_outcome(v).log.positioned(),
        vote_response_outcome(v, from, vote).0.log.positioned(),
        vote_request_outcome(v, vreq).0.log.positioned(),
        follows(areq.entries, areq.prev_log_index, v.log.snapshot_index) ==> append_entries_outcome(v, areq).0.log.positioned(),
        append_response_outcome(v, from, aresp).log.positioned(),
        install_snapshot_outcome(v, term, leader_id, last_index, last_term).0.log.positioned(),
{
    let v1 = RaftEngineView {
        role: ReplicaRole::Candidate,
        term: (v.term + 1) as u64,
        voted_for: Some(v.local),
        votes: seq![v.local],
        leader: None,
        ..v
    };
    lemma_became_leader_positioned(v1);
    let v2 = RaftEngineView { votes: ids_insert(v.votes, from), ..v };
    lemma_became_leader_positioned(v2);
    if follows(areq.entries, areq.prev_log_index, v.log.snapshot_index) {
        law_append_replicated(v.log, areq.prev_log_index, areq.entries);
    }
    let l = v.log;
    if last_index > l.snapshot_index {
        let remove = last_index - l.snapshot_index;
        if remove <= l.entries.len() {
            let r = l.entries.subrange(remove, l.entries.len() as int);
            assert forall|i: int| 0 <= i < r.len() implies #[trigger] r[i].index == last_index + i + 1 by {
                assert(r[i] == l.entries[remove + i]);
            }
        }
    }
}

/// A vote goes only to a candidate whose log is at least as up to date as the voter's:
/// its last log term is newer, or the same with a last index at least the voter's. A
/// candidate whose last log term is older than the voter's is refused whatever its last
/// index, and one with the same last term but a shorter log is refused too.
pub proof fn law_vote_needs_up_to_date_log(v: RaftEngineView, req: VoteRequest)
    ensures
        vote_request_outcome(v, req).1 ==> req.last_log_term.0 > v.log.last_log_term() || (
        req.last_log_term.0 == v.log.last_log_term() && req.last_log_index.0 >= v.log.last_log_index()),
        req.last_log_term.0 < v.log.last_log_term() ==> !vote_request_outcome(v, req).1,
        req.last_log_term.0 == v.log.last_log_term() && req.last_log_index.0 < v.log.last_log_index()
            ==> !vote_request_outcome(v, req).1,
{
}

} // verus!
