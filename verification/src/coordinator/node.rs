//! Coordinator node: routes consumer groups to the shards it hosts, issues epoch-fenced
//! lease tokens, fences acknowledgements by shard and epoch, and journals every lease
//! change per group. The consumer group state machines themselves are kept by the
//! caller; their answers come in as arguments.
use crate::consensus::log::LeaseDeltaRecord;
use crate::consensus::types::NodeId;
use crate::coordinator::consistent_hash::{ring_lookup, xxh64_text, ConsistentHashRing, RingView};
use crate::coordinator::epoch_fencing::{spec_pack, EpochFencedToken};
use crate::coordinator::lease_journal::LeaseJournal;
use crate::coordinator::shard::{CoordinatorEpoch, ShardId};
use crate::error::KeiroxError;
use crate::keyed::{
    lemma_pairs_absent, lemma_pairs_empty, lemma_pairs_lookup, lemma_pairs_push,
    lemma_pairs_update, pairs_map, pairs_unique,
};
use crate::text::{decimal, push_decimal, push_str, str_equal};
use vstd::prelude::*;

verus! {

/// Group journals of a shard, keyed by group id.
pub open spec fn journal_pairs(v: Seq<(String, LeaseJournal)>) -> Seq<(Seq<char>, Seq<LeaseDeltaRecord>)> {
    v.map_values(|e: (String, LeaseJournal)| (e.0@, e.1@))
}

/// A group's journal with one more delta; a group without a journal starts one.
pub open spec fn append_delta(
    m: Map<Seq<char>, Seq<LeaseDeltaRecord>>,
    g: Seq<char>,
    d: LeaseDeltaRecord,
) -> Map<Seq<char>, Seq<LeaseDeltaRecord>> {
    m.insert(
        g,
        if m.contains_key(g) {
            m[g]
        } else {
            Seq::<LeaseDeltaRecord>::empty()
        }.push(d),
    )
}

/// A coordinator shard hosted on this node: its id, epoch and per-group lease journals.
#[derive(Debug)]
pub struct ActiveShard {
    shard_id: ShardId,
    epoch: CoordinatorEpoch,
    journals: Vec<(String, LeaseJournal)>,
}

impl ActiveShard {
    /// Each group has at most one journal.
    pub closed spec fn wf(&self) -> bool {
        pairs_unique(journal_pairs(self.journals@))
    }

    /// Shard identifier.
    pub closed spec fn id_view(&self) -> ShardId {
        self.shard_id
    }

    /// Monotonic active epoch.
    pub closed spec fn epoch_view(&self) -> CoordinatorEpoch {
        self.epoch
    }

    /// The lease journals, by group id.
    pub closed spec fn journals(&self) -> Map<Seq<char>, Seq<LeaseDeltaRecord>> {
        pairs_map(journal_pairs(self.journals@))
    }

    /// A shard at an epoch, with no journals.
    pub fn new(shard_id: ShardId, epoch: CoordinatorEpoch) -> (s: Self)
        ensures
            s.wf(),
            s.id_view() == shard_id,
            s.epoch_view() == epoch,
            s.journals() == Map::<Seq<char>, Seq<LeaseDeltaRecord>>::empty(),
    {
        let s = ActiveShard { shard_id, epoch, journals: Vec::new() };
        proof {
            lemma_pairs_empty(journal_pairs(s.journals@));
        }
        s
    }

    /// Shard identifier.
    pub fn shard_id(&self) -> (r: ShardId)
        ensures
            r == self.id_view(),
    {
        self.shard_id
    }

    /// Monotonic active epoch.
    pub fn epoch(&self) -> (r: CoordinatorEpoch)
        ensures
            r == self.epoch_view(),
    {
        self.epoch
    }

    /// The lease journal of a group, if it has one.
    pub fn journal(&self, group_id: &str) -> (r: Option<&LeaseJournal>)
        requires
            self.wf(),
        ensures
            r is Some <==> self.journals().contains_key(group_id@),
            r matches Some(j) ==> j@ == self.journals()[group_id@],
    {
        let mut i: usize = 0;
        while i < self.journals.len()
            invariant
                self.wf(),
                i <= self.journals@.len(),
                forall|j: int| 0 <= j < i ==> self.journals@[j].0@ != group_id@,
            decreases self.journals.len() - i,
        {
            if str_equal(self.journals[i].0.as_str(), group_id) {
                proof {
                    lemma_pairs_lookup(journal_pairs(self.journals@), i as int);
                }
                return Some(&self.journals[i].1);
            }
            i = i + 1;
        }
        proof {
            lemma_pairs_absent(journal_pairs(self.journals@), group_id@);
        }
        None
    }

    /// Append a delta to a group's journal.
    fn record(&mut self, group_id: &str, delta: LeaseDeltaRecord)
        requires
            old(self).wf(),
        ensures
            final(self).wf(),
            final(self).id_view() == old(self).id_view(),
            final(self).epoch_view() == old(self).epoch_view(),
            final(self).journals() == append_delta(old(self).journals(), group_id@, delta),
    {
        let ghost before = self.journals@;
        let mut i: usize = 0;
        while i < self.journals.len()
            invariant
                self.journals@ == before,
                before == old(self).journals@,
                self.shard_id == old(self).shard_id,
                self.epoch == old(self).epoch,
                pairs_unique(journal_pairs(before)),
                i <= before.len(),
                forall|j: int| 0 <= j < i ==> before[j].0@ != group_id@,
            decreases self.journals.len() - i,
        {
            if str_equal(self.journals[i].0.as_str(), group_id) {
                let mut e = self.journals.remove(i);
                e.1.record(delta);
                self.journals.insert(i, e);
                proof {
                    let p = journal_pairs(before);
                    lemma_pairs_lookup(p, i as int);
                    lemma_pairs_update(p, i as int, before[i as int].1@.push(delta));
                    assert(journal_pairs(self.journals@) =~= p.update(
                        i as int,
                        (p[i as int].0, before[i as int].1@.push(delta)),
                    ));
                }
                return;
            }
            i = i + 1;
        }
        let mut name = String::new();
        push_str(&mut name, group_id);
        let mut journal = LeaseJournal::new();
        journal.record(delta);
        self.journals.push((name, journal));
        proof {
            let p = journal_pairs(before);
            lemma_pairs_absent(p, group_id@);
            lemma_pairs_push(p, group_id@, seq![delta]);
            assert(journal_pairs(self.journals@) =~= p.push((group_id@, seq![delta])));
            assert(Seq::<LeaseDeltaRecord>::empty().push(delta) =~= seq![delta]);
        }
    }
}

/// Abstract state of a hosted shard.
pub struct ShardState {
    /// Active epoch.
    pub epoch: CoordinatorEpoch,
    /// Lease journals by group id.
    pub journals: Map<Seq<char>, Seq<LeaseDeltaRecord>>,
}

/// Abstract state of a coordinator node.
pub struct NodeView {
    /// This node.
    pub local: NodeId,
    /// The hash ring groups are routed by.
    pub ring: RingView,
    /// Hosted shards.
    pub shards: Map<ShardId, ShardState>,
    /// Nonce of the next token issued.
    pub nonce: u32,
}

/// Hosted shards keyed by id.
pub open spec fn shard_pairs(v: Seq<ActiveShard>) -> Seq<(ShardId, ShardState)> {
    v.map_values(|s: ActiveShard| (s.id_view(), ShardState { epoch: s.epoch_view(), journals: s.journals() }))
}

/// The nonce after `n`, wrapping around.
pub open spec fn next_nonce(n: u32) -> u32 {
    if n == u32::MAX {
        0
    } else {
        (n + 1) as u32
    }
}

/// The shard and node a group is routed to.
pub open spec fn route(v: NodeView, group: Seq<char>) -> Option<(ShardId, NodeId)> {
    ring_lookup(v.ring.positions(), xxh64_text(group))
}

/// The token a lease of `offset` for `group` is issued under, when the group routes to a
/// shard that this node hosts.
pub open spec fn lease_token(v: NodeView, group: Seq<char>, offset: u64) -> Option<EpochFencedToken> {
    match route(v, group) {
        Some((s, n)) => if n == v.local && v.shards.contains_key(s) {
            Some(EpochFencedToken { shard_id: s, epoch: v.shards[s].epoch, offset, nonce: v.nonce })
        } else {
            None
        },
        None => None,
    }
}

/// A token is accepted when its shard is hosted here at the token's epoch.
pub open spec fn fence_ok(v: NodeView, t: EpochFencedToken) -> bool {
    v.shards.contains_key(t.shard_id) && v.shards[t.shard_id].epoch == t.epoch
}

/// The node with one more delta in a group journal of a hosted shard.
pub open spec fn with_delta(v: NodeView, s: ShardId, g: Seq<char>, d: LeaseDeltaRecord) -> NodeView {
    NodeView {
        shards: v.shards.insert(
            s,
            ShardState { epoch: v.shards[s].epoch, journals: append_delta(v.shards[s].journals, g, d) },
        ),
        ..v
    }
}

/// The node after a shard is taken over from `prior`: hosted afresh at the next epoch.
pub open spec fn taken_over(v: NodeView, s: ShardId, prior: CoordinatorEpoch) -> NodeView {
    NodeView {
        shards: v.shards.insert(
            s,
            ShardState {
                epoch: CoordinatorEpoch((prior.0 + 1) as u64),
                journals: Map::<Seq<char>, Seq<LeaseDeltaRecord>>::empty(),
            },
        ),
        ..v
    }
}

/// `Routing mismatch: group {g} maps to Node-{n}, but local node is Node-{l}`.
pub open spec fn routing_mismatch_text(g: Seq<char>, n: u64, l: u64) -> Seq<char> {
    "Routing mismatch: group "@ + g + " maps to Node-"@ + decimal(n as nat) + ", but local node is Node-"@
        + decimal(l as nat)
}

/// `Shard Shard-{s} not hosted on local node`.
pub open spec fn shard_absent_text(s: u32) -> Seq<char> {
    "Shard Shard-"@ + decimal(s as nat) + " not hosted on local node"@
}

/// `Shard Shard-{s} not hosted on local node (may have failed over)`.
pub open spec fn shard_moved_text(s: u32) -> Seq<char> {
    "Shard Shard-"@ + decimal(s as nat) + " not hosted on local node (may have failed over)"@
}

/// `Offset {o} cannot be leased: current state is {state}`.
pub open spec fn lease_refused_text(o: u64, state: Seq<char>) -> Seq<char> {
    "Offset "@ + decimal(o as nat) + " cannot be leased: current state is "@ + state
}

/// Coordinator node hosting assigned shards and routing consumer groups to them.
#[derive(Debug)]
pub struct CoordinatorNode {
    local_node_id: NodeId,
    hash_ring: ConsistentHashRing,
    shards: Vec<ActiveShard>,
    nonce_gen: u32,
}

impl View for CoordinatorNode {
    type V = NodeView;

    closed spec fn view(&self) -> NodeView {
        NodeView {
            local: self.local_node_id,
            ring: self.hash_ring@,
            shards: pairs_map(shard_pairs(self.shards@)),
            nonce: self.nonce_gen,
        }
    }
}

impl CoordinatorNode {
    /// The ring is well formed, shard ids are distinct and every shard is well formed.
    pub closed spec fn wf(&self) -> bool {
        &&& self.hash_ring.wf()
        &&& pairs_unique(shard_pairs(self.shards@))
        &&& forall|i: int| 0 <= i < self.shards@.len() ==> (#[trigger] self.shards@[i]).wf()
    }

    /// A node hosting no shard, routing by a hash ring; nonces start at 1000.
    pub fn new(local_node_id: NodeId, hash_ring: ConsistentHashRing) -> (r: Self)
        requires
            hash_ring.wf(),
        ensures
            r.wf(),
            r@ == (NodeView {
                local: local_node_id,
                ring: hash_ring@,
                shards: Map::<ShardId, ShardState>::empty(),
                nonce: 1000,
            }),
    {
        let r = CoordinatorNode { local_node_id, hash_ring, shards: Vec::new(), nonce_gen: 1000 };
        proof {
            lemma_pairs_empty(shard_pairs(r.shards@));
        }
        r
    }

    /// This node's id.
    pub fn local_node_id(&self) -> (r: NodeId)
        ensures
            r == self@.local,
    {
        self.local_node_id
    }

    fn find_shard(&self, shard_id: ShardId) -> (r: Option<usize>)
        requires
            self.wf(),
        ensures
            match r {
                Some(i) => i < self.shards@.len() && self.shards@[i as int].id_view() == shard_id
                    && self@.shards.contains_key(shard_id) && self@.shards[shard_id] == shard_pairs(
                    self.shards@,
                )[i as int].1,
                None => !self@.shards.contains_key(shard_id),
            },
    {
        let mut i: usize = 0;
        while i < self.shards.len()
            invariant
                self.wf(),
                i <= self.shards@.len(),
                forall|j: int| 0 <= j < i ==> self.shards@[j].id_view() != shard_id,
            decreases self.shards.len() - i,
        {
            if self.shards[i].shard_id().0 == shard_id.0 {
                proof {
                    lemma_pairs_lookup(shard_pairs(self.shards@), i as int);
                }
                return Some(i);
            }
            i = i + 1;
        }
        proof {
            lemma_pairs_absent(shard_pairs(self.shards@), shard_id);
        }
        None
    }

    /// Host a shard at an initial epoch, with no journals; a shard hosted before is
    /// replaced.
    pub fn host_shard(&mut self, shard_id: ShardId, initial_epoch: CoordinatorEpoch)
        requires
            old(self).wf(),
        ensures
            final(self).wf(),
            final(self)@ == (NodeView {
                shards: old(self)@.shards.insert(
                    shard_id,
                    ShardState { epoch: initial_epoch, journals: Map::<Seq<char>, Seq<LeaseDeltaRecord>>::empty() },
                ),
                ..old(self)@
            }),
    {
        self.install(ActiveShard::new(shard_id, initial_epoch));
    }

    fn install(&mut self, shard: ActiveShard)
        requires
            old(self).wf(),
            shard.wf(),
        ensures
            final(self).wf(),
            final(self)@ == (NodeView {
                shards: old(self)@.shards.insert(
                    shard.id_view(),
                    ShardState { epoch: shard.epoch_view(), journals: shard.journals() },
                ),
                ..old(self)@
            }),
    {
        let ghost before = self.shards@;
        let ghost entry = (shard.id_view(), ShardState { epoch: shard.epoch_view(), journals: shard.journals() });
        match self.find_shard(shard.shard_id()) {
            Some(i) => {
                self.shards.set(i, shard);
                proof {
                    let p = shard_pairs(before);
                    lemma_pairs_update(p, i as int, entry.1);
                    assert(shard_pairs(self.shards@) =~= p.update(i as int, (p[i as int].0, entry.1)));
                }
            },
            None => {
                self.shards.push(shard);
                proof {
                    let p = shard_pairs(before);
                    lemma_pairs_push(p, entry.0, entry.1);
                    assert(shard_pairs(self.shards@) =~= p.push(entry));
                }
            },
        }
        proof {
            assert forall|i: int| 0 <= i < self.shards@.len() implies (#[trigger] self.shards@[i]).wf() by {
                if i < before.len() && self.shards@[i] != shard {
                    assert(self.shards@[i] == before[i]);
                }
            }
        }
    }

    /// A hosted shard.
    pub fn shard(&self, shard_id: ShardId) -> (r: Option<&ActiveShard>)
        requires
            self.wf(),
        ensures
            r is Some <==> self@.shards.contains_key(shard_id),
            r matches Some(a) ==> a.wf() && a.id_view() == shard_id && a.epoch_view() == self@.shards[shard_id].epoch
                && a.journals() == self@.shards[shard_id].journals,
    {
        match self.find_shard(shard_id) {
            Some(i) => Some(&self.shards[i]),
            None => None,
        }
    }

    /// Whether this node hosts a shard.
    pub fn hosts_shard(&self, shard_id: ShardId) -> (r: bool)
        requires
            self.wf(),
        ensures
            r == self@.shards.contains_key(shard_id),
    {
        self.find_shard(shard_id).is_some()
    }

    /// The shard and node a consumer group maps to on the hash ring.
    pub fn resolve_shard_for_group(&self, group_id: &str) -> (r: Option<(ShardId, NodeId)>)
        requires
            self.wf(),
        ensures
            r == route(self@, group_id@),
    {
        self.hash_ring.map_group(group_id)
    }

    /// Append a delta to a group journal of hosted shard `i`.
    fn record_at(&mut self, i: usize, group_id: &str, delta: LeaseDeltaRecord)
        requires
            old(self).wf(),
            i < old(self).shards@.len(),
        ensures
            final(self).wf(),
            final(self)@ == with_delta(old(self)@, old(self).shards@[i as int].id_view(), group_id@, delta),
    {
        let ghost before = self.shards@;
        let ghost p = shard_pairs(before);
        proof {
            lemma_pairs_lookup(p, i as int);
        }
        let mut shard = self.shards.remove(i);
        shard.record(group_id, delta);
        let ghost entry = (shard.id_view(), ShardState { epoch: shard.epoch_view(), journals: shard.journals() });
        self.shards.insert(i, shard);
        proof {
            assert(self.shards@ =~= before.update(i as int, shard));
            lemma_pairs_update(p, i as int, entry.1);
            assert(shard_pairs(self.shards@) =~= p.update(i as int, (p[i as int].0, entry.1)));
            assert forall|j: int| 0 <= j < self.shards@.len() implies (#[trigger] self.shards@[j]).wf() by {
                if j != i {
                    assert(self.shards@[j] == before[j]);
                }
            }
        }
    }

    /// Issue a lease token for `offset` to a consumer group: the group must route to this
    /// node and to a shard it hosts. The token carries the shard's epoch and the next
    /// nonce, which then advances (wrapping); the lease deadline is `now_us` plus the
    /// time to live. The caller applies the lease to the group's state machine and hands
    /// its answer to `complete_lease`.
    pub fn issue_lease(&mut self, group_id: &str, offset: u64, ttl_ms: u64, now_us: u64) -> (r: Result<
        (EpochFencedToken, u64),
        KeiroxError,
    >)
        requires
            old(self).wf(),
            now_us + ttl_ms * 1000 <= u64::MAX,
        ensures
            final(self).wf(),
            match route(old(self)@, group_id@) {
                None => r matches Err(KeiroxError::Internal(m)) && m@ == "Hash ring is empty"@,
                Some((s, n)) => if n != old(self)@.local {
                    r matches Err(KeiroxError::Consensus(m)) && m@ == routing_mismatch_text(group_id@, n.0, old(self)@.local.0)
                } else if !old(self)@.shards.contains_key(s) {
                    r matches Err(KeiroxError::Consensus(m)) && m@ == shard_absent_text(s.0)
                } else {
                    true
                },
            },
            r is Err ==> final(self)@ == old(self)@,
            r is Ok <==> lease_token(old(self)@, group_id@, offset) is Some,
            r matches Ok((t, d)) ==> {
                &&& Some(t) == lease_token(old(self)@, group_id@, offset)
                &&& d == now_us + ttl_ms * 1000
                &&& final(self)@ == (NodeView { nonce: next_nonce(old(self)@.nonce), ..old(self)@ })
            },
    {
        let (shard_id, target_node) = match self.resolve_shard_for_group(group_id) {
            Some(p) => p,
            None => {
                let mut m = String::new();
                push_str(&mut m, "Hash ring is empty");
                return Err(KeiroxError::Internal(m));
            },
        };
        if target_node.0 != self.local_node_id.0 {
            let mut m = String::new();
            push_str(&mut m, "Routing mismatch: group ");
            push_str(&mut m, group_id);
            push_str(&mut m, " maps to Node-");
            push_decimal(&mut m, target_node.0);
            push_str(&mut m, ", but local node is Node-");
            push_decimal(&mut m, self.local_node_id.0);
            return Err(KeiroxError::Consensus(m));
        }
        let i = match self.find_shard(shard_id) {
            Some(i) => i,
            None => {
                let mut m = String::new();
                push_str(&mut m, "Shard Shard-");
                push_decimal(&mut m, shard_id.0 as u64);
                push_str(&mut m, " not hosted on local node");
                return Err(KeiroxError::Consensus(m));
            },
        };
        let deadline_us = now_us + ttl_ms * 1000;
        let nonce = self.nonce_gen;
        self.nonce_gen = if nonce == u32::MAX {
            0
        } else {
            nonce + 1
        };
        let token = EpochFencedToken::new(shard_id, self.shards[i].epoch(), offset, nonce);
        Ok((token, deadline_us))
    }

    /// Finish a lease issued by `issue_lease`, given whether the group's state machine
    /// took it (and, when it did not, the offset's current state as text): a refused
    /// lease is a lease conflict; a taken one is journaled as an acquisition with the
    /// token's packed form and its deadline, and its token is returned.
    pub fn complete_lease(
        &mut self,
        group_id: &str,
        token: EpochFencedToken,
        deadline_us: u64,
        leased: bool,
        current_state: &str,
    ) -> (r: Result<EpochFencedToken, KeiroxError>)
        requires
            old(self).wf(),
            old(self)@.shards.contains_key(token.shard_id),
        ensures
            final(self).wf(),
            !leased ==> final(self)@ == old(self)@ && (r matches Err(KeiroxError::LeaseConflict(m)) && m@
                == lease_refused_text(token.offset, current_state@)),
            leased ==> r == Ok::<EpochFencedToken, KeiroxError>(token) && final(self)@ == with_delta(
                old(self)@,
                token.shard_id,
                group_id@,
                LeaseDeltaRecord::Acquire {
                    offset: token.offset,
                    token: spec_pack(token.shard_id.0, token.epoch.0, token.nonce),
                    deadline_us,
                },
            ),
    {
        if !leased {
            let mut m = String::new();
            push_str(&mut m, "Offset ");
            push_decimal(&mut m, token.offset);
            push_str(&mut m, " cannot be leased: current state is ");
            push_str(&mut m, current_state);
            return Err(KeiroxError::LeaseConflict(m));
        }
        if let Some(i) = self.find_shard(token.shard_id) {
            let packed = token.to_u64();
            self.record_at(i, group_id, LeaseDeltaRecord::Acquire { offset: token.offset, token: packed, deadline_us });
        }
        Ok(token)
    }

    /// Fence a token presented with an acknowledgement: its shard must be hosted here
    /// (else the shard may have failed over), and the token must match that shard and its
    /// active epoch.
    pub fn fence_token(&self, token: EpochFencedToken) -> (r: Result<(), KeiroxError>)
        requires
            self.wf(),
        ensures
            r is Ok <==> fence_ok(self@, token),
            !self@.shards.contains_key(token.shard_id) ==> (r matches Err(KeiroxError::Consensus(m))
                && m@ == shard_moved_text(token.shard_id.0)),
            self@.shards.contains_key(token.shard_id) && self@.shards[token.shard_id].epoch.0 > token.epoch.0
                ==> r matches Err(KeiroxError::EpochFenced(_)),
            self@.shards.contains_key(token.shard_id) && self@.shards[token.shard_id].epoch.0 < token.epoch.0
                ==> r matches Err(KeiroxError::EpochFenced(_)),
    {
        match self.find_shard(token.shard_id) {
            Some(i) => token.validate(self.shards[i].shard_id(), self.shards[i].epoch()),
            None => {
                let mut m = String::new();
                push_str(&mut m, "Shard Shard-");
                push_decimal(&mut m, token.shard_id.0 as u64);
                push_str(&mut m, " not hosted on local node (may have failed over)");
                Err(KeiroxError::Consensus(m))
            },
        }
    }

    /// Finish an acknowledgement that passed `fence_token`, given the group state
    /// machine's answer: an error is returned as it is; an accepted one is journaled.
    pub fn record_ack(&mut self, group_id: &str, token: EpochFencedToken, acked: Result<(), KeiroxError>) -> (r:
        Result<(), KeiroxError>)
        requires
            old(self).wf(),
            old(self)@.shards.contains_key(token.shard_id),
        ensures
            final(self).wf(),
            r == acked,
            acked is Err ==> final(self)@ == old(self)@,
            acked is Ok ==> final(self)@ == with_delta(
                old(self)@,
                token.shard_id,
                group_id@,
                LeaseDeltaRecord::Ack {
                    offset: token.offset,
                    token: spec_pack(token.shard_id.0, token.epoch.0, token.nonce),
                },
            ),
    {
        if acked.is_err() {
            return acked;
        }
        if let Some(i) = self.find_shard(token.shard_id) {
            let packed = token.to_u64();
            self.record_at(i, group_id, LeaseDeltaRecord::Ack { offset: token.offset, token: packed });
        }
        acked
    }

    /// Journal a negative acknowledgement that passed `fence_token`.
    pub fn record_nack(&mut self, group_id: &str, token: EpochFencedToken)
        requires
            old(self).wf(),
            old(self)@.shards.contains_key(token.shard_id),
        ensures
            final(self).wf(),
            final(self)@ == with_delta(
                old(self)@,
                token.shard_id,
                group_id@,
                LeaseDeltaRecord::Nack { offset: token.offset },
            ),
    {
        if let Some(i) = self.find_shard(token.shard_id) {
            self.record_at(i, group_id, LeaseDeltaRecord::Nack { offset: token.offset });
        }
    }

    /// Take over a shard after a failover from `prior_epoch`: the shard is hosted afresh
    /// at the next epoch, which is returned. The group states restored from snapshots and
    /// journal deltas are kept by the caller.
    pub fn take_over_shard(&mut self, shard_id: ShardId, prior_epoch: CoordinatorEpoch) -> (e: CoordinatorEpoch)
        requires
            old(self).wf(),
            prior_epoch.0 < u64::MAX,
        ensures
            final(self).wf(),
            e.0 == prior_epoch.0 + 1,
            final(self)@ == taken_over(old(self)@, shard_id, prior_epoch),
    {
        let new_epoch = prior_epoch.next();
        self.install(ActiveShard::new(shard_id, new_epoch));
        new_epoch
    }
}

/// A token issued for a lease stays accepted as long as every hosted shard keeps its
/// epoch, whatever journals grow or nonces advance in between.
pub proof fn law_issued_token_accepted(v: NodeView, w: NodeView, group: Seq<char>, offset: u64)
    requires
        lease_token(v, group, offset) is Some,
        w.shards.dom() == v.shards.dom(),
        forall|s: ShardId| #[trigger] v.shards.contains_key(s) ==> w.shards[s].epoch == v.shards[s].epoch,
    ensures
        fence_ok(w, lease_token(v, group, offset)->0),
{
}

/// After a shard is taken over from an epoch, every token of that shard issued at that
/// epoch or before is fenced, and tokens of other shards are judged as before.
pub proof fn law_takeover_fences_earlier_tokens(v: NodeView, s: ShardId, prior: CoordinatorEpoch, t: EpochFencedToken)
    requires
        prior.0 < u64::MAX,
    ensures
        t.shard_id == s && t.epoch.0 <= prior.0 ==> !fence_ok(taken_over(v, s, prior), t),
        t.shard_id != s ==> fence_ok(taken_over(v, s, prior), t) == fence_ok(v, t),
{
}

/// Journaling a delta keeps every shard hosted at its epoch.
pub proof fn law_journaling_keeps_epochs(v: NodeView, s: ShardId, g: Seq<char>, d: LeaseDeltaRecord)
    requires
        v.shards.contains_key(s),
    ensures
        with_delta(v, s, g, d).shards.dom() == v.shards.dom(),
        forall|x: ShardId| #[trigger] v.shards.contains_key(x) ==> with_delta(v, s, g, d).shards[x].epoch
            == v.shards[x].epoch,
{
    assert(with_delta(v, s, g, d).shards.dom() =~= v.shards.dom());
}

} // verus!
