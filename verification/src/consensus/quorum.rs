//! Quorum tallies of one replication round and one election: how many acknowledgements
//! or votes are needed, and what the round decides.
use crate::consensus::rpc::{AppendEntriesResponse, VoteResponse};
use crate::consensus::types::LogIndex;
use crate::error::KeiroxError;
use crate::text::{decimal, push_decimal, push_str};
use vstd::prelude::*;

verus! {

/// Majority of a cluster of `peers` peers plus the local node: half of the nodes,
/// rounded up.
pub open spec fn majority(peers: nat) -> nat {
    (peers + 2) / 2
}

/// The majority size of a cluster with `peers` peers.
pub fn quorum_for(peers: usize) -> (q: usize)
    requires
        peers < usize::MAX,
    ensures
        q == majority(peers as nat),
{
    (peers + 1) / 2 + (peers + 1) % 2
}

/// Acknowledgements of one replicated entry.
#[derive(Debug, Clone, Copy)]
pub struct ReplicationTally {
    /// Index proposed.
    pub proposed: LogIndex,
    /// Acknowledgements so far, the leader's own included.
    pub acks: usize,
    /// Acknowledgements needed.
    pub quorum: usize,
}

/// Message of a replication round that missed its quorum.
pub open spec fn quorum_miss_text(t: ReplicationTally) -> Seq<char> {
    "Failed to reach majority quorum for batch index Index("@ + decimal(t.proposed.0 as nat)
        + ") (acks: "@ + decimal(t.acks as nat) + "/"@ + decimal(t.quorum as nat) + ")"@
}

/// Message of a metadata replication round that missed its quorum.
pub open spec fn metadata_miss_text(t: ReplicationTally) -> Seq<char> {
    "Failed to reach metadata quorum for index Index("@ + decimal(t.proposed.0 as nat) + ")"@
}

impl ReplicationTally {
    /// A round for `proposed` sent to `peers` peers: the leader has acknowledged it.
    pub fn new(proposed: LogIndex, peers: usize) -> (t: Self)
        requires
            peers < usize::MAX,
        ensures
            t.proposed == proposed,
            t.acks == 1,
            t.quorum == majority(peers as nat),
    {
        ReplicationTally { proposed, acks: 1, quorum: quorum_for(peers) }
    }

    /// Count a peer's answer: it acknowledges when it succeeded and matches at least the
    /// proposed index. Returns whether it acknowledged.
    pub fn record(&mut self, resp: &AppendEntriesResponse) -> (acked: bool)
        requires
            old(self).acks < usize::MAX,
        ensures
            acked == (resp.success && resp.match_index.0 >= old(self).proposed.0),
            final(self).acks == old(self).acks + if acked { 1usize } else { 0usize },
            final(self).proposed == old(self).proposed,
            final(self).quorum == old(self).quorum,
    {
        let is_match = resp.success && resp.match_index.0 >= self.proposed.0;
        if is_match {
            self.acks = self.acks + 1;
        }
        is_match
    }

    /// The round's result for the data plane: the proposed index when the commit index
    /// reached it or a quorum acknowledged, else quorum unavailable.
    pub fn outcome(&self, committed: LogIndex) -> (r: Result<LogIndex, KeiroxError>)
        ensures
            (committed.0 >= self.proposed.0 || self.acks >= self.quorum) ==> r == Ok::<
                LogIndex,
                KeiroxError,
            >(self.proposed),
            !(committed.0 >= self.proposed.0 || self.acks >= self.quorum) ==> (r matches Err(
                KeiroxError::QuorumUnavailable(m),
            ) && m@ == quorum_miss_text(*self)),
    {
        if committed.0 >= self.proposed.0 || self.acks >= self.quorum {
            Ok(self.proposed)
        } else {
            let mut m = String::new();
            push_str(&mut m, "Failed to reach majority quorum for batch index Index(");
            push_decimal(&mut m, self.proposed.0);
            push_str(&mut m, ") (acks: ");
            push_decimal(&mut m, self.acks as u64);
            push_str(&mut m, "/");
            push_decimal(&mut m, self.quorum as u64);
            push_str(&mut m, ")");
            Err(KeiroxError::QuorumUnavailable(m))
        }
    }

    /// The round's result for the metadata plane: the proposed index when a quorum
    /// acknowledged, else quorum unavailable.
    pub fn metadata_outcome(&self) -> (r: Result<LogIndex, KeiroxError>)
        ensures
            self.acks >= self.quorum ==> r == Ok::<LogIndex, KeiroxError>(self.proposed),
            self.acks < self.quorum ==> (r matches Err(KeiroxError::QuorumUnavailable(m)) && m@
                == metadata_miss_text(*self)),
    {
        if self.acks >= self.quorum {
            Ok(self.proposed)
        } else {
            let mut m = String::new();
            push_str(&mut m, "Failed to reach metadata quorum for index Index(");
            push_decimal(&mut m, self.proposed.0);
            push_str(&mut m, ")");
            Err(KeiroxError::QuorumUnavailable(m))
        }
    }
}

/// Votes of one election.
#[derive(Debug, Clone, Copy)]
pub struct VoteTally {
    /// Votes so far, the candidate's own included.
    pub granted: usize,
    /// Votes needed.
    pub quorum: usize,
}

impl VoteTally {
    /// An election among `peers` peers: the candidate has voted for itself.
    pub fn new(peers: usize) -> (t: Self)
        requires
            peers < usize::MAX,
        ensures
            t.granted == 1,
            t.quorum == majority(peers as nat),
    {
        VoteTally { granted: 1, quorum: quorum_for(peers) }
    }

    /// Count a vote; returns whether the candidate now holds a quorum.
    pub fn record(&mut self, resp: &VoteResponse) -> (won: bool)
        requires
            old(self).granted < usize::MAX,
        ensures
            final(self).granted == old(self).granted + if resp.vote_granted { 1usize } else { 0usize },
            final(self).quorum == old(self).quorum,
            won == (resp.vote_granted && final(self).granted >= final(self).quorum),
    {
        if resp.vote_granted {
            self.granted = self.granted + 1;
            self.granted >= self.quorum
        } else {
            false
        }
    }
}

/// In a cluster of an odd number of nodes, any two majorities share a node: twice a
/// majority exceeds the cluster's size. A majority never exceeds the cluster.
pub proof fn law_majorities_intersect(peers: nat)
    requires
        peers % 2 == 0,
    ensures
        2 * majority(peers) > peers + 1,
        majority(peers) <= peers + 1,
{
    assert((peers + 2) / 2 * 2 == peers + 2) by (nonlinear_arith)
        requires peers % 2 == 0;
}

} // verus!
