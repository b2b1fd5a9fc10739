use keirox::consensus::engine::RaftEngine;
use keirox::consensus::hlc::HybridLogicalClock;
use keirox::consensus::links::LinkTable;
use keirox::consensus::log::{LogPayload, RaftLog, RaftLogEntry};
use keirox::consensus::membership::{MembershipManager, NodeStatus};
use keirox::consensus::multi_region::{MultiRegionReplicator, RegionEpoch, RegionId, RegionRole};
use keirox::consensus::quorum::{quorum_for, ReplicationTally, VoteTally};
use keirox::consensus::rpc::{AppendEntriesResponse, InstallSnapshotRequest, VoteResponse};
use keirox::consensus::types::{ClusterConfig, LogIndex, NodeId, ReplicaRole, Term};
use keirox::error::KeiroxError;
use keirox::model::{StreamId, TenantId};

#[test]
fn test_three_node_election_and_quorum_commit() {
    let config1 = ClusterConfig::three_node(NodeId(1), [2, 3]);
    let config2 = ClusterConfig::three_node(NodeId(2), [1, 3]);
    let config3 = ClusterConfig::three_node(NodeId(3), [1, 2]);

    let mut node1 = RaftEngine::new(config1);
    let mut node2 = RaftEngine::new(config2);
    let mut node3 = RaftEngine::new(config3);

    let vote_req = node1.start_election();
    assert_eq!(node1.role(), ReplicaRole::Candidate);
    assert_eq!(vote_req.term, Term(1));

    let vote_resp2 = node2.handle_vote_request(vote_req.clone());
    assert!(vote_resp2.vote_granted);
    let became_leader = node1.handle_vote_response(NodeId(2), vote_resp2);
    assert!(became_leader);
    assert_eq!(node1.role(), ReplicaRole::Leader);

    let vote_resp3 = node3.handle_vote_request(vote_req);
    assert!(vote_resp3.vote_granted);
    node1.handle_vote_response(NodeId(3), vote_resp3);

    let data_idx = node1.propose(LogPayload::DataBatch(vec![10, 20, 30])).unwrap();
    assert_eq!(data_idx, LogIndex(2));

    let appends = node1.prepare_append_entries();
    assert_eq!(appends.len(), 2);

    for (target, req) in appends {
        if target == NodeId(2) {
            let resp = node2.handle_append_entries(req);
            assert!(resp.success);
            node1.handle_append_response(NodeId(2), resp);
        } else if target == NodeId(3) {
            let resp = node3.handle_append_entries(req);
            assert!(resp.success);
            node1.handle_append_response(NodeId(3), resp);
        }
    }

    assert_eq!(node1.commit_index(), LogIndex(2));
}

#[test]
fn test_handle_install_snapshot() {
    let config = ClusterConfig::three_node(NodeId(2), [1, 3]);
    let mut follower = RaftEngine::new(config);

    let snap_req = InstallSnapshotRequest {
        term: Term(3),
        leader_id: NodeId(1),
        last_included_index: LogIndex(100),
        last_included_term: Term(3),
        data: vec![1, 2, 3, 4],
    };

    let resp = follower.handle_install_snapshot(snap_req);
    assert!(resp.success);
    assert_eq!(follower.current_term(), Term(3));
    assert_eq!(follower.commit_index(), LogIndex(100));
    assert_eq!(follower.current_leader(), Some(NodeId(1)));
}

#[test]
fn follower_refuses_to_propose_and_votes_once_per_term() {
    let mut follower = RaftEngine::new(ClusterConfig::three_node(NodeId(2), [1, 3]));
    let err = follower.propose(LogPayload::Noop).unwrap_err();
    assert!(matches!(err, KeiroxError::Consensus(_)));
    let mut c1 = RaftEngine::new(ClusterConfig::three_node(NodeId(1), [2, 3]));
    let mut c3 = RaftEngine::new(ClusterConfig::three_node(NodeId(3), [1, 2]));
    let r1 = c1.start_election();
    let r3 = c3.start_election();
    assert!(follower.handle_vote_request(r1).vote_granted);
    // the same term's second candidate is refused
    assert!(!follower.handle_vote_request(r3).vote_granted);
}

#[test]
fn single_node_commits_on_its_own() {
    let mut node = RaftEngine::new(ClusterConfig::single_node(NodeId(7)));
    node.start_election();
    assert!(node.is_leader());
    let idx = node.propose(LogPayload::DataBatch(vec![1])).unwrap();
    assert_eq!(node.commit_index(), idx);
    assert!(node.prepare_append_entries().is_empty());
}

#[test]
fn test_hlc_monotonicity_and_remote_update() {
    let mut clock_a = HybridLogicalClock::new(1);
    let mut clock_b = HybridLogicalClock::new(2);

    let t1 = clock_a.now(1000);
    let t2 = clock_a.now(1000);
    assert!(t2 > t1);
    assert_eq!(t2.physical_ms, 1000);
    assert_eq!(t2.logical, 1);

    let t3 = clock_b.update(t2, 950);
    assert!(t3 > t2);
    assert_eq!(t3.physical_ms, 1000);
    assert_eq!(t3.logical, 2);
}

#[test]
fn hlc_moves_with_physical_time() {
    let mut c = HybridLogicalClock::new(3);
    let a = c.now(10);
    let b = c.now(20);
    assert_eq!((a.physical_ms, a.logical), (10, 0));
    assert_eq!((b.physical_ms, b.logical), (20, 0));
    assert_eq!(b.to_string(), "HLC(20:0:3)");
}

#[test]
fn test_raft_log_append_and_compaction() {
    let mut log = RaftLog::new();
    assert_eq!(log.last_log_index(), LogIndex(0));
    assert_eq!(log.last_log_term(), Term(0));

    let idx1 = log.append_new(Term(1), LogPayload::Noop);
    assert_eq!(idx1, LogIndex(1));
    let idx2 = log.append_new(Term(1), LogPayload::DataBatch(vec![1, 2, 3]));
    assert_eq!(idx2, LogIndex(2));
    assert_eq!(log.last_log_index(), LogIndex(2));
    assert_eq!(log.last_log_term(), Term(1));

    log.compact_to(LogIndex(1), Term(1));
    assert_eq!(log.last_log_index(), LogIndex(2));
    assert_eq!(log.entry_at(LogIndex(2)).unwrap().payload, LogPayload::DataBatch(vec![1, 2, 3]));
    assert!(log.entry_at(LogIndex(1)).is_none());
}

#[test]
fn test_multi_region_replication_and_fenced_failover() {
    let region_us = RegionId(1);
    let region_eu = RegionId(2);

    let mut primary_us = MultiRegionReplicator::new(region_us, RegionRole::Primary);
    let mut replica_eu = MultiRegionReplicator::new(region_eu, RegionRole::SecondaryReplica);

    let tenant = TenantId([0x01; 16]);
    let stream = StreamId([0x02; 16]);

    let batch = primary_us
        .create_replication_batch(tenant, stream, 0, vec![b"record 1".to_vec(), b"record 2".to_vec()], 1000)
        .unwrap();

    let applied = replica_eu.apply_replication_batch(&batch, 1005).unwrap();
    assert_eq!(applied, 1);

    let new_epoch = replica_eu.promote_to_primary().unwrap();
    assert_eq!(new_epoch, RegionEpoch(2));
    assert_eq!(replica_eu.role(), RegionRole::Primary);

    let stale_batch = primary_us
        .create_replication_batch(tenant, stream, 2, vec![b"stale record".to_vec()], 1010)
        .unwrap();

    let res = replica_eu.apply_replication_batch(&stale_batch, 1012);
    assert!(res.is_err());
    assert!(matches!(res.unwrap_err(), KeiroxError::EpochFenced(_)));
}

#[test]
fn replica_cannot_create_batches() {
    let mut replica = MultiRegionReplicator::new(RegionId(5), RegionRole::SecondaryReplica);
    let r = replica.create_replication_batch(TenantId([0; 16]), StreamId([0; 16]), 0, vec![], 1);
    assert!(matches!(r, Err(KeiroxError::Internal(_))));
}

#[test]
fn membership_drain_and_remove() {
    let cfg = ClusterConfig::three_node(NodeId(1), [2, 3]);
    let mut m = MembershipManager::new(&cfg);
    assert_eq!(m.active_count(), 3);
    m.drain_node(NodeId(2));
    assert_eq!(m.status_of(NodeId(2)), NodeStatus::Draining);
    assert_eq!(m.active_count(), 2);
    m.remove_node(NodeId(2));
    assert_eq!(m.status_of(NodeId(2)), NodeStatus::Decommissioned);
    m.add_node(NodeId(4), "10.0.0.4:7000".into());
    assert_eq!(m.active_nodes(), vec![NodeId(1), NodeId(3), NodeId(4)]);
}

#[test]
fn quorum_tallies() {
    assert_eq!(quorum_for(2), 2);
    assert_eq!(quorum_for(4), 3);
    assert_eq!(quorum_for(1), 1);
    let mut t = ReplicationTally::new(LogIndex(5), 2);
    assert!(!t.record(&AppendEntriesResponse { term: Term(1), success: true, match_index: LogIndex(4) }));
    let err = t.outcome(LogIndex(3)).unwrap_err();
    assert_eq!(
        err.to_string(),
        "Quorum unavailable: Failed to reach majority quorum for batch index Index(5) (acks: 1/2)"
    );
    assert!(t.record(&AppendEntriesResponse { term: Term(1), success: true, match_index: LogIndex(5) }));
    assert_eq!(t.outcome(LogIndex(3)).unwrap(), LogIndex(5));
    let lone = ReplicationTally::new(LogIndex(9), 2);
    assert_eq!(lone.outcome(LogIndex(9)).unwrap(), LogIndex(9));
    assert_eq!(
        lone.metadata_outcome().unwrap_err().to_string(),
        "Quorum unavailable: Failed to reach metadata quorum for index Index(9)"
    );
    let mut v = VoteTally::new(2);
    assert!(!v.record(&VoteResponse { term: Term(1), vote_granted: false }));
    assert!(v.record(&VoteResponse { term: Term(1), vote_granted: true }));
}

#[test]
fn link_table_partitions_and_heals() {
    let mut links = LinkTable::new();
    let nodes = [NodeId(1), NodeId(2), NodeId(3)];
    links.isolate_node(NodeId(1), &nodes);
    assert!(!links.is_connected(NodeId(1), NodeId(2)));
    assert!(!links.is_connected(NodeId(3), NodeId(1)));
    assert!(links.is_connected(NodeId(2), NodeId(3)));
    assert!(links.is_connected(NodeId(1), NodeId(1)));
    links.heal();
    assert!(links.is_connected(NodeId(1), NodeId(2)));
    links.partition(&[NodeId(1)], &[NodeId(2), NodeId(3)]);
    assert!(!links.is_connected(NodeId(2), NodeId(1)));
    assert!(links.is_connected(NodeId(2), NodeId(3)));
}

#[test]
fn leader_counts_itself_once_when_committing() {
    let mut leader = RaftEngine::new(ClusterConfig::three_node(NodeId(1), [2, 3]));
    let mut follower = RaftEngine::new(ClusterConfig::three_node(NodeId(2), [1, 3]));
    let vote_req = leader.start_election();
    let granted = follower.handle_vote_request(vote_req);
    assert!(leader.handle_vote_response(NodeId(2), granted));
    let idx = leader.propose(LogPayload::DataBatch(vec![1])).unwrap();
    assert_eq!(idx, LogIndex(2));

    // A successful reply that matches nothing is no acknowledgement of the entry.
    leader.handle_append_response(NodeId(3), AppendEntriesResponse { term: Term(1), success: true, match_index: LogIndex(0) });
    assert_eq!(leader.commit_index(), LogIndex(0));

    // The leader and one follower holding the entry are a majority of three.
    leader.handle_append_response(NodeId(2), AppendEntriesResponse { term: Term(1), success: true, match_index: LogIndex(2) });
    assert_eq!(leader.commit_index(), LogIndex(2));
}

#[test]
fn replicated_entries_land_and_repeat_is_harmless() {
    let mut log = RaftLog::new();
    log.append_new(Term(1), LogPayload::Noop);
    log.append_new(Term(1), LogPayload::Noop);
    log.append_new(Term(1), LogPayload::Noop);
    let incoming = || {
        vec![
            RaftLogEntry { term: Term(2), index: LogIndex(2), payload: LogPayload::DataBatch(vec![7]) },
            RaftLogEntry { term: Term(2), index: LogIndex(3), payload: LogPayload::Noop },
            RaftLogEntry { term: Term(2), index: LogIndex(4), payload: LogPayload::Noop },
        ]
    };
    log.append_replicated(LogIndex(1), incoming());
    assert_eq!(log.term_at(LogIndex(1)), Some(Term(1)));
    assert_eq!(log.term_at(LogIndex(2)), Some(Term(2)));
    assert_eq!(log.term_at(LogIndex(4)), Some(Term(2)));
    assert_eq!(log.last_log_index(), LogIndex(4));
    log.append_replicated(LogIndex(1), incoming());
    assert_eq!(log.last_log_index(), LogIndex(4));
    assert_eq!(log.entry_at(LogIndex(2)).unwrap().payload, LogPayload::DataBatch(vec![7]));

    // A previous index past the end changes nothing.
    log.append_replicated(LogIndex(9), incoming());
    assert_eq!(log.last_log_index(), LogIndex(4));
}
