use keirox::consensus::log::LeaseDeltaRecord;
use keirox::consensus::types::NodeId;
use keirox::coordinator::consistent_hash::{ConsistentHashRing, TOTAL_SHARDS};
use keirox::coordinator::epoch_fencing::EpochFencedToken;
use keirox::coordinator::lease_journal::LeaseJournal;
use keirox::coordinator::node::CoordinatorNode;
use keirox::coordinator::pitr::{LegalHoldEntry, PitrRecoveryEngine, PitrRestoreTarget};
use keirox::coordinator::shard::{CoordinatorEpoch, ShardId};
use keirox::error::KeiroxError;
use keirox::model::{StreamId, TenantId};
use keirox::security::{CryptoShreddingEngine, DekId, DestroyedKeyEntry, DestroyedKeyRegistry, KmsEnvelopeProvider};

#[test]
fn test_consistent_hash_mapping_and_rebalance() {
    let mut ring = ConsistentHashRing::new(64);
    ring.add_node(NodeId(1));
    ring.add_node(NodeId(2));
    ring.add_node(NodeId(3));

    let (shard_a, node_a) = ring.map_group("group-payments-prod").unwrap();
    let (shard_b, node_b) = ring.map_group("group-orders-checkout").unwrap();

    assert_eq!(ring.map_group("group-payments-prod"), Some((shard_a, node_a)));
    assert_eq!(ring.map_group("group-orders-checkout"), Some((shard_b, node_b)));

    ring.remove_node(NodeId(1));
    let (_, new_node_a) = ring.map_group("group-payments-prod").unwrap();
    assert!(new_node_a == NodeId(2) || new_node_a == NodeId(3));
}

#[test]
fn ring_empty_duplicate_and_shards() {
    let mut ring = ConsistentHashRing::default();
    assert_eq!(ring.map_group("g"), None);
    ring.add_node(NodeId(9));
    ring.add_node(NodeId(9));
    assert_eq!(ring.node_count(), 1);
    let (shard, node) = ring.map_group("g").unwrap();
    assert_eq!(node, NodeId(9));
    assert!(shard.0 < TOTAL_SHARDS);
    ring.remove_node(NodeId(9));
    assert_eq!(ring.node_count(), 0);
    assert_eq!(ring.map_group("g"), None);
    let mut zero = ConsistentHashRing::new(0);
    zero.add_node(NodeId(1));
    assert_eq!(zero.map_group("g"), None);
}

#[test]
fn test_epoch_fencing_token_packing_and_validation() {
    let token = EpochFencedToken::new(ShardId(42), CoordinatorEpoch(7), 1001, 0xCAFE_BABE);
    let raw = token.to_u64();
    let decoded = EpochFencedToken::from_u64(raw, 1001);

    assert_eq!(decoded.shard_id, ShardId(42));
    assert_eq!(decoded.epoch, CoordinatorEpoch(7));
    assert_eq!(decoded.offset, 1001);
    assert_eq!(decoded.nonce, 0xCAFE_BABE);

    assert!(decoded.validate(ShardId(42), CoordinatorEpoch(7)).is_ok());

    let err = decoded.validate(ShardId(42), CoordinatorEpoch(8)).unwrap_err();
    assert!(matches!(err, KeiroxError::EpochFenced(_)));
    assert!(err.to_string().contains("Stale coordinator epoch"));
}

#[test]
fn test_epoch_fencing_token_lossless_bytes() {
    let token = EpochFencedToken::new(
        ShardId(1023),
        CoordinatorEpoch(0x1234_5678_9ABC_DEF0),
        0xDEAD_BEEF_0000_1234,
        0xFEED_FACE,
    );
    let bytes = token.to_bytes();
    let decoded = EpochFencedToken::from_bytes(&bytes);

    assert_eq!(decoded.shard_id, ShardId(1023));
    assert_eq!(decoded.epoch, CoordinatorEpoch(0x1234_5678_9ABC_DEF0));
    assert_eq!(decoded.offset, 0xDEAD_BEEF_0000_1234);
    assert_eq!(decoded.nonce, 0xFEED_FACE);
    assert!(decoded
        .validate_for_offset(ShardId(1023), CoordinatorEpoch(0x1234_5678_9ABC_DEF0), 0xDEAD_BEEF_0000_1234)
        .is_ok());
}

#[test]
fn token_validation_messages() {
    let t = EpochFencedToken::new(ShardId(3), CoordinatorEpoch(9), 50, 1);
    assert_eq!(
        t.validate(ShardId(4), CoordinatorEpoch(9)).unwrap_err().to_string(),
        "Lease error: Lease shard mismatch: token shard Shard-3 vs active Shard-4"
    );
    assert_eq!(
        t.validate(ShardId(3), CoordinatorEpoch(8)).unwrap_err().to_string(),
        "Epoch fenced: Future coordinator epoch Epoch(9) ahead of active epoch Epoch(8)"
    );
    assert_eq!(
        t.validate_for_offset(ShardId(3), CoordinatorEpoch(9), 51).unwrap_err().to_string(),
        "Lease error: Token bound offset 50 does not match target offset 51"
    );
    assert_eq!(ShardId(3).to_string(), "Shard-3");
    assert_eq!(CoordinatorEpoch(9).to_string(), "Epoch(9)");
}

#[test]
fn lease_journal_records_and_drains_in_order() {
    let mut journal = LeaseJournal::new();
    assert!(journal.is_empty());
    journal.record(LeaseDeltaRecord::Acquire { offset: 0, token: 1, deadline_us: 5_000_000 });
    journal.record(LeaseDeltaRecord::Ack { offset: 0, token: 1 });
    assert_eq!(journal.len(), 2);
    assert_eq!(journal.deltas()[1], LeaseDeltaRecord::Ack { offset: 0, token: 1 });
    let drained = journal.drain();
    assert_eq!(drained.len(), 2);
    assert_eq!(drained[0], LeaseDeltaRecord::Acquire { offset: 0, token: 1, deadline_us: 5_000_000 });
    assert!(journal.is_empty());
}

#[test]
fn test_pitr_restore_prevents_shredded_data_resurrection() {
    let mut registry = DestroyedKeyRegistry::new();
    let engine = PitrRecoveryEngine::new();

    let tenant = TenantId([0x01; 16]);
    let stream = StreamId([0x02; 16]);
    let dek_active = DekId(10);
    let dek_shredded = DekId(20);

    // Record destruction of dek_shredded
    registry
        .record_destruction(DestroyedKeyEntry {
            tenant_id: tenant,
            dek_id: dek_shredded,
            stream_id: Some(stream),
            destroyed_at_ns: 1500,
            operator_id: "sec-admin".into(),
            reason: "GDPR right to be forgotten".into(),
        })
        .unwrap();

    let backup_records = vec![
        (1000, Some(dek_active), b"Active record 1".to_vec()),
        (1200, Some(dek_shredded), b"Erased record 2".to_vec()),
        (1400, Some(dek_active), b"Active record 3".to_vec()),
        (2000, Some(dek_active), b"Future record 4".to_vec()),
    ];

    let target = PitrRestoreTarget { tenant_id: tenant, stream_id: stream, target_timestamp_ns: 1500 };

    let report = engine.execute_pitr_restore(&registry, target, &backup_records).unwrap();
    assert_eq!(report.records_recovered, 2);
    assert_eq!(report.shredded_records_blocked, 1);
    assert!(report.success);
}

#[test]
fn pitr_sees_shreds_made_after_it_was_built() {
    let tenant = TenantId([0x03; 16]);
    let stream = StreamId([0x04; 16]);
    let mut shredder = CryptoShreddingEngine::new(KmsEnvelopeProvider::new([7u8; 32]), DestroyedKeyRegistry::new());
    let dek = DekId(5);
    shredder.kms_mut().generate_dek(tenant, dek).unwrap();
    let pitr = PitrRecoveryEngine::new();
    let records = vec![(10, Some(dek), b"secret".to_vec())];
    let target = PitrRestoreTarget { tenant_id: tenant, stream_id: stream, target_timestamp_ns: 100 };

    let before = pitr.execute_pitr_restore(shredder.registry(), target, &records).unwrap();
    assert_eq!((before.records_recovered, before.shredded_records_blocked), (1, 0));

    shredder.shred_dek(tenant, Some(stream), dek, "dpo".into(), "erasure".into(), 50).unwrap();
    let after = pitr.execute_pitr_restore(shredder.registry(), target, &records).unwrap();
    assert_eq!((after.records_recovered, after.shredded_records_blocked), (0, 1));
}

#[test]
fn pitr_unencrypted_and_other_tenant_records_are_recovered() {
    let mut registry = DestroyedKeyRegistry::new();
    let tenant = TenantId([0x01; 16]);
    registry
        .record_destruction(DestroyedKeyEntry {
            tenant_id: TenantId([0x02; 16]),
            dek_id: DekId(1),
            stream_id: None,
            destroyed_at_ns: 1,
            operator_id: "o".into(),
            reason: "r".into(),
        })
        .unwrap();
    let engine = PitrRecoveryEngine::new();
    let records = vec![(5, None, vec![]), (6, Some(DekId(1)), vec![1])];
    let target = PitrRestoreTarget { tenant_id: tenant, stream_id: StreamId([0; 16]), target_timestamp_ns: 10 };
    let report = engine.execute_pitr_restore(&registry, target, &records).unwrap();
    assert_eq!(report.records_recovered, 2);
    assert_eq!(report.shredded_records_blocked, 0);
}

#[test]
fn test_legal_hold_lifecycle() {
    let mut engine = PitrRecoveryEngine::new();

    let tenant = TenantId([0x01; 16]);
    let stream = StreamId([0x02; 16]);

    assert!(!engine.is_under_legal_hold(tenant, stream));

    engine
        .apply_legal_hold(LegalHoldEntry {
            tenant_id: tenant,
            stream_id: stream,
            hold_id: "HOLD-2026-SEC-09".into(),
            reason: "SEC Investigation #4401".into(),
            applied_at_ns: 1_700_000_000,
        })
        .unwrap();

    assert!(engine.is_under_legal_hold(tenant, stream));

    engine.release_legal_hold(tenant, stream).unwrap();
    assert!(!engine.is_under_legal_hold(tenant, stream));
}

#[test]
fn releasing_an_absent_hold_reports_false() {
    let mut engine = PitrRecoveryEngine::new();
    assert_eq!(engine.release_legal_hold(TenantId([1; 16]), StreamId([1; 16])).unwrap(), false);
}

fn single_node_ring(id: u64) -> ConsistentHashRing {
    let mut ring = ConsistentHashRing::new(64);
    ring.add_node(NodeId(id));
    ring
}

#[test]
fn coordinator_node_lease_ack_and_failover() {
    let mut node = CoordinatorNode::new(NodeId(1), single_node_ring(1));
    let (shard, owner) = node.resolve_shard_for_group("group-orders").unwrap();
    assert_eq!(owner, NodeId(1));
    assert!(!node.hosts_shard(shard));

    let err = node.issue_lease("group-orders", 7, 30, 1_000_000).unwrap_err();
    assert_eq!(err.to_string(), format!("Consensus error: Shard Shard-{} not hosted on local node", shard.0));

    node.host_shard(shard, CoordinatorEpoch(5));
    assert!(node.hosts_shard(shard));
    let (token, deadline) = node.issue_lease("group-orders", 7, 30, 1_000_000).unwrap();
    assert_eq!(token, EpochFencedToken::new(shard, CoordinatorEpoch(5), 7, 1000));
    assert_eq!(deadline, 1_030_000);

    let refused = node
        .complete_lease("group-orders", token, deadline, false, "Leased")
        .unwrap_err();
    assert_eq!(refused.to_string(), "Lease error: Offset 7 cannot be leased: current state is Leased");
    assert!(node.shard(shard).unwrap().journal("group-orders").is_none());

    assert_eq!(node.complete_lease("group-orders", token, deadline, true, "").unwrap(), token);
    node.fence_token(token).unwrap();
    node.record_ack("group-orders", token, Ok(())).unwrap();
    let journal = node.shard(shard).unwrap().journal("group-orders").unwrap();
    assert_eq!(
        journal.deltas(),
        &[
            LeaseDeltaRecord::Acquire { offset: 7, token: token.to_u64(), deadline_us: 1_030_000 },
            LeaseDeltaRecord::Ack { offset: 7, token: token.to_u64() },
        ]
    );

    let (second, _) = node.issue_lease("group-orders", 8, 30, 1_000_000).unwrap();
    assert_eq!(second.nonce, 1001);
    node.record_nack("group-orders", second);
    assert_eq!(node.shard(shard).unwrap().journal("group-orders").unwrap().len(), 3);

    let refused_ack = node.record_ack("group-orders", second, Err(KeiroxError::Internal("not leased".into())));
    assert!(matches!(refused_ack, Err(KeiroxError::Internal(_))));
    assert_eq!(node.shard(shard).unwrap().journal("group-orders").unwrap().len(), 3);

    assert_eq!(node.take_over_shard(shard, CoordinatorEpoch(5)), CoordinatorEpoch(6));
    assert_eq!(node.shard(shard).unwrap().epoch(), CoordinatorEpoch(6));
    assert!(node.shard(shard).unwrap().journal("group-orders").is_none());
    let fenced = node.fence_token(token).unwrap_err();
    assert_eq!(
        fenced.to_string(),
        "Epoch fenced: Stale coordinator epoch Epoch(5) fenced by active epoch Epoch(6) (reassigned during failover)"
    );
    let (fresh, _) = node.issue_lease("group-orders", 9, 1, 0).unwrap();
    assert_eq!(fresh.epoch, CoordinatorEpoch(6));
    node.fence_token(fresh).unwrap();
}

#[test]
fn coordinator_node_routing_errors() {
    let mut empty = CoordinatorNode::new(NodeId(1), ConsistentHashRing::new(64));
    assert_eq!(empty.resolve_shard_for_group("g"), None);
    assert_eq!(empty.issue_lease("g", 0, 1, 0).unwrap_err().to_string(), "Internal runtime error: Hash ring is empty");

    let mut elsewhere = CoordinatorNode::new(NodeId(2), single_node_ring(1));
    assert_eq!(elsewhere.local_node_id(), NodeId(2));
    assert_eq!(
        elsewhere.issue_lease("group-x", 0, 1, 0).unwrap_err().to_string(),
        "Consensus error: Routing mismatch: group group-x maps to Node-1, but local node is Node-2"
    );

    let token = EpochFencedToken::new(ShardId(999), CoordinatorEpoch(1), 0, 1);
    assert_eq!(
        elsewhere.fence_token(token).unwrap_err().to_string(),
        "Consensus error: Shard Shard-999 not hosted on local node (may have failed over)"
    );
    elsewhere.host_shard(ShardId(999), CoordinatorEpoch(0));
    assert!(matches!(elsewhere.fence_token(token), Err(KeiroxError::EpochFenced(_))));
}
