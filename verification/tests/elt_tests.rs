use keirox::arena::RowArena;
use keirox::bench::{BenchmarkConfig, WorkloadProfile};
use keirox::chaos::ChaosScenario;
use keirox::elt::catalog::{DataFileEntry, IcebergCatalogLedger};
use keirox::elt::committer::{CommitCadenceMode, IcebergCatalogCommitter};
use keirox::elt::shredder::AdaptiveShredder;

fn file(path: &str, records: u64) -> DataFileEntry {
    DataFileEntry { file_path: path.into(), record_count: records, file_size_bytes: 1, partition_spec_id: 0 }
}

#[test]
fn test_iceberg_catalog_ledger_commit_lifecycle() {
    let mut ledger = IcebergCatalogLedger::new("orders_stream_lakehouse");
    assert_eq!(ledger.table_name(), "orders_stream_lakehouse");
    assert!(ledger.current_snapshot().is_none());

    let files1 = vec![DataFileEntry {
        file_path: "s3://bucket/part-1.parquet".into(),
        record_count: 500,
        file_size_bytes: 64 * 1024 * 1024,
        partition_spec_id: 0,
    }];
    let snap1 = ledger.commit_snapshot(files1, 1700000000000);
    assert_eq!(snap1.snapshot_id, 1);
    assert_eq!(snap1.parent_snapshot_id, None);
    assert_eq!(snap1.total_records, 500);

    let files2 = vec![DataFileEntry {
        file_path: "s3://bucket/part-2.parquet".into(),
        record_count: 300,
        file_size_bytes: 32 * 1024 * 1024,
        partition_spec_id: 0,
    }];
    let snap2 = ledger.commit_snapshot(files2, 1700000060000);
    assert_eq!(snap2.snapshot_id, 2);
    assert_eq!(snap2.parent_snapshot_id, Some(1));
    assert_eq!(snap2.total_records, 800);
    assert_eq!(ledger.total_data_files(), 2);
}

#[test]
fn ledger_expiry_keeps_head() {
    let mut ledger = IcebergCatalogLedger::new("t");
    assert_eq!(ledger.expire_snapshots_before(100), 0);
    ledger.commit_snapshot(vec![file("a", 1)], 10);
    assert_eq!(ledger.expire_snapshots_before(100), 0);
    ledger.commit_snapshot(vec![file("b", 2), file("c", 3)], 20);
    ledger.commit_snapshot(vec![], 200);
    ledger.commit_snapshot(vec![file("d", 4)], 30);
    assert_eq!(ledger.expire_snapshots_before(100), 2);
    let ids: Vec<u64> = ledger.snapshots().iter().map(|s| s.snapshot_id).collect();
    assert_eq!(ids, vec![3, 4]);
    assert_eq!(ledger.current_snapshot().unwrap().total_records, 10);
    assert_eq!(ledger.total_data_files(), 4);
}

#[test]
fn test_iceberg_committer_occ_and_snapshot_lifecycle() {
    let mut committer = IcebergCatalogCommitter::new();
    committer.register_table("events_tbl", CommitCadenceMode::Standard);

    let files1 = vec![DataFileEntry {
        file_path: "s3://lake/events-001.parquet".into(),
        record_count: 1000,
        file_size_bytes: 64 * 1024 * 1024,
        partition_spec_id: 0,
    }];

    let snap1 = committer.commit_data_files("events_tbl", None, files1, 1700000000000).unwrap();
    assert_eq!(snap1.snapshot_id, 1);

    let files_conflict = vec![DataFileEntry {
        file_path: "s3://lake/events-conflict.parquet".into(),
        record_count: 500,
        file_size_bytes: 32 * 1024 * 1024,
        partition_spec_id: 0,
    }];
    let err = committer.commit_data_files("events_tbl", None, files_conflict, 1700000030000);
    assert!(err.is_err());

    let files2 = vec![DataFileEntry {
        file_path: "s3://lake/events-002.parquet".into(),
        record_count: 500,
        file_size_bytes: 32 * 1024 * 1024,
        partition_spec_id: 0,
    }];
    let snap2 = committer.commit_data_files("events_tbl", Some(1), files2, 1700000060000).unwrap();
    assert_eq!(snap2.snapshot_id, 2);
    assert_eq!(snap2.total_records, 1500);

    let removed = committer.expire_snapshots("events_tbl", 1700000030000).unwrap();
    assert_eq!(removed, 1);
    let current = committer.current_snapshot("events_tbl").unwrap();
    assert_eq!(current.snapshot_id, 2);
}

#[test]
fn committer_errors() {
    let mut committer = IcebergCatalogCommitter::default();
    let err = committer.commit_data_files("nope", None, vec![], 1).unwrap_err();
    assert_eq!(err.to_string(), "Internal runtime error: Table 'nope' not registered in Iceberg catalog");
    assert_eq!(
        committer.expire_snapshots("nope", 1).unwrap_err().to_string(),
        "Internal runtime error: Table 'nope' not found"
    );
    committer.register_table("t", CommitCadenceMode::FastStreaming);
    let err = committer.commit_data_files("t", Some(4), vec![], 1).unwrap_err();
    assert_eq!(
        err.to_string(),
        "Internal runtime error: Iceberg commit conflict on table 't': expected parent Some(4), found None"
    );
    committer.commit_data_files("t", None, vec![], 1).unwrap();
    committer.register_table("t", CommitCadenceMode::Standard);
    assert_eq!(committer.current_snapshot("t").unwrap().snapshot_id, 1);
    assert!(committer.current_snapshot("u").is_none());
}

#[test]
fn test_row_arena_allocation_and_reset() {
    let mut arena = RowArena::with_capacity(1024);
    assert_eq!(arena.capacity(), 1024);
    assert_eq!(arena.remaining(), 1024);

    let slice = arena.allocate(256).expect("Allocation should succeed");
    assert_eq!(slice.len(), 256);
    slice[0] = 0xAA;
    assert_eq!(arena.allocated(), 256);
    assert_eq!(arena.remaining(), 768);

    arena.reset();
    assert_eq!(arena.allocated(), 0);
    assert_eq!(arena.remaining(), 1024);
}

#[test]
fn test_row_arena_out_of_memory() {
    let mut arena = RowArena::with_capacity(100);
    assert!(arena.allocate(150).is_none());
    assert!(arena.allocate(100).is_some());
    assert!(arena.allocate(1).is_none());
}

#[test]
fn test_workload_profile_display() {
    assert_eq!(WorkloadProfile::P1ExtremeLowLatency.to_string(), "P1-ExtremeLowLatency");
    assert_eq!(WorkloadProfile::P4MixedStreamAndQueue.to_string(), "P4-MixedStreamAndQueue");
}

#[test]
fn test_benchmark_config_for_profile() {
    let p1_cfg = BenchmarkConfig::for_profile(WorkloadProfile::P1ExtremeLowLatency);
    assert_eq!(p1_cfg.payload_size_bytes, 1024);
    assert_eq!(p1_cfg.concurrency, 16);
}

#[test]
fn other_profiles_and_small_types() {
    let p2 = BenchmarkConfig::for_profile(WorkloadProfile::P2HighThroughputStreaming);
    assert_eq!((p2.payload_size_bytes, p2.concurrency, p2.target_ops_per_sec), (4096, 64, 0));
    let p6 = BenchmarkConfig::for_profile(WorkloadProfile::P6MultiRegionReplication);
    assert_eq!((p6.concurrency, p6.target_ops_per_sec, p6.duration_secs), (8, 10_000, 30));
    assert_eq!(WorkloadProfile::P6MultiRegionReplication.to_string(), "P6-MultiRegionReplication");
    assert_eq!(AdaptiveShredder::new(12).max_fields(), 12);
    assert_eq!(AdaptiveShredder::default().max_fields(), 64);
    assert_ne!(ChaosScenario::ClockSkew, ChaosScenario::DiskStall);
}

#[test]
fn row_arena_slices_show_buffer_contents() {
    let mut arena = RowArena::with_capacity(8);
    {
        let s = arena.allocate(4).unwrap();
        assert_eq!(s, &[0u8; 4]);
        s.copy_from_slice(&[1, 2, 3, 4]);
    }
    arena.reset();
    let again = arena.allocate(6).unwrap();
    assert_eq!(again, &[1, 2, 3, 4, 0, 0]);
}
