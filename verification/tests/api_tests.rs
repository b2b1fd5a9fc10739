use keirox::api::admin::{ConsumerGroupInspectionReport, StorageStatsReport, StreamInspectionReport};
use keirox::api::health::{HealthProbeService, HealthStatus};
use keirox::api::kafka::{KafkaApiKey, KafkaRequestHeader, KafkaResponseHeader};
use keirox::api::metrics::TelemetryRegistry;
use keirox::model::{StreamId, TenantId};

#[test]
fn test_admin_reports_render_json() {
    let stream_report = StreamInspectionReport {
        tenant_id: TenantId([1; 16]),
        stream_id: StreamId([2; 16]),
        current_sequence: 500,
        base_offset: 0,
        segment_sequence: 1,
        sparse_index_count: 5,
    };

    let json = stream_report.render_json();
    assert!(json.contains("tenant-01010101010101010101010101010101"));
    assert!(json.contains(r#""current_sequence":500"#));

    let cg_report = ConsumerGroupInspectionReport {
        tenant_id: TenantId([1; 16]),
        group_id: "order-consumers".to_string(),
        stream_id: StreamId([2; 16]),
        watermark_base: 450,
        leased_count: 10,
        acked_count: 440,
        dlq_evicted_count: 2,
        dlq_sample_offsets: vec![12, 34],
    };

    let cg_json = cg_report.render_json();
    assert!(cg_json.contains(r#""group_id":"order-consumers""#));
    assert!(cg_json.contains(r#""watermark_base":450"#));
    assert!(cg_json.contains(r#""dlq_sample_offsets":[12,34]"#));
}

#[test]
fn admin_reports_exact_json() {
    let s = StorageStatsReport { active_segment_id: 3, sealed_segments_count: 2, total_bytes_appended: 99, sparse_index_count: 0 };
    assert_eq!(
        s.render_json(),
        r#"{"active_segment_id":3,"sealed_segments_count":2,"total_bytes_appended":99,"sparse_index_count":0}"#
    );
    let cg = ConsumerGroupInspectionReport {
        tenant_id: TenantId([0; 16]),
        group_id: "g".into(),
        stream_id: StreamId([0; 16]),
        watermark_base: 0,
        leased_count: 0,
        acked_count: 0,
        dlq_evicted_count: 0,
        dlq_sample_offsets: vec![],
    };
    assert!(cg.render_json().ends_with(r#""dlq_evicted_count":0,"dlq_sample_offsets":[]}"#));
}

#[test]
fn test_health_probe_lifecycle() {
    let mut probe = HealthProbeService::new();
    let live = probe.check_live();
    assert_eq!(live.status, HealthStatus::Healthy);
    assert!(live.is_serviceable());

    let ready = probe.check_ready();
    assert_eq!(ready.status, HealthStatus::Healthy);
    assert!(ready.render_json().contains(r#""status":"HEALTHY""#));

    probe.set_draining(true);
    let ready_draining = probe.check_ready();
    assert_eq!(ready_draining.status, HealthStatus::Degraded);
    assert!(ready_draining.is_serviceable());

    probe.set_storage_healthy(false);
    probe.set_draining(false);
    let ready_failed_storage = probe.check_ready();
    assert_eq!(ready_failed_storage.status, HealthStatus::Unhealthy);
    assert!(!ready_failed_storage.is_serviceable());
}

#[test]
fn health_report_json_and_verdicts() {
    let mut probe = HealthProbeService::default();
    probe.set_memory_healthy(false);
    let r = probe.ready_report(12);
    assert_eq!(r.status, HealthStatus::Degraded);
    assert_eq!(
        r.render_json(),
        r#"{"status":"DEGRADED","uptime_seconds":12,"storage_writable":true,"state_plane_healthy":true,"memory_healthy":false,"details":["Memory arena exhausted or high allocation pressure"]}"#
    );
    probe.set_memory_healthy(true);
    probe.set_state_plane_healthy(false);
    assert_eq!(probe.check_health().status, HealthStatus::Unhealthy);
    let mut quoted = probe.ready_report(0);
    quoted.details = vec!["say \"hi\"".to_string(), "x".to_string()];
    assert!(quoted.render_json().ends_with(r#""details":["say \"hi\"","x"]}"#));
    assert_eq!(HealthStatus::Unhealthy.to_string(), "UNHEALTHY");
}

#[test]
fn test_kafka_api_key_parsing() {
    assert_eq!(KafkaApiKey::from_u16(0), Some(KafkaApiKey::Produce));
    assert_eq!(KafkaApiKey::from_u16(1), Some(KafkaApiKey::Fetch));
    assert_eq!(KafkaApiKey::from_u16(999), None);
}

#[test]
fn test_kafka_request_header_encode_decode() {
    let header = KafkaRequestHeader {
        api_key: KafkaApiKey::Produce,
        api_version: 9,
        correlation_id: 12345,
        client_id: Some("keirox-java-client".into()),
    };

    let encoded = header.encode();
    let mut slice = encoded.as_ref();
    let decoded = KafkaRequestHeader::decode(&mut slice).unwrap();

    assert_eq!(decoded.api_key, KafkaApiKey::Produce);
    assert_eq!(decoded.api_version, 9);
    assert_eq!(decoded.correlation_id, 12345);
    assert_eq!(decoded.client_id, Some("keirox-java-client".into()));
}

#[test]
fn test_kafka_response_header_encode_decode() {
    let header = KafkaResponseHeader { correlation_id: 998877 };
    let encoded = header.encode();
    let mut slice = encoded.as_ref();
    let decoded = KafkaResponseHeader::decode(&mut slice).unwrap();
    assert_eq!(decoded.correlation_id, 998877);
}

#[test]
fn kafka_api_framing_edges() {
    let none = KafkaRequestHeader { api_key: KafkaApiKey::SyncGroup, api_version: 1, correlation_id: 2, client_id: None };
    let bytes = none.encode();
    assert_eq!(&bytes[..], &[0, 14, 0, 1, 0, 0, 0, 2, 0xff, 0xff]);
    let mut s: &[u8] = &bytes;
    let d = KafkaRequestHeader::decode(&mut s).unwrap();
    assert_eq!(d.client_id, None);
    assert!(s.is_empty());
    let mut bad: &[u8] = &[0, 99, 0, 0, 0, 0, 0, 0];
    let err = KafkaRequestHeader::decode(&mut bad).unwrap_err();
    assert_eq!(err.to_string(), "Internal runtime error: Unsupported Kafka API key: 99");
    assert_eq!(bad.len(), 6);
    let mut short: &[u8] = &[1, 2];
    assert!(KafkaResponseHeader::decode(&mut short).is_err());
    assert_eq!(short.len(), 2);
}

#[test]
fn test_telemetry_recording_and_rendering() {
    let mut registry = TelemetryRegistry::new();
    registry.record_ingest(100, 10240);
    registry.record_wal_append(450);
    registry.record_wal_append(550);
    registry.set_active_leases(25);
    registry.set_watermark(99);
    registry.record_dlq_eviction();
    registry.record_segment_sealed();
    registry.record_parquet_export();
    registry.set_memory_usage(16 * 1024 * 1024);

    let snap = registry.snapshot();
    assert_eq!(snap.ingest_messages_total, 100);
    assert_eq!(snap.ingest_bytes_total, 10240);
    assert_eq!(snap.wal_append_count, 2);
    assert_eq!(snap.wal_append_avg_latency_us, 500);
    assert_eq!(snap.wal_append_max_latency_us, 550);
    assert_eq!(snap.active_leases_count, 25);
    assert_eq!(snap.watermark_offset, 99);
    assert_eq!(snap.dlq_evictions_total, 1);
    assert_eq!(snap.segments_sealed_total, 1);
    assert_eq!(snap.parquet_files_exported_total, 1);
    assert_eq!(snap.memory_usage_bytes, 16 * 1024 * 1024);

    let prom = registry.render_prometheus();
    assert!(prom.contains("keirox_ingest_messages_total 100"));
    assert!(prom.contains("keirox_wal_append_latency_avg_microseconds 500"));
    assert!(prom.contains("keirox_active_leases_count 25"));

    let json = registry.render_json();
    assert!(json.contains(r#""ingest_messages_total":100"#));
    assert!(json.contains(r#""wal_append_avg_latency_us":500"#));
}

#[test]
fn telemetry_layout_and_wrapping() {
    let mut r = TelemetryRegistry::default();
    assert_eq!(r.snapshot().wal_append_avg_latency_us, 0);
    let prom = r.render_prometheus();
    assert!(prom.starts_with("# HELP keirox_ingest_messages_total Total messages ingested\n# TYPE keirox_ingest_messages_total counter\nkeirox_ingest_messages_total 0\n\n# HELP"));
    assert!(prom.ends_with("keirox_s3_backlog_bytes 0\n"));
    r.record_ingest(u64::MAX, 1);
    r.record_ingest(2, 1);
    assert_eq!(r.snapshot().ingest_messages_total, 1);
    r.set_raft_status(true, 4, 9);
    r.set_coordinator_epoch(3);
    r.record_s3_upload(10);
    r.set_s3_backlog(5);
    let s = r.snapshot();
    assert_eq!((s.raft_leader_status, s.raft_current_term, s.raft_commit_index), (1, 4, 9));
    assert_eq!((s.coordinator_epoch, s.s3_uploaded_bytes_total, s.s3_backlog_bytes), (3, 10, 5));
    assert!(r.render_json().ends_with(r#""s3_uploaded_bytes_total":10,"s3_backlog_bytes":5}"#));
}
