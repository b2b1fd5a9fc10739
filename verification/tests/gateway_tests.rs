use bytes::{BufMut, BytesMut};
use keirox::coordinator::epoch_fencing::EpochFencedToken;
use keirox::coordinator::shard::{CoordinatorEpoch, ShardId};
use keirox::error::KeiroxError;
use keirox::gateway::amqp::{AmqpGatewayServer, AmqpPublishRequest};
use keirox::gateway::idempotence::{PreflightResult, ProducerIdempotenceTracker};
use keirox::gateway::migration::{KafkaMigrationBridge, MigrationPhase};
use keirox::gateway::protocol::{
    KafkaApiKey, KafkaErrorCode, KafkaProduceRecordBatch, KafkaProduceResponse, KafkaRequestHeader,
    KafkaResponseHeader,
};
use keirox::gateway::server::{KafkaGatewayServer, ProduceStep};
use keirox::gateway::sqs::SqsGatewayServer;
use keirox::gateway::topic_mapper::TopicMapper;
use keirox::model::TenantId;

#[test]
fn test_idempotence_sequence_validation_and_deduplication() {
    let mut tracker = ProducerIdempotenceTracker::new();

    assert_eq!(tracker.check_preflight(1001, 0, 0, "orders", 0), PreflightResult::Proceed);

    let off1 = tracker.verify_and_update(1001, 0, 0, 5, "orders", 0, 100).unwrap();
    assert_eq!(off1, 100);

    assert_eq!(tracker.check_preflight(1001, 0, 0, "orders", 0), PreflightResult::Duplicate(100));

    assert_eq!(
        tracker.check_preflight(1001, 0, 10, "orders", 0),
        PreflightResult::Error(KafkaErrorCode::OutOfOrderSequenceNumber)
    );

    assert_eq!(tracker.check_preflight(1001, 0, 5, "orders", 0), PreflightResult::Proceed);
    let off2 = tracker.verify_and_update(1001, 0, 5, 5, "orders", 0, 105).unwrap();
    assert_eq!(off2, 105);
}

#[test]
fn idempotence_epochs_and_untracked_producers() {
    let mut tracker = ProducerIdempotenceTracker::default();
    assert_eq!(tracker.verify_and_update(-1, 0, 0, 1, "t", 0, 7), Ok(7));
    assert_eq!(tracker.check_preflight(-1, 0, 0, "t", 0), PreflightResult::Proceed);
    tracker.verify_and_update(5, 2, 0, 1, "t", 0, 10).unwrap();
    assert_eq!(
        tracker.check_preflight(5, 1, 1, "t", 0),
        PreflightResult::Error(KafkaErrorCode::LeaderNotAvailable)
    );
    assert_eq!(tracker.verify_and_update(5, 1, 1, 1, "t", 0, 11), Err(KafkaErrorCode::LeaderNotAvailable));
    // a newer epoch starts over at any sequence
    assert_eq!(tracker.check_preflight(5, 3, 40, "t", 0), PreflightResult::Proceed);
    // another partition is tracked apart
    assert_eq!(tracker.check_preflight(5, 2, 0, "t", 1), PreflightResult::Proceed);
}

#[test]
fn test_kafka_header_decode() {
    let mut buf = BytesMut::new();
    buf.put_i16(18);
    buf.put_i16(3);
    buf.put_i32(42);
    buf.put_i16(6);
    buf.put_slice(b"client");

    let mut bytes = buf.freeze();
    let header = KafkaRequestHeader::decode(&mut bytes).unwrap();
    assert_eq!(header.api_key, KafkaApiKey::ApiVersions);
    assert_eq!(header.api_version, 3);
    assert_eq!(header.correlation_id, 42);
    assert_eq!(header.client_id, Some("client".into()));
}

#[test]
fn kafka_header_decode_errors_and_consumption() {
    let mut short = bytes::Bytes::from(vec![0u8, 1, 2]);
    let err = KafkaRequestHeader::decode(&mut short).unwrap_err();
    assert_eq!(err.to_string(), "Internal runtime error: Header buffer underflow");
    assert_eq!(short.len(), 3);

    let mut buf = BytesMut::new();
    buf.put_i16(77);
    buf.put_i16(0);
    buf.put_i32(-5);
    buf.put_i16(10);
    buf.put_slice(b"abc");
    let mut b = buf.freeze();
    let err = KafkaRequestHeader::decode(&mut b).unwrap_err();
    assert_eq!(err.to_string(), "Internal runtime error: Client ID buffer underflow in Kafka request header");
    assert_eq!(b.len(), 3);

    let mut buf = BytesMut::new();
    buf.put_i16(77);
    buf.put_i16(0);
    buf.put_i32(-5);
    buf.put_i16(-1);
    buf.put_slice(b"tail");
    let mut b = buf.freeze();
    let h = KafkaRequestHeader::decode(&mut b).unwrap();
    assert_eq!(h.api_key, KafkaApiKey::Unsupported(77));
    assert_eq!(h.correlation_id, -5);
    assert_eq!(h.client_id, None);
    assert_eq!(&b[..], b"tail");

    let mut buf = BytesMut::new();
    buf.put_i16(0);
    buf.put_i16(0);
    buf.put_i32(1);
    buf.put_i16(2);
    buf.put_slice(&[0xff, 0xfe]);
    let mut b = buf.freeze();
    let err = KafkaRequestHeader::decode(&mut b).unwrap_err();
    assert_eq!(err.to_string(), "Internal runtime error: Malformed UTF-8 in Kafka client_id");

    let mut out = BytesMut::new();
    KafkaResponseHeader { correlation_id: 0x01020304 }.encode(&mut out);
    assert_eq!(&out[..], &[1, 2, 3, 4]);
    assert_eq!(KafkaErrorCode::UnknownServerError.to_i16(), -1);
    assert_eq!(KafkaErrorCode::OutOfOrderSequenceNumber.to_i16(), 47);
    assert_eq!(KafkaApiKey::from(22i16), KafkaApiKey::InitProducerId);
}

#[test]
fn test_topic_to_stream_deterministic_mapping() {
    let mapper = TopicMapper::new(TenantId([1u8; 16]));
    let s1 = mapper.map_to_stream("user-events", 0);
    let s2 = mapper.map_to_stream("user-events", 0);
    let s3 = mapper.map_to_stream("user-events", 1);

    assert_eq!(s1, s2);
    assert_ne!(s1, s3);
}

#[test]
fn sqs_receipt_handle_roundtrip_and_errors() {
    let token = EpochFencedToken::new(ShardId(12), CoordinatorEpoch(3), 42, 999);
    let handle = SqsGatewayServer::encode_receipt_handle(token);
    assert_eq!(handle, "RH-0000000c-0000000000000003-000000000000002a-000003e7");
    let decoded = SqsGatewayServer::decode_receipt_handle(&handle).unwrap();
    assert_eq!(decoded.shard_id.0, 12);
    assert_eq!(decoded.epoch.0, 3);
    assert_eq!(decoded.offset, 42);
    assert_eq!(decoded.nonce, 999);

    let bad = |h: &str| SqsGatewayServer::decode_receipt_handle(h).unwrap_err().to_string();
    assert_eq!(bad("XX-1-2-3-4"), "Internal runtime error: Invalid SQS receipt handle format");
    assert_eq!(bad("RH-1-2-3"), "Internal runtime error: Malformed SQS receipt handle segments");
    assert_eq!(bad("RH-zz-2-3-4"), "Internal runtime error: Invalid shard_id in receipt handle");
    assert_eq!(bad("RH-1-2-3-100000000"), "Internal runtime error: Invalid nonce in receipt handle");
    assert!(matches!(SqsGatewayServer::decode_receipt_handle("RH-+a-B-c-d"), Ok(_)));
}

#[test]
fn sqs_send_response_and_group() {
    let resp = SqsGatewayServer::send_message_response(42, "{\"item\":\"laptop\",\"price\":1200}");
    assert_eq!(resp.sequence_number, 42);
    assert!(!resp.message_id.is_empty());
    assert_eq!(resp.md5_of_body.len(), 32);
    assert!(resp.message_id.starts_with("msg-000000000000002a-"));
    assert_eq!(&resp.message_id[21..], &resp.md5_of_body[..8]);
    let empty = SqsGatewayServer::send_message_response(0, "");
    assert_eq!(empty.md5_of_body, "d41d8cd98f00b204e9800998ecf8427e");
    assert_eq!(
        SqsGatewayServer::queue_group_id("https://sqs.us-east-1.amazonaws.com/123456789012/order-queue"),
        "sqs-group-order-queue"
    );
    assert_eq!(SqsGatewayServer::queue_group_id("plain"), "sqs-group-plain");
    assert_eq!(SqsGatewayServer::queue_group_id("trailing/"), "sqs-group-");
    let gw = SqsGatewayServer::new(TenantId([0x10; 16]));
    let s = gw.map_queue_to_stream("q");
    assert_eq!(&s.0[..8], &[0x10; 8]);
    assert_eq!(s, gw.map_queue_to_stream("q"));
}

#[test]
fn amqp_resolution() {
    let gw = AmqpGatewayServer::new(TenantId([0x20; 16]));
    let s = gw.resolve_stream("", "tasks.email").unwrap();
    assert_eq!(&s.0[..8], &[0x20; 8]);
    let err = gw.resolve_stream("amq.topic", "orders.europe.*").unwrap_err();
    assert!(err.to_string().contains("topic exchange topology is unsupported"));
    assert!(gw.resolve_stream("x.topic.y", "k").is_err());
    let err = gw.resolve_stream("amq.headers", "k").unwrap_err();
    assert!(err.to_string().contains("headers exchange topology is unsupported"));
    let req = AmqpPublishRequest {
        exchange: "".into(),
        routing_key: "tasks.email".into(),
        mandatory: true,
        immediate: false,
        payload: b"send email notification".to_vec(),
        content_type: "text/plain".into(),
        headers: Vec::new(),
    };
    let c = AmqpGatewayServer::publish_confirmation(100, req);
    assert_eq!(c.offset, 100);
    assert_eq!(c.routing_key, "tasks.email");
}

#[test]
fn migration_bridge_offsets_and_report() {
    let tenant = TenantId([0x10; 16]);
    let mut bridge = KafkaMigrationBridge::new(tenant);
    assert_eq!(bridge.current_phase(), MigrationPhase::PhaseABridgeReplicating);
    assert_eq!(bridge.record_replication("orders-topic", 0, 100, 2, 500).unwrap(), 500);
    assert_eq!(bridge.translate_consumer_offset("orders-topic", 0, 101).unwrap(), 501);
    assert_eq!(bridge.translate_consumer_offset("orders-topic", 0, 100).unwrap(), 500);
    let err = bridge.translate_consumer_offset("orders-topic", 0, 102).unwrap_err();
    assert_eq!(err.to_string(), "Internal runtime error: Kafka committed offset 102 exceeds bridge high watermark 101");
    assert_eq!(bridge.translate_consumer_offset("other", 0, -4).unwrap(), 0);
    assert_eq!(bridge.translate_consumer_offset("other", 0, 9).unwrap(), 9);
    bridge.transition_phase(MigrationPhase::PhaseBDualWriteValidation).unwrap();
    assert_eq!(bridge.record_dual_write("orders-topic", 0, 1, 500).unwrap(), (500, 0));
    bridge.transition_phase(MigrationPhase::PhaseCConsumerCutover).unwrap();
    let report = bridge.generate_status_report("orders-topic", 0);
    assert_eq!(report.phase, MigrationPhase::PhaseCConsumerCutover);
    assert_eq!(report.topic, "orders-topic");
    assert_eq!(report.kafka_high_watermark, 0);
    assert_eq!(report.keirox_head_offset, 500);
    assert_eq!(report.offset_lag, 500);
    assert_eq!(report.dual_write_count, 1);
    let none = bridge.generate_status_report("nothing", 3);
    assert_eq!(none.kafka_high_watermark, -1);
    assert_eq!(none.offset_lag, 0);
}

#[test]
fn kafka_gateway_batches() {
    let mut gw = KafkaGatewayServer::new(TenantId([1; 16]));
    let batch = KafkaProduceRecordBatch {
        topic: "orders".into(),
        partition: 0,
        producer_id: 9,
        producer_epoch: 0,
        base_sequence: 0,
        records: vec![vec![1], vec![2]],
    };
    match gw.prepare_batch(&batch) {
        ProduceStep::Ingest { tenant_id, stream_id } => {
            assert_eq!(tenant_id, TenantId([1; 16]));
            assert_eq!(stream_id, TopicMapper::new(TenantId([1; 16])).map_to_stream("orders", 0));
        }
        ProduceStep::Respond(_) => panic!("expected ingest"),
    }
    let r = gw.complete_batch(&batch, Ok(40));
    assert_eq!(r.error_code, KafkaErrorCode::NoError);
    assert_eq!(r.base_offset, 40);
    match gw.prepare_batch(&batch) {
        ProduceStep::Respond(resp) => {
            assert_eq!(resp.base_offset, 40);
            assert_eq!(resp.error_code, KafkaErrorCode::NoError);
        }
        _ => panic!("expected duplicate"),
    }
    let q = gw.complete_batch(&batch, Err(KeiroxError::QuorumUnavailable("x".into())));
    assert_eq!(q.error_code, KafkaErrorCode::LeaderNotAvailable);
    assert_eq!(q.base_offset, -1);
    let u = gw.complete_batch(&batch, Err(KeiroxError::Internal("x".into())));
    assert_eq!(u.error_code, KafkaErrorCode::UnknownServerError);

    let mut resp = KafkaProduceResponse::new();
    resp.add("a", r);
    resp.add("b", q);
    resp.add("a", u);
    assert_eq!(resp.responses.len(), 2);
    assert_eq!(resp.responses[0].1.len(), 2);
    assert_eq!(resp.throttle_time_ms, 0);

    assert_eq!(gw.handle_api_versions().len(), 9);
    let h = KafkaRequestHeader { api_key: KafkaApiKey::Unsupported(99), api_version: 0, correlation_id: 1, client_id: None };
    assert_eq!(gw.dispatch_request(&h).unwrap(), KafkaErrorCode::UnsupportedVersion);
    let h = KafkaRequestHeader { api_key: KafkaApiKey::Fetch, api_version: 0, correlation_id: 1, client_id: None };
    assert_eq!(gw.dispatch_request(&h).unwrap(), KafkaErrorCode::NoError);
}
