use keirox::auth::{AbacPolicyEngine, Action, PolicyEffect, PolicyRule, PrincipalContext, Resource};
use keirox::diagnostics::{DiagnosticCode, DiagnosticEvent, SubsystemTag};
use keirox::error::KeiroxError;
use keirox::model::{StreamId, TenantId};
use keirox::security::{
    AuditAction, AuditEvent, AuditTrailLedger, CryptoShreddingEngine, DekId, DestroyedKeyEntry,
    DestroyedKeyRegistry, KmsEnvelopeProvider,
};

#[test]
fn test_error_display() {
    let err = KeiroxError::LogMutationViolation("mutation not allowed".into());
    assert_eq!(err.to_string(), "Immutable log violation: mutation not allowed");

    let lease_err = KeiroxError::LeaseConflict("expired".into());
    assert_eq!(lease_err.to_string(), "Lease error: expired");
}

#[test]
fn test_io_error_conversion() {
    let io_err = std::io::Error::new(std::io::ErrorKind::NotFound, "file not found");
    let keirox_err: KeiroxError = io_err.into();
    assert!(matches!(keirox_err, KeiroxError::StorageIo(_)));
}

#[test]
fn error_display_of_every_prefix() {
    assert_eq!(KeiroxError::StreamNotFound("s".into()).to_string(), "Stream not found: s");
    assert_eq!(KeiroxError::Internal("x".into()).to_string(), "Internal runtime error: x");
    assert_eq!(KeiroxError::Unauthorized("u".into()).to_string(), "Unauthorized: u");
    assert_eq!(KeiroxError::KeyDestroyed("k".into()).to_string(), "Key destroyed: k");
    assert_eq!(KeiroxError::Consensus("c".into()).to_string(), "Consensus error: c");
    assert_eq!(KeiroxError::EpochFenced("e".into()).to_string(), "Epoch fenced: e");
    assert_eq!(KeiroxError::QuorumUnavailable("q".into()).to_string(), "Quorum unavailable: q");
    let io = KeiroxError::from_io(std::io::Error::new(std::io::ErrorKind::Other, "disk gone"));
    assert_eq!(io.to_string(), "Storage I/O failure: disk gone");
}

#[test]
fn test_tenant_id_display() {
    let tenant = TenantId([0x12; 16]);
    assert_eq!(tenant.to_string(), "tenant-12121212121212121212121212121212");
}

#[test]
fn test_stream_id_display() {
    let stream = StreamId([0xab; 16]);
    assert_eq!(stream.to_string(), "stream-abababababababababababababababab");
}

#[test]
fn test_equality_and_ordering() {
    let s1 = StreamId([1; 16]);
    let s2 = StreamId([2; 16]);
    assert_ne!(s1, s2);
    assert!(s1 < s2);
}

#[test]
fn test_diagnostic_code_display_and_remediation() {
    let code = DiagnosticCode::CrcMismatch;
    assert_eq!(code.code_str(), "KEI-ERR-002");
    assert_eq!(code.to_string(), "KEI-ERR-002");
    assert!(code.default_remediation().contains("Segment corruption"));

    let event = DiagnosticEvent::new(
        DiagnosticCode::MaxRetriesExceeded,
        SubsystemTag::StatePlane,
        "Offset 42 exceeded max retries (5)",
        1_700_000_000_000_000_000,
    );

    assert_eq!(event.code, DiagnosticCode::MaxRetriesExceeded);
    assert_eq!(event.subsystem, SubsystemTag::StatePlane);
    assert!(event.to_string().contains("KEI-ERR-004"));
    assert!(event.to_string().contains("STATE_PLANE"));
}

#[test]
fn diagnostic_event_full_rendering() {
    let event = DiagnosticEvent::new(DiagnosticCode::NodeDrainTimeout, SubsystemTag::Consensus, "drain", 7)
        .with_custom_remediation("wait");
    assert_eq!(event.to_string(), "[KEI-ERR-016] [CONSENSUS] 7: drain (Remediation: wait)");
    assert_eq!(DiagnosticCode::InvalidBatchHeader.code_str(), "KEI-ERR-001");
    assert_eq!(SubsystemTag::Operability.to_string(), "OPERABILITY");
}

#[test]
fn test_abac_default_deny_and_allow() {
    let mut engine = AbacPolicyEngine::new();
    let tenant_a = TenantId([0x01; 16]);
    let stream = StreamId([0x02; 16]);
    let resource = Resource::Stream { tenant_id: tenant_a, stream_id: stream };

    let principal_producer = PrincipalContext::new("prod-svc-1", tenant_a, vec!["producer"]);
    let principal_consumer = PrincipalContext::new("cons-svc-1", tenant_a, vec!["consumer"]);

    assert!(engine.authorize(&principal_producer, Action::Produce, &resource).is_err());

    let mut prod_roles = Vec::new();
    prod_roles.push("producer".to_string());
    let mut prod_actions = Vec::new();
    prod_actions.push(Action::Produce);

    engine
        .add_rule(PolicyRule {
            rule_id: "rule-prod-allow".into(),
            effect: PolicyEffect::Allow,
            tenant_scope: Some(tenant_a),
            required_roles: prod_roles,
            actions: prod_actions,
        })
        .unwrap();

    assert!(engine.authorize(&principal_producer, Action::Produce, &resource).is_ok());
    assert!(engine.authorize(&principal_consumer, Action::Produce, &resource).is_err());
}

#[test]
fn test_abac_cross_tenant_isolation() {
    let mut engine = AbacPolicyEngine::new();
    let tenant_a = TenantId([0x01; 16]);
    let tenant_b = TenantId([0x02; 16]);

    let resource_b = Resource::Stream { tenant_id: tenant_b, stream_id: StreamId([0x09; 16]) };
    let principal_a = PrincipalContext::new("attacker", tenant_a, vec!["producer"]);

    let mut actions = Vec::new();
    actions.push(Action::Produce);
    engine
        .add_rule(PolicyRule {
            rule_id: "global-allow".into(),
            effect: PolicyEffect::Allow,
            tenant_scope: None,
            required_roles: Vec::new(),
            actions,
        })
        .unwrap();

    let result = engine.authorize(&principal_a, Action::Produce, &resource_b);
    assert!(result.is_err());
    assert!(matches!(result.unwrap_err(), KeiroxError::Unauthorized(_)));
}

#[test]
fn abac_messages_and_deny_override() {
    let mut engine = AbacPolicyEngine::new();
    let t = TenantId([0x01; 16]);
    let p = PrincipalContext::new("svc", t, vec!["ops"]);
    let res = Resource::Tenant(t);
    let err = engine.authorize(&p, Action::Admin, &res).unwrap_err();
    assert_eq!(
        err.to_string(),
        "Unauthorized: Default-deny: No policy rule granted action Admin on resource Tenant(TenantId([1, 1, 1, 1, 1, 1, 1, 1, 1, 1, 1, 1, 1, 1, 1, 1])) for principal \"svc\""
    );
    engine
        .add_rule(PolicyRule {
            rule_id: "allow-all".into(),
            effect: PolicyEffect::Allow,
            tenant_scope: None,
            required_roles: Vec::new(),
            actions: vec![Action::Admin],
        })
        .unwrap();
    assert!(engine.authorize(&p, Action::Admin, &res).is_ok());
    engine
        .add_rule(PolicyRule {
            rule_id: "deny-ops".into(),
            effect: PolicyEffect::Deny,
            tenant_scope: Some(t),
            required_roles: vec!["ops".to_string()],
            actions: vec![Action::Admin],
        })
        .unwrap();
    let err = engine.authorize(&p, Action::Admin, &res).unwrap_err();
    assert_eq!(
        err.to_string(),
        "Unauthorized: Explicit deny policy rule \"deny-ops\" rejected action Admin for principal \"svc\""
    );
    // a super-admin crosses tenants; the system resource has no tenant
    let admin = PrincipalContext::new("root", TenantId([9; 16]), vec!["super-admin"]);
    assert!(engine.authorize(&admin, Action::Admin, &Resource::System).is_ok());
    let other = PrincipalContext::new("x", TenantId([9; 16]), vec!["ops"]);
    let err = engine
        .authorize(&other, Action::Admin, &Resource::ConsumerGroup { tenant_id: t, group_id: "g".into() })
        .unwrap_err();
    assert!(err.to_string().starts_with("Unauthorized: Cross-tenant access violation: principal \"x\""));
}

#[test]
fn test_tamper_evident_audit_ledger() {
    let mut ledger = AuditTrailLedger::new();
    let tenant = TenantId([0x10; 16]);

    ledger
        .record_event(AuditEvent {
            timestamp_ns: 1000,
            principal_id: "alice".into(),
            tenant_id: tenant,
            resource: "stream-orders".into(),
            action: AuditAction::Produce,
            outcome: "SUCCESS".into(),
            details: "Batch 1 appended".into(),
        })
        .unwrap();

    ledger
        .record_event(AuditEvent {
            timestamp_ns: 2000,
            principal_id: "bob".into(),
            tenant_id: tenant,
            resource: "stream-orders".into(),
            action: AuditAction::Consume,
            outcome: "SUCCESS".into(),
            details: "Leased offset 0".into(),
        })
        .unwrap();

    assert_eq!(ledger.record_count(), 2);
    assert!(ledger.verify_integrity().is_ok());
}

#[test]
fn audit_sequence_numbers_and_empty_ledger() {
    let mut ledger = AuditTrailLedger::default();
    assert!(ledger.verify_integrity().is_ok());
    let ev = AuditEvent {
        timestamp_ns: 5,
        principal_id: "p".into(),
        tenant_id: TenantId([0; 16]),
        resource: "r".into(),
        action: AuditAction::AdminConfig,
        outcome: "DENY".into(),
        details: "".into(),
    };
    assert_eq!(ledger.record_event(ev.clone()).unwrap(), 0);
    assert_eq!(ledger.record_event(ev).unwrap(), 1);
    assert!(ledger.verify_integrity().is_ok());
}

#[test]
fn audit_hash_differs_from_its_input() {
    // the hash wrapper must not hand its input back
    let rec = keirox::security::AuditRecord {
        sequence: 0,
        previous_hash: keirox::security::AuditRecord::GENESIS_HASH,
        event: AuditEvent {
            timestamp_ns: 1,
            principal_id: "a".into(),
            tenant_id: TenantId([1; 16]),
            resource: "r".into(),
            action: AuditAction::Ack,
            outcome: "SUCCESS".into(),
            details: "d".into(),
        },
        record_hash: [0u8; 32],
    };
    let h = rec.compute_hash();
    assert_ne!(h, [0u8; 32]);
    assert_ne!(h, keirox::security::AuditRecord::GENESIS_HASH);
    assert_eq!(h, rec.compute_hash());
}

#[test]
fn test_kms_envelope_encryption_and_decryption() {
    let mut kms = KmsEnvelopeProvider::with_random_master_key();
    let tenant = TenantId([0x01; 16]);
    let stream = StreamId([0x02; 16]);
    let dek_id = DekId(101);

    kms.generate_dek(tenant, dek_id).unwrap();

    let original = b"Sensitive payment payload for customer #99812";
    let encrypted = kms.encrypt(tenant, stream, dek_id, original).unwrap();

    assert_ne!(encrypted.ciphertext, original);

    let decrypted = kms.decrypt(tenant, stream, &encrypted).unwrap();
    assert_eq!(decrypted, original);

    let wrong_tenant = TenantId([0x99; 16]);
    assert!(kms.decrypt(wrong_tenant, stream, &encrypted).is_err());
}

#[test]
fn kms_missing_key_and_wrong_stream() {
    let mut kms = KmsEnvelopeProvider::new([7u8; 32]);
    assert_eq!(kms.master_key(), &[7u8; 32]);
    let t = TenantId([3; 16]);
    let err = kms.get_dek(t, DekId(5)).unwrap_err();
    assert_eq!(
        err.to_string(),
        "Key destroyed: DEK DekId(5) for tenant TenantId([3, 3, 3, 3, 3, 3, 3, 3, 3, 3, 3, 3, 3, 3, 3, 3]) not found or destroyed"
    );
    let k = kms.generate_dek(t, DekId(5)).unwrap();
    assert_eq!(kms.get_dek(t, DekId(5)).unwrap(), k);
    let sealed = kms.encrypt_with_nonce(t, StreamId([1; 16]), DekId(5), b"hello", [9u8; 12]).unwrap();
    assert_eq!(sealed.nonce, [9u8; 12]);
    assert_eq!(sealed.ciphertext.len(), 5 + 16);
    let err = kms.decrypt(t, StreamId([2; 16]), &sealed).unwrap_err();
    assert_eq!(err.to_string(), "Internal runtime error: AES-GCM decryption/authentication error: aead::Error");
    assert_eq!(kms.erase_dek(t, DekId(5)).unwrap(), true);
    assert_eq!(kms.erase_dek(t, DekId(5)).unwrap(), false);
    assert!(matches!(kms.decrypt(t, StreamId([1; 16]), &sealed), Err(KeiroxError::KeyDestroyed(_))));
}

#[test]
fn test_crypto_shredding_and_erasure_proof() {
    let kms = KmsEnvelopeProvider::with_random_master_key();
    let registry = DestroyedKeyRegistry::new();
    let mut shredder = CryptoShreddingEngine::new(kms, registry);

    let tenant = TenantId([0x05; 16]);
    let stream = StreamId([0x06; 16]);
    let dek_id = DekId(202);

    shredder.kms_mut().generate_dek(tenant, dek_id).unwrap();
    let payload = shredder.kms().encrypt(tenant, stream, dek_id, b"GDPR confidential data").unwrap();

    assert!(!shredder.registry().is_destroyed(tenant, dek_id));

    let proof = shredder
        .shred_dek(
            tenant,
            Some(stream),
            dek_id,
            "dpo-operator-01".into(),
            "GDPR Article 17 Right to Erasure Request #1234".into(),
            1_700_000_000_000_000,
        )
        .unwrap();

    assert!(proof.is_valid());
    assert!(shredder.registry().is_destroyed(tenant, dek_id));
    assert!(shredder.registry().verify_active(tenant, dek_id).is_err());

    assert!(shredder.kms().decrypt(tenant, stream, &payload).is_err());
}

#[test]
fn erasure_proof_id_and_tampering() {
    let mut shredder = CryptoShreddingEngine::new(KmsEnvelopeProvider::new([0; 32]), DestroyedKeyRegistry::default());
    let tenant = TenantId([0x2a; 16]);
    let mut proof = shredder.shred_dek(tenant, None, DekId(9), "op".into(), "why".into(), 77).unwrap();
    assert_eq!(proof.proof_id, "PROOF-SHRED-42-9-77");
    assert!(proof.is_valid());
    proof.reason = "changed".into();
    assert!(!proof.is_valid());
    let err = shredder.registry().verify_active(tenant, DekId(9)).unwrap_err();
    assert!(err.to_string().starts_with("Key destroyed: Crypto-shredded: DEK DekId(9) for tenant TenantId([42,"));
    let list = shredder.registry().list_destroyed();
    assert_eq!(list.len(), 1);
    assert_eq!(list[0].destroyed_at_ns, 77);
}

#[test]
fn registry_replaces_same_key() {
    let mut reg = DestroyedKeyRegistry::new();
    let t = TenantId([1; 16]);
    let entry = |at: u64| DestroyedKeyEntry {
        tenant_id: t,
        dek_id: DekId(1),
        stream_id: None,
        destroyed_at_ns: at,
        operator_id: "o".into(),
        reason: "r".into(),
    };
    reg.record_destruction(entry(1)).unwrap();
    reg.record_destruction(entry(2)).unwrap();
    let list = reg.list_destroyed();
    assert_eq!(list.len(), 1);
    assert_eq!(list[0].destroyed_at_ns, 2);
    assert!(reg.verify_active(TenantId([2; 16]), DekId(1)).is_ok());
}

#[test]
fn audit_ledger_numbers_each_event() {
    let mut ledger = AuditTrailLedger::new();
    for i in 0..5u64 {
        let seq = ledger
            .record_event(AuditEvent {
                timestamp_ns: i,
                principal_id: "p".into(),
                tenant_id: TenantId([0x11; 16]),
                resource: "r".into(),
                action: AuditAction::Produce,
                outcome: "SUCCESS".into(),
                details: format!("event {i}"),
            })
            .unwrap();
        assert_eq!(seq, i);
        assert_eq!(ledger.record_count() as u64, i + 1);
        assert!(ledger.verify_integrity().is_ok());
    }
}
