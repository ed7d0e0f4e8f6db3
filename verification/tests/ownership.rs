use openasr_cli::json::Json;
use openasr_cli::ownership::{
    check_artifact_file, check_bundle_envelopes, check_bundle_shape, check_digests,
    check_envelope_path, is_same_release,
    known_retained_bytes, parse_helper_event, read_bound_artifact, require_same_live_state,
    validate_activation_receipt, validate_bundle, validate_envelope_artifacts,
    validate_pressure_helper_trace, validate_request_receipt, validate_runtime_snapshot,
    validate_snapshot_transitions, ActivationDecode, OwnershipActivationReceipt,
    OwnershipAdmissionObservation, OwnershipCandidateObservation, OwnershipDaemonStartIdentity,
    OwnershipError, OwnershipEvidenceArtifact, OwnershipEvidencePhaseKind,
    OwnershipEvidenceScenario, OwnershipReleaseBinding, RequestDecode, RuntimeSnapshotFacts,
    RUNTIME_SNAPSHOT_SCHEMA,
};
use openasr_cli::pressure::PRESSURE_HELPER_SCHEMA;
use openasr_cli::table::Table;
use serde_json::Value;

fn daemon() -> OwnershipDaemonStartIdentity {
    OwnershipDaemonStartIdentity {
        pid: 42,
        nonce: "0123456789abcdef0123456789abcdef".to_string(),
        started_at_unix_secs: 1_700_000_000,
    }
}

fn object(fields: Vec<(&str, Value)>) -> Value {
    let mut map = serde_json::Map::new();
    for (name, value) in fields {
        map.insert(name.to_string(), value);
    }
    Value::Object(map)
}

fn snapshot_value(event_history_complete: bool) -> Value {
    object(vec![
        ("schema", Value::from(RUNTIME_SNAPSHOT_SCHEMA)),
        (
            "daemon_start_identity",
            object(vec![
                ("pid", Value::from(42)),
                ("nonce", Value::from("0123456789abcdef0123456789abcdef")),
                ("started_at_unix_secs", Value::from(1_700_000_000_u64)),
            ]),
        ),
        ("availability", Value::from("available")),
        (
            "snapshot_completeness",
            object(vec![
                ("complete", Value::from(event_history_complete)),
                ("live_state_complete", Value::from(true)),
                ("event_history_complete", Value::from(event_history_complete)),
            ]),
        ),
        ("lease_reconciliation", object(vec![("status", Value::from("matched"))])),
        (
            "live_owners",
            Value::Array(vec![object(vec![
                ("id", Value::from("owner-1")),
                ("placement", Value::from("lane-bound")),
                (
                    "lane",
                    object(vec![("provider", Value::from("Hip")), ("device", Value::from("abcd"))]),
                ),
                (
                    "resources",
                    Value::Array(vec![object(vec![
                        ("id", Value::from("resource-1")),
                        ("ledger_binding", Value::from("brokered")),
                        (
                            "retained",
                            object(vec![
                                ("status", Value::from("known")),
                                ("bytes", Value::from(4096)),
                            ]),
                        ),
                    ])]),
                ),
            ])]),
        ),
    ])
}

fn snapshot(event_history_complete: bool) -> Vec<u8> {
    serde_json::to_vec(&snapshot_value(event_history_complete)).unwrap()
}

#[test]
fn runtime_snapshot_accepts_event_history_overflow_but_not_live_incompleteness() {
    let facts = validate_runtime_snapshot(&snapshot(false), &daemon(), "hip").unwrap();
    assert!(facts.has_release_provider);
    assert_eq!(facts.retained_bytes, 4096);

    let mut value: Value = serde_json::from_slice(&snapshot(true)).unwrap();
    value["snapshot_completeness"]["live_state_complete"] = Value::from(false);
    assert!(
        validate_runtime_snapshot(&serde_json::to_vec(&value).unwrap(), &daemon(), "hip").is_err()
    );
}

fn helper_event(name: &str, result: &str, available: u64) -> Value {
    object(vec![
        ("schema", Value::from(PRESSURE_HELPER_SCHEMA)),
        ("event", Value::from(name)),
        ("result", Value::from(result)),
        ("helper_pid", Value::from(7)),
        ("parent_pid", Value::from(42)),
        ("candidate_required_bytes", Value::from(500)),
        ("safety_floor_bytes", Value::from(200)),
        ("observed_available_bytes", Value::from(available)),
        ("lowest_available_bytes", Value::from(300)),
        ("committed_bytes", Value::from(600)),
        ("touched_bytes", Value::from(600)),
        ("timeout_seconds", Value::from(60)),
        ("job_kill_on_close", Value::from(true)),
        ("parent_death_cleanup", Value::from(true)),
        ("page_locking", Value::from(false)),
    ])
}

fn observation() -> OwnershipCandidateObservation {
    OwnershipCandidateObservation {
        admission: admission(),
        safety_floor_bytes: 200,
        helper_committed_bytes: 600,
        helper_touched_bytes: 600,
    }
}

fn admission() -> OwnershipAdmissionObservation {
    OwnershipAdmissionObservation {
        candidate_sha256: "a".repeat(64),
        policy_requested_bytes: 500,
        policy_remaining_bytes: 1_000,
        observed_requested_bytes: 500,
        observed_remaining_bytes: 300,
    }
}

#[test]
fn helper_trace_requires_safe_crossing_and_recovery() {
    let trace = format!(
        "{}\n{}\n",
        helper_event("ready", "holding", 300),
        helper_event("released", "pass", 700)
    );
    validate_pressure_helper_trace(trace.as_bytes(), &observation()).unwrap();
}

#[test]
fn a_helper_trace_that_does_not_prove_the_crossing_is_refused() {
    let trace = |ready: u64, released: u64| {
        format!(
            "{}\n{}\n",
            helper_event("ready", "holding", ready),
            helper_event("released", "pass", released)
        )
    };
    let refused = |text: &str| validate_pressure_helper_trace(text.as_bytes(), &observation());
    assert!(refused(&trace(600, 700)).is_err());
    assert!(refused(&trace(300, 400)).is_err());
    assert_eq!(refused("").unwrap_err(), OwnershipError::HelperLineCount);
    assert_eq!(
        validate_pressure_helper_trace(&[0xff, 0xfe], &observation()).unwrap_err(),
        OwnershipError::HelperNotUtf8
    );
    assert_eq!(refused("no\nno\n").unwrap_err(), OwnershipError::HelperLineNotJson);
    assert!(parse_helper_event(
        &helper_event("ready", "holding", 300).to_string(),
        "released",
        "pass"
    )
    .is_err());
}

#[test]
fn a_snapshot_of_another_daemon_is_refused() {
    let mut other = daemon();
    other.pid = 43;
    assert_eq!(
        validate_runtime_snapshot(&snapshot(true), &other, "hip").unwrap_err(),
        OwnershipError::DaemonMismatch
    );
    assert_eq!(
        validate_runtime_snapshot(b"{", &daemon(), "hip").unwrap_err(),
        OwnershipError::SnapshotNotJson
    );
    let facts = validate_runtime_snapshot(&snapshot(true), &daemon(), "cuda").unwrap();
    assert!(!facts.has_release_provider);
    let mut value = snapshot_value(true);
    value["live_owners"] = Value::from(3);
    assert_eq!(
        validate_runtime_snapshot(&serde_json::to_vec(&value).unwrap(), &daemon(), "hip")
            .unwrap_err(),
        OwnershipError::OwnersNotArray
    );
}

#[test]
fn artifacts_are_bound_by_their_hash() {
    let bound = OwnershipEvidenceArtifact {
        label: "abc".to_string(),
        sha256: "ba7816bf8f01cfea414140de5dae2223b00361a396177a9cb410ff61f20015ad".to_string(),
    };
    assert!(read_bound_artifact(b"abc", &bound));
    assert!(!read_bound_artifact(b"abd", &bound));
    let digest = bound.sha256.clone();
    let artifacts = vec![bound];
    assert!(check_digests(&artifacts, &vec![digest]).is_ok());
    assert_eq!(
        check_digests(&artifacts, &vec!["00".to_string()]),
        Err(OwnershipError::HashMismatch(0))
    );
    assert!(check_artifact_file(true, 0x0200_0000).is_ok());
    assert_eq!(check_artifact_file(true, 0x0200_0001), Err(OwnershipError::FileTooLarge));
    assert_eq!(check_artifact_file(false, 1), Err(OwnershipError::NotRegularFile));
}

#[test]
fn envelopes_stand_directly_in_their_bundle() {
    assert!(check_envelope_path(true, true).is_ok());
    assert_eq!(check_envelope_path(false, true), Err(OwnershipError::EnvelopeWithoutName));
    assert_eq!(check_envelope_path(true, false), Err(OwnershipError::EnvelopeNotChild));
    assert_eq!(check_bundle_shape(false, 1), Err(OwnershipError::NotADirectory));
    assert_eq!(check_bundle_shape(true, 0), Err(OwnershipError::EnvelopeCount));
    assert!(check_bundle_shape(true, 1).is_ok());
    assert_eq!(check_bundle_shape(true, 2), Err(OwnershipError::EnvelopeCount));
    assert!(check_bundle_shape(true, 3).is_ok());
    assert_eq!(check_bundle_shape(true, 4), Err(OwnershipError::EnvelopeCount));
}

#[test]
fn only_known_amounts_are_summed() {
    let retained = |status: &str| {
        Json::Object(vec![(
            "retained".to_string(),
            Json::Object(vec![
                ("status".to_string(), Json::Text(status.to_string())),
                (
                    "bytes".to_string(),
                    Json::Number(openasr_cli::json::JsonNumber::Unsigned(9)),
                ),
            ]),
        )])
    };
    assert_eq!(known_retained_bytes(&retained("known")), Ok(9));
    assert_eq!(known_retained_bytes(&retained("unknown")), Err(OwnershipError::RetainedUnknown));
}

fn release() -> OwnershipReleaseBinding {
    OwnershipReleaseBinding {
        release_subject: "subject".to_string(),
        core_commit: "commit".to_string(),
        pack_sha256: "pack".to_string(),
        capability_matrix_sha256: "matrix".to_string(),
        capability_cell_sha256: "cell".to_string(),
        capability_epoch: 3,
        provider: "hip".to_string(),
        device_target: "gfx1100".to_string(),
        binary_sha256: "binary".to_string(),
        plugin_sha256: "plugin".to_string(),
        model_id: "model".to_string(),
        quant: "q8".to_string(),
        family: "family".to_string(),
        topology: "topology".to_string(),
        placement: "placement".to_string(),
        output_plan: "full-logits".to_string(),
        capture_mode: "disabled".to_string(),
        scheduler_mode: "disabled".to_string(),
    }
}

fn activation() -> OwnershipActivationReceipt {
    OwnershipActivationReceipt {
        daemon_start_identity: daemon(),
        release_subject: "subject".to_string(),
        core_commit: "commit".to_string(),
        pack_sha256: "pack".to_string(),
        capability_matrix_sha256: "matrix".to_string(),
        capability_epoch: 3,
        provider: "hip".to_string(),
        device_target: "gfx1100".to_string(),
        fresh_reserve: admission(),
    }
}

#[test]
fn an_activation_belongs_to_its_release_and_daemon() {
    let check = |receipt: OwnershipActivationReceipt| {
        validate_activation_receipt(
            &ActivationDecode::Receipt(receipt),
            &release(),
            &observation(),
            &daemon(),
        )
    };
    assert!(check(activation()).is_ok());
    let mut later = activation();
    later.capability_epoch = 4;
    assert_eq!(check(later), Err(OwnershipError::ActivationNotBound));
    assert_eq!(
        validate_activation_receipt(
            &ActivationDecode::NotUtf8,
            &release(),
            &observation(),
            &daemon()
        ),
        Err(OwnershipError::ActivationNotUtf8)
    );
    assert_eq!(
        validate_request_receipt(
            &RequestDecode::Invalid,
            &release(),
            OwnershipEvidencePhaseKind::ColdRequestCompleted
        ),
        Err(OwnershipError::RequestInvalid)
    );
}

#[test]
fn releases_are_the_same_in_every_field() {
    assert!(is_same_release(&release(), &release()));
    let mut other = release();
    other.scheduler_mode = "enabled".to_string();
    assert!(!is_same_release(&release(), &other));
}

fn live(owners: &str, retained: u64, has_release_provider: bool) -> RuntimeSnapshotFacts {
    RuntimeSnapshotFacts {
        snapshot: Json::Object(vec![(
            "live_owners".to_string(),
            Json::Array(vec![Json::Text(owners.to_string())]),
        )]),
        live_owner_count: 1,
        retained_bytes: retained,
        has_release_provider,
    }
}

#[test]
fn a_refused_activation_leaves_the_live_state_alone() {
    let kinds = [
        OwnershipEvidencePhaseKind::BaselineAdmissible,
        OwnershipEvidencePhaseKind::ActivationRejected,
    ];
    let mut facts: Table<OwnershipEvidencePhaseKind, RuntimeSnapshotFacts> = Table::new();
    facts.insert(kinds[0], live("a", 1, true));
    assert_eq!(
        require_same_live_state(&facts, &kinds),
        Err(OwnershipError::PhaseMissing(kinds[1]))
    );
    facts.insert(kinds[1], live("a", 1, true));
    assert!(require_same_live_state(&facts, &kinds).is_ok());
    facts.insert(kinds[1], live("b", 1, true));
    assert_eq!(require_same_live_state(&facts, &kinds), Err(OwnershipError::LiveStateChanged));
    assert!(validate_snapshot_transitions(
        OwnershipEvidenceScenario::RealHostPressureRollback,
        &facts
    )
    .is_err());
}

#[test]
fn an_envelope_needs_its_artifacts_and_a_bundle_its_scenarios() {
    let envelope = openasr_cli::ownership::OwnershipEvidenceEnvelope {
        release: release(),
        scenario: OwnershipEvidenceScenario::ColdWarmLifecycle,
        artifacts: vec![OwnershipEvidenceArtifact {
            label: "one".to_string(),
            sha256: "00".to_string(),
        }],
        phases: vec![],
    };
    let loaded = vec![openasr_cli::ownership::LoadedArtifact {
        bytes: vec![1],
        request: RequestDecode::Invalid,
        activation: ActivationDecode::Invalid,
    }];
    assert_eq!(
        validate_envelope_artifacts(&envelope, &loaded).unwrap_err(),
        OwnershipError::HashMismatch(0)
    );
    assert!(validate_bundle(&vec![]).is_err());
}

fn unread(
    scenario: OwnershipEvidenceScenario,
    subject: &str,
) -> openasr_cli::ownership::LoadedEnvelope {
    let mut release = release();
    release.release_subject = subject.to_string();
    openasr_cli::ownership::LoadedEnvelope {
        envelope: openasr_cli::ownership::OwnershipEvidenceEnvelope {
            release,
            scenario,
            artifacts: vec![OwnershipEvidenceArtifact {
                label: "one".to_string(),
                sha256: "00".to_string(),
            }],
            phases: vec![],
        },
        artifacts: vec![],
    }
}

#[test]
fn envelopes_are_compared_before_their_artifacts_are_read() {
    let cold = || unread(OwnershipEvidenceScenario::ColdWarmLifecycle, "release-a");
    let race = || unread(OwnershipEvidenceScenario::DeterministicPressureRace, "release-a");
    let real = || unread(OwnershipEvidenceScenario::RealHostPressureRollback, "release-a");
    let other = || unread(OwnershipEvidenceScenario::ColdWarmLifecycle, "release-b");
    assert_eq!(check_bundle_envelopes(&vec![cold()]), Ok(()));
    assert_eq!(
        check_bundle_envelopes(&vec![cold(), race()]),
        Err(OwnershipError::EnvelopeCount)
    );
    assert_eq!(check_bundle_envelopes(&vec![real(), cold(), race()]), Ok(()));
    assert_eq!(check_bundle_envelopes(&vec![]), Err(OwnershipError::EnvelopeCount));
    assert_eq!(
        check_bundle_envelopes(&vec![cold(), race(), real(), cold()]),
        Err(OwnershipError::EnvelopeCount)
    );
    assert_eq!(
        check_bundle_envelopes(&vec![cold(), other(), real()]),
        Err(OwnershipError::ReleasesDiffer)
    );
    assert_eq!(
        check_bundle_envelopes(&vec![cold(), race(), cold()]),
        Err(OwnershipError::ScenariosIncomplete)
    );
}
