use openasr_cli::capture::{
    validate_artifact_capture_lifecycle, ArtifactCaptureLifecycleState, CaptureError,
    GgmlCaptureObservationPhase, GgmlGraphLifecycleEvent, GgmlGraphLifecycleEventKind,
};
use openasr_cli::logits::{validate_full_logits_trace, LogitsError};
use openasr_cli::table::Table;
use openasr_cli::trace::{
    validate_strict_runtime_trace, GgmlActualDeviceFacts, HeaderTextField, LifecycleDecode,
    RequiredEvent, TraceError, TraceLineFacts, GGML_GRAPH_LIFECYCLE_SCHEMA,
};
use serde_json::Value;

const MAX_STEPS: usize = 4096;
const MAX_VOCAB: usize = 1 << 20;

/// The fields a lifecycle event may have beside those that every event has, each with whether
/// it must be there.
fn event_fields(event: &str) -> Option<Vec<(&'static str, bool)>> {
    Some(match event {
        "created" => vec![("scheduler_enabled", true)],
        "existing_graph_observed" => vec![("scheduler_enabled", true), ("prepare_generation", false)],
        "prepared" => vec![("prepare_generation", true)],
        "input_write" => vec![("input_generation", true), ("bytes", true)],
        "compute_started" => vec![
            ("compute_sequence", true),
            ("prepare_generation", false),
            ("input_generation_consumed", false),
            ("capture_executable_generation", false),
        ],
        "compute_completed" => vec![("compute_sequence", true), ("output_generation", true)],
        "output_read" => vec![
            ("compute_sequence", true),
            ("output_generation_consumed", true),
            ("bytes", true),
        ],
        "capture_state_observed" => vec![
            ("phase", true),
            ("capture_supported", true),
            ("graph_tracked", true),
            ("capture_enabled", false),
            ("executable_present", true),
        ],
        "capture_executable_observed" => {
            vec![("capture_executable_generation", true), ("last_change", true)]
        }
        "capture_executable_created" => {
            vec![("capture_executable_generation", true), ("change", true)]
        }
        _ => return None,
    })
}

fn decode_kind(value: &Value) -> Option<GgmlGraphLifecycleEventKind> {
    let natural = |name: &str| value.get(name).and_then(Value::as_u64);
    let flag = |name: &str| value.get(name).and_then(Value::as_bool);
    Some(match value.get("event")?.as_str()? {
        "created" => GgmlGraphLifecycleEventKind::Created,
        "existing_graph_observed" => GgmlGraphLifecycleEventKind::ExistingGraphObserved,
        "prepared" => GgmlGraphLifecycleEventKind::Prepared,
        "input_write" => GgmlGraphLifecycleEventKind::InputWrite,
        "compute_started" => GgmlGraphLifecycleEventKind::ComputeStarted {
            compute_sequence: natural("compute_sequence")?,
            capture_executable_generation: natural("capture_executable_generation"),
        },
        "compute_completed" => GgmlGraphLifecycleEventKind::ComputeCompleted {
            compute_sequence: natural("compute_sequence")?,
        },
        "output_read" => GgmlGraphLifecycleEventKind::OutputRead {
            compute_sequence: natural("compute_sequence")?,
            output_generation_consumed: natural("output_generation_consumed")?,
            bytes: natural("bytes")?,
        },
        "capture_state_observed" => GgmlGraphLifecycleEventKind::CaptureStateObserved {
            phase: match value.get("phase")?.as_str()? {
                "before_compute" => GgmlCaptureObservationPhase::BeforeCompute,
                "after_compute" => GgmlCaptureObservationPhase::AfterCompute,
                _ => return None,
            },
            capture_supported: flag("capture_supported")?,
            graph_tracked: flag("graph_tracked")?,
            capture_enabled: flag("capture_enabled"),
            executable_present: flag("executable_present")?,
        },
        "capture_executable_observed" => GgmlGraphLifecycleEventKind::CaptureExecutableObserved {
            capture_executable_generation: natural("capture_executable_generation")?,
        },
        "capture_executable_created" => GgmlGraphLifecycleEventKind::CaptureExecutableCreated {
            capture_executable_generation: natural("capture_executable_generation")?,
        },
        _ => return None,
    })
}

fn decode_lifecycle(value: &Value) -> LifecycleDecode {
    let shared = [
        "schema",
        "sequence",
        "provider",
        "device",
        "graph_instance",
        "graph_generation",
        "event",
    ];
    let Some(fields) = value.get("event").and_then(Value::as_str).and_then(event_fields) else {
        return LifecycleDecode::NotStrict;
    };
    let Some(object) = value.as_object() else {
        return LifecycleDecode::NotStrict;
    };
    let known = |name: &str| shared.contains(&name) || fields.iter().any(|field| field.0 == name);
    if object.keys().any(|name| !known(name))
        || shared.iter().any(|name| !object.contains_key(*name))
        || fields.iter().any(|field| field.1 && !object.contains_key(field.0))
    {
        return LifecycleDecode::NotStrict;
    }
    let text = |name: &str| value.get(name).and_then(Value::as_str).map(str::to_owned);
    let natural = |name: &str| value.get(name).and_then(Value::as_u64);
    match (
        natural("sequence"),
        text("provider"),
        text("device"),
        natural("graph_instance"),
        natural("graph_generation"),
        decode_kind(value),
    ) {
        (
            Some(sequence),
            Some(provider),
            Some(device),
            Some(graph_instance),
            Some(graph_generation),
            Some(kind),
        ) => LifecycleDecode::Event(GgmlGraphLifecycleEvent {
            sequence,
            provider,
            device,
            graph_instance,
            graph_generation,
            kind,
        }),
        _ => LifecycleDecode::Invalid,
    }
}

fn decode_device(value: &Value) -> Option<GgmlActualDeviceFacts> {
    let device = value.get("actual_device")?;
    let text = |name: &str| device.get(name).and_then(Value::as_str).map(str::to_owned);
    Some(GgmlActualDeviceFacts {
        device_type: text("type")?,
        name: text("name")?,
        description: text("description")?,
    })
}

fn line_facts(jsonl: &str) -> Vec<TraceLineFacts> {
    jsonl
        .lines()
        .map(|line| {
            let value: Value = serde_json::from_str(line).unwrap_or(Value::Null);
            let is_lifecycle =
                value.get("schema").and_then(Value::as_str) == Some(GGML_GRAPH_LIFECYCLE_SCHEMA);
            TraceLineFacts {
                lifecycle: if is_lifecycle {
                    decode_lifecycle(&value)
                } else {
                    LifecycleDecode::Invalid
                },
                actual_device: decode_device(&value),
            }
        })
        .collect()
}

fn check_trace(jsonl: &str) -> Result<(), TraceError> {
    validate_strict_runtime_trace(jsonl, &line_facts(jsonl), MAX_STEPS)
}

fn check_logits(logits: &str, trace: &str) -> Result<(), LogitsError> {
    validate_full_logits_trace(logits, trace, MAX_STEPS, MAX_VOCAB)
}

#[test]
fn strict_trace_requires_same_step_logits_top_k_and_margin() {
    let valid = [
        "{\"schema\":\"openasr.gpu-correctness-trace.v1\",\"event\":\"header\",\"run_id\":\"0123456789abcdef0123456789abcdef\",\"process_nonce\":\"abcdef0123456789abcdef0123456789\",\"process_id\":4242,\"mode\":\"cold\",\"graph_mode\":\"fresh_graph\",\"provider\":\"cpu\",\"device_target\":\"unqualified\",\"backend_id\":\"unqualified\",\"driver_version\":\"unqualified\",\"artifact_fingerprint\":\"unqualified\",\"device\":\"CPU\",\"actual_provider\":\"cpu\",\"actual_stable_device_id\":\"CPU\",\"actual_device\":{\"type\":\"cpu\",\"name\":\"CPU\",\"description\":\"test CPU\"}}\n",
        "{\"schema\":\"openasr.ggml-graph-lifecycle.v1\",\"sequence\":1,\"provider\":\"cpu\",\"device\":\"CPU\",\"graph_instance\":1,\"graph_generation\":2,\"event\":\"created\",\"scheduler_enabled\":false}\n",
        "{\"schema\":\"openasr.ggml-graph-lifecycle.v1\",\"sequence\":2,\"provider\":\"cpu\",\"device\":\"CPU\",\"graph_instance\":1,\"graph_generation\":2,\"event\":\"prepared\",\"prepare_generation\":3}\n",
        "{\"schema\":\"openasr.ggml-graph-lifecycle.v1\",\"sequence\":3,\"provider\":\"cpu\",\"device\":\"CPU\",\"graph_instance\":1,\"graph_generation\":2,\"event\":\"input_write\",\"input_generation\":4,\"bytes\":16}\n",
        "{\"schema\":\"openasr.ggml-graph-lifecycle.v1\",\"sequence\":4,\"provider\":\"cpu\",\"device\":\"CPU\",\"graph_instance\":1,\"graph_generation\":2,\"event\":\"compute_started\",\"compute_sequence\":1,\"prepare_generation\":3,\"input_generation_consumed\":4}\n",
        "{\"schema\":\"openasr.ggml-graph-lifecycle.v1\",\"sequence\":5,\"provider\":\"cpu\",\"device\":\"CPU\",\"graph_instance\":1,\"graph_generation\":2,\"event\":\"compute_completed\",\"compute_sequence\":1,\"output_generation\":5}\n",
        "{\"schema\":\"openasr.ggml-graph-lifecycle.v1\",\"sequence\":6,\"provider\":\"cpu\",\"device\":\"CPU\",\"graph_instance\":1,\"graph_generation\":2,\"event\":\"output_read\",\"compute_sequence\":1,\"output_generation_consumed\":5,\"bytes\":12}\n",
        "{\"schema\":\"openasr.gpu-correctness-trace.v1\",\"event\":\"token\",\"step_index\":0,\"token_id\":1,\"is_eot\":0,\"compute\":{\"graph_instance\":1,\"graph_generation\":2,\"compute_sequence\":1,\"output_generation\":5,\"output_index\":0,\"output_count\":1}}\n",
        "{\"schema\":\"openasr.gpu-correctness-trace.v1\",\"event\":\"top_k\",\"step_index\":0,\"items\":[{\"token_id\":1,\"value\":2.0},{\"token_id\":2,\"value\":1.0}],\"top1_top2_margin\":1.0,\"compute\":{\"graph_instance\":1,\"graph_generation\":2,\"compute_sequence\":1,\"output_generation\":5,\"output_index\":0,\"output_count\":1}}\n"
    ].concat();
    check_trace(&valid).expect("complete trace accepted");
    let logits = [
        "{\"schema\":\"openasr.gpu-full-logits-trace.v1\",\"event\":\"header\",\"run_id\":\"0123456789abcdef0123456789abcdef\",\"process_nonce\":\"abcdef0123456789abcdef0123456789\",\"process_id\":4242,\"mode\":\"cold\",\"graph_mode\":\"fresh_graph\",\"provider\":\"cpu\",\"device_target\":\"unqualified\",\"backend_id\":\"unqualified\",\"driver_version\":\"unqualified\",\"artifact_fingerprint\":\"unqualified\",\"device\":\"CPU\",\"actual_provider\":\"cpu\",\"actual_stable_device_id\":\"CPU\",\"actual_device\":{\"type\":\"cpu\",\"name\":\"CPU\",\"description\":\"test CPU\"},\"dtype\":\"f32\",\"encoding\":\"json_numbers\",\"step_count\":1}\n",
        "{\"schema\":\"openasr.gpu-full-logits-trace.v1\",\"event\":\"logits\",\"step_index\":0,\"compute\":{\"graph_instance\":1,\"graph_generation\":2,\"compute_sequence\":1,\"output_generation\":5,\"output_index\":0,\"output_count\":1},\"vocab_size\":3,\"values\":[0.0,2.0,1.0]}\n",
    ].concat();
    check_logits(&logits, &valid).expect("complete logits trace accepted");
    let mismatched_process_nonce = logits.replace(
        "\"process_nonce\":\"abcdef0123456789abcdef0123456789\"",
        "\"process_nonce\":\"ffffffffffffffffffffffffffffffff\"",
    );
    assert!(check_logits(&mismatched_process_nonce, &valid).is_err());
    let mismatched_process_id = logits.replace("\"process_id\":4242", "\"process_id\":4243");
    assert!(check_logits(&mismatched_process_id, &valid).is_err());
    let invalid_process_id = valid.replace("\"process_id\":4242", "\"process_id\":0");
    assert!(check_trace(&invalid_process_id).is_err());
    let unknown_lifecycle_field = valid.replace(
        "\"scheduler_enabled\":false}",
        "\"scheduler_enabled\":false,\"activation_mode\":\"auto\"}",
    );
    assert!(check_trace(&unknown_lifecycle_field).is_err());
    assert!(check_logits("", &valid).is_err());
    assert!(check_trace("{\"event\":\"token\",\"step_index\":0}\n").is_err());
}

#[test]
fn strict_trace_rejects_enabled_capture_that_no_compute_consumed() {
    let trace = [
        "{\"schema\":\"openasr.gpu-correctness-trace.v1\",\"event\":\"header\",\"run_id\":\"0123456789abcdef0123456789abcdef\",\"process_nonce\":\"abcdef0123456789abcdef0123456789\",\"process_id\":4242,\"mode\":\"cold\",\"graph_mode\":\"fresh_graph\",\"provider\":\"hip\",\"device_target\":\"gfx1100\",\"backend_id\":\"hip-test\",\"driver_version\":\"1.0\",\"artifact_fingerprint\":\"aaaaaaaaaaaaaaaaaaaaaaaaaaaaaaaaaaaaaaaaaaaaaaaaaaaaaaaaaaaaaaaa\",\"device\":\"HIP0\",\"actual_provider\":\"hip\",\"actual_stable_device_id\":\"HIP0\",\"actual_device\":{\"type\":\"gpu\",\"name\":\"HIP0\",\"description\":\"test HIP device\"}}\n",
        "{\"schema\":\"openasr.ggml-graph-lifecycle.v1\",\"sequence\":1,\"provider\":\"hip\",\"device\":\"HIP0\",\"graph_instance\":1,\"graph_generation\":2,\"event\":\"created\",\"scheduler_enabled\":false}\n",
        "{\"schema\":\"openasr.ggml-graph-lifecycle.v1\",\"sequence\":2,\"provider\":\"hip\",\"device\":\"HIP0\",\"graph_instance\":1,\"graph_generation\":2,\"event\":\"prepared\",\"prepare_generation\":3}\n",
        "{\"schema\":\"openasr.ggml-graph-lifecycle.v1\",\"sequence\":3,\"provider\":\"hip\",\"device\":\"HIP0\",\"graph_instance\":1,\"graph_generation\":2,\"event\":\"input_write\",\"input_generation\":4,\"bytes\":16}\n",
        "{\"schema\":\"openasr.ggml-graph-lifecycle.v1\",\"sequence\":4,\"provider\":\"hip\",\"device\":\"HIP0\",\"graph_instance\":1,\"graph_generation\":2,\"event\":\"compute_started\",\"compute_sequence\":1,\"prepare_generation\":3,\"input_generation_consumed\":4}\n",
        "{\"schema\":\"openasr.ggml-graph-lifecycle.v1\",\"sequence\":5,\"provider\":\"hip\",\"device\":\"HIP0\",\"graph_instance\":1,\"graph_generation\":2,\"event\":\"compute_completed\",\"compute_sequence\":1,\"output_generation\":5}\n",
        "{\"schema\":\"openasr.ggml-graph-lifecycle.v1\",\"sequence\":6,\"provider\":\"hip\",\"device\":\"HIP0\",\"graph_instance\":1,\"graph_generation\":2,\"event\":\"output_read\",\"compute_sequence\":1,\"output_generation_consumed\":5,\"bytes\":12}\n",
        "{\"schema\":\"openasr.ggml-graph-lifecycle.v1\",\"sequence\":7,\"provider\":\"hip\",\"device\":\"HIP0\",\"graph_instance\":1,\"graph_generation\":2,\"event\":\"capture_state_observed\",\"phase\":\"after_compute\",\"capture_supported\":true,\"graph_tracked\":true,\"capture_enabled\":true,\"executable_present\":true}\n",
        "{\"schema\":\"openasr.ggml-graph-lifecycle.v1\",\"sequence\":8,\"provider\":\"hip\",\"device\":\"HIP0\",\"graph_instance\":1,\"graph_generation\":2,\"event\":\"capture_executable_observed\",\"capture_executable_generation\":6,\"last_change\":\"instantiated\"}\n",
        "{\"schema\":\"openasr.gpu-correctness-trace.v1\",\"event\":\"token\",\"step_index\":0,\"token_id\":1,\"is_eot\":0,\"compute\":{\"graph_instance\":1,\"graph_generation\":2,\"compute_sequence\":1,\"output_generation\":5,\"output_index\":0,\"output_count\":1}}\n",
        "{\"schema\":\"openasr.gpu-correctness-trace.v1\",\"event\":\"top_k\",\"step_index\":0,\"items\":[{\"token_id\":1,\"value\":2.0},{\"token_id\":2,\"value\":1.0}],\"top1_top2_margin\":1.0,\"compute\":{\"graph_instance\":1,\"graph_generation\":2,\"compute_sequence\":1,\"output_generation\":5,\"output_index\":0,\"output_count\":1}}\n"
    ].concat();
    assert!(check_trace(&trace).is_err());
}

#[test]
fn capture_executable_creation_requires_post_compute_observation() {
    let event = |sequence, kind| GgmlGraphLifecycleEvent {
        sequence,
        provider: "hip".into(),
        device: "HIP0".into(),
        graph_instance: 1,
        graph_generation: 2,
        kind,
    };
    let mut states: Table<(u64, u64), ArtifactCaptureLifecycleState> = Table::new();
    validate_artifact_capture_lifecycle(
        &mut states,
        &event(1, GgmlGraphLifecycleEventKind::Created),
    )
    .expect("attach graph");
    validate_artifact_capture_lifecycle(
        &mut states,
        &event(
            2,
            GgmlGraphLifecycleEventKind::CaptureStateObserved {
                phase: GgmlCaptureObservationPhase::BeforeCompute,
                capture_supported: true,
                graph_tracked: true,
                capture_enabled: Some(true),
                executable_present: false,
            },
        ),
    )
    .expect("observe pre-compute state");
    validate_artifact_capture_lifecycle(
        &mut states,
        &event(
            3,
            GgmlGraphLifecycleEventKind::ComputeStarted {
                compute_sequence: 1,
                capture_executable_generation: None,
            },
        ),
    )
    .expect("start compute");
    let error = validate_artifact_capture_lifecycle(
        &mut states,
        &event(
            4,
            GgmlGraphLifecycleEventKind::CaptureExecutableCreated {
                capture_executable_generation: 5,
            },
        ),
    )
    .expect_err("capture creation cannot precede the after-compute ABI observation");
    assert!(error.message().contains("capture executable generation"));
    assert_eq!(error, CaptureError::InvalidExecutableCreation);
}

#[test]
fn strict_trace_requires_request_local_warm_capture_observation() {
    let warm = [
        "{\"schema\":\"openasr.gpu-correctness-trace.v1\",\"event\":\"header\",\"run_id\":\"0123456789abcdef0123456789abcdef\",\"process_nonce\":\"abcdef0123456789abcdef0123456789\",\"process_id\":4242,\"mode\":\"reuse\",\"graph_mode\":\"fresh_graph\",\"provider\":\"hip\",\"device_target\":\"gfx1100\",\"backend_id\":\"hip-test\",\"driver_version\":\"1.0\",\"artifact_fingerprint\":\"aaaaaaaaaaaaaaaaaaaaaaaaaaaaaaaaaaaaaaaaaaaaaaaaaaaaaaaaaaaaaaaa\",\"device\":\"HIP0\",\"actual_provider\":\"hip\",\"actual_stable_device_id\":\"HIP0\",\"actual_device\":{\"type\":\"gpu\",\"name\":\"HIP0\",\"description\":\"test HIP device\"}}\n",
        "{\"schema\":\"openasr.ggml-graph-lifecycle.v1\",\"sequence\":1,\"provider\":\"hip\",\"device\":\"HIP0\",\"graph_instance\":1,\"graph_generation\":2,\"event\":\"existing_graph_observed\",\"scheduler_enabled\":false,\"prepare_generation\":3}\n",
        "{\"schema\":\"openasr.ggml-graph-lifecycle.v1\",\"sequence\":2,\"provider\":\"hip\",\"device\":\"HIP0\",\"graph_instance\":1,\"graph_generation\":2,\"event\":\"input_write\",\"input_generation\":4,\"bytes\":16}\n",
        "{\"schema\":\"openasr.ggml-graph-lifecycle.v1\",\"sequence\":3,\"provider\":\"hip\",\"device\":\"HIP0\",\"graph_instance\":1,\"graph_generation\":2,\"event\":\"capture_state_observed\",\"phase\":\"before_compute\",\"capture_supported\":true,\"graph_tracked\":true,\"capture_enabled\":true,\"executable_present\":true}\n",
        "{\"schema\":\"openasr.ggml-graph-lifecycle.v1\",\"sequence\":4,\"provider\":\"hip\",\"device\":\"HIP0\",\"graph_instance\":1,\"graph_generation\":2,\"event\":\"capture_executable_observed\",\"capture_executable_generation\":10,\"last_change\":\"instantiated\"}\n",
        "{\"schema\":\"openasr.ggml-graph-lifecycle.v1\",\"sequence\":5,\"provider\":\"hip\",\"device\":\"HIP0\",\"graph_instance\":1,\"graph_generation\":2,\"event\":\"compute_started\",\"compute_sequence\":2,\"prepare_generation\":3,\"input_generation_consumed\":4,\"capture_executable_generation\":10}\n",
        "{\"schema\":\"openasr.ggml-graph-lifecycle.v1\",\"sequence\":6,\"provider\":\"hip\",\"device\":\"HIP0\",\"graph_instance\":1,\"graph_generation\":2,\"event\":\"capture_state_observed\",\"phase\":\"after_compute\",\"capture_supported\":true,\"graph_tracked\":true,\"capture_enabled\":true,\"executable_present\":true}\n",
        "{\"schema\":\"openasr.ggml-graph-lifecycle.v1\",\"sequence\":7,\"provider\":\"hip\",\"device\":\"HIP0\",\"graph_instance\":1,\"graph_generation\":2,\"event\":\"compute_completed\",\"compute_sequence\":2,\"output_generation\":5}\n",
        "{\"schema\":\"openasr.ggml-graph-lifecycle.v1\",\"sequence\":8,\"provider\":\"hip\",\"device\":\"HIP0\",\"graph_instance\":1,\"graph_generation\":2,\"event\":\"output_read\",\"compute_sequence\":2,\"output_generation_consumed\":5,\"bytes\":12}\n",
        "{\"schema\":\"openasr.gpu-correctness-trace.v1\",\"event\":\"token\",\"step_index\":0,\"token_id\":1,\"is_eot\":0,\"compute\":{\"graph_instance\":1,\"graph_generation\":2,\"compute_sequence\":2,\"output_generation\":5,\"output_index\":0,\"output_count\":1}}\n",
        "{\"schema\":\"openasr.gpu-correctness-trace.v1\",\"event\":\"top_k\",\"step_index\":0,\"items\":[{\"token_id\":1,\"value\":2.0},{\"token_id\":2,\"value\":1.0}],\"top1_top2_margin\":1.0,\"compute\":{\"graph_instance\":1,\"graph_generation\":2,\"compute_sequence\":2,\"output_generation\":5,\"output_index\":0,\"output_count\":1}}\n"
    ].concat();
    check_trace(&warm).expect("warm native capture observation accepted");
    let missing = warm.replace(
        "{\"schema\":\"openasr.ggml-graph-lifecycle.v1\",\"sequence\":4,\"provider\":\"hip\",\"device\":\"HIP0\",\"graph_instance\":1,\"graph_generation\":2,\"event\":\"capture_executable_observed\",\"capture_executable_generation\":10,\"last_change\":\"instantiated\"}\n",
        "",
    );
    assert!(check_trace(&missing).is_err());

    let uncovered_graph = format!(
        "{warm}{}",
        [
            "{\"schema\":\"openasr.ggml-graph-lifecycle.v1\",\"sequence\":8,\"provider\":\"hip\",\"device\":\"HIP0\",\"graph_instance\":20,\"graph_generation\":21,\"event\":\"created\",\"scheduler_enabled\":false}\n",
            "{\"schema\":\"openasr.ggml-graph-lifecycle.v1\",\"sequence\":9,\"provider\":\"hip\",\"device\":\"HIP0\",\"graph_instance\":20,\"graph_generation\":21,\"event\":\"prepared\",\"prepare_generation\":22}\n",
            "{\"schema\":\"openasr.ggml-graph-lifecycle.v1\",\"sequence\":10,\"provider\":\"hip\",\"device\":\"HIP0\",\"graph_instance\":20,\"graph_generation\":21,\"event\":\"input_write\",\"input_generation\":23,\"bytes\":16}\n",
            "{\"schema\":\"openasr.ggml-graph-lifecycle.v1\",\"sequence\":11,\"provider\":\"hip\",\"device\":\"HIP0\",\"graph_instance\":20,\"graph_generation\":21,\"event\":\"compute_started\",\"compute_sequence\":1,\"prepare_generation\":22,\"input_generation_consumed\":23}\n",
            "{\"schema\":\"openasr.ggml-graph-lifecycle.v1\",\"sequence\":12,\"provider\":\"hip\",\"device\":\"HIP0\",\"graph_instance\":20,\"graph_generation\":21,\"event\":\"compute_completed\",\"compute_sequence\":1,\"output_generation\":24}\n",
            "{\"schema\":\"openasr.ggml-graph-lifecycle.v1\",\"sequence\":13,\"provider\":\"hip\",\"device\":\"HIP0\",\"graph_instance\":20,\"graph_generation\":21,\"event\":\"output_read\",\"compute_sequence\":1,\"output_generation_consumed\":24,\"bytes\":12}\n"
        ].concat()
    );
    assert!(check_trace(&uncovered_graph).is_err());

    let one_shot_capture_graph = format!(
        "{warm}{}",
        [
            "{\"schema\":\"openasr.ggml-graph-lifecycle.v1\",\"sequence\":9,\"provider\":\"hip\",\"device\":\"HIP0\",\"graph_instance\":20,\"graph_generation\":21,\"event\":\"created\",\"scheduler_enabled\":false}\n",
            "{\"schema\":\"openasr.ggml-graph-lifecycle.v1\",\"sequence\":10,\"provider\":\"hip\",\"device\":\"HIP0\",\"graph_instance\":20,\"graph_generation\":21,\"event\":\"prepared\",\"prepare_generation\":22}\n",
            "{\"schema\":\"openasr.ggml-graph-lifecycle.v1\",\"sequence\":11,\"provider\":\"hip\",\"device\":\"HIP0\",\"graph_instance\":20,\"graph_generation\":21,\"event\":\"input_write\",\"input_generation\":23,\"bytes\":16}\n",
            "{\"schema\":\"openasr.ggml-graph-lifecycle.v1\",\"sequence\":12,\"provider\":\"hip\",\"device\":\"HIP0\",\"graph_instance\":20,\"graph_generation\":21,\"event\":\"capture_state_observed\",\"phase\":\"before_compute\",\"capture_supported\":true,\"graph_tracked\":true,\"capture_enabled\":true,\"executable_present\":false}\n",
            "{\"schema\":\"openasr.ggml-graph-lifecycle.v1\",\"sequence\":13,\"provider\":\"hip\",\"device\":\"HIP0\",\"graph_instance\":20,\"graph_generation\":21,\"event\":\"compute_started\",\"compute_sequence\":1,\"prepare_generation\":22,\"input_generation_consumed\":23}\n",
            "{\"schema\":\"openasr.ggml-graph-lifecycle.v1\",\"sequence\":14,\"provider\":\"hip\",\"device\":\"HIP0\",\"graph_instance\":20,\"graph_generation\":21,\"event\":\"capture_state_observed\",\"phase\":\"after_compute\",\"capture_supported\":true,\"graph_tracked\":true,\"capture_enabled\":true,\"executable_present\":true}\n",
            "{\"schema\":\"openasr.ggml-graph-lifecycle.v1\",\"sequence\":15,\"provider\":\"hip\",\"device\":\"HIP0\",\"graph_instance\":20,\"graph_generation\":21,\"event\":\"capture_executable_created\",\"capture_executable_generation\":24,\"change\":\"instantiated\"}\n",
            "{\"schema\":\"openasr.ggml-graph-lifecycle.v1\",\"sequence\":16,\"provider\":\"hip\",\"device\":\"HIP0\",\"graph_instance\":20,\"graph_generation\":21,\"event\":\"compute_completed\",\"compute_sequence\":1,\"output_generation\":25}\n",
            "{\"schema\":\"openasr.ggml-graph-lifecycle.v1\",\"sequence\":17,\"provider\":\"hip\",\"device\":\"HIP0\",\"graph_instance\":20,\"graph_generation\":21,\"event\":\"output_read\",\"compute_sequence\":1,\"output_generation_consumed\":25,\"bytes\":12}\n"
        ].concat()
    );
    check_trace(&one_shot_capture_graph)
        .expect("one-shot graph may create capture while another graph proves consumption");
}

fn header() -> String {
    [
        "{\"schema\":\"openasr.gpu-correctness-trace.v1\",\"event\":\"header\",",
        "\"run_id\":\"0123456789abcdef0123456789abcdef\",",
        "\"process_nonce\":\"abcdef0123456789abcdef0123456789\",\"process_id\":7,",
        "\"mode\":\"cold\",\"graph_mode\":\"fresh_graph\",\"provider\":\"cpu\",",
        "\"device_target\":\"unqualified\",\"backend_id\":\"unqualified\",",
        "\"driver_version\":\"unqualified\",\"artifact_fingerprint\":\"unqualified\",",
        "\"device\":\"CPU\",\"actual_provider\":\"cpu\",\"actual_stable_device_id\":\"CPU\",",
        "\"actual_device\":{\"type\":\"cpu\",\"name\":\"CPU\",\"description\":\"one\"}}\n",
    ]
    .concat()
}

fn lifecycle(sequence: u64, rest: &str) -> String {
    format!(
        "{{\"schema\":\"openasr.ggml-graph-lifecycle.v1\",\"sequence\":{sequence},\"provider\":\"cpu\",\"device\":\"CPU\",\"graph_instance\":1,\"graph_generation\":2,{rest}}}\n"
    )
}

fn selection(output_index: u64, output_count: u64) -> String {
    format!(
        "\"compute\":{{\"graph_instance\":1,\"graph_generation\":2,\"compute_sequence\":1,\"output_generation\":5,\"output_index\":{output_index},\"output_count\":{output_count}}}"
    )
}

fn token(step: u64) -> String {
    format!(
        "{{\"schema\":\"openasr.gpu-correctness-trace.v1\",\"event\":\"token\",\"step_index\":{step},\"token_id\":1,\"is_eot\":0,{}}}\n",
        selection(0, 1)
    )
}

fn top_k(step: u64) -> String {
    format!(
        "{{\"schema\":\"openasr.gpu-correctness-trace.v1\",\"event\":\"top_k\",\"step_index\":{step},\"items\":[{{\"token_id\":1,\"value\":2.0}},{{\"token_id\":2,\"value\":1.0}}],\"top1_top2_margin\":1.0,{}}}\n",
        selection(0, 1)
    )
}

fn graph_lines() -> Vec<String> {
    vec![
        lifecycle(1, "\"event\":\"created\",\"scheduler_enabled\":false"),
        lifecycle(2, "\"event\":\"input_write\",\"input_generation\":4,\"bytes\":16"),
        lifecycle(3, "\"event\":\"compute_started\",\"compute_sequence\":1"),
        lifecycle(4, "\"event\":\"compute_completed\",\"compute_sequence\":1,\"output_generation\":5"),
        lifecycle(
            5,
            "\"event\":\"output_read\",\"compute_sequence\":1,\"output_generation_consumed\":5,\"bytes\":12",
        ),
    ]
}

fn whole_trace() -> String {
    format!("{}{}{}{}", header(), graph_lines().concat(), token(0), top_k(0))
}

#[test]
fn a_small_trace_is_accepted() {
    assert_eq!(check_trace(&whole_trace()), Ok(()));
}

#[test]
fn each_header_fault_is_named() {
    let fault = |from: &str, to: &str| check_trace(&whole_trace().replacen(from, to, 1));
    assert_eq!(
        fault("\"run_id\":\"0123456789abcdef", "\"run_id\":\"0123456789ABCDEF"),
        Err(TraceError::HeaderInvalidRunId)
    );
    assert_eq!(fault("\"run_id\":\"0123456789abcdef0123456789abcdef\"", "\"run_id\":5"), Err(TraceError::HeaderWithoutRunId));
    assert_eq!(fault("\"process_nonce\":\"abcdef0123456789abcdef0123456789\"", "\"process_nonce\":5"), Err(TraceError::HeaderWithoutProcessNonce));
    assert_eq!(fault("\"process_id\":7", "\"process_id\":0"), Err(TraceError::HeaderInvalidProcess));
    assert_eq!(fault("\"mode\":\"cold\"", "\"mode\":\"warm\""), Err(TraceError::HeaderInvalidMode));
    assert_eq!(
        fault("\"graph_mode\":\"fresh_graph\"", "\"graph_mode\":\"\""),
        Err(TraceError::HeaderInvalidGraphMode)
    );
    assert_eq!(
        fault("\"backend_id\":\"unqualified\"", "\"backend_id\":\"\""),
        Err(TraceError::HeaderInvalidField(HeaderTextField::BackendId))
    );
    assert_eq!(
        fault("\"actual_provider\":\"cpu\"", "\"actual_provider\":\"hip\""),
        Err(TraceError::HeaderIdentityMismatch)
    );
    assert_eq!(
        fault("\"name\":\"CPU\"", "\"name\":\"CPU1\""),
        Err(TraceError::HeaderActualDeviceMismatch)
    );
}

#[test]
fn a_trace_needs_its_header_first_and_once() {
    let doubled = format!("{}{}", header(), whole_trace());
    assert_eq!(check_trace(&doubled), Err(TraceError::MisplacedHeader));
    assert_eq!(check_trace(""), Err(TraceError::NoHeader));
    assert_eq!(check_trace(&graph_lines().concat()), Err(TraceError::LifecycleBeforeHeader));
    assert_eq!(check_trace("not json\n"), Err(TraceError::InvalidJson));
}

#[test]
fn lifecycle_sequences_rise() {
    let mut lines = graph_lines();
    lines.swap(1, 2);
    let trace = format!("{}{}{}{}", header(), lines.concat(), token(0), top_k(0));
    assert_eq!(check_trace(&trace), Err(TraceError::SequenceNotIncreasing));
}

#[test]
fn steps_are_contiguous_and_paired() {
    let trace = |rest: &str| format!("{}{}{rest}", header(), graph_lines().concat());
    assert_eq!(check_trace(&trace(&token(0))), Err(TraceError::StepsUnmatched));
    assert_eq!(
        check_trace(&trace(&format!("{}{}", token(1), top_k(1)))),
        Err(TraceError::StepsNotContiguous)
    );
    assert_eq!(
        check_trace(&trace(&format!("{}{}", token(0), token(0)))),
        Err(TraceError::TokenDuplicateStep(0))
    );
    assert_eq!(
        check_trace(&trace(&format!("{}{}", top_k(0), top_k(0)))),
        Err(TraceError::TopKDuplicateStep(0))
    );
}

#[test]
fn a_missing_lifecycle_event_is_named() {
    let mut lines = graph_lines();
    lines.remove(1);
    let trace = format!("{}{}{}{}", header(), lines.concat(), token(0), top_k(0));
    let error = check_trace(&trace).unwrap_err();
    assert_eq!(error, TraceError::MissingLifecycleEvent(RequiredEvent::InputWrite));
    assert!(error.message().contains("input_write"));
}

fn logits_of(bytes_per_row: u64, vocab: u64, values: &str) -> Result<(), LogitsError> {
    let trace = whole_trace().replacen("\"bytes\":12}", &format!("\"bytes\":{bytes_per_row}}}"), 1);
    logits_beside(&trace, vocab, values)
}

fn logits_beside(trace: &str, vocab: u64, values: &str) -> Result<(), LogitsError> {
    let logits_header = header()
        .replacen("openasr.gpu-correctness-trace.v1", "openasr.gpu-full-logits-trace.v1", 1)
        .replacen(
            "\"description\":\"one\"}}",
            "\"description\":\"one\"},\"dtype\":\"f32\",\"encoding\":\"json_numbers\",\"step_count\":1}",
            1,
        );
    let row = format!(
        "{{\"schema\":\"openasr.gpu-full-logits-trace.v1\",\"event\":\"logits\",\"step_index\":0,{},\"vocab_size\":{vocab},\"values\":{values}}}\n",
        selection(0, 1)
    );
    check_logits(&format!("{logits_header}{row}"), trace)
}

#[test]
fn a_logits_row_fills_the_bytes_that_were_read() {
    assert_eq!(logits_of(12, 3, "[0.0,2.0,1.0]"), Ok(()));
    assert_eq!(logits_of(8, 3, "[0.0,2.0,1.0]"), Err(LogitsError::PartitionMismatch));
    assert_eq!(logits_of(12, 3, "[0.0,2.0]"), Err(LogitsError::IncompleteRow));
    assert_eq!(logits_of(12, 0, "[]"), Err(LogitsError::InvalidVocabSize));
}

#[test]
fn a_token_names_the_compute_that_it_came_from() {
    let trace = whole_trace();
    let without = trace.replacen(&format!(",{}", selection(0, 1)), "", 1);
    assert_ne!(without, trace);
    let error = logits_beside(&without, 3, "[0.0,2.0,1.0]").unwrap_err();
    assert_eq!(error, LogitsError::TokenWithoutCompute);
    assert_eq!(error.message(), "runtime token trace has no compute ref");
    let broken = trace.replacen(&selection(0, 1), "\"compute\":{}", 1);
    let error = logits_beside(&broken, 3, "[0.0,2.0,1.0]").unwrap_err();
    assert_eq!(error, LogitsError::TokenComputeInvalid);
    assert_eq!(error.message(), "runtime token trace compute ref is invalid");
}
