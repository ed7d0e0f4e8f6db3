use openasr_cli::backend::BackendKind;
use openasr_cli::receipt::{
    begin_notes, binding_from_installed, build_command_argv, capture_env_allowlist,
    check_native_pack, check_outputs_are_new, check_receipt_request, check_single_slice,
    decode_stop_notes, display_model_id, find_installed_pack, fixed_receipt_and_trace_targets,
    fixed_receipt_trace_and_logits_targets, looks_like_local_path, missing_diagnostics_message,
    normalize_device_label, parse_receipt_device, plan_pass, privacy_safe_scope_label,
    privacy_safe_scope_segment, quant_from_model_ref, receipt_audio_label,
    resolve_pack_binding, resolved_runtime_for_mock_receipt, total_passes,
    validate_observed_accelerator_placement, validate_qualification_receipts, warmup_labels,
    DiagnosticsSnapshot, ExecutionTarget, HashedPack, InstalledPack, ModelRef, PackBinding,
    PlacementError, ReceiptCheck, ReceiptError, RequestBackendPreference,
    ShortAudioReceiptOptions,
};
use openasr_cli::receipt_run::{
    bench_receipt_short_audio, ReceiptEvent, ReceiptRunError, ReceiptStep,
};

#[test]
fn parse_receipt_device_maps_accelerators() {
    assert_eq!(parse_receipt_device("cpu").unwrap(), ExecutionTarget::Cpu);
    assert_eq!(parse_receipt_device("metal").unwrap(), ExecutionTarget::Accelerated);
    assert_eq!(parse_receipt_device("CUDA").unwrap(), ExecutionTarget::Accelerated);
    assert!(parse_receipt_device("tpu").is_err());
}

#[test]
fn receipt_scope_accepts_the_runner_nonce_without_accepting_paths() {
    assert!(privacy_safe_scope_label(&format!(
        "hardware-evidence/{}",
        "a".repeat(32)
    )));
    for scope in [
        "/home/alice",
        "C:\\Users\\alice",
        "\\\\server\\share",
        "../0123456789abcdef0123456789abcdef",
        "scope/not-a-nonce",
    ] {
        assert!(!privacy_safe_scope_label(scope), "{scope}");
    }
}

#[test]
fn shipped_emitter_fail_closed_without_resolved_runtime() {
    let error = missing_diagnostics_message(None);
    assert!(error.contains("output_plan/reuse_mode"));
    assert!(error.contains("native snapshot is absent"));
}

fn options() -> ShortAudioReceiptOptions {
    ShortAudioReceiptOptions {
        model: Some("whisper-tiny".to_string()),
        audio: "fixture.wav".to_string(),
        backend_kind: BackendKind::Native,
        device: " CPU ".to_string(),
        model_pack: None,
        out: "receipt.json".to_string(),
        runs: 1,
        warmup_runs: 1,
        core_commit: None,
        scope: "fixture".to_string(),
        trace_out: None,
        logits_out: None,
        write_outputs: true,
    }
}

#[test]
fn receipt_command_replaces_caller_paths_with_stable_bindings() {
    let options = ShortAudioReceiptOptions {
        model: Some(r"C:\Users\alice\AppData\Local\model.oasr".to_string()),
        audio: "/private/var/folders/example/alice/recording.wav".to_string(),
        backend_kind: BackendKind::Native,
        device: "cuda".to_string(),
        model_pack: Some(r"C:\Users\alice\AppData\Local\model.oasr".to_string()),
        out: "/home/alice/receipt.json".to_string(),
        runs: 1,
        warmup_runs: 0,
        core_commit: Some("0123456789abcdef0123456789abcdef01234567".to_string()),
        scope: "fixture".to_string(),
        trace_out: Some("/tmp/openasr/trace.jsonl".to_string()),
        logits_out: Some("/tmp/openasr/full-logits.jsonl".to_string()),
        write_outputs: true,
    };
    let pack = PackBinding {
        model_id: "whisper-tiny:q4_k".to_string(),
        content_sha256: "a".repeat(64),
        size_bytes: 1,
        quant: "q4_k".to_string(),
    };
    let audio_label = receipt_audio_label(&"b".repeat(64));
    let command = build_command_argv(&options, &pack, "cuda", &audio_label);
    let command_text = command.join("\u{0}");

    assert!(command.contains(&audio_label));
    assert!(command.contains(&"receipt-output".to_string()));
    assert!(command.contains(&"runtime-trace-output".to_string()));
    assert!(command.contains(&"full-logits-output".to_string()));
    for forbidden in ["/private/var", "/home/alice", r"C:\Users\alice", "/tmp/openasr"] {
        assert!(
            !command_text.contains(forbidden),
            "receipt command leaked caller path fragment {forbidden}"
        );
    }
    assert!(command
        .iter()
        .any(|part| part == &format!("pack-content-sha256:{}", pack.content_sha256)));
}

fn funasr_refs() -> Vec<ModelRef> {
    vec![
        ModelRef {
            reference: "funasr-nano:q4".to_string(),
            family: "funasr-nano".to_string(),
            canonical_tag: Some("q4_k".to_string()),
        },
        ModelRef {
            reference: "funasr-nano".to_string(),
            family: "funasr-nano".to_string(),
            canonical_tag: None,
        },
    ]
}

#[test]
fn display_model_id_prefers_explicit_quant_ref() {
    let refs = funasr_refs();
    assert_eq!(
        display_model_id(Some("funasr-nano:q4"), "funasr-nano", "q4_k", &refs),
        "funasr-nano:q4_k"
    );
    assert_eq!(
        display_model_id(Some("funasr-nano"), "funasr-nano", "q4_k", &refs),
        "funasr-nano:q4_k"
    );
    assert_eq!(
        display_model_id(
            Some("/home/alice/.openasr/models/funasr-nano.oasr"),
            "funasr-nano",
            "q4_k",
            &refs
        ),
        "funasr-nano:q4_k"
    );
    assert_eq!(
        display_model_id(
            Some(r"C:\Users\alice\AppData\Local\funasr-nano.oasr"),
            "funasr-nano",
            "q4_k",
            &refs
        ),
        "funasr-nano:q4_k"
    );
}

#[test]
fn metal_placement_gate_ignores_metadata_views_but_rejects_compute_fallback() {
    let mut compute_nodes = vec![("MTL0".to_string(), 19)];
    validate_observed_accelerator_placement("metal", &compute_nodes).unwrap();
    compute_nodes.insert(0, ("CPU".to_string(), 1));
    assert!(validate_observed_accelerator_placement("metal", &compute_nodes).is_err());
}

#[test]
fn qualification_cli_delegates_to_strict_core_receipt_validation() {
    let error = validate_qualification_receipts(&vec![ReceiptCheck::Invalid]).unwrap_err();
    assert!(error.message().contains("Qualification receipt #1 is invalid"));
}

#[test]
fn the_first_failing_receipt_is_named() {
    assert_eq!(
        validate_qualification_receipts(&vec![]).unwrap_err().message(),
        "at least one --receipt is required"
    );
    let checks = vec![ReceiptCheck::Eligible, ReceiptCheck::Ineligible, ReceiptCheck::Unreadable];
    assert_eq!(
        validate_qualification_receipts(&checks).unwrap_err().message(),
        "Qualification receipt #2 is ineligible"
    );
    assert_eq!(
        validate_qualification_receipts(&vec![ReceiptCheck::Unreadable]).unwrap_err().message(),
        "Could not read qualification receipt #1"
    );
    assert!(validate_qualification_receipts(&vec![ReceiptCheck::Eligible]).is_ok());
}

#[test]
fn fallback_nodes_are_listed_and_empty_counts_are_not() {
    let nodes = vec![
        ("CPU".to_string(), 0),
        ("Metal".to_string(), 3),
        ("BLAS".to_string(), 2),
    ];
    match validate_observed_accelerator_placement("Metal", &nodes) {
        Err(PlacementError::Fallback(entries)) => {
            assert_eq!(entries, vec![("BLAS".to_string(), 2)]);
        }
        other => panic!("{other:?}"),
    }
    assert!(matches!(
        validate_observed_accelerator_placement("metal", &vec![("MTL0".to_string(), 0)]),
        Err(PlacementError::NoMetalNodes)
    ));
    assert!(validate_observed_accelerator_placement("cuda", &nodes).is_ok());
}

#[test]
fn scope_segments_are_short_labels() {
    assert!(privacy_safe_scope_segment("a.b-c_d:e+f@g=h"));
    assert!(!privacy_safe_scope_segment(""));
    assert!(!privacy_safe_scope_segment("-a"));
    assert!(!privacy_safe_scope_segment("c:x"));
    assert!(privacy_safe_scope_segment(&"a".repeat(256)));
    assert!(!privacy_safe_scope_segment(&"a".repeat(257)));
}

#[test]
fn each_refused_request_is_named() {
    let refused = |change: &dyn Fn(&mut ShortAudioReceiptOptions), is_file: bool| {
        let mut asked = options();
        change(&mut asked);
        check_receipt_request(&asked, is_file).unwrap_err().message()
    };
    assert!(check_receipt_request(&options(), true).is_ok());
    assert_eq!(refused(&|asked| asked.runs = 0, true), "--runs must be >= 1");
    assert!(refused(&|asked| asked.scope = "/x".to_string(), true).starts_with("--scope must be"));
    assert_eq!(
        refused(&|_| {}, false),
        "Audio file not found: fixture.wav\nPass an existing WAV/audio path via --audio."
    );
    let trace = || Some("trace.jsonl".to_string());
    assert!(refused(
        &|asked| {
            asked.trace_out = trace();
            asked.backend_kind = BackendKind::Mock;
        },
        true
    )
    .starts_with("--trace-out requires --backend native"));
    assert_eq!(
        refused(&|asked| asked.logits_out = trace(), true),
        "--logits-out requires --trace-out"
    );
    assert!(refused(
        &|asked| {
            asked.trace_out = trace();
            asked.runs = 2;
        },
        true
    )
    .starts_with("--trace-out requires --runs 1"));
}

#[test]
fn targets_are_apart_and_new() {
    assert!(fixed_receipt_and_trace_targets("/a", "/b").is_ok());
    assert!(matches!(
        fixed_receipt_and_trace_targets("/a", "/a"),
        Err(ReceiptError::ReceiptAndTraceCollide)
    ));
    assert!(fixed_receipt_trace_and_logits_targets("/a", "/b", Some("/c")).is_ok());
    assert!(matches!(
        fixed_receipt_trace_and_logits_targets("/a", "/b", Some("/b")),
        Err(ReceiptError::LogitsCollide)
    ));
    assert!(matches!(check_outputs_are_new(true, true), Err(ReceiptError::TraceExists)));
    assert!(matches!(check_outputs_are_new(false, true), Err(ReceiptError::LogitsExist)));
    assert!(check_outputs_are_new(false, false).is_ok());
    assert!(matches!(
        check_native_pack(BackendKind::Native, false),
        Err(ReceiptError::NativeNeedsPack)
    ));
    assert!(check_native_pack(BackendKind::Mock, false).is_ok());
    assert!(matches!(check_single_slice(true, Some(2)), Err(ReceiptError::TraceHasSlices)));
    assert!(check_single_slice(false, Some(2)).is_ok());
    assert!(check_single_slice(true, Some(1)).is_ok());
}

#[test]
fn devices_are_trimmed_and_lowered() {
    assert_eq!(normalize_device_label("  CuDA\n"), "cuda");
    assert_eq!(
        resolved_runtime_for_mock_receipt("cpu").unwrap(),
        Some(RequestBackendPreference::CpuOnly)
    );
    assert_eq!(resolved_runtime_for_mock_receipt("auto").unwrap(), None);
    assert_eq!(
        parse_receipt_device("TPU").unwrap_err().message(),
        "Unsupported --device 'tpu'. Use one of: cpu, metal, cuda, accelerated, auto."
    );
}

fn installed() -> InstalledPack {
    InstalledPack {
        path: "/models/nano".to_string(),
        model_id: "funasr-nano".to_string(),
        pull: "funasr-nano:q4".to_string(),
        filename: "funasr-nano-q4_k.oasr".to_string(),
        quant: "q4_k".to_string(),
        suffix: "q4".to_string(),
        canonical_quant: "q4_k".to_string(),
        canonical_suffix: "q4_k".to_string(),
        sha256: "c".repeat(64),
        size_bytes: 7,
    }
}

#[test]
fn an_installed_pack_is_found_and_bound() {
    let packs = vec![installed()];
    let refs = funasr_refs();
    assert_eq!(find_installed_pack(&packs, "funasr-nano:q4", None, &refs), Some(0));
    assert_eq!(find_installed_pack(&packs, "whisper-tiny", None, &refs), None);
    assert_eq!(find_installed_pack(&packs, "x", Some("/models/nano"), &refs), Some(0));
    let bound = binding_from_installed("funasr-nano:q4", &packs[0], &refs);
    assert_eq!(bound.model_id, "funasr-nano:q4_k");
    assert_eq!(bound.content_sha256, "c".repeat(64));
    assert_eq!(bound.size_bytes, 7);
    assert_eq!(quant_from_model_ref(Some("funasr-nano:q4"), &refs), Some("q4_k".to_string()));
    assert_eq!(quant_from_model_ref(Some("other"), &refs), None);

    let error = resolve_pack_binding(
        Some("whisper-tiny"),
        "whisper-tiny",
        None,
        BackendKind::Native,
        &packs,
        None,
        &refs,
    )
    .unwrap_err();
    assert!(error.message().contains("Could not bind pack content for model 'whisper-tiny'"));
    let explicit = HashedPack {
        path: "/elsewhere/pack.oasr".to_string(),
        content_sha256: "d".repeat(64),
        size_bytes: 9,
    };
    let bound = resolve_pack_binding(
        Some("funasr-nano:q4"),
        "funasr-nano",
        Some(&explicit),
        BackendKind::Native,
        &packs,
        None,
        &refs,
    )
    .unwrap();
    assert_eq!(bound.content_sha256, "d".repeat(64));
    assert_eq!(bound.size_bytes, 9);
    assert_eq!(bound.quant, "q4_k");
}

#[test]
fn local_paths_are_told_from_references() {
    assert!(looks_like_local_path("/a/b"));
    assert!(looks_like_local_path(r"C:\a"));
    assert!(!looks_like_local_path("funasr-nano:q4"));
}

#[test]
fn only_known_variables_are_kept() {
    let commit = "a".repeat(40);
    let kept = capture_env_allowlist(&commit, Some(" CUDA "), Some(&commit), true, Some("1"));
    assert_eq!(
        kept,
        vec![
            ("OPENASR_BUILD_COMMIT".to_string(), commit.clone()),
            ("OPENASR_GGML_BACKEND".to_string(), "cuda".to_string()),
            ("OPENASR_OFFLINE".to_string(), "true".to_string()),
        ]
    );
    let none = capture_env_allowlist(&commit, Some("/home/alice"), Some("x"), true, None);
    assert!(none.is_empty());
}

#[test]
fn passes_are_planned_in_order() {
    let mut asked = options();
    asked.logits_out = Some("l".to_string());
    assert_eq!(total_passes(1, 2), 3);
    assert_eq!(total_passes(usize::MAX, 2), usize::MAX);
    let warm = plan_pass(0, &asked);
    assert!(warm.is_warmup && warm.is_cold && !warm.traces_full_logits);
    let timed = plan_pass(1, &asked);
    assert!(!timed.is_warmup && !timed.is_cold && timed.traces_full_logits);
    assert_eq!(warmup_labels(0), ("cold".to_string(), "empty".to_string()));
    assert_eq!(warmup_labels(2), ("warm".to_string(), "populated".to_string()));
}

#[test]
fn notes_say_what_was_measured_and_how_it_stopped() {
    let notes = begin_notes(BackendKind::Mock, "wall_clock");
    assert_eq!(notes.len(), 3);
    assert!(notes[0].starts_with("backend=mock"));
    assert_eq!(notes[2], "measurement_method=wall_clock");
    assert_eq!(begin_notes(BackendKind::Native, "wall_clock").len(), 2);
    assert_eq!(
        decode_stop_notes(&vec!["budget".to_string()], true),
        vec!["decode_stop=budget".to_string()]
    );
    assert_eq!(decode_stop_notes(&vec![], true), vec!["decode_stop=stop_token".to_string()]);
    assert!(decode_stop_notes(&vec![], false).is_empty());
    let message = missing_diagnostics_message(Some(DiagnosticsSnapshot {
        completed: true,
        has_facts: false,
        token_steps: 12,
        lifecycle_events: 3,
        overflowed: false,
    }));
    assert!(message.ends_with(
        "(native snapshot completed=true facts=false token_steps=12 lifecycle_events=3 overflowed=false)"
    ));
}

fn go(step: ReceiptStep, event: ReceiptEvent, asked: &ShortAudioReceiptOptions) -> ReceiptStep {
    match bench_receipt_short_audio(step, &event, asked, 4096, 1 << 20) {
        Ok(next) => next,
        Err(_) => panic!("stopped at {step:?}"),
    }
}

#[test]
fn a_plain_run_goes_from_the_request_to_the_file() {
    let asked = options();
    let mut step = go(ReceiptStep::CheckRequest, ReceiptEvent::Request { audio_is_file: true }, &asked);
    assert_eq!(step, ReceiptStep::LoadConfig);
    step = go(step, ReceiptEvent::Done, &asked);
    step = go(step, ReceiptEvent::Prepared { has_pack: true }, &asked);
    assert_eq!(step, ReceiptStep::BindPack);
    for expected in [
        ReceiptStep::HashAudio,
        ReceiptStep::PrepareAudio,
        ReceiptStep::ResolveCommit,
        ReceiptStep::Pass { at: 0 },
    ] {
        step = go(step, ReceiptEvent::Done, &asked);
        assert_eq!(step, expected);
    }
    step = go(step, ReceiptEvent::Passed { chunk_count: Some(3) }, &asked);
    assert_eq!(step, ReceiptStep::Pass { at: 1 });
    step = go(step, ReceiptEvent::Passed { chunk_count: None }, &asked);
    assert_eq!(step, ReceiptStep::CheckPlacement);
    step = go(step, ReceiptEvent::Placed { nodes: vec![] }, &asked);
    for expected in [ReceiptStep::Construct, ReceiptStep::WriteReceipt, ReceiptStep::Written] {
        step = go(step, ReceiptEvent::Done, &asked);
        assert_eq!(step, expected);
    }
    assert!(matches!(
        bench_receipt_short_audio(step, &ReceiptEvent::Done, &asked, 1, 1),
        Err(ReceiptRunError::OutOfStep)
    ));
}

#[test]
fn a_traced_run_looks_before_it_writes() {
    let mut asked = options();
    asked.trace_out = Some("t".to_string());
    asked.logits_out = Some("l".to_string());
    let step = go(ReceiptStep::CheckRequest, ReceiptEvent::Request { audio_is_file: true }, &asked);
    assert_eq!(step, ReceiptStep::MakeDirectory);
    let step = go(step, ReceiptEvent::Done, &asked);
    let targets = ReceiptEvent::Targets {
        receipt: "/o/r".to_string(),
        trace: "/o/t".to_string(),
        logits: Some("/o/l".to_string()),
    };
    let step = go(step, targets, &asked);
    assert_eq!(step, ReceiptStep::CheckNew);
    assert!(matches!(
        bench_receipt_short_audio(
            step,
            &ReceiptEvent::Existing { trace: false, logits: true },
            &asked,
            1,
            1
        ),
        Err(ReceiptRunError::Refused(ReceiptError::LogitsExist))
    ));
    assert_eq!(
        go(step, ReceiptEvent::Existing { trace: false, logits: false }, &asked),
        ReceiptStep::LoadConfig
    );
    assert!(matches!(
        bench_receipt_short_audio(
            ReceiptStep::Pass { at: 0 },
            &ReceiptEvent::Passed { chunk_count: Some(2) },
            &asked,
            1,
            1
        ),
        Err(ReceiptRunError::Refused(ReceiptError::TraceHasSlices))
    ));
    assert_eq!(go(ReceiptStep::Diagnose, ReceiptEvent::Done, &asked), ReceiptStep::CheckTrace);
    assert_eq!(
        go(ReceiptStep::CheckTrace, ReceiptEvent::Recorded(None), &asked),
        ReceiptStep::Construct
    );
    assert!(matches!(
        bench_receipt_short_audio(ReceiptStep::HashAudio, &ReceiptEvent::Failed, &asked, 1, 1),
        Err(ReceiptRunError::Failed)
    ));
}

#[test]
fn a_misplaced_metal_run_stops() {
    let mut asked = options();
    asked.device = "Metal".to_string();
    let nodes = vec![("CPU".to_string(), 4)];
    assert!(matches!(
        bench_receipt_short_audio(
            ReceiptStep::CheckPlacement,
            &ReceiptEvent::Placed { nodes },
            &asked,
            1,
            1
        ),
        Err(ReceiptRunError::Misplaced(PlacementError::NoMetalNodes))
    ));
    asked.write_outputs = false;
    assert_eq!(go(ReceiptStep::Construct, ReceiptEvent::Done, &asked), ReceiptStep::Collected);
}
