use openasr_cli::backend::{backend_name, BackendKind};
use openasr_cli::formats::{
    benchmark_format_from_response_format, first_format, needs_subtitle_export,
    parse_benchmark_format, parse_response_format, truncation_warning, write_rendered_formats,
    BenchmarkFormat, DecodeTruncationReason, ResponseFormat, TruncatedDecode, WritePlan,
};
use openasr_cli::transcribe::{
    batch_item_transcription_request, benchmark_transcription_request, check_benchmark_request,
    diarization_supported, ensure_batch_output_dir, ensure_cli_diarization_packs_installed,
    ensure_cli_word_timestamps_pack_installed, ensure_diarization_supported,
    ensure_phrase_bias_supported, ensure_word_timestamps_alignment_supported,
    expand_transcribe_inputs, install_cli_capability_pack_if_missing, language_mode_label,
    maybe_read_stdin_to_temp, model_language_details, normalize_language_hint,
    phrase_bias_options_from_cli, route_transcription, single_transcription_request,
    summary_input_dir, transcribe, vad_min_silence, validate_requested_language, BatchRunContext,
    BatchTally, CatalogModel, DiarizationAuthority, ExitCode, InstallStep, LanguageMode,
    OutputDirectory, RequestExtras, RequestSource, RouteFacts, SingleRequest, TranscribeError,
    TranscribeInput, TranscribeRoute, TranscribeStep, TranscriptionTask, WordTimestampsMode,
};

#[test]
fn language_auto_and_empty_normalize_to_no_hint() {
    assert_eq!(normalize_language_hint(None), None);
    assert_eq!(normalize_language_hint(Some("auto".to_string())), None);
    assert_eq!(normalize_language_hint(Some("AUTO".to_string())), None);
    assert_eq!(normalize_language_hint(Some(String::new())), None);
    assert_eq!(normalize_language_hint(Some("en".to_string())), Some("en".to_string()));
}

fn model(id: &str, languages: &[&str], mode: LanguageMode) -> CatalogModel {
    CatalogModel {
        id: id.to_string(),
        languages: languages.iter().map(|code| code.to_string()).collect(),
        language_mode: Some(mode),
        language_default: None,
    }
}

fn whisper() -> CatalogModel {
    model("whisper-large-v3", &["en", "fr", "de"], LanguageMode::DetectAndSpecify)
}

#[test]
fn validate_requested_language_rejects_unadvertised_code_for_selectable_models() {
    assert!(validate_requested_language(Some(&whisper()), "fr").is_ok());
    let message = validate_requested_language(Some(&whisper()), "zz")
        .expect_err("an unadvertised code must fail closed")
        .message();
    assert!(message.contains("does not support"), "{message}");
    assert!(message.contains("whisper-large-v3"), "{message}");
    let cohere = model("cohere-transcribe-03-2026", &["en"], LanguageMode::SpecifyOnly);
    assert!(validate_requested_language(Some(&cohere), "en").is_ok());
    assert!(validate_requested_language(Some(&cohere), "zz").is_err());
}

#[test]
fn validate_requested_language_is_case_insensitive() {
    assert!(validate_requested_language(Some(&whisper()), "FR").is_ok());
    assert!(validate_requested_language(Some(&whisper()), "fr").is_ok());
}

#[test]
fn validate_requested_language_defers_to_core_for_self_detect_and_unknown_refs() {
    let qwen = model("qwen3-asr-0.6b", &["en", "zh"], LanguageMode::DetectImplicit);
    let xasr = model("xasr-zh-en", &["zh", "en"], LanguageMode::FixedMultilingual);
    assert!(validate_requested_language(Some(&qwen), "zz").is_ok());
    assert!(validate_requested_language(Some(&xasr), "zz").is_ok());
    assert!(validate_requested_language(None, "zz").is_ok());
}

#[test]
fn language_mode_label_is_stable_for_each_policy() {
    assert!(language_mode_label(Some(LanguageMode::DetectAndSpecify))
        .starts_with("detect_and_specify"));
    assert!(language_mode_label(Some(LanguageMode::DetectImplicit)).starts_with("detect_implicit"));
    assert!(language_mode_label(Some(LanguageMode::SpecifyOnly)).starts_with("specify_only"));
    assert!(
        language_mode_label(Some(LanguageMode::FixedMonolingual)).starts_with("fixed_monolingual")
    );
    assert!(language_mode_label(Some(LanguageMode::FixedMultilingual))
        .starts_with("fixed_multilingual"));
    assert_eq!(language_mode_label(None), "unspecified");
}

#[test]
fn languages_of_a_model_are_listed() {
    let lines = model_language_details(&whisper());
    assert!(lines.iter().any(|line| line.contains("en, fr, de")));
}

fn context(format: ResponseFormat) -> BatchRunContext {
    BatchRunContext {
        formats: vec![format],
        model_id: "whisper-small".to_string(),
        model_pack_path: None,
        backend_kind: BackendKind::Native,
        language: None,
        task: None,
        diarize: false,
        speakers: None,
    }
}

#[test]
fn a_single_file_is_asked_for_in_full() {
    let mut asked = context(ResponseFormat::Srt);
    asked.task = Some(TranscriptionTask::Translate);
    asked.diarize = true;
    let mut single = SingleRequest {
        adapter_path: Some("a.gguf".to_string()),
        punctuate: true,
        word_timestamps: Some(WordTimestampsMode::Approximate),
    };
    let plan = single_transcription_request(None, &asked, &single);
    assert_eq!(plan.task, Some(TranscriptionTask::Translate));
    assert_eq!(plan.adapter_path.as_deref(), Some("a.gguf"));
    assert_eq!(plan.punctuation, Some(true));
    assert!(plan.voice_id && plan.word_timestamps && plan.needs_subtitle_export);
    assert!(plan.takes_longform && plan.takes_phrase_bias && plan.tells_source_format);
    assert!(!plan.refines_word_timestamps);
    single.word_timestamps = Some(WordTimestampsMode::Aligned);
    assert!(single_transcription_request(None, &asked, &single).refines_word_timestamps);
    asked.backend_kind = BackendKind::Mock;
    let item = batch_item_transcription_request(None, &asked);
    assert_eq!(item.task, Some(TranscriptionTask::Translate));
    assert!(!item.takes_longform && !item.takes_phrase_bias && !item.word_timestamps);
    assert_eq!((item.punctuation, item.adapter_path), (None, None));
}

#[test]
fn batch_item_transcription_request_labels_source_as_cli_transcribe() {
    let request =
        batch_item_transcription_request(Some("jfk.wav".to_string()), &context(ResponseFormat::Text));
    assert_eq!(request.source, RequestSource::CliTranscribe);
    assert!(
        !request.needs_subtitle_export,
        "text-only batch must not force subtitle-precision timeline"
    );
}

#[test]
fn batch_item_transcription_request_sets_subtitle_export_for_srt_vtt() {
    for format in [ResponseFormat::Srt, ResponseFormat::Vtt] {
        let request = batch_item_transcription_request(Some("jfk.wav".to_string()), &context(format));
        assert!(
            request.needs_subtitle_export,
            "{format:?} batch must match single-file needs_subtitle_export"
        );
    }
}

#[test]
fn benchmark_transcription_request_labels_source_as_cli_transcribe() {
    let request = benchmark_transcription_request(
        "whisper-small",
        &None,
        BackendKind::Native,
        Some("jfk.wav".to_string()),
    );
    assert_eq!(request.source, RequestSource::CliTranscribe);
}

#[test]
fn phrase_bias_cli_options_reject_boost_without_hotword() {
    let error = phrase_bias_options_from_cli(0, true)
        .expect_err("boost without hotword must fail")
        .message();
    assert!(error.contains("--hotword-boost requires at least one --hotword"));
    assert_eq!(phrase_bias_options_from_cli(0, false).unwrap(), false);
    assert_eq!(phrase_bias_options_from_cli(2, true).unwrap(), true);
}

#[test]
fn phrase_bias_cli_uses_backend_capabilities() {
    ensure_phrase_bias_supported(BackendKind::Native, true, true, None)
        .expect("native backend advertises phrase-bias support");

    let error = ensure_phrase_bias_supported(BackendKind::Mock, true, false, None)
        .expect_err("mock phrase bias should fail closed")
        .message();
    assert!(error.contains("Phrase bias / hotword boosting is not supported"));
    assert!(error.contains(backend_name(BackendKind::Mock)));
    assert!(error.contains("silently ignoring phrase_bias"));
}

#[test]
fn phrase_bias_cli_rejects_xasr_model_pack_early() {
    let adapter = Some(("xasr".to_string(), "xasr-zipformer".to_string()));
    let error = ensure_phrase_bias_supported(BackendKind::Native, true, false, adapter)
        .expect_err("xasr phrase bias should fail early")
        .message();
    assert!(error.contains("--hotword is not supported"), "{error}");
    assert!(error.contains("xasr-zipformer"));
    assert!(error.contains("silently ignoring phrase_bias"));
}

#[test]
fn diarization_cli_uses_backend_capabilities() {
    let error = ensure_diarization_supported(BackendKind::Mock, true, false)
        .expect_err("mock diarization should fail closed")
        .message();
    assert!(error.contains("speaker-embedder pack"));
    assert!(error.contains("redimnet2-b6-cn"));
    assert!(error.contains(backend_name(BackendKind::Mock)));

    let error = ensure_diarization_supported(BackendKind::Native, true, false)
        .expect_err("a family with no speaker source of its own must fail closed")
        .message();
    assert!(error.contains("speaker-embedder pack"));
    assert!(error.contains("redimnet2-b6-cn"));
    assert!(error.contains(backend_name(BackendKind::Native)));

    ensure_diarization_supported(BackendKind::Native, true, true)
        .expect("both external packs should pass the CLI gate for any native pack");
    assert_eq!(diarization_supported(BackendKind::Native, true), DiarizationAuthority::Pack);
    assert_eq!(
        diarization_supported(BackendKind::Native, false),
        DiarizationAuthority::ExternalPacks
    );
    assert_eq!(diarization_supported(BackendKind::Mock, false), DiarizationAuthority::Backend);
}

#[test]
fn word_timestamps_alignment_supported_only_when_aligned_requested() {
    ensure_word_timestamps_alignment_supported(BackendKind::Mock, None)
        .expect("no word-timestamps request is always fine");
    ensure_word_timestamps_alignment_supported(
        BackendKind::Mock,
        Some(WordTimestampsMode::Approximate),
    )
    .expect("approximate word timestamps do not require the native backend");
}

#[test]
fn word_timestamps_alignment_requires_native_backend() {
    let error = ensure_word_timestamps_alignment_supported(
        BackendKind::Mock,
        Some(WordTimestampsMode::Aligned),
    )
    .expect_err("aligned refinement should reject the mock backend")
    .message();
    assert!(error.contains("--word-timestamps=aligned"));
    assert!(error.contains("native"));

    ensure_word_timestamps_alignment_supported(
        BackendKind::Native,
        Some(WordTimestampsMode::Aligned),
    )
    .expect("aligned refinement is allowed on the native backend");
}

fn aligner(
    kind: BackendKind,
    mode: Option<WordTimestampsMode>,
    named_pack: Option<&str>,
    offline: bool,
) -> Result<InstallStep, TranscribeError> {
    ensure_cli_word_timestamps_pack_installed(
        kind, mode, false, false, false, false, named_pack, offline,
    )
}

#[test]
fn word_timestamps_pack_install_is_a_no_op_without_aligned_mode() {
    let nothing = |kind, mode| aligner(kind, mode, None, false).unwrap();
    assert_eq!(nothing(BackendKind::Native, None), InstallStep::Nothing);
    assert_eq!(
        nothing(BackendKind::Native, Some(WordTimestampsMode::Approximate)),
        InstallStep::Nothing
    );
    assert_eq!(
        nothing(BackendKind::Mock, Some(WordTimestampsMode::Aligned)),
        InstallStep::Nothing
    );
    assert_eq!(
        nothing(BackendKind::Native, Some(WordTimestampsMode::Aligned)),
        InstallStep::Install
    );
}

#[test]
fn only_asking_for_aligned_words_installs_the_aligner() {
    let step = |mode, diarize, subtitles, available| {
        ensure_cli_word_timestamps_pack_installed(
            BackendKind::Native, mode, diarize, true, subtitles, available, None, false,
        )
    };
    for mode in [None, Some(WordTimestampsMode::Approximate)] {
        for (diarize, subtitles) in [(true, false), (false, true), (true, true)] {
            let error = step(mode, diarize, subtitles, false).unwrap_err();
            assert_eq!(error.exit_code(), Some(ExitCode::ModelNotInstalled));
            assert!(error.message().contains("openasr pull qwen3-forced-aligner-0.6b"));
            assert_eq!(step(mode, diarize, subtitles, true).unwrap(), InstallStep::Nothing);
        }
    }
    let asked = Some(WordTimestampsMode::Aligned);
    assert_eq!(step(asked, false, true, false).unwrap(), InstallStep::Install);
}

#[test]
fn offline_diarization_never_attempts_capability_pack_install() {
    let error = ensure_cli_diarization_packs_installed(BackendKind::Native, true, false, true)
        .expect_err("offline diarization must fail before constructing a downloader");
    assert_eq!(error.exit_code(), Some(ExitCode::ModelNotInstalled));
    assert!(error.message().contains("OpenASR is offline"));
    assert!(error.message().contains("redimnet2-b6"));
    assert!(error.message().contains("pyannote-segmentation-3.0"));
}

#[test]
fn offline_aligned_timestamps_never_attempt_capability_pack_install() {
    let error =
        aligner(BackendKind::Native, Some(WordTimestampsMode::Aligned), Some(""), true).expect_err(
            "an empty pack override is unset and offline alignment fails before constructing a downloader",
        );
    assert_eq!(error.exit_code(), Some(ExitCode::ModelNotInstalled));
    assert!(error.message().contains("OpenASR is offline"));
    assert!(error.message().contains("qwen3-forced-aligner-0.6b"));
    assert!(!error.message().contains(":q8_0"));
}

#[test]
fn invalid_forced_aligner_override_points_to_the_catalog_default() {
    let invalid_pack = "/tmp/legacy-q4.oasr";
    let error = aligner(
        BackendKind::Native,
        Some(WordTimestampsMode::Aligned),
        Some(invalid_pack),
        false,
    )
    .expect_err("an invalid explicit override must fail before catalog pull")
    .message();
    assert!(error.contains("OPENASR_FORCED_ALIGNER_PACK"), "{error}");
    assert!(error.contains(invalid_pack), "{error}");
    assert!(error.contains("unset OPENASR_FORCED_ALIGNER_PACK"), "{error}");
    assert!(error.contains("openasr pull qwen3-forced-aligner-0.6b"), "{error}");
    assert!(!error.contains(":q8_0"), "{error}");
}

fn extras() -> RequestExtras {
    RequestExtras {
        benchmark: false,
        diarize: false,
        word_timestamps: None,
        has_adapter: false,
        has_language: false,
        has_task: false,
        hotword_count: 0,
        has_hotword_boost: false,
        has_model_pack: false,
        offline: false,
    }
}

#[test]
fn a_benchmark_takes_no_extras() {
    assert!(check_benchmark_request(&extras()).is_ok());
    let timed = RequestExtras { benchmark: true, ..extras() };
    assert!(check_benchmark_request(&timed).is_ok());
    let named = RequestExtras { diarize: true, ..timed };
    assert!(matches!(check_benchmark_request(&named), Err(TranscribeError::BenchmarkConflict)));
}

#[test]
fn a_transcription_checks_before_it_installs() {
    let asked = RequestExtras { has_language: true, ..extras() };
    let mut step = TranscribeStep::CheckFlags;
    let mut steps = vec![step];
    while step != TranscribeStep::Route && step != TranscribeStep::Failed {
        step = transcribe(step, true, &asked, BackendKind::Native);
        steps.push(step);
        assert!(steps.len() < 20);
    }
    assert_eq!(step, TranscribeStep::Route);
    let at = |wanted: TranscribeStep| steps.iter().position(|step| *step == wanted).unwrap();
    assert!(at(TranscribeStep::CheckLanguage) < at(TranscribeStep::InstallModel));
    assert!(at(TranscribeStep::InstallModel) < at(TranscribeStep::Prepare));
    assert_eq!(
        transcribe(TranscribeStep::CheckLanguage, false, &asked, BackendKind::Native),
        TranscribeStep::Failed
    );
}

#[test]
fn silence_fits_its_field() {
    assert_eq!(vad_min_silence(450).unwrap(), 450);
    assert!(matches!(
        vad_min_silence(usize::MAX),
        Err(TranscribeError::SilenceTooLong(usize::MAX))
    ));
}

#[test]
fn standard_input_stands_alone() {
    let inputs = |names: &[&str]| names.iter().map(|name| name.to_string()).collect();
    assert!(maybe_read_stdin_to_temp(&inputs(&["-"])).unwrap());
    assert!(!maybe_read_stdin_to_temp(&inputs(&["a.wav"])).unwrap());
    assert!(matches!(
        maybe_read_stdin_to_temp(&inputs(&["-", "a.wav"])),
        Err(TranscribeError::StdinNotAlone)
    ));
}

#[test]
fn inputs_are_expanded_in_order() {
    let inputs = vec![
        TranscribeInput::File("a".to_string()),
        TranscribeInput::Directory { files: vec!["d/b".to_string(), "d/c".to_string()], skipped: 2 },
    ];
    let (files, skipped) = expand_transcribe_inputs(&inputs).ok().unwrap();
    assert_eq!(files, vec!["a".to_string(), "d/b".to_string(), "d/c".to_string()]);
    assert_eq!(skipped, 2);
    assert!(matches!(
        expand_transcribe_inputs(&vec![TranscribeInput::Unreadable("no".to_string())]),
        Err(TranscribeError::Other(message)) if message == "no"
    ));
}

fn route(extras: &RequestExtras, file_count: usize, has_output: bool) -> Option<TranscribeRoute> {
    let facts = RouteFacts {
        input_count: file_count,
        any_directory: false,
        file_count,
        has_output,
        bias: Ok(()),
    };
    route_transcription(extras, facts).ok()
}

#[test]
fn transcriptions_are_routed() {
    assert_eq!(route(&extras(), 1, false), Some(TranscribeRoute::Single));
    assert_eq!(route(&extras(), 2, true), Some(TranscribeRoute::Many));
    assert_eq!(route(&extras(), 2, false), None);
    let timed = RequestExtras { benchmark: true, ..extras() };
    assert_eq!(route(&timed, 1, false), Some(TranscribeRoute::Benchmark));
    assert_eq!(route(&timed, 2, false), None);
}

#[test]
fn outputs_go_to_a_directory() {
    assert_eq!(ensure_batch_output_dir("/out", OutputDirectory::Directory).ok(), Some(false));
    assert_eq!(ensure_batch_output_dir("/out", OutputDirectory::Missing).ok(), Some(true));
    assert!(matches!(
        ensure_batch_output_dir("/out", OutputDirectory::NotDirectory),
        Err(TranscribeError::OutputNotDirectory(path)) if path == "/out"
    ));
    assert_eq!(summary_input_dir(None, None), ".");
    assert_eq!(summary_input_dir(None, Some("/p".to_string())), "/p");
    assert_eq!(summary_input_dir(Some("/d".to_string()), Some("/p".to_string())), "/d");
}

#[test]
fn a_batch_keeps_what_was_done() {
    let mut tally = BatchTally::new();
    assert!(tally.record("a", Ok("out/a".to_string()), false).is_ok());
    assert!(tally.record("b", Err("bad".to_string()), true).is_ok());
    assert_eq!(tally.outputs.len(), 1);
    assert_eq!(tally.failures.len(), 1);
    assert_eq!(
        tally.finish().err().unwrap().message(),
        "Completed with 1 failed file(s). See the summary above."
    );
    let error = tally.record("c", Err("worse".to_string()), false).err().unwrap().message();
    assert!(error.starts_with("Transcription failed for c: worse\n"));
    assert!(BatchTally::new().finish().is_ok());
}

#[test]
fn formats_are_read_and_written() {
    assert_eq!(parse_response_format("srt"), Ok(ResponseFormat::Srt));
    assert!(parse_response_format("docx").is_err());
    assert_eq!(parse_benchmark_format("json"), Ok(BenchmarkFormat::Json));
    assert!(parse_benchmark_format("srt").is_err());
    assert_eq!(
        benchmark_format_from_response_format(ResponseFormat::VerboseJson),
        BenchmarkFormat::Json
    );
    assert!(needs_subtitle_export(&vec![ResponseFormat::Text, ResponseFormat::Vtt]));
    assert_eq!(first_format(&vec![]), ResponseFormat::Text);
    assert_eq!(
        write_rendered_formats(&vec![ResponseFormat::Json], false, false),
        WritePlan::Print(ResponseFormat::Json)
    );
    assert_eq!(
        write_rendered_formats(&vec![ResponseFormat::Json], true, false),
        WritePlan::File(ResponseFormat::Json)
    );
    let both = vec![ResponseFormat::Json, ResponseFormat::Srt];
    assert_eq!(write_rendered_formats(&both, true, false), WritePlan::AskedDirectory);
    assert_eq!(write_rendered_formats(&both, false, false), WritePlan::BesideInput);
}

#[test]
fn a_cut_text_is_warned_of() {
    let warning = truncation_warning(&TruncatedDecode {
        slice_index: Some(2),
        covered_seconds: Some("12.5".to_string()),
        reason: DecodeTruncationReason::BudgetExhausted,
    });
    assert!(warning.contains("12.5"), "{warning}");
}

#[test]
fn a_missing_pack_is_installed_unless_its_licence_refuses() {
    assert_eq!(
        install_cli_capability_pack_if_missing(true, Some("ask first".to_string())).unwrap(),
        InstallStep::Nothing
    );
    assert_eq!(
        install_cli_capability_pack_if_missing(false, None).unwrap(),
        InstallStep::Install
    );
    assert_eq!(
        install_cli_capability_pack_if_missing(false, Some("ask first".to_string()))
            .unwrap_err()
            .message(),
        "ask first"
    );
}
