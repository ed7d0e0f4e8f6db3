use openasr_cli::backend::BackendKind;
use openasr_cli::calendar::{civil_from_days, format_unix_millis, padded_text, timestamp_now};
use openasr_cli::flight::BufferedUtterance;
use openasr_cli::live_options::{
    build_markdown_note_options, build_obs_options, build_save_options, choose_device,
    ensure_live_backend_ready, ensure_live_voice_id_not_requested, fallback_format, go_on_live,
    live_input_file_replay_delay, live_source_label, merge_timing, parse_live_output_format,
    parse_live_source, prepared_samples, resolve_live_model_pack, run_live, select_input_device,
    settle_system_audio, validate_live_limits, validate_save_target_path, ExportFormat,
    LiveModelPack, LiveOptionError, LiveOutputFormat, LivePipelineConfig, LiveRequest, LiveRoute,
    LiveSource, LiveStep, LiveTiming, NoteRequest, PreparedSamples, SystemAudioEnd, TargetFacts, TargetPath,
    VadDefaults,
};
use openasr_cli::pipeline::{
    should_suppress_partial_rollback, LivePipeline, LiveTranscriptionJob, LiveTranscriptionResult,
    LiveTranscriptionSuccess, ResultAction,
};
use openasr_cli::session::{
    begin_close, boundary_notice, close_capture, close_plan, closes_session, emit_terminal_events,
    error_notice, event_line, history_refusal, input_file_frames, note_refusal, overflow_error,
    partial_history_plan, partial_note_plan, partial_revisions, process_frame, refreshes_obs,
    shutdown, stops_audio, streaming_metrics_summary, BoundaryNotice, CaptureEnd, CaptureEvent,
    CaptureStep, CloseEnd, CloseStep, FrameEnd, FrameEvent, FrameStep, LiveCaptureRun, LiveEvent,
    LiveLine, RealtimeErrorCode, RealtimeSessionState, SessionFault, ShutdownEnd, ShutdownStep,
    SidecarPlan, SpeechBoundary, TerminalStep,
};
use openasr_cli::sinks::implicit_partial_sidecar_path;
use openasr_cli::wav::write_pcm16_mono_16khz_wav;
use openasr_cli::worker::{
    keep_available, keep_result, settle_receipt, LiveTranscriptionQueuePolicy,
    LiveTranscriptionQueueSendError, LiveTranscriptionWorker, WorkerError,
};
use std::sync::mpsc;
use std::time::Duration;

#[test]
fn live_backend_ready_allows_mock() {
    ensure_live_backend_ready(BackendKind::Mock, false).unwrap();
}

#[test]
fn live_backend_ready_rejects_native_placeholder() {
    let error = ensure_live_backend_ready(BackendKind::Native, false).unwrap_err().message();
    assert!(error.contains("requires --model-pack"));
    assert!(error.contains("fail-closed"));
}

#[test]
fn parses_live_source_and_format() {
    assert_eq!(parse_live_source("mic"), Ok(LiveSource::Mic));
    assert_eq!(parse_live_source("system"), Ok(LiveSource::System));
    assert!(parse_live_source("loopback").unwrap_err().contains("mic, system"));
    assert_eq!(parse_live_output_format("text"), Ok(LiveOutputFormat::Text));
    assert_eq!(parse_live_output_format("jsonl"), Ok(LiveOutputFormat::Jsonl));
    assert!(parse_live_output_format("ndjson").unwrap_err().contains("text, jsonl"));
}

#[test]
fn validates_live_limits() {
    validate_live_limits(Some(1), Some(1)).unwrap();
    assert!(validate_live_limits(Some(0), Some(1))
        .unwrap_err()
        .message()
        .contains("--max-seconds"));
    assert!(validate_live_limits(Some(1), Some(0))
        .unwrap_err()
        .message()
        .contains("--max-utterances"));
}

#[test]
fn input_file_replay_delay_never_runs_ahead_of_audio_time() {
    assert_eq!(
        live_input_file_replay_delay(Duration::from_millis(125).as_nanos(), 200),
        Duration::from_millis(75).as_nanos()
    );
    assert_eq!(
        live_input_file_replay_delay(Duration::from_millis(225).as_nanos(), 200),
        Duration::ZERO.as_nanos()
    );
}

#[test]
fn input_file_queue_waits_for_bounded_capacity_while_capture_fails_fast() {
    let (sender, receiver) = mpsc::sync_channel(1);
    sender.send(1).unwrap();
    assert_eq!(
        LiveTranscriptionQueuePolicy::FailFast.send(&sender, 2),
        Err(LiveTranscriptionQueueSendError::Full)
    );

    let (started_sender, started_receiver) = mpsc::channel();
    let (result_sender, result_receiver) = mpsc::channel();
    let waiting_sender = sender.clone();
    rayon::spawn(move || {
        started_sender.send(()).unwrap();
        let result = LiveTranscriptionQueuePolicy::WaitForCapacity.send(&waiting_sender, 3);
        result_sender.send(result).unwrap();
    });
    started_receiver.recv().unwrap();
    assert!(
        result_receiver.recv_timeout(Duration::from_millis(50)).is_err(),
        "file replay must wait instead of rejecting work from a full bounded queue"
    );

    assert_eq!(receiver.recv().unwrap(), 1);
    assert_eq!(result_receiver.recv_timeout(Duration::from_secs(1)).unwrap(), Ok(()));
    assert_eq!(receiver.recv().unwrap(), 3);
}

#[test]
fn live_voice_id_is_always_rejected() {
    let reason = "voice identification is not available in realtime sessions";
    ensure_live_voice_id_not_requested(false, reason).unwrap();
    let error = ensure_live_voice_id_not_requested(true, reason).unwrap_err().message();
    assert_eq!(error, reason);
}

fn facts() -> TargetFacts {
    TargetFacts {
        has_parent: true,
        parent_exists: true,
        parent_is_directory: true,
        parent_is_read_only: false,
        exists: false,
        inspected: None,
    }
}

fn target(path: &str) -> Option<TargetPath> {
    Some(TargetPath { path: path.to_string(), parent: "/out".to_string(), facts: facts() })
}

fn missing_target(path: &str) -> Option<TargetPath> {
    Some(TargetPath {
        path: path.to_string(),
        parent: "/out/missing".to_string(),
        facts: TargetFacts { parent_exists: false, parent_is_directory: false, ..facts() },
    })
}

#[test]
fn validates_live_save_extension() {
    assert!(build_save_options(target("/out/live.txt"), Some(ExportFormat::Text), false, false)
        .unwrap()
        .is_some());

    let error = build_save_options(target("/out/live.bin"), None, false, false)
        .err()
        .unwrap()
        .message();
    assert!(error.contains("Unsupported live export extension"));
}

#[test]
fn validates_live_save_target_path_preconditions() {
    let text = Some(ExportFormat::Text);
    let missing_parent =
        build_save_options(missing_target("/out/missing/live.txt"), text, false, false)
            .err()
            .unwrap()
            .message();
    assert!(missing_parent.contains("parent directory does not exist"));

    let mut directory = target("/out/dir.txt").unwrap();
    directory.facts.exists = true;
    directory.facts.inspected = Some((false, false));
    let non_file = build_save_options(Some(directory), text, false, false).err().unwrap().message();
    assert!(non_file.contains("must be a file path"));
}

fn note_request(append: bool) -> NoteRequest {
    NoteRequest { append, title: None, suggest_title: false, source: LiveSource::Mic }
}

#[test]
fn validates_obs_and_markdown_option_preconditions() {
    let obs_missing_path = build_obs_options(None, Some(2), false, false).err().unwrap().message();
    assert!(obs_missing_path.contains("require --obs-text-file"));

    let obs_error = build_obs_options(missing_target("/out/missing/obs.txt"), None, false, false)
        .err()
        .unwrap()
        .message();
    assert!(obs_error.contains("parent directory does not exist"));

    let obs_lines_error =
        build_obs_options(target("/out/obs.txt"), Some(0), false, false).err().unwrap().message();
    assert!(obs_lines_error.contains("--obs-max-lines"));

    let created = "2026-05-10T00:00:00.000Z".to_string();
    let markdown_missing_path = build_markdown_note_options(
        None,
        note_request(true),
        BackendKind::Mock,
        "whisper-large-v3-turbo",
        created.clone(),
    )
    .err()
    .unwrap()
    .message();
    assert!(markdown_missing_path.contains("require --markdown-note"));

    assert!(build_markdown_note_options(
        target("/out/note.md"),
        note_request(false),
        BackendKind::Mock,
        "whisper-large-v3-turbo",
        created,
    )
    .unwrap()
    .is_some());
}

#[test]
fn note_options_name_their_source() {
    let note = build_markdown_note_options(
        target("/out/note.md"),
        note_request(false),
        BackendKind::Mock,
        "m",
        "now".to_string(),
    )
    .unwrap()
    .unwrap();
    assert_eq!(note.source_label, live_source_label(LiveSource::Mic));
    assert_eq!(note.backend, "mock");
    assert_eq!(note.model_id, "m");
    let obs = build_obs_options(target("/out/obs.txt"), None, true, false).unwrap().unwrap();
    assert_eq!(obs.max_lines, 3);
    assert!(obs.clear_on_start && !obs.clear_on_stop);
    assert_eq!(fallback_format(ExportFormat::Srt), ExportFormat::Text);
    assert_eq!(fallback_format(ExportFormat::Vtt), ExportFormat::Text);
    assert_eq!(fallback_format(ExportFormat::Json), ExportFormat::Json);
}

#[test]
fn each_refused_target_is_named() {
    let refused = |changed: TargetFacts| {
        validate_save_target_path("/out/live.txt", "/out", changed).err().unwrap()
    };
    assert!(validate_save_target_path("/out/live.txt", "/out", facts()).is_ok());
    assert!(matches!(
        refused(TargetFacts { parent_is_directory: false, ..facts() }),
        LiveOptionError::ParentNotDirectory(_)
    ));
    assert!(matches!(
        refused(TargetFacts { parent_is_read_only: true, ..facts() }),
        LiveOptionError::ParentReadOnly(_)
    ));
    assert!(matches!(
        refused(TargetFacts { exists: true, inspected: None, ..facts() }),
        LiveOptionError::CannotInspect(_)
    ));
    let read_only = refused(TargetFacts { exists: true, inspected: Some((true, true)), ..facts() });
    assert_eq!(read_only.message(), "Live save target is read-only: /out/live.txt");
}

#[test]
fn requests_are_routed() {
    let request = LiveRequest {
        diarize: false,
        max_seconds: None,
        max_utterances: None,
        list_devices: false,
        source: LiveSource::Mic,
        has_input_file: false,
    };
    assert_eq!(run_live(&request, "x").unwrap(), LiveRoute::CaptureMicrophone);
    let file = LiveRequest { has_input_file: true, ..request };
    assert_eq!(run_live(&file, "x").unwrap(), LiveRoute::ReplayFile);
    let system = LiveRequest { has_input_file: false, source: LiveSource::System, ..file };
    assert_eq!(run_live(&system, "x").unwrap(), LiveRoute::CaptureSystemAudio);
    let list = LiveRequest { list_devices: true, ..system };
    assert_eq!(run_live(&list, "x").unwrap(), LiveRoute::ListSystemAudio);
    let named = LiveRequest { diarize: true, ..list };
    assert_eq!(run_live(&named, "x").err().unwrap().message(), "x");
}

#[test]
fn packs_are_for_the_native_backend() {
    assert_eq!(resolve_live_model_pack(BackendKind::Mock, false).unwrap(), LiveModelPack::NotNeeded);
    assert_eq!(resolve_live_model_pack(BackendKind::Native, true).unwrap(), LiveModelPack::Given);
    assert_eq!(
        resolve_live_model_pack(BackendKind::Native, false).unwrap(),
        LiveModelPack::Installed
    );
    assert!(resolve_live_model_pack(BackendKind::Mock, true)
        .err()
        .unwrap()
        .message()
        .contains("--model-pack is only supported with --backend native"));
}

#[test]
fn a_system_capture_reports_its_own_failure_last() {
    assert!(matches!(settle_system_audio(Ok(()), None), SystemAudioEnd::Done));
    assert!(matches!(
        settle_system_audio(Err("session".to_string()), None),
        SystemAudioEnd::SessionFailed(message) if message == "session"
    ));
}

#[test]
fn devices_are_chosen_by_label() {
    let labels = vec!["Built-in".to_string(), "USB Mic".to_string()];
    assert_eq!(select_input_device(&labels, "USB Mic").unwrap(), 1);
    assert_eq!(select_input_device(&labels, "usb").unwrap(), 1);
    let accented = vec!["ÉTUDE one".to_string(), "étude two".to_string()];
    assert_eq!(select_input_device(&accented, "étude").unwrap(), 0);
    assert_eq!(select_input_device(&accented, "étude two").unwrap(), 1);
    let lowered = vec!["étude one".to_string(), "étude two".to_string()];
    assert_eq!(choose_device(&accented, &lowered, "Étude", "étude"), Some(0));
    assert!(matches!(
        select_input_device(&labels, "none"),
        Err(LiveOptionError::DeviceNotFound(_))
    ));
}

#[test]
fn prepared_audio_is_mono_at_sixteen_kilohertz() {
    assert_eq!(prepared_samples(1, 16_000, 16, false).unwrap(), PreparedSamples::Pcm16);
    assert_eq!(prepared_samples(1, 16_000, 32, true).unwrap(), PreparedSamples::Float32);
    assert!(prepared_samples(2, 16_000, 16, false).is_err());
    assert!(prepared_samples(1, 16_000, 24, false).is_err());
}

fn timing() -> LiveTiming {
    LiveTiming {
        frame_duration_ms: 20,
        speech_start_ms: None,
        speech_stop_ms: None,
        pre_roll_ms: Some(100),
        max_utterance_ms: Some(60_000),
        no_speech_timeout_ms: None,
        partial_interval_ms: None,
        partial_window_ms: None,
    }
}

#[test]
fn buffers_hold_the_longest_utterance() {
    let defaults = VadDefaults {
        speech_start_ms: 200,
        speech_stop_ms: 700,
        neural_speech_stop_ms: 500,
        pre_roll_ms: 300,
        max_utterance_ms: Some(30_000),
        no_speech_timeout_ms: None,
    };
    let merged = merge_timing(timing(), defaults, true);
    assert_eq!(merged.speech_start_ms, 200);
    assert_eq!(merged.speech_stop_ms, 500);
    assert_eq!(merge_timing(timing(), defaults, false).speech_stop_ms, 700);
    assert_eq!(merged.pre_roll_ms, 100);
    let config = LivePipelineConfig::from_options(timing(), merged).unwrap();
    assert_eq!(config.partial_interval_ms, 300);
    assert_eq!(config.partial_window_ms, 3_000);
    assert!(config.max_buffered_frames >= 60_100 / 20);
    let zero = LiveTiming { partial_interval_ms: Some(0), ..timing() };
    assert!(matches!(
        LivePipelineConfig::from_options(zero, merged),
        Err(LiveOptionError::PartialIntervalZero)
    ));
    let zero = LiveTiming { partial_window_ms: Some(0), ..timing() };
    assert!(matches!(
        LivePipelineConfig::from_options(zero, merged),
        Err(LiveOptionError::PartialWindowZero)
    ));
}

#[test]
fn wav_writer_sets_header_and_data() {
    let bytes = write_pcm16_mono_16khz_wav(&[1, -2]);
    assert_eq!(&bytes[0..4], b"RIFF");
    assert_eq!(&bytes[8..12], b"WAVE");
    assert_eq!(u16::from_le_bytes([bytes[20], bytes[21]]), 1);
    assert_eq!(u16::from_le_bytes([bytes[22], bytes[23]]), 1);
    assert_eq!(u32::from_le_bytes([bytes[24], bytes[25], bytes[26], bytes[27]]), 16_000);
    assert_eq!(u16::from_le_bytes([bytes[34], bytes[35]]), 16);
    assert_eq!(u32::from_le_bytes([bytes[40], bytes[41], bytes[42], bytes[43]]), 4);
    assert_eq!(i16::from_le_bytes([bytes[44], bytes[45]]), 1);
    assert_eq!(i16::from_le_bytes([bytes[46], bytes[47]]), -2);
}

#[test]
fn timestamp_formatter_uses_rfc3339_utc_shape() {
    assert_eq!(format_unix_millis(0, 0), "1970-01-01T00:00:00.000Z");
    assert_eq!(format_unix_millis(1_766_793_600, 123), "2025-12-27T00:00:00.123Z");
}

#[test]
fn dates_follow_the_calendar() {
    assert_eq!(civil_from_days(0), (1970, 1, 1));
    assert_eq!(civil_from_days(-1), (1969, 12, 31));
    assert_eq!(civil_from_days(11_016), (2000, 2, 29));
    assert_eq!(civil_from_days(-25_509), (1900, 2, 28));
    assert_eq!(civil_from_days(-25_508), (1900, 3, 1));
    assert_eq!(padded_text(7, 3), "007");
    assert_eq!(padded_text(1234, 3), "1234");
    assert_eq!(timestamp_now(Some((1_766_793_600, 123))), "2025-12-27T00:00:00.123Z");
    assert_eq!(timestamp_now(None), "1970-01-01T00:00:00.000Z");
}

fn success(
    id: &str,
    end_ms: u64,
    text: &str,
    partial: bool,
    revision: u32,
    generation: u64,
) -> LiveTranscriptionResult {
    LiveTranscriptionResult::Final(LiveTranscriptionSuccess {
        utterance_id: id.to_string(),
        start_ms: 0,
        end_ms,
        segment_id: format!("{id}_seg_000001"),
        text: text.to_string(),
        partial,
        revision,
        generation,
    })
}

#[test]
fn duplicate_partial_text_is_suppressed() {
    let mut pipeline = LivePipeline::new(None, 300);
    let mut partial_count = 0;
    for result in [
        success("utt_dup", 200, "hello world", true, 1, 0),
        success("utt_dup", 260, "hello world", true, 2, 0),
    ] {
        if matches!(pipeline.apply_transcription_result(result, 10), ResultAction::Partial(_)) {
            partial_count += 1;
        }
    }
    assert_eq!(partial_count, 1);
    assert_eq!(pipeline.partial_suppressed_count, 1);
}

#[test]
fn partial_rollback_is_suppressed_when_new_text_is_shorter_prefix() {
    let mut pipeline = LivePipeline::new(None, 300);
    let mut partial_count = 0;
    for result in [
        success("utt_rb", 200, "hello world from openasr", true, 1, 0),
        success("utt_rb", 260, "hello world", true, 2, 0),
    ] {
        if matches!(pipeline.apply_transcription_result(result, 10), ResultAction::Partial(_)) {
            partial_count += 1;
        }
    }
    assert_eq!(partial_count, 1);
    assert_eq!(pipeline.partial_rollback_suppressed_count, 1);
}

#[test]
fn a_rollback_is_a_much_shorter_beginning() {
    assert!(should_suppress_partial_rollback("hello world", "hel"));
    assert!(!should_suppress_partial_rollback("hello world", "hello"));
    assert!(!should_suppress_partial_rollback("hello world", "world"));
    assert!(!should_suppress_partial_rollback("hello", "hello world and more"));
}

fn utterance(id: &str, start_ms: u64, sample: i16) -> BufferedUtterance {
    BufferedUtterance {
        utterance_id: id.to_string(),
        start_ms,
        end_ms: start_ms + 20,
        frames: vec![vec![sample; 320]],
        cancelled: false,
    }
}

#[test]
fn partial_dispatch_keeps_one_in_flight_and_only_the_latest_pending() {
    let mut pipeline = LivePipeline::new(None, 300);
    let (jobs, _kept): (mpsc::SyncSender<LiveTranscriptionJob>, _) = mpsc::sync_channel(4);
    let (_results_kept, results) = mpsc::channel::<LiveTranscriptionResult>();
    let mut worker = LiveTranscriptionWorker {
        jobs: Some(jobs),
        results,
        pending_jobs: 0,
        queue_policy: LiveTranscriptionQueuePolicy::FailFast,
    };
    let id = "utt_flight";
    let first = utterance(id, 0, 1000);
    let latest = utterance(id, 20, 2000);
    let latest_end_ms = latest.end_ms;

    let at = pipeline.partial_flights.entry(id);
    pipeline.partial_flights.entries[at].1.pending_latest = Some(first);
    let job = pipeline.next_partial_job(id).unwrap();
    let taken = worker.queue(job).is_ok();
    pipeline.queue_next_partial(id, 300, taken);

    assert_eq!(worker.pending_jobs, 1);
    let flight = &mut pipeline.partial_flights.entries[at].1;
    assert!(flight.in_flight);
    assert!(flight.pending_latest.is_none());
    assert_eq!(flight.next_revision, 1);
    flight.pending_latest = Some(latest);

    assert!(pipeline.next_partial_job(id).is_none());

    let flight = pipeline.partial_flights.get(id).unwrap();
    assert_eq!(worker.pending_jobs, 1);
    assert!(flight.in_flight);
    assert_eq!(flight.pending_latest.as_ref().unwrap().end_ms, latest_end_ms);
}

#[test]
fn late_partial_generation_cannot_override_final_text() {
    let mut pipeline = LivePipeline::new(None, 300);
    let mut transcript_events = Vec::new();
    for result in [
        success("utt_final_guard", 200, "hello wor", true, 1, 0),
        success("utt_final_guard", 260, "hello world", false, 2, 1),
        success("utt_final_guard", 300, "hello wrong stale partial", true, 3, 0),
    ] {
        match pipeline.apply_transcription_result(result, 10) {
            ResultAction::Partial(_) => transcript_events.push("transcript.partial"),
            ResultAction::Final(_) => transcript_events.push("transcript.final"),
            _ => {}
        }
    }
    assert_eq!(transcript_events, vec!["transcript.partial", "transcript.final"]);
    assert_eq!(pipeline.partial_emitted_count, 1);
    assert_eq!(pipeline.final_emitted_count, 1);
}

#[test]
fn snapshots_wait_for_their_interval_and_give_way_to_the_latest() {
    let mut pipeline = LivePipeline::new(None, 300);
    assert!(!pipeline.maybe_queue_partial_snapshot(100, Some(utterance("u", 0, 1))));
    assert!(pipeline.pending_snapshot("u").is_none());
    assert!(pipeline.maybe_queue_partial_snapshot(300, Some(utterance("u", 20, 1))));
    assert_eq!(pipeline.pending_snapshot("u").unwrap().start_ms, 20);
    pipeline.queue_next_partial("u", 300, true);
    assert!(!pipeline.maybe_queue_partial_snapshot(600, Some(utterance("u", 40, 1))));
    assert!(!pipeline.maybe_queue_partial_snapshot(640, Some(utterance("u", 60, 1))));
    assert!(pipeline.pending_snapshot("u").is_none());
    assert!(!pipeline.maybe_queue_partial_snapshot(900, None));
    let action = pipeline.apply_transcription_result(success("u", 80, "so far", true, 1, 0), 5);
    assert!(matches!(action, ResultAction::Partial(update) if update.text == "so far"));
    assert_eq!(pipeline.pending_snapshot("u").unwrap().start_ms, 60);
    assert!(pipeline.queue_pending_partial_after_result("u", true));
    assert!(!pipeline.queue_pending_partial_after_result("u", false));
}

#[test]
fn a_refused_utterance_stays_open_and_a_taken_one_is_final() {
    let mut pipeline = LivePipeline::new(Some(1), 300);
    let spoken = utterance("u", 0, 1);
    let job = pipeline.next_final_job(&spoken).unwrap();
    assert_eq!(job.segment_id, "u_seg_000001");
    assert_eq!(job.display_name, "u.wav");
    assert!(!job.partial);
    pipeline.queue_utterance(&spoken, false);
    assert_eq!(pipeline.accepted_utterances, 0);
    assert!(!pipeline.partial_flights.get("u").unwrap().finalized);
    pipeline.queue_utterance(&spoken, true);
    assert_eq!(pipeline.accepted_utterances, 1);
    assert!(pipeline.partial_flights.get("u").unwrap().finalized);
    assert!(pipeline.has_reached_limit());
    assert!(pipeline.next_final_job(&utterance("v", 40, 1)).is_none());
    assert!(!pipeline.maybe_queue_partial_snapshot(5_000, Some(utterance("u", 20, 1))));
    let mut cancelled = utterance("w", 0, 1);
    cancelled.cancelled = true;
    assert!(LivePipeline::new(None, 300).next_final_job(&cancelled).is_none());
}

#[test]
fn a_backend_error_is_told() {
    let mut pipeline = LivePipeline::new(None, 300);
    let action =
        pipeline.apply_transcription_result(LiveTranscriptionResult::Error("no".to_string()), 1);
    assert!(matches!(action, ResultAction::Fail(message) if message == "no"));
}

#[test]
fn utterances_become_audio_files() {
    let mut spoken = utterance("u", 0, 5);
    spoken.frames.push(vec![-1, 2]);
    assert_eq!(spoken.samples().len(), 322);
    let bytes = spoken.wav();
    assert_eq!(bytes.len(), 44 + 644);
    assert_eq!(&bytes[bytes.len() - 4..], &[0xff, 0xff, 2, 0]);
}

#[test]
fn workers_return_what_they_were_given() {
    let (jobs, taken) = mpsc::sync_channel::<u32>(2);
    let (results_sender, results) = mpsc::channel::<u32>();
    let mut worker = LiveTranscriptionWorker {
        jobs: Some(jobs),
        results,
        pending_jobs: 0,
        queue_policy: LiveTranscriptionQueuePolicy::FailFast,
    };
    worker.queue(1).unwrap();
    worker.queue(2).unwrap();
    assert_eq!(worker.queue(3), Err(WorkerError::QueueFull));
    assert_eq!(worker.pending_jobs, 2);
    assert_eq!(worker.take_available(), None);
    results_sender.send(taken.recv().unwrap() * 10).unwrap();
    assert_eq!(worker.take_available(), Some(10));
    results_sender.send(taken.recv().unwrap() * 10).unwrap();
    assert_eq!(worker.finish(), Ok(vec![20]));
    assert_eq!(worker.queue(4), Err(WorkerError::NotRunning));
    assert_eq!(WorkerError::NotRunning.message(), "Live transcription worker is not running");
}

#[test]
fn a_result_settles_one_job() {
    assert_eq!(settle_receipt(2, Some(7)), (1, Some(7)));
    assert_eq!(settle_receipt(0, Some(7)), (0, Some(7)));
    assert_eq!(settle_receipt::<u32>(2, None), (2, None));
}

#[test]
fn results_are_kept_in_the_order_they_come() {
    let mut results = vec![1];
    assert_eq!(keep_result(&mut results, 2, Some(2)), Ok(1));
    assert_eq!(results, [1, 2]);
    assert_eq!(
        keep_result(&mut results, 1, None),
        Err(WorkerError::StoppedBeforeReturning)
    );
    assert!(keep_available(&mut results, Some(3)));
    assert!(!keep_available(&mut results, None));
    assert_eq!(results, [1, 2, 3]);
}

#[test]
fn all_waiting_results_are_taken_at_once() {
    let (jobs, _taken) = mpsc::sync_channel::<u32>(4);
    let (results_sender, results) = mpsc::channel::<u32>();
    let mut worker = LiveTranscriptionWorker {
        jobs: Some(jobs),
        results,
        pending_jobs: 0,
        queue_policy: LiveTranscriptionQueuePolicy::FailFast,
    };
    for job in 0..4 {
        worker.queue(job).unwrap();
    }
    assert!(worker.drain_available().is_empty());
    for result in [7, 8, 9] {
        results_sender.send(result).unwrap();
    }
    assert_eq!(worker.drain_available(), [7, 8, 9]);
    assert_eq!(worker.pending_jobs, 1);
    for result in [10, 11] {
        results_sender.send(result).unwrap();
    }
    assert_eq!(worker.drain_available(), [10, 11]);
    assert_eq!(worker.pending_jobs, 0);
    assert!(LiveTranscriptionQueuePolicy::WaitForCapacity.waits());
    assert!(!LiveTranscriptionQueuePolicy::FailFast.waits());
}

#[test]
fn a_worker_that_stopped_is_reported() {
    let (jobs, taken) = mpsc::sync_channel::<u32>(2);
    let (results_sender, results) = mpsc::channel::<u32>();
    let mut worker = LiveTranscriptionWorker {
        jobs: Some(jobs),
        results,
        pending_jobs: 0,
        queue_policy: LiveTranscriptionQueuePolicy::WaitForCapacity,
    };
    worker.queue(1).unwrap();
    drop(taken);
    assert_eq!(worker.queue(2), Err(WorkerError::StoppedBeforeAccepting));
    drop(results_sender);
    assert_eq!(worker.finish(), Err(WorkerError::StoppedBeforeReturning));
}

/// What a running session tells at its end, in order.
fn terminal_events() -> Vec<&'static str> {
    let mut state = RealtimeSessionState::Running;
    let mut audio_running = true;
    let mut step = TerminalStep::Begin;
    let mut told = Vec::new();
    loop {
        match step {
            TerminalStep::Begin => {}
            TerminalStep::StopAudio => told.push("audio.input.stopped"),
            TerminalStep::Close => {
                told.push("session.closed");
                state = RealtimeSessionState::Closed;
            }
            TerminalStep::End { ok } => {
                assert!(ok && !audio_running);
                return told;
            }
        }
        step = emit_terminal_events(step, true, &mut audio_running, state);
    }
}

/// What is told while a session shuts down, where the worker handed back these results.
fn shutdown_events(
    pipeline: &mut LivePipeline,
    flushed: Option<&BufferedUtterance>,
    results: Vec<LiveTranscriptionResult>,
    allow_final_save: bool,
) -> Vec<&'static str> {
    let mut results = results;
    let mut told = Vec::new();
    let mut step = ShutdownStep::QueueFlushed;
    while !matches!(step, ShutdownStep::End(_)) {
        match step {
            ShutdownStep::QueueFlushed => {
                if let Some(utterance) = flushed {
                    pipeline.queue_utterance(utterance, true);
                }
            }
            ShutdownStep::ApplyResults => {
                for result in results.drain(..) {
                    let action = pipeline.apply_transcription_result(result, 30);
                    assert!(matches!(action, ResultAction::Final(_)));
                    pipeline.count_completed();
                    told.push("transcript.final");
                }
            }
            ShutdownStep::EndSession { .. } => told.extend(terminal_events()),
            _ => {}
        }
        step = shutdown(step, true, allow_final_save);
    }
    assert_eq!(step, ShutdownStep::End(ShutdownEnd::Done));
    told
}

#[test]
fn capture_run_overflow_emits_backpressure_and_closes() {
    let mut pipeline = LivePipeline::new(None, 300);
    let mut run = LiveCaptureRun::new(None);
    assert_eq!(run.run(CaptureEvent::Done, &pipeline), CaptureStep::Check);
    let looked =
        CaptureEvent::Looked { overflowed: true, stop_requested: false, elapsed_ns: 0 };
    assert_eq!(run.run(looked, &pipeline), CaptureStep::End(CaptureEnd::Overflowed));
    assert!(overflow_error().contains("queue overflowed"));

    let end = CaptureEnd::Overflowed;
    let plan = close_plan(end);
    assert!(plan.reports_overflow_first && plan.shuts_down && !plan.allow_final_save);
    let mut told = Vec::new();
    let mut step = begin_close(end);
    while !matches!(step, CloseStep::End(_)) {
        match step {
            CloseStep::Report => {
                let notice = error_notice(&SessionFault::QueueOverflow);
                assert_eq!(notice.code, RealtimeErrorCode::BackpressureTimeout);
                assert!(!notice.recoverable);
                told.push("error");
            }
            _ => told.extend(shutdown_events(
                &mut pipeline,
                None,
                Vec::new(),
                plan.allow_final_save,
            )),
        }
        step = close_capture(end, step, true);
    }
    assert_eq!(step, CloseStep::End(CloseEnd::Overflowed));
    assert_eq!(told, ["error", "audio.input.stopped", "session.closed"]);
    assert!(!shutdown_steps(&[], plan.allow_final_save).contains(&ShutdownStep::SaveHistory));
}

#[test]
fn capture_run_stops_after_max_utterances_and_closes_in_order() {
    let mut pipeline = LivePipeline::new(Some(1), 300);
    let mut run = LiveCaptureRun::new(None);
    let mut chunks = 0;
    let mut step = run.step;
    while !matches!(step, CaptureStep::End(_)) {
        let event = match step {
            CaptureStep::Drain | CaptureStep::DrainFrame { .. } => CaptureEvent::Done,
            CaptureStep::Check => {
                CaptureEvent::Looked { overflowed: false, stop_requested: false, elapsed_ns: 0 }
            }
            CaptureStep::Receive => {
                chunks += 1;
                CaptureEvent::Audio { frames: 1 }
            }
            CaptureStep::Frame { .. } => {
                if chunks == 5 {
                    pipeline.queue_utterance(&utterance("utt_1", 0, 2000), true);
                }
                CaptureEvent::Done
            }
            CaptureStep::End(_) => unreachable!(),
        };
        step = run.run(event, &pipeline);
    }
    assert_eq!(step, CaptureStep::End(CaptureEnd::Stopped));
    assert_eq!(chunks, 5);

    assert_eq!(begin_close(CaptureEnd::Stopped), CloseStep::ShutDown);
    let plan = close_plan(CaptureEnd::Stopped);
    assert!(plan.allow_final_save);
    let results = vec![success("utt_1", 20, "hello", false, 1, 1)];
    let told = shutdown_events(&mut pipeline, None, results, plan.allow_final_save);
    assert_eq!(
        close_capture(CaptureEnd::Stopped, CloseStep::ShutDown, true),
        CloseStep::End(CloseEnd::ShutdownOutcome)
    );
    assert_eq!(pipeline.accepted_utterances, 1);
    assert_eq!(pipeline.completed_utterances, 1);
    let at = |name: &str| told.iter().position(|event| *event == name).unwrap();
    assert!(at("transcript.final") < at("audio.input.stopped"));
    assert!(at("audio.input.stopped") < at("session.closed"));
}

#[test]
fn shutdown_flushes_active_utterance() {
    let mut pipeline = LivePipeline::new(None, 300);
    assert_eq!(pipeline.completed_utterances, 0);
    let active = utterance("utt_1", 0, 2000);
    let results = vec![success("utt_1", 20, "hello", false, 1, 1)];
    let told = shutdown_events(&mut pipeline, Some(&active), results, true);
    assert_eq!(pipeline.accepted_utterances, 1);
    assert_eq!(pipeline.completed_utterances, 1);
    assert_eq!(told, ["transcript.final", "audio.input.stopped", "session.closed"]);
}

#[test]
fn a_capture_closes_as_it_ended() {
    for end in [CaptureEnd::Failed, CaptureEnd::Overflowed, CaptureEnd::Aborted] {
        assert!(!close_plan(end).allow_final_save);
    }
    assert_eq!(begin_close(CaptureEnd::Aborted), CloseStep::End(CloseEnd::CaptureFailure));
    assert_eq!(begin_close(CaptureEnd::Failed), CloseStep::ShutDown);
    assert_eq!(
        close_capture(CaptureEnd::Failed, CloseStep::ShutDown, false),
        CloseStep::End(CloseEnd::CaptureFailure)
    );
    assert_eq!(
        close_capture(CaptureEnd::Overflowed, CloseStep::Report, false),
        CloseStep::End(CloseEnd::ReportFailure)
    );
}

#[test]
fn a_session_that_could_not_stop_its_audio_is_not_closed() {
    let mut audio_running = true;
    let state = RealtimeSessionState::Running;
    let step = emit_terminal_events(TerminalStep::Begin, true, &mut audio_running, state);
    assert_eq!(step, TerminalStep::StopAudio);
    let step = emit_terminal_events(step, false, &mut audio_running, state);
    assert_eq!(step, TerminalStep::End { ok: false });
    assert!(audio_running);
    let closed = RealtimeSessionState::Closed;
    let step = emit_terminal_events(TerminalStep::Begin, true, &mut audio_running, closed);
    assert_eq!(step, TerminalStep::End { ok: true });
    assert!(!stops_audio(true, closed));
    assert!(!closes_session(closed));
}

/// The steps of a live session in which none fails.
fn live_steps(route: LiveRoute, kind: BackendKind, has_model_pack: bool) -> Vec<LiveStep> {
    let mut steps = vec![LiveStep::CheckRequest];
    while steps[steps.len() - 1] != LiveStep::Done {
        let step = steps[steps.len() - 1];
        steps.push(go_on_live(step, true, route, kind, has_model_pack));
        assert!(steps.len() < 20);
    }
    steps
}

#[test]
fn a_live_session_captures_after_its_sinks_were_found_apart() {
    let route = LiveRoute::CaptureMicrophone;
    assert_eq!(
        live_steps(route, BackendKind::Native, false),
        [
            LiveStep::CheckRequest,
            LiveStep::FindModel,
            LiveStep::ChooseBackend,
            LiveStep::InstallModel,
            LiveStep::ResolvePack,
            LiveStep::CheckBackend,
            LiveStep::Configure,
            LiveStep::BuildSave,
            LiveStep::BuildObs,
            LiveStep::BuildNote,
            LiveStep::CheckSinks,
            LiveStep::Capture,
            LiveStep::Done,
        ]
    );
    assert!(!live_steps(route, BackendKind::Native, true).contains(&LiveStep::InstallModel));
    assert!(!live_steps(route, BackendKind::Mock, false).contains(&LiveStep::InstallModel));
    assert_eq!(
        live_steps(LiveRoute::ListMicrophones, BackendKind::Native, false),
        [LiveStep::CheckRequest, LiveStep::ListDevices, LiveStep::Done]
    );
    assert_eq!(
        go_on_live(LiveStep::CheckSinks, false, route, BackendKind::Native, false),
        LiveStep::Failed
    );
}

#[test]
fn a_capture_ends_with_its_time_its_audio_or_a_failure() {
    let pipeline = LivePipeline::new(None, 300);
    let look = |elapsed_ns: u128| {
        let mut run = LiveCaptureRun::new(Some(2));
        run.run(CaptureEvent::Done, &pipeline);
        run.run(
            CaptureEvent::Looked { overflowed: false, stop_requested: false, elapsed_ns },
            &pipeline,
        )
    };
    assert_eq!(look(1_999_999_999), CaptureStep::Receive);
    assert_eq!(look(2_000_000_000), CaptureStep::End(CaptureEnd::Stopped));
    let receive = |event: CaptureEvent| {
        let mut run = LiveCaptureRun { max_seconds: None, step: CaptureStep::Receive };
        run.run(event, &pipeline)
    };
    assert_eq!(receive(CaptureEvent::Timeout), CaptureStep::Drain);
    assert_eq!(receive(CaptureEvent::Disconnected), CaptureStep::End(CaptureEnd::Stopped));
    assert_eq!(receive(CaptureEvent::BadAudio), CaptureStep::End(CaptureEnd::Aborted));
    assert_eq!(receive(CaptureEvent::Audio { frames: 2 }), CaptureStep::Frame { left: 1 });
    let mut run = LiveCaptureRun { max_seconds: None, step: CaptureStep::Frame { left: 1 } };
    assert_eq!(run.run(CaptureEvent::Failed, &pipeline), CaptureStep::End(CaptureEnd::Failed));
}

/// The steps of a shutdown in which the named ones fail, up to its end.
fn shutdown_steps(failing: &[ShutdownStep], allow_final_save: bool) -> Vec<ShutdownStep> {
    let mut steps = vec![ShutdownStep::QueueFlushed];
    while !matches!(steps[steps.len() - 1], ShutdownStep::End(_)) {
        let step = steps[steps.len() - 1];
        steps.push(shutdown(step, !failing.contains(&step), allow_final_save));
        assert!(steps.len() < 20);
    }
    steps
}

#[test]
fn shutdown_save_failure_falls_back_to_partial_sidecar() {
    let steps = shutdown_steps(&[ShutdownStep::SaveHistory], true);
    assert!(steps.contains(&ShutdownStep::SaveHistoryBeside));
    assert!(steps.contains(&ShutdownStep::SaveNoteAnyway));
    assert_eq!(steps[steps.len() - 1], ShutdownStep::End(ShutdownEnd::SaveFailed));
    assert_eq!(partial_history_plan(true, false, false), SidecarPlan::Write);
}

#[test]
fn subtitle_save_failure_falls_back_to_text_partial_sidecar() {
    let steps = shutdown_steps(&[ShutdownStep::SaveHistory], true);
    assert!(steps.contains(&ShutdownStep::SaveHistoryBeside));
    assert_eq!(fallback_format(ExportFormat::Srt), ExportFormat::Text);
}

#[test]
fn shutdown_error_cleanup_persists_partial_sidecar_without_final_save() {
    let steps = shutdown_steps(&[], false);
    assert!(!steps.contains(&ShutdownStep::SaveHistory));
    assert!(!steps.contains(&ShutdownStep::SaveNote));
    assert!(steps.contains(&ShutdownStep::SavePartialHistory(ShutdownEnd::Done)));
    assert!(steps.contains(&ShutdownStep::SavePartialNote(ShutdownEnd::Done)));
    assert_eq!(steps[steps.len() - 1], ShutdownStep::End(ShutdownEnd::Done));
}

#[test]
fn shutdown_error_writes_markdown_partial_sidecar_even_when_append_enabled() {
    let steps = shutdown_steps(&[], false);
    assert!(!steps.contains(&ShutdownStep::SaveNote));
    assert!(!steps.contains(&ShutdownStep::SaveNoteAnyway));
    assert!(steps.contains(&ShutdownStep::SavePartialNote(ShutdownEnd::Done)));
    assert_eq!(partial_note_plan(true, false), SidecarPlan::Write);
}

#[test]
fn partial_history_save_uses_sidecar_path_without_overwriting_target() {
    let save_path = "/out/live.md";
    let sidecar = implicit_partial_sidecar_path(save_path);
    assert_eq!(sidecar, format!("{save_path}.partial"));
    let mut files = vec![(save_path.to_string(), "keep-existing\n".to_string())];
    let exists = files.iter().any(|(path, _)| *path == sidecar);
    assert_eq!(partial_history_plan(true, false, exists), SidecarPlan::Write);
    files.push((sidecar.clone(), "hello".to_string()));
    let read = |wanted: &str| files.iter().find(|(path, _)| path == wanted).unwrap().1.clone();
    assert_eq!(read(save_path), "keep-existing\n");
    assert!(read(&sidecar).contains("hello"));
    let steps = shutdown_steps(&[], false);
    assert!(steps.contains(&ShutdownStep::SavePartialHistory(ShutdownEnd::Done)));
    assert!(!steps.contains(&ShutdownStep::SaveHistory));
}

#[test]
fn partial_history_save_refuses_to_overwrite_existing_sidecar() {
    assert_eq!(partial_history_plan(true, false, true), SidecarPlan::Refuse);
    assert!(history_refusal("/out/live.md.partial")
        .contains("Refusing to overwrite implicit partial live transcript sidecar"));
    assert_eq!(partial_history_plan(true, true, true), SidecarPlan::Nothing);
    assert_eq!(partial_note_plan(true, true), SidecarPlan::Refuse);
    assert!(note_refusal("/out/n.partial").contains("implicit partial Markdown note sidecar"));
}

#[test]
fn backend_error_still_emits_terminal_events() {
    let steps = shutdown_steps(&[ShutdownStep::ApplyResults], true);
    assert!(steps.contains(&ShutdownStep::EndSession { result_failed: true }));
    assert!(steps.contains(&ShutdownStep::SavePartialHistory(ShutdownEnd::ResultFailed)));
    assert_eq!(steps[steps.len() - 1], ShutdownStep::End(ShutdownEnd::ResultFailed));
    let notice = error_notice(&SessionFault::BackendFailed("lost".to_string()));
    assert_eq!(notice.code, RealtimeErrorCode::BackendCrashed);
    assert_eq!(notice.message, "lost");
}

#[test]
fn a_lost_worker_still_ends_the_session() {
    let steps = shutdown_steps(&[ShutdownStep::FinishWorker], true);
    assert!(steps.contains(&ShutdownStep::ReportWorkerFailure));
    assert!(steps.contains(&ShutdownStep::EndAfterWorkerFailure));
    assert_eq!(steps[steps.len() - 1], ShutdownStep::End(ShutdownEnd::WorkerFailed));
}

#[test]
fn buffer_overflow_returns_typed_error() {
    let fault = SessionFault::BufferOverflow("realtime audio buffer reached capacity".to_string());
    let notice = error_notice(&fault);
    assert_eq!(notice.code, RealtimeErrorCode::AudioBufferOverflow);
    assert!(notice.message.contains("realtime audio buffer reached capacity"));
    assert!(!notice.recoverable);
}

#[test]
fn boundaries_are_told() {
    let stopped = boundary_notice(SpeechBoundary::MaxUtterance {
        utterance_id: "u".to_string(),
        start_ms: 1,
        end_ms: 2,
    });
    assert!(matches!(stopped, BoundaryNotice::Stopped { start_ms: 1, end_ms: 2, .. }));
    match boundary_notice(SpeechBoundary::NoSpeechTimeout { timeout_ms: 1500 }) {
        BoundaryNotice::Fault(fault) => {
            let notice = error_notice(&fault);
            assert_eq!(notice.message, "No speech detected within 1500 ms.");
            assert!(notice.recoverable);
        }
        _ => panic!("silence is told as a fault"),
    }
}

#[test]
fn events_are_shown_as_asked() {
    let line = LiveEvent::Final { speaker: Some("A".to_string()), text: "hi".to_string() };
    assert!(matches!(event_line(LiveOutputFormat::Jsonl, &line), LiveLine::Json));
    assert!(matches!(
        event_line(LiveOutputFormat::Text, &line),
        LiveLine::Transcript(shown) if shown == "A: hi"
    ));
    let error = LiveEvent::Error { code: "X".to_string(), message: "m".to_string() };
    assert!(matches!(
        event_line(LiveOutputFormat::Text, &error),
        LiveLine::Diagnostic(shown) if shown == "OpenASR live error (X): m"
    ));
    assert!(matches!(event_line(LiveOutputFormat::Text, &LiveEvent::Partial), LiveLine::Nothing));
    assert!(refreshes_obs(&line));
    assert!(!refreshes_obs(&LiveEvent::Partial));
    assert!(!refreshes_obs(&error));
}

#[test]
fn a_session_is_summed_up() {
    let mut pipeline = LivePipeline::new(None, 300);
    pipeline.apply_transcription_result(success("u", 20, "a", true, 1, 0), 11);
    pipeline.apply_transcription_result(success("u", 20, "a b", false, 2, 0), 25);
    assert_eq!(partial_revisions(&pipeline), (0, 1));
    assert_eq!(
        streaming_metrics_summary(&pipeline, "0.00"),
        "OpenASR live metrics: firstPartialLatencyMs=11, firstFinalLatencyMs=25, partialCount=1, finalCount=1, partialRevisionRate=0.00, suppressedDuplicatePartials=0, suppressedRollbackPartials=0"
    );
}

#[test]
fn files_are_cut_into_frames() {
    let samples: Vec<i16> = (0..700).collect();
    let frames = input_file_frames(&samples, 320, 20);
    assert_eq!(frames.len(), 3);
    assert_eq!(frames[1].start_ms, 20);
    assert_eq!(frames[1].samples[0], 320);
    assert_eq!(frames[2].samples.len(), 60);
    assert!(input_file_frames(&[], 320, 20).is_empty());
}

fn frame_after(events: &[FrameEvent]) -> FrameStep {
    events.iter().fold(FrameStep::Detect, |step, event| process_frame(step, *event))
}

#[test]
fn a_frame_hands_over_its_snapshot_before_its_utterances() {
    let mut events = vec![FrameEvent::Done, FrameEvent::Done];
    assert_eq!(frame_after(&events), FrameStep::Buffer);
    events.push(FrameEvent::Buffered { utterances: 2 });
    assert_eq!(frame_after(&events), FrameStep::Snapshot { utterances: 2 });
    events.push(FrameEvent::Done);
    assert_eq!(frame_after(&events), FrameStep::Utterance { left: 1 });
    events.push(FrameEvent::Done);
    assert_eq!(frame_after(&events), FrameStep::Utterance { left: 0 });
    events.push(FrameEvent::Done);
    assert_eq!(frame_after(&events), FrameStep::End(FrameEnd::Done));
    events.push(FrameEvent::Failed);
    assert_eq!(frame_after(&events), FrameStep::End(FrameEnd::Done));
    assert_eq!(
        frame_after(&[
            FrameEvent::Done,
            FrameEvent::Done,
            FrameEvent::Buffered { utterances: 0 },
            FrameEvent::Done,
        ]),
        FrameStep::End(FrameEnd::Done)
    );
}

#[test]
fn a_frame_that_finds_no_room_is_reported_and_fails() {
    let full = [FrameEvent::Done, FrameEvent::Done, FrameEvent::Full];
    assert_eq!(frame_after(&full), FrameStep::ReportOverflow);
    assert_eq!(
        process_frame(FrameStep::ReportOverflow, FrameEvent::Done),
        FrameStep::End(FrameEnd::Overflowed)
    );
    assert_eq!(
        process_frame(FrameStep::ReportOverflow, FrameEvent::Failed),
        FrameStep::End(FrameEnd::Failed)
    );
    for step in [
        FrameStep::Detect,
        FrameStep::Announce,
        FrameStep::Buffer,
        FrameStep::Snapshot { utterances: 3 },
        FrameStep::Utterance { left: 3 },
    ] {
        assert_eq!(process_frame(step, FrameEvent::Failed), FrameStep::End(FrameEnd::Failed));
    }
}

#[test]
fn timestamps_are_in_the_order_of_their_times() {
    let moments = [
        (0, 0),
        (0, 9),
        (0, 10),
        (59, 999),
        (60, 0),
        (86_399, 999),
        (86_400, 0),
        (951_782_399, 0),
        (951_868_800, 0),
        (1_766_793_600, 123),
        (253_402_300_799, 999),
    ];
    let shown = moments.map(|(seconds, millis)| format_unix_millis(seconds, millis));
    assert!(shown.windows(2).all(|pair| pair[0] < pair[1]));
    assert!(shown.iter().all(|text| text.len() == 24));
}
