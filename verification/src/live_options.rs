//! What a live session is asked for, and whether it can be had.

use vstd::prelude::*;

use crate::backend::{backend_name, BackendKind};
use crate::text;

verus! {

/// How many lines a text file for a broadcast holds unless asked otherwise.
pub const DEFAULT_OBS_MAX_LINES: usize = 3;

/// How many frames a session buffers at least.
pub const DEFAULT_LIVE_MAX_BUFFERED_FRAMES: usize = 1_510;

/// How long a session waits between two snapshots, in milliseconds.
pub const DEFAULT_STREAMING_PARTIAL_INTERVAL_MS: u64 = 300;

/// How much audio a snapshot holds, in milliseconds.
pub const DEFAULT_STREAMING_PARTIAL_WINDOW_MS: u32 = 3_000;

/// Where a session takes its audio from.
#[derive(Clone, Copy, Debug, PartialEq, Eq, Structural)]
pub enum LiveSource {
    Mic,
    System,
}

/// How a session reports its events.
#[derive(Clone, Copy, Debug, PartialEq, Eq, Structural)]
pub enum LiveOutputFormat {
    Text,
    Jsonl,
}

/// The message for a source that is not known.
pub open spec fn unknown_source_message(value: Seq<char>) -> Seq<char> {
    "Unsupported live source '"@ + value + "'. Use one of: mic, system."@
}

/// Reads the name of a source.
pub fn parse_live_source(value: &str) -> (result: Result<LiveSource, String>)
    ensures
        match result {
            Ok(source) => match source {
                LiveSource::Mic => value@ == "mic"@,
                LiveSource::System => value@ == "system"@,
            },
            Err(message) => value@ != "mic"@ && value@ != "system"@ && message@
                == unknown_source_message(value@),
        },
        result is Ok <==> value@ == "mic"@ || value@ == "system"@,
{
    if text::same_text(value, "mic") {
        Ok(LiveSource::Mic)
    } else if text::same_text(value, "system") {
        Ok(LiveSource::System)
    } else {
        let mut message = "Unsupported live source '".to_owned();
        message.append(value);
        message.append("'. Use one of: mic, system.");
        Err(message)
    }
}

/// The message for an output format that is not known.
pub open spec fn unknown_output_message(value: Seq<char>) -> Seq<char> {
    "Unsupported live output format '"@ + value + "'. Use one of: text, jsonl."@
}

/// Reads the name of an output format.
pub fn parse_live_output_format(value: &str) -> (result: Result<LiveOutputFormat, String>)
    ensures
        match result {
            Ok(format) => match format {
                LiveOutputFormat::Text => value@ == "text"@,
                LiveOutputFormat::Jsonl => value@ == "jsonl"@,
            },
            Err(message) => message@ == unknown_output_message(value@),
        },
        result is Ok <==> value@ == "text"@ || value@ == "jsonl"@,
{
    if text::same_text(value, "text") {
        Ok(LiveOutputFormat::Text)
    } else if text::same_text(value, "jsonl") {
        Ok(LiveOutputFormat::Jsonl)
    } else {
        let mut message = "Unsupported live output format '".to_owned();
        message.append(value);
        message.append("'. Use one of: text, jsonl.");
        Err(message)
    }
}

/// How a note names a source.
pub open spec fn source_text(source: LiveSource) -> Seq<char> {
    match source {
        LiveSource::Mic => "microphone"@,
        LiveSource::System => "system"@,
    }
}

/// How a note names a source.
pub fn live_source_label(source: LiveSource) -> (label: &'static str)
    ensures
        label@ == source_text(source),
{
    match source {
        LiveSource::Mic => "microphone",
        LiveSource::System => "system",
    }
}

/// How long the replay of a file waits before a frame, in nanoseconds: until the
/// frame's time has come.
pub fn live_input_file_replay_delay(elapsed_ns: u128, frame_start_ms: u64) -> (delay_ns: u128)
    ensures
        delay_ns == (if frame_start_ms * 1_000_000 >= elapsed_ns {
            frame_start_ms * 1_000_000 - elapsed_ns
        } else {
            0int
        }),
{
    let start_ns: u128 = frame_start_ms as u128 * 1_000_000;
    if start_ns >= elapsed_ns {
        start_ns - elapsed_ns
    } else {
        0
    }
}

/// A frame is never played before its time, nor later than it must be.
pub proof fn law_replay_keeps_audio_time(elapsed_ns: int, frame_start_ms: int, delay_ns: int)
    requires
        delay_ns == (if frame_start_ms * 1_000_000 >= elapsed_ns {
            frame_start_ms * 1_000_000 - elapsed_ns
        } else {
            0
        }),
    ensures
        elapsed_ns + delay_ns >= frame_start_ms * 1_000_000,
        delay_ns > 0 ==> elapsed_ns + delay_ns == frame_start_ms * 1_000_000,
{
}

/// What the file system says of a path that is to be written.
#[derive(Clone, Copy, Debug)]
pub struct TargetFacts {
    /// Whether the path names a parent directory.
    pub has_parent: bool,
    pub parent_exists: bool,
    pub parent_is_directory: bool,
    pub parent_is_read_only: bool,
    pub exists: bool,
    /// What is known of the file, if it could be inspected: whether it is a file,
    /// and whether it is read-only.
    pub inspected: Option<(bool, bool)>,
}

/// Why a live session cannot be had.
#[derive(Debug)]
pub enum LiveOptionError {
    MaxSecondsZero,
    MaxUtterancesZero,
    VoiceIdUnsupported(String),
    NativeNeedsModelPack,
    ModelPackNeedsNative,
    ModelPackRejected(String),
    UnsupportedExportExtension(String),
    MissingParent(String),
    ParentNotDirectory(String),
    ParentReadOnly(String),
    CannotInspect(String),
    TargetNotFile(String),
    TargetReadOnly(String),
    ObsOptionsNeedPath,
    ObsMaxLinesZero,
    MarkdownOptionsNeedPath,
    PartialIntervalZero,
    PartialWindowZero,
    DeviceNotFound(String),
    NoDefaultDevice,
    UnsupportedSampleFormat(String),
    SystemAudioUnavailable(String),
    PreparedWavNotMono16k { channels: u16, sample_rate: u32, bits_per_sample: u16, is_float: bool },
    PreparedWavUnsupported { is_float: bool, bits_per_sample: u16 },
}

/// The name of a sample format.
pub open spec fn sample_format_text(is_float: bool) -> Seq<char> {
    if is_float {
        "Float"@
    } else {
        "Int"@
    }
}

fn sample_format_name(is_float: bool) -> (name: String)
    ensures
        name@ == sample_format_text(is_float),
{
    if is_float {
        "Float".to_owned()
    } else {
        "Int".to_owned()
    }
}

/// The message shown for an error of a live session's options.
pub open spec fn live_option_message(error: LiveOptionError) -> Seq<char> {
    match error {
        LiveOptionError::MaxSecondsZero => "--max-seconds must be greater than 0."@,
        LiveOptionError::MaxUtterancesZero => "--max-utterances must be greater than 0."@,
        LiveOptionError::VoiceIdUnsupported(reason) => reason@,
        LiveOptionError::NativeNeedsModelPack => "Native backend is fail-closed: live native transcription requires --model-pack with a local .oasr runtime pack file"@,
        LiveOptionError::ModelPackNeedsNative => "--model-pack is only supported with --backend native for live mode."@,
        LiveOptionError::ModelPackRejected(error) => "Native model-pack path rejected for live mode: "@ + error@ + "\nNative live execution is local-path-only and fail-closed."@,
        LiveOptionError::UnsupportedExportExtension(path) => "Unsupported live export extension for '"@ + path@ + "'. Use one of: .txt, .json, .md, .srt, .vtt."@,
        LiveOptionError::MissingParent(parent) => "Live save target parent directory does not exist: "@ + parent@,
        LiveOptionError::ParentNotDirectory(parent) => "Live save target parent path is not a directory: "@ + parent@,
        LiveOptionError::ParentReadOnly(parent) => "Live save target parent directory is read-only: "@ + parent@,
        LiveOptionError::CannotInspect(path) => "Could not inspect existing live save target at "@ + path@,
        LiveOptionError::TargetNotFile(path) => "Live save target must be a file path, but '"@ + path@ + "' is not a file."@,
        LiveOptionError::TargetReadOnly(path) => "Live save target is read-only: "@ + path@,
        LiveOptionError::ObsOptionsNeedPath => "--obs-max-lines/--obs-clear-on-start/--obs-clear-on-stop require --obs-text-file."@,
        LiveOptionError::ObsMaxLinesZero => "--obs-max-lines must be greater than 0."@,
        LiveOptionError::MarkdownOptionsNeedPath => "--markdown-append/--markdown-title/--markdown-suggest-title require --markdown-note."@,
        LiveOptionError::PartialIntervalZero => "--partial-interval-ms must be greater than 0."@,
        LiveOptionError::PartialWindowZero => "--partial-window-ms must be greater than 0."@,
        LiveOptionError::DeviceNotFound(requested) => "Input device '"@ + requested@ + "' was not found. Run `openasr live --source mic --list-devices` to inspect available devices."@,
        LiveOptionError::NoDefaultDevice => "No default microphone input device is available. Check OS microphone permissions/audio settings or run `openasr live --source mic --list-devices`."@,
        LiveOptionError::UnsupportedSampleFormat(format) => "Unsupported microphone sample format '"@ + format@ + "'. M48B currently supports f32, i16, and u16 input samples."@,
        LiveOptionError::SystemAudioUnavailable(detail) => "System audio capture is not available: "@ + detail@,
        LiveOptionError::PreparedWavNotMono16k { channels, sample_rate, bits_per_sample, is_float } => "Prepared live input WAV must be mono 16kHz, got channels="@ + text::decimal(channels as nat) + ", sample_rate="@ + text::decimal(sample_rate as nat) + ", bits_per_sample="@ + text::decimal(bits_per_sample as nat) + ", sample_format="@ + sample_format_text(is_float) + "."@,
        LiveOptionError::PreparedWavUnsupported { is_float, bits_per_sample } => "Prepared live input WAV sample format is unsupported: sample_format="@ + sample_format_text(is_float) + ", bits_per_sample="@ + text::decimal(bits_per_sample as nat) + "."@,
    }
}

impl LiveOptionError {
    /// The message shown for the error.
    pub fn message(&self) -> (text: String)
        ensures
            text@ == live_option_message(*self),
    {
        match self {
            LiveOptionError::MaxSecondsZero => "--max-seconds must be greater than 0.".to_owned(),
            LiveOptionError::MaxUtterancesZero => "--max-utterances must be greater than 0.".to_owned(),
            LiveOptionError::VoiceIdUnsupported(reason) => {
                let mut out = (reason.as_str()).to_owned();
                out
            },
            LiveOptionError::NativeNeedsModelPack => "Native backend is fail-closed: live native transcription requires --model-pack with a local .oasr runtime pack file".to_owned(),
            LiveOptionError::ModelPackNeedsNative => "--model-pack is only supported with --backend native for live mode.".to_owned(),
            LiveOptionError::ModelPackRejected(error) => {
                let mut out = "Native model-pack path rejected for live mode: ".to_owned();
                out.append(error.as_str());
                out.append("\nNative live execution is local-path-only and fail-closed.");
                out
            },
            LiveOptionError::UnsupportedExportExtension(path) => {
                let mut out = "Unsupported live export extension for '".to_owned();
                out.append(path.as_str());
                out.append("'. Use one of: .txt, .json, .md, .srt, .vtt.");
                out
            },
            LiveOptionError::MissingParent(parent) => {
                let mut out = "Live save target parent directory does not exist: ".to_owned();
                out.append(parent.as_str());
                out
            },
            LiveOptionError::ParentNotDirectory(parent) => {
                let mut out = "Live save target parent path is not a directory: ".to_owned();
                out.append(parent.as_str());
                out
            },
            LiveOptionError::ParentReadOnly(parent) => {
                let mut out = "Live save target parent directory is read-only: ".to_owned();
                out.append(parent.as_str());
                out
            },
            LiveOptionError::CannotInspect(path) => {
                let mut out = "Could not inspect existing live save target at ".to_owned();
                out.append(path.as_str());
                out
            },
            LiveOptionError::TargetNotFile(path) => {
                let mut out = "Live save target must be a file path, but '".to_owned();
                out.append(path.as_str());
                out.append("' is not a file.");
                out
            },
            LiveOptionError::TargetReadOnly(path) => {
                let mut out = "Live save target is read-only: ".to_owned();
                out.append(path.as_str());
                out
            },
            LiveOptionError::ObsOptionsNeedPath => "--obs-max-lines/--obs-clear-on-start/--obs-clear-on-stop require --obs-text-file.".to_owned(),
            LiveOptionError::ObsMaxLinesZero => "--obs-max-lines must be greater than 0.".to_owned(),
            LiveOptionError::MarkdownOptionsNeedPath => "--markdown-append/--markdown-title/--markdown-suggest-title require --markdown-note.".to_owned(),
            LiveOptionError::PartialIntervalZero => "--partial-interval-ms must be greater than 0.".to_owned(),
            LiveOptionError::PartialWindowZero => "--partial-window-ms must be greater than 0.".to_owned(),
            LiveOptionError::DeviceNotFound(requested) => {
                let mut out = "Input device '".to_owned();
                out.append(requested.as_str());
                out.append("' was not found. Run `openasr live --source mic --list-devices` to inspect available devices.");
                out
            },
            LiveOptionError::NoDefaultDevice => "No default microphone input device is available. Check OS microphone permissions/audio settings or run `openasr live --source mic --list-devices`.".to_owned(),
            LiveOptionError::UnsupportedSampleFormat(format) => {
                let mut out = "Unsupported microphone sample format '".to_owned();
                out.append(format.as_str());
                out.append("'. M48B currently supports f32, i16, and u16 input samples.");
                out
            },
            LiveOptionError::SystemAudioUnavailable(detail) => {
                let mut out = "System audio capture is not available: ".to_owned();
                out.append(detail.as_str());
                out
            },
            LiveOptionError::PreparedWavNotMono16k { channels, sample_rate, bits_per_sample, is_float } => {
                let mut out = "Prepared live input WAV must be mono 16kHz, got channels=".to_owned();
                out.append(text::decimal_text(*channels as u64).as_str());
                out.append(", sample_rate=");
                out.append(text::decimal_text(*sample_rate as u64).as_str());
                out.append(", bits_per_sample=");
                out.append(text::decimal_text(*bits_per_sample as u64).as_str());
                out.append(", sample_format=");
                out.append(sample_format_name(*is_float).as_str());
                out.append(".");
                out
            },
            LiveOptionError::PreparedWavUnsupported { is_float, bits_per_sample } => {
                let mut out = "Prepared live input WAV sample format is unsupported: sample_format=".to_owned();
                out.append(sample_format_name(*is_float).as_str());
                out.append(", bits_per_sample=");
                out.append(text::decimal_text(*bits_per_sample as u64).as_str());
                out.append(".");
                out
            },
        }
    }
}

/// What is wrong with the limits of a session.
pub open spec fn limits_error(max_seconds: Option<u64>, max_utterances: Option<usize>) -> Option<
    LiveOptionError,
> {
    if max_seconds == Some(0u64) {
        Some(LiveOptionError::MaxSecondsZero)
    } else if max_utterances == Some(0usize) {
        Some(LiveOptionError::MaxUtterancesZero)
    } else {
        None
    }
}

/// Whether a result fails exactly as told.
pub open spec fn fails_with<T>(
    result: Result<T, LiveOptionError>,
    error: Option<LiveOptionError>,
) -> bool {
    match result {
        Ok(_) => error is None,
        Err(actual) => error == Some(actual),
    }
}

/// Checks that a session has no limit of zero.
pub fn validate_live_limits(max_seconds: Option<u64>, max_utterances: Option<usize>) -> (result:
    Result<(), LiveOptionError>)
    ensures
        fails_with(result, limits_error(max_seconds, max_utterances)),
{
    if let Some(limit) = max_seconds {
        if limit == 0 {
            return Err(LiveOptionError::MaxSecondsZero);
        }
    }
    if let Some(limit) = max_utterances {
        if limit == 0 {
            return Err(LiveOptionError::MaxUtterancesZero);
        }
    }
    Ok(())
}

/// Checks that a session does not ask for voices to be told apart; the reason that
/// it may not is given.
pub fn ensure_live_voice_id_not_requested(diarize: bool, reason: &str) -> (result: Result<
    (),
    LiveOptionError,
>)
    ensures
        match result {
            Ok(_) => !diarize,
            Err(error) => {
                &&& diarize
                &&& error matches LiveOptionError::VoiceIdUnsupported(shown)
                &&& shown@ == reason@
            },
        },
{
    if diarize {
        Err(LiveOptionError::VoiceIdUnsupported(reason.to_owned()))
    } else {
        Ok(())
    }
}

/// Checks that the native backend has a model pack to run.
pub fn ensure_live_backend_ready(backend: BackendKind, has_model_pack: bool) -> (result: Result<
    (),
    LiveOptionError,
>)
    ensures
        fails_with(
            result,
            if backend == BackendKind::Native && !has_model_pack {
                Some(LiveOptionError::NativeNeedsModelPack)
            } else {
                None
            },
        ),
{
    if backend == BackendKind::Native && !has_model_pack {
        Err(LiveOptionError::NativeNeedsModelPack)
    } else {
        Ok(())
    }
}

/// Where the model pack of a session comes from.
#[derive(Clone, Copy, Debug, PartialEq, Eq, Structural)]
pub enum LiveModelPack {
    /// The backend needs none.
    NotNeeded,
    /// The path that was given is checked.
    Given,
    /// An installed pack is looked up by the model's name.
    Installed,
}

/// Decides where the model pack of a session comes from.
pub fn resolve_live_model_pack(backend: BackendKind, has_model_pack: bool) -> (result: Result<
    LiveModelPack,
    LiveOptionError,
>)
    ensures
        match result {
            Ok(LiveModelPack::NotNeeded) => backend != BackendKind::Native && !has_model_pack,
            Ok(LiveModelPack::Given) => backend == BackendKind::Native && has_model_pack,
            Ok(LiveModelPack::Installed) => backend == BackendKind::Native && !has_model_pack,
            Err(error) => backend != BackendKind::Native && has_model_pack && error
                == LiveOptionError::ModelPackNeedsNative,
        },
{
    if backend != BackendKind::Native {
        if has_model_pack {
            return Err(LiveOptionError::ModelPackNeedsNative);
        }
        return Ok(LiveModelPack::NotNeeded);
    }
    if has_model_pack {
        Ok(LiveModelPack::Given)
    } else {
        Ok(LiveModelPack::Installed)
    }
}

/// What a live session does.
#[derive(Clone, Copy, Debug, PartialEq, Eq, Structural)]
pub enum LiveRoute {
    ListMicrophones,
    ListSystemAudio,
    ReplayFile,
    CaptureSystemAudio,
    CaptureMicrophone,
}

/// What a live session does: it lists the devices of its source if asked to, plays
/// a file if one was given, and captures its source otherwise.
pub open spec fn route(list_devices: bool, source: LiveSource, has_input_file: bool) -> LiveRoute {
    if list_devices {
        match source {
            LiveSource::Mic => LiveRoute::ListMicrophones,
            LiveSource::System => LiveRoute::ListSystemAudio,
        }
    } else if has_input_file {
        LiveRoute::ReplayFile
    } else if source == LiveSource::System {
        LiveRoute::CaptureSystemAudio
    } else {
        LiveRoute::CaptureMicrophone
    }
}

/// What the options of a session say before anything is set up.
pub struct LiveRequest {
    pub diarize: bool,
    pub max_seconds: Option<u64>,
    pub max_utterances: Option<usize>,
    pub list_devices: bool,
    pub source: LiveSource,
    pub has_input_file: bool,
}

/// Checks the options of a session and decides what it does. Telling voices apart
/// is refused before anything else.
pub fn run_live(request: &LiveRequest, voice_id_reason: &str) -> (result: Result<
    LiveRoute,
    LiveOptionError,
>)
    ensures
        match result {
            Ok(chosen) => !request.diarize && limits_error(
                request.max_seconds,
                request.max_utterances,
            ) is None && chosen == route(
                request.list_devices,
                request.source,
                request.has_input_file,
            ),
            Err(error) => if request.diarize {
                error matches LiveOptionError::VoiceIdUnsupported(shown) && shown@
                    == voice_id_reason@
            } else {
                limits_error(request.max_seconds, request.max_utterances) == Some(error)
            },
        },
{
    ensure_live_voice_id_not_requested(request.diarize, voice_id_reason)?;
    validate_live_limits(request.max_seconds, request.max_utterances)?;
    if request.list_devices {
        return Ok(
            match request.source {
                LiveSource::Mic => LiveRoute::ListMicrophones,
                LiveSource::System => LiveRoute::ListSystemAudio,
            },
        );
    }
    if request.has_input_file {
        return Ok(LiveRoute::ReplayFile);
    }
    if request.source == LiveSource::System {
        return Ok(LiveRoute::CaptureSystemAudio);
    }
    Ok(LiveRoute::CaptureMicrophone)
}

/// What a live session does next.
#[derive(Clone, Copy, Debug, PartialEq, Eq, Structural)]
pub enum LiveStep {
    /// Check the options and decide what the session does.
    CheckRequest,
    /// List the devices of the source.
    ListDevices,
    /// Find the model in the settings and the registry.
    FindModel,
    /// Decide on the backend.
    ChooseBackend,
    /// Install the model if it is missing.
    InstallModel,
    /// Find the model pack.
    ResolvePack,
    /// Check that the backend can run.
    CheckBackend,
    /// Work out the timing and the buffer.
    Configure,
    /// Check where the transcript is saved.
    BuildSave,
    /// Check where the lines for a broadcast are written.
    BuildObs,
    /// Check where the note is saved.
    BuildNote,
    /// Check that no two of these are one file.
    CheckSinks,
    /// Open the source and hear it to its end.
    Capture,
    Done,
    /// The step before failed.
    Failed,
}

/// Whether a session only lists devices.
pub open spec fn only_lists(route: LiveRoute) -> bool {
    route == LiveRoute::ListMicrophones || route == LiveRoute::ListSystemAudio
}

/// What a live session does after a step that succeeded or failed.
pub open spec fn next_live_step(
    step: LiveStep,
    ok: bool,
    route: LiveRoute,
    kind: BackendKind,
    has_model_pack: bool,
) -> LiveStep {
    if !ok {
        LiveStep::Failed
    } else {
        match step {
            LiveStep::CheckRequest => if only_lists(route) {
                LiveStep::ListDevices
            } else {
                LiveStep::FindModel
            },
            LiveStep::ListDevices => LiveStep::Done,
            LiveStep::FindModel => LiveStep::ChooseBackend,
            LiveStep::ChooseBackend => if kind == BackendKind::Native && !has_model_pack {
                LiveStep::InstallModel
            } else {
                LiveStep::ResolvePack
            },
            LiveStep::InstallModel => LiveStep::ResolvePack,
            LiveStep::ResolvePack => LiveStep::CheckBackend,
            LiveStep::CheckBackend => LiveStep::Configure,
            LiveStep::Configure => LiveStep::BuildSave,
            LiveStep::BuildSave => LiveStep::BuildObs,
            LiveStep::BuildObs => LiveStep::BuildNote,
            LiveStep::BuildNote => LiveStep::CheckSinks,
            LiveStep::CheckSinks => LiveStep::Capture,
            LiveStep::Capture => LiveStep::Done,
            LiveStep::Done => LiveStep::Done,
            LiveStep::Failed => LiveStep::Failed,
        }
    }
}

/// Decides what a live session does after a step that succeeded or failed.
pub fn go_on_live(
    step: LiveStep,
    ok: bool,
    route: LiveRoute,
    kind: BackendKind,
    has_model_pack: bool,
) -> (next: LiveStep)
    ensures
        next == next_live_step(step, ok, route, kind, has_model_pack),
{
    if !ok {
        return LiveStep::Failed;
    }
    match step {
        LiveStep::CheckRequest => match route {
            LiveRoute::ListMicrophones | LiveRoute::ListSystemAudio => LiveStep::ListDevices,
            _ => LiveStep::FindModel,
        },
        LiveStep::ListDevices => LiveStep::Done,
        LiveStep::FindModel => LiveStep::ChooseBackend,
        LiveStep::ChooseBackend => if kind == BackendKind::Native && !has_model_pack {
            LiveStep::InstallModel
        } else {
            LiveStep::ResolvePack
        },
        LiveStep::InstallModel => LiveStep::ResolvePack,
        LiveStep::ResolvePack => LiveStep::CheckBackend,
        LiveStep::CheckBackend => LiveStep::Configure,
        LiveStep::Configure => LiveStep::BuildSave,
        LiveStep::BuildSave => LiveStep::BuildObs,
        LiveStep::BuildObs => LiveStep::BuildNote,
        LiveStep::BuildNote => LiveStep::CheckSinks,
        LiveStep::CheckSinks => LiveStep::Capture,
        LiveStep::Capture => LiveStep::Done,
        LiveStep::Done => LiveStep::Done,
        LiveStep::Failed => LiveStep::Failed,
    }
}

/// Where a live session stands after so many steps, if each succeeded as told.
pub open spec fn live_after(
    outcomes: spec_fn(LiveStep) -> bool,
    steps: nat,
    route: LiveRoute,
    kind: BackendKind,
    has_model_pack: bool,
) -> LiveStep
    decreases steps,
{
    if steps == 0 {
        LiveStep::CheckRequest
    } else {
        let step = live_after(outcomes, (steps - 1) as nat, route, kind, has_model_pack);
        next_live_step(step, outcomes(step), route, kind, has_model_pack)
    }
}

/// The place of a step in the order of a session that captures.
spec fn place(step: LiveStep) -> int {
    match step {
        LiveStep::CheckRequest => 0,
        LiveStep::ListDevices => 0,
        LiveStep::FindModel => 1,
        LiveStep::ChooseBackend => 2,
        LiveStep::InstallModel => 3,
        LiveStep::ResolvePack => 4,
        LiveStep::CheckBackend => 5,
        LiveStep::Configure => 6,
        LiveStep::BuildSave => 7,
        LiveStep::BuildObs => 8,
        LiveStep::BuildNote => 9,
        LiveStep::CheckSinks => 10,
        LiveStep::Capture => 11,
        LiveStep::Done => 12,
        LiveStep::Failed => 0,
    }
}

proof fn lemma_steps_before_succeeded(
    outcomes: spec_fn(LiveStep) -> bool,
    steps: nat,
    route: LiveRoute,
    kind: BackendKind,
    has_model_pack: bool,
)
    ensures
        ({
            let step = live_after(outcomes, steps, route, kind, has_model_pack);
            &&& only_lists(route) ==> step == LiveStep::CheckRequest || step
                == LiveStep::ListDevices || step == LiveStep::Done || step == LiveStep::Failed
            &&& !only_lists(route) ==> {
                &&& step != LiveStep::ListDevices
                &&& place(step) > 0 ==> outcomes(LiveStep::CheckRequest)
                &&& place(step) > 1 ==> outcomes(LiveStep::FindModel)
                &&& place(step) > 2 ==> outcomes(LiveStep::ChooseBackend)
                &&& place(step) > 3 && kind == BackendKind::Native && !has_model_pack ==> outcomes(
                    LiveStep::InstallModel,
                )
                &&& place(step) > 4 ==> outcomes(LiveStep::ResolvePack)
                &&& place(step) > 5 ==> outcomes(LiveStep::CheckBackend)
                &&& place(step) > 6 ==> outcomes(LiveStep::Configure)
                &&& place(step) > 7 ==> outcomes(LiveStep::BuildSave)
                &&& place(step) > 8 ==> outcomes(LiveStep::BuildObs)
                &&& place(step) > 9 ==> outcomes(LiveStep::BuildNote)
                &&& place(step) > 10 ==> outcomes(LiveStep::CheckSinks)
            }
        }),
    decreases steps,
{
    if steps > 0 {
        lemma_steps_before_succeeded(outcomes, (steps - 1) as nat, route, kind, has_model_pack);
    }
}

/// Nothing is captured before the options were checked, the model pack was found, the
/// backend was found ready and the files of the session were found to be apart. A native
/// session without a pack of its own has its model installed before that.
pub proof fn law_nothing_is_captured_before_the_sinks_are_apart(
    outcomes: spec_fn(LiveStep) -> bool,
    steps: nat,
    route: LiveRoute,
    kind: BackendKind,
    has_model_pack: bool,
)
    requires
        live_after(outcomes, steps, route, kind, has_model_pack) == LiveStep::Capture,
    ensures
        !only_lists(route),
        outcomes(LiveStep::CheckRequest),
        outcomes(LiveStep::FindModel),
        outcomes(LiveStep::ChooseBackend),
        kind == BackendKind::Native && !has_model_pack ==> outcomes(LiveStep::InstallModel),
        outcomes(LiveStep::ResolvePack),
        outcomes(LiveStep::CheckBackend),
        outcomes(LiveStep::Configure),
        outcomes(LiveStep::BuildSave),
        outcomes(LiveStep::BuildObs),
        outcomes(LiveStep::BuildNote),
        outcomes(LiveStep::CheckSinks),
{
    lemma_steps_before_succeeded(outcomes, steps, route, kind, has_model_pack);
}

/// A session that only lists devices installs nothing and captures nothing.
pub proof fn law_listing_devices_captures_nothing(
    outcomes: spec_fn(LiveStep) -> bool,
    steps: nat,
    route: LiveRoute,
    kind: BackendKind,
    has_model_pack: bool,
)
    requires
        only_lists(route),
    ensures
        live_after(outcomes, steps, route, kind, has_model_pack) != LiveStep::InstallModel,
        live_after(outcomes, steps, route, kind, has_model_pack) != LiveStep::Capture,
{
    lemma_steps_before_succeeded(outcomes, steps, route, kind, has_model_pack);
}

/// A live session that is not stopped by a failure comes to its capture.
pub proof fn law_live_session_reaches_its_capture(
    outcomes: spec_fn(LiveStep) -> bool,
    route: LiveRoute,
    kind: BackendKind,
    has_model_pack: bool,
)
    requires
        !only_lists(route),
        forall|step: LiveStep| #[trigger] outcomes(step),
    ensures
        live_after(outcomes, 10, route, kind, has_model_pack) == LiveStep::Capture || live_after(
            outcomes,
            11,
            route,
            kind,
            has_model_pack,
        ) == LiveStep::Capture,
{
    reveal_with_fuel(live_after, 12);
    assert(outcomes(LiveStep::CheckRequest) && outcomes(LiveStep::FindModel) && outcomes(
        LiveStep::ChooseBackend,
    ) && outcomes(LiveStep::InstallModel) && outcomes(LiveStep::ResolvePack) && outcomes(
        LiveStep::CheckBackend,
    ) && outcomes(LiveStep::Configure) && outcomes(LiveStep::BuildSave) && outcomes(
        LiveStep::BuildObs,
    ) && outcomes(LiveStep::BuildNote) && outcomes(LiveStep::CheckSinks) && outcomes(
        LiveStep::Capture,
    ));
}

/// What a capture of the system's audio ends with.
pub enum SystemAudioEnd {
    Done,
    SessionFailed(String),
    CaptureFailed(String),
}

/// Ends a capture of the system's audio: an error of the session counts before one
/// of the capture, which is shown with its diagnostic.
pub fn settle_system_audio(
    session: Result<(), String>,
    capture: Option<Result<String, (String, String)>>,
) -> (end: SystemAudioEnd)
    ensures
        match end {
            SystemAudioEnd::Done => session is Ok && !(capture is Some && capture->Some_0 is Err),
            SystemAudioEnd::SessionFailed(error) => session == Err::<(), String>(error),
            SystemAudioEnd::CaptureFailed(message) => {
                &&& session is Ok
                &&& capture is Some
                &&& capture->Some_0 is Err
                &&& message@ == capture->Some_0->Err_0.0@ + " ("@ + capture->Some_0->Err_0.1@ + ")"@
            },
        },
{
    match session {
        Err(error) => SystemAudioEnd::SessionFailed(error),
        Ok(()) => match capture {
            Some(Err(error)) => {
                let mut message = error.0;
                message.append(" (");
                message.append(error.1.as_str());
                message.append(")");
                SystemAudioEnd::CaptureFailed(message)
            },
            _ => SystemAudioEnd::Done,
        },
    }
}

/// The first device with the label that was asked for.
pub open spec fn first_named(labels: Seq<Seq<char>>, requested: Seq<char>) -> Option<nat>
    decreases labels.len(),
{
    if labels.len() == 0 {
        None
    } else {
        match first_named(labels.drop_last(), requested) {
            Some(at) => Some(at),
            None => if labels.last() == requested {
                Some((labels.len() - 1) as nat)
            } else {
                None
            },
        }
    }
}

/// The first text that has another one in it.
pub open spec fn first_holding(labels: Seq<Seq<char>>, requested: Seq<char>) -> Option<nat>
    decreases labels.len(),
{
    if labels.len() == 0 {
        None
    } else {
        match first_holding(labels.drop_last(), requested) {
            Some(at) => Some(at),
            None => if text::occurs(labels.last(), requested) {
                Some((labels.len() - 1) as nat)
            } else {
                None
            },
        }
    }
}

/// The device that is used: the first with the label that was asked for, or else
/// the first whose label has it in it once both are in lower case.
pub open spec fn device_choice(
    labels: Seq<Seq<char>>,
    lowered_labels: Seq<Seq<char>>,
    requested: Seq<char>,
    lowered_request: Seq<char>,
) -> Option<nat> {
    match first_named(labels, requested) {
        Some(at) => Some(at),
        None => first_holding(lowered_labels, lowered_request),
    }
}

/// Labels in lower case.
pub open spec fn lowered_labels(labels: Seq<Seq<char>>) -> Seq<Seq<char>> {
    labels.map_values(|label: Seq<char>| text::unicode_lower(label))
}

/// The place of a device as a plain number.
pub open spec fn opt_place(place: Option<usize>) -> Option<nat> {
    match place {
        Some(at) => Some(at as nat),
        None => None,
    }
}

proof fn lemma_first_named_in_prefix(labels: Seq<Seq<char>>, requested: Seq<char>, count: int)
    requires
        0 <= count <= labels.len(),
        first_named(labels.take(count), requested) is Some,
    ensures
        first_named(labels, requested) == first_named(labels.take(count), requested),
    decreases labels.len() - count,
{
    if count < labels.len() {
        let longer = labels.take(count + 1);
        assert(longer.drop_last() =~= labels.take(count));
        lemma_first_named_in_prefix(labels, requested, count + 1);
    } else {
        assert(labels.take(count) =~= labels);
    }
}

/// Chooses a device by its label, given the labels and the request in lower case too.
pub fn choose_device(
    labels: &Vec<String>,
    lowered: &Vec<String>,
    requested: &str,
    lowered_request: &str,
) -> (chosen: Option<usize>)
    requires
        lowered@.len() == labels@.len(),
    ensures
        opt_place(chosen) == device_choice(
            text::texts(labels@),
            text::texts(lowered@),
            requested@,
            lowered_request@,
        ),
{
    let mut fuzzy_match: Option<usize> = None;
    let mut i: usize = 0;
    let ghost all = text::texts(labels@);
    let ghost low = text::texts(lowered@);
    assert(all.take(0) =~= seq![]);
    assert(low.take(0) =~= seq![]);
    while i < labels.len()
        invariant
            all == text::texts(labels@),
            low == text::texts(lowered@),
            lowered@.len() == labels@.len(),
            i <= labels@.len(),
            first_named(all.take(i as int), requested@) is None,
            opt_place(fuzzy_match) == first_holding(low.take(i as int), lowered_request@),
        decreases labels@.len() - i,
    {
        let label = labels[i].as_str();
        proof {
            let taken = all.take(i + 1);
            assert(taken.drop_last() =~= all.take(i as int));
            assert(taken.last() == label@);
            let low_taken = low.take(i + 1);
            assert(low_taken.drop_last() =~= low.take(i as int));
            assert(low_taken.last() == lowered@[i as int]@);
        }
        if text::same_text(label, requested) {
            proof {
                lemma_first_named_in_prefix(all, requested@, i + 1);
            }
            return Some(i);
        }
        if fuzzy_match.is_none() && text::contains_text(lowered[i].as_str(), lowered_request) {
            fuzzy_match = Some(i);
        }
        i += 1;
    }
    assert(all.take(i as int) =~= all);
    assert(low.take(i as int) =~= low);
    fuzzy_match
}

/// Chooses an input device by its label.
pub fn select_input_device(labels: &Vec<String>, requested: &str) -> (result: Result<
    usize,
    LiveOptionError,
>)
    ensures
        ({
            let all = text::texts(labels@);
            let choice = device_choice(
                all,
                lowered_labels(all),
                requested@,
                text::unicode_lower(requested@),
            );
            match result {
                Ok(at) => choice == Some(at as nat),
                Err(error) => {
                    &&& choice is None
                    &&& error matches LiveOptionError::DeviceNotFound(shown) && shown@ == requested@
                },
            }
        }),
{
    let lowered_request = text::unicode_lower_text(requested);
    let mut lowered: Vec<String> = Vec::new();
    let mut i: usize = 0;
    while i < labels.len()
        invariant
            i <= labels@.len(),
            lowered@.len() == i,
            forall|k: int|
                0 <= k < i ==> (#[trigger] lowered@[k])@ == text::unicode_lower(labels@[k]@),
        decreases labels@.len() - i,
    {
        lowered.push(text::unicode_lower_text(labels[i].as_str()));
        i += 1;
    }
    assert(text::texts(lowered@) =~= lowered_labels(text::texts(labels@)));
    match choose_device(labels, &lowered, requested, lowered_request.as_str()) {
        Some(at) => Ok(at),
        None => Err(LiveOptionError::DeviceNotFound(requested.to_owned())),
    }
}

/// How the samples of a prepared file are read.
#[derive(Clone, Copy, Debug, PartialEq, Eq, Structural)]
pub enum PreparedSamples {
    Pcm16,
    Float32,
}

/// What is wrong with a prepared file.
pub open spec fn prepared_error(
    channels: u16,
    sample_rate: u32,
    bits_per_sample: u16,
    is_float: bool,
) -> Option<LiveOptionError> {
    if channels != 1 || sample_rate != 16_000 {
        Some(
            LiveOptionError::PreparedWavNotMono16k {
                channels,
                sample_rate,
                bits_per_sample,
                is_float,
            },
        )
    } else if (!is_float && bits_per_sample == 16) || (is_float && bits_per_sample == 32) {
        None
    } else {
        Some(LiveOptionError::PreparedWavUnsupported { is_float, bits_per_sample })
    }
}

/// Decides how the samples of a prepared file are read, by what its header says.
pub fn prepared_samples(
    channels: u16,
    sample_rate: u32,
    bits_per_sample: u16,
    is_float: bool,
) -> (result: Result<PreparedSamples, LiveOptionError>)
    ensures
        fails_with(result, prepared_error(channels, sample_rate, bits_per_sample, is_float)),
        result matches Ok(reading) ==> (reading == PreparedSamples::Float32 <==> is_float),
{
    if channels != 1 || sample_rate != 16_000 {
        return Err(
            LiveOptionError::PreparedWavNotMono16k {
                channels,
                sample_rate,
                bits_per_sample,
                is_float,
            },
        );
    }
    if !is_float && bits_per_sample == 16 {
        return Ok(PreparedSamples::Pcm16);
    }
    if is_float && bits_per_sample == 32 {
        return Ok(PreparedSamples::Float32);
    }
    Err(LiveOptionError::PreparedWavUnsupported { is_float, bits_per_sample })
}

/// What is wrong with a path that is to be written.
pub open spec fn target_error_kind(facts: TargetFacts) -> Option<TargetFault> {
    if facts.has_parent && !facts.parent_exists {
        Some(TargetFault::MissingParent)
    } else if facts.has_parent && !facts.parent_is_directory {
        Some(TargetFault::ParentNotDirectory)
    } else if facts.has_parent && facts.parent_is_read_only {
        Some(TargetFault::ParentReadOnly)
    } else if !facts.exists {
        None
    } else {
        match facts.inspected {
            None => Some(TargetFault::CannotInspect),
            Some((is_file, read_only)) => if !is_file {
                Some(TargetFault::NotFile)
            } else if read_only {
                Some(TargetFault::ReadOnly)
            } else {
                None
            },
        }
    }
}

/// What can be wrong with a path that is to be written.
#[derive(Clone, Copy, Debug, PartialEq, Eq, Structural)]
pub enum TargetFault {
    MissingParent,
    ParentNotDirectory,
    ParentReadOnly,
    CannotInspect,
    NotFile,
    ReadOnly,
}

/// Whether an error names a fault of a path.
pub open spec fn names_fault(
    error: LiveOptionError,
    fault: TargetFault,
    path: Seq<char>,
    parent: Seq<char>,
) -> bool {
    match fault {
        TargetFault::MissingParent => error matches LiveOptionError::MissingParent(shown) && shown@
            == parent,
        TargetFault::ParentNotDirectory => error matches LiveOptionError::ParentNotDirectory(shown)
            && shown@ == parent,
        TargetFault::ParentReadOnly => error matches LiveOptionError::ParentReadOnly(shown)
            && shown@ == parent,
        TargetFault::CannotInspect => error matches LiveOptionError::CannotInspect(shown) && shown@
            == path,
        TargetFault::NotFile => error matches LiveOptionError::TargetNotFile(shown) && shown@
            == path,
        TargetFault::ReadOnly => error matches LiveOptionError::TargetReadOnly(shown) && shown@
            == path,
    }
}

/// Checks a path that is to be written, by what the file system says of it.
pub fn validate_save_target_path(path: &str, parent: &str, facts: TargetFacts) -> (result: Result<
    (),
    LiveOptionError,
>)
    ensures
        match result {
            Ok(_) => target_error_kind(facts) is None,
            Err(error) => {
                &&& target_error_kind(facts) is Some
                &&& names_fault(error, target_error_kind(facts)->Some_0, path@, parent@)
            },
        },
{
    if facts.has_parent {
        if !facts.parent_exists {
            return Err(LiveOptionError::MissingParent(parent.to_owned()));
        }
        if !facts.parent_is_directory {
            return Err(LiveOptionError::ParentNotDirectory(parent.to_owned()));
        }
        if facts.parent_is_read_only {
            return Err(LiveOptionError::ParentReadOnly(parent.to_owned()));
        }
    }
    if facts.exists {
        match facts.inspected {
            None => {
                return Err(LiveOptionError::CannotInspect(path.to_owned()));
            },
            Some((is_file, read_only)) => {
                if !is_file {
                    return Err(LiveOptionError::TargetNotFile(path.to_owned()));
                }
                if read_only {
                    return Err(LiveOptionError::TargetReadOnly(path.to_owned()));
                }
            },
        }
    }
    Ok(())
}

/// A path that is to be written, with what the file system says of it.
pub struct TargetPath {
    pub path: String,
    pub parent: String,
    pub facts: TargetFacts,
}

/// How a transcript is saved.
#[derive(Clone, Copy, Debug, PartialEq, Eq, Structural)]
pub enum ExportFormat {
    Text,
    Json,
    Markdown,
    Srt,
    Vtt,
}

/// Where and how the transcript of a session is saved.
pub struct LiveSaveOptions {
    pub path: String,
    pub format: ExportFormat,
    pub join_segments: bool,
    pub suggest_title: bool,
}

/// Decides where and how the transcript of a session is saved. The format is the
/// one that the path's extension stands for.
pub fn build_save_options(
    target: Option<TargetPath>,
    format: Option<ExportFormat>,
    join_segments: bool,
    suggest_title: bool,
) -> (result: Result<Option<LiveSaveOptions>, LiveOptionError>)
    ensures
        match result {
            Ok(None) => target is None,
            Ok(Some(save)) => {
                &&& target is Some
                &&& format == Some(save.format)
                &&& target_error_kind(target->Some_0.facts) is None
                &&& save.path@ == target->Some_0.path@
                &&& save.join_segments == join_segments
                &&& save.suggest_title == suggest_title
            },
            Err(error) => {
                &&& target is Some
                &&& if format is None {
                    error matches LiveOptionError::UnsupportedExportExtension(shown) && shown@
                        == target->Some_0.path@
                } else {
                    target_error_kind(target->Some_0.facts) is Some && names_fault(
                        error,
                        target_error_kind(target->Some_0.facts)->Some_0,
                        target->Some_0.path@,
                        target->Some_0.parent@,
                    )
                }
            },
        },
{
    let target = match target {
        Some(target) => target,
        None => {
            return Ok(None);
        },
    };
    let format = match format {
        Some(format) => format,
        None => {
            return Err(LiveOptionError::UnsupportedExportExtension(target.path));
        },
    };
    validate_save_target_path(target.path.as_str(), target.parent.as_str(), target.facts)?;
    Ok(Some(LiveSaveOptions { path: target.path, format, join_segments, suggest_title }))
}

/// The format that a transcript is saved in when the session failed: one with
/// timed lines falls back to plain text.
pub open spec fn fallback(format: ExportFormat) -> ExportFormat {
    if format == ExportFormat::Srt || format == ExportFormat::Vtt {
        ExportFormat::Text
    } else {
        format
    }
}

/// The format that a transcript is saved in when the session failed.
pub fn fallback_format(format: ExportFormat) -> (used: ExportFormat)
    ensures
        used == fallback(format),
{
    match format {
        ExportFormat::Srt | ExportFormat::Vtt => ExportFormat::Text,
        other => other,
    }
}

/// The text file that a broadcast shows.
pub struct LiveObsOptions {
    pub path: String,
    pub max_lines: usize,
    pub clear_on_start: bool,
    pub clear_on_stop: bool,
}

/// The number of lines that a broadcast shows.
pub open spec fn obs_lines(max_lines: Option<usize>) -> usize {
    match max_lines {
        Some(lines) => lines,
        None => DEFAULT_OBS_MAX_LINES,
    }
}

/// Decides which text file a broadcast shows.
pub fn build_obs_options(
    target: Option<TargetPath>,
    max_lines: Option<usize>,
    clear_on_start: bool,
    clear_on_stop: bool,
) -> (result: Result<Option<LiveObsOptions>, LiveOptionError>)
    ensures
        match result {
            Ok(None) => target is None && max_lines is None && !clear_on_start && !clear_on_stop,
            Ok(Some(obs)) => {
                &&& target is Some
                &&& target_error_kind(target->Some_0.facts) is None
                &&& obs_lines(max_lines) > 0
                &&& obs.path@ == target->Some_0.path@
                &&& obs.max_lines == obs_lines(max_lines)
                &&& obs.clear_on_start == clear_on_start
                &&& obs.clear_on_stop == clear_on_stop
            },
            Err(error) => if target is None {
                error == LiveOptionError::ObsOptionsNeedPath && (max_lines is Some
                    || clear_on_start || clear_on_stop)
            } else if target_error_kind(target->Some_0.facts) is Some {
                names_fault(
                    error,
                    target_error_kind(target->Some_0.facts)->Some_0,
                    target->Some_0.path@,
                    target->Some_0.parent@,
                )
            } else {
                error == LiveOptionError::ObsMaxLinesZero && obs_lines(max_lines) == 0
            },
        },
{
    let target = match target {
        Some(target) => target,
        None => {
            if max_lines.is_some() || clear_on_start || clear_on_stop {
                return Err(LiveOptionError::ObsOptionsNeedPath);
            }
            return Ok(None);
        },
    };
    validate_save_target_path(target.path.as_str(), target.parent.as_str(), target.facts)?;
    let lines: usize = match max_lines {
        Some(lines) => lines,
        None => DEFAULT_OBS_MAX_LINES,
    };
    if lines == 0 {
        return Err(LiveOptionError::ObsMaxLinesZero);
    }
    Ok(Some(LiveObsOptions { path: target.path, max_lines: lines, clear_on_start, clear_on_stop }))
}

/// The note that is written of a session.
pub struct LiveMarkdownNoteOptions {
    pub path: String,
    pub append: bool,
    pub title: Option<String>,
    pub suggest_title: bool,
    pub created_at: String,
    pub source_label: String,
    pub model_id: String,
    pub backend: String,
}

/// What is asked of the note of a session.
pub struct NoteRequest {
    pub append: bool,
    pub title: Option<String>,
    pub suggest_title: bool,
    pub source: LiveSource,
}

/// Decides which note is written of a session.
pub fn build_markdown_note_options(
    target: Option<TargetPath>,
    request: NoteRequest,
    backend: BackendKind,
    model_id: &str,
    created_at: String,
) -> (result: Result<Option<LiveMarkdownNoteOptions>, LiveOptionError>)
    ensures
        match result {
            Ok(None) => target is None && !request.append && request.title is None
                && !request.suggest_title,
            Ok(Some(note)) => {
                &&& target is Some
                &&& target_error_kind(target->Some_0.facts) is None
                &&& note.path@ == target->Some_0.path@
                &&& note.append == request.append
                &&& note.title == request.title
                &&& note.suggest_title == request.suggest_title
                &&& note.created_at@ == created_at@
                &&& note.source_label@ == source_text(request.source)
                &&& note.model_id@ == model_id@
                &&& note.backend@ == crate::backend::backend_text(backend)
            },
            Err(error) => if target is None {
                error == LiveOptionError::MarkdownOptionsNeedPath && (request.append
                    || request.title is Some || request.suggest_title)
            } else {
                target_error_kind(target->Some_0.facts) is Some && names_fault(
                    error,
                    target_error_kind(target->Some_0.facts)->Some_0,
                    target->Some_0.path@,
                    target->Some_0.parent@,
                )
            },
        },
{
    let target = match target {
        Some(target) => target,
        None => {
            if request.append || request.title.is_some() || request.suggest_title {
                return Err(LiveOptionError::MarkdownOptionsNeedPath);
            }
            return Ok(None);
        },
    };
    validate_save_target_path(target.path.as_str(), target.parent.as_str(), target.facts)?;
    Ok(
        Some(
            LiveMarkdownNoteOptions {
                path: target.path,
                append: request.append,
                title: request.title,
                suggest_title: request.suggest_title,
                created_at,
                source_label: live_source_label(request.source).to_owned(),
                model_id: model_id.to_owned(),
                backend: backend_name(backend).to_owned(),
            },
        ),
    )
}

/// What a session is asked for in the way of timing.
#[derive(Clone, Copy, Debug, PartialEq, Eq, Structural)]
pub struct LiveTiming {
    pub frame_duration_ms: u32,
    pub speech_start_ms: Option<u32>,
    pub speech_stop_ms: Option<u32>,
    pub pre_roll_ms: Option<u32>,
    pub max_utterance_ms: Option<u32>,
    pub no_speech_timeout_ms: Option<u32>,
    pub partial_interval_ms: Option<u64>,
    pub partial_window_ms: Option<u32>,
}

/// What holds where a session is not asked for anything else.
#[derive(Clone, Copy, Debug, PartialEq, Eq, Structural)]
pub struct VadDefaults {
    pub speech_start_ms: u32,
    pub speech_stop_ms: u32,
    pub neural_speech_stop_ms: u32,
    pub pre_roll_ms: u32,
    pub max_utterance_ms: Option<u32>,
    pub no_speech_timeout_ms: Option<u32>,
}

/// How speech is told from silence.
#[derive(Clone, Copy, Debug, PartialEq, Eq, Structural)]
pub struct VadTiming {
    pub frame_duration_ms: u32,
    pub speech_start_ms: u32,
    pub speech_stop_ms: u32,
    pub pre_roll_ms: u32,
    pub max_utterance_ms: Option<u32>,
    pub no_speech_timeout_ms: Option<u32>,
    pub neural: bool,
}

/// A value that was asked for, or the one that holds otherwise.
pub open spec fn value_or<T>(asked: Option<T>, otherwise: T) -> T {
    match asked {
        Some(value) => value,
        None => otherwise,
    }
}

/// A limit that was asked for, or the one that holds otherwise.
pub open spec fn limit_or<T>(asked: Option<T>, otherwise: Option<T>) -> Option<T> {
    match asked {
        Some(value) => Some(value),
        None => otherwise,
    }
}

/// How speech is told from silence in a session: as asked for, and by default
/// otherwise. A neural detector has a shorter silence of its own.
pub open spec fn merged_timing(asked: LiveTiming, defaults: VadDefaults, neural: bool) -> VadTiming {
    VadTiming {
        frame_duration_ms: asked.frame_duration_ms,
        speech_start_ms: value_or(asked.speech_start_ms, defaults.speech_start_ms),
        speech_stop_ms: value_or(
            asked.speech_stop_ms,
            if neural {
                defaults.neural_speech_stop_ms
            } else {
                defaults.speech_stop_ms
            },
        ),
        pre_roll_ms: value_or(asked.pre_roll_ms, defaults.pre_roll_ms),
        max_utterance_ms: limit_or(asked.max_utterance_ms, defaults.max_utterance_ms),
        no_speech_timeout_ms: limit_or(asked.no_speech_timeout_ms, defaults.no_speech_timeout_ms),
        neural,
    }
}

fn pick(asked: Option<u32>, otherwise: u32) -> (value: u32)
    ensures
        value == value_or(asked, otherwise),
{
    match asked {
        Some(value) => value,
        None => otherwise,
    }
}

fn pick_limit(asked: Option<u32>, otherwise: Option<u32>) -> (value: Option<u32>)
    ensures
        value == limit_or(asked, otherwise),
{
    match asked {
        Some(value) => Some(value),
        None => otherwise,
    }
}

/// Decides how speech is told from silence in a session.
pub fn merge_timing(asked: LiveTiming, defaults: VadDefaults, neural: bool) -> (timing: VadTiming)
    ensures
        timing == merged_timing(asked, defaults, neural),
{
    VadTiming {
        frame_duration_ms: asked.frame_duration_ms,
        speech_start_ms: pick(asked.speech_start_ms, defaults.speech_start_ms),
        speech_stop_ms: pick(
            asked.speech_stop_ms,
            if neural {
                defaults.neural_speech_stop_ms
            } else {
                defaults.speech_stop_ms
            },
        ),
        pre_roll_ms: pick(asked.pre_roll_ms, defaults.pre_roll_ms),
        max_utterance_ms: pick_limit(asked.max_utterance_ms, defaults.max_utterance_ms),
        no_speech_timeout_ms: pick_limit(asked.no_speech_timeout_ms, defaults.no_speech_timeout_ms),
        neural,
    }
}

/// How a session buffers audio and sends snapshots.
#[derive(Clone, Copy, Debug, PartialEq, Eq, Structural)]
pub struct LivePipelineConfig {
    pub vad: VadTiming,
    pub max_buffered_frames: usize,
    pub max_buffered_samples: usize,
    pub partial_interval_ms: u64,
    pub partial_window_ms: u32,
}

/// The longest utterance, in milliseconds.
pub open spec fn longest_utterance(vad: VadTiming) -> u32 {
    value_or(vad.max_utterance_ms, 30_000)
}

/// What is wrong with how a session sends snapshots.
pub open spec fn partial_error(asked: LiveTiming) -> Option<LiveOptionError> {
    if value_or(asked.partial_interval_ms, DEFAULT_STREAMING_PARTIAL_INTERVAL_MS) == 0 {
        Some(LiveOptionError::PartialIntervalZero)
    } else if value_or(asked.partial_window_ms, DEFAULT_STREAMING_PARTIAL_WINDOW_MS) == 0 {
        Some(LiveOptionError::PartialWindowZero)
    } else {
        None
    }
}

/// How a session buffers audio and sends snapshots: it has room for the longest
/// utterance with its lead-in, and a second more.
pub open spec fn pipeline_config(asked: LiveTiming, vad: VadTiming) -> LivePipelineConfig {
    let frames = (longest_utterance(vad) + vad.pre_roll_ms) / (asked.frame_duration_ms as int) + 2;
    LivePipelineConfig {
        vad,
        max_buffered_frames: if frames < DEFAULT_LIVE_MAX_BUFFERED_FRAMES {
            DEFAULT_LIVE_MAX_BUFFERED_FRAMES
        } else {
            frames as usize
        },
        max_buffered_samples: (16_000 * (longest_utterance(vad) + vad.pre_roll_ms + 1_000)
            / 1_000) as usize,
        partial_interval_ms: value_or(
            asked.partial_interval_ms,
            DEFAULT_STREAMING_PARTIAL_INTERVAL_MS,
        ),
        partial_window_ms: value_or(asked.partial_window_ms, DEFAULT_STREAMING_PARTIAL_WINDOW_MS),
    }
}

impl LivePipelineConfig {
    /// Decides how a session buffers audio and sends snapshots, given how it tells
    /// speech from silence.
    pub fn from_options(asked: LiveTiming, vad: VadTiming) -> (result: Result<
        LivePipelineConfig,
        LiveOptionError,
    >)
        requires
            asked.frame_duration_ms > 0,
            longest_utterance(vad) + vad.pre_roll_ms + 1_000 <= u32::MAX,
            16_000 * (longest_utterance(vad) + vad.pre_roll_ms + 1_000) <= usize::MAX,
        ensures
            fails_with(result, partial_error(asked)),
            result matches Ok(config) ==> config == pipeline_config(asked, vad),
    {
        let max_utterance_ms: u32 = pick(vad.max_utterance_ms, 30_000);
        let quotient: u32 = (max_utterance_ms + vad.pre_roll_ms) / asked.frame_duration_ms;
        assert(quotient <= max_utterance_ms + vad.pre_roll_ms) by (nonlinear_arith)
            requires
                asked.frame_duration_ms > 0,
                quotient == (max_utterance_ms + vad.pre_roll_ms) / (
                asked.frame_duration_ms as int),
        ;
        let frames: usize = (quotient + 2) as usize;
        let max_buffered_frames: usize = if frames < DEFAULT_LIVE_MAX_BUFFERED_FRAMES {
            DEFAULT_LIVE_MAX_BUFFERED_FRAMES
        } else {
            frames
        };
        let max_buffered_samples: usize = 16_000 * ((max_utterance_ms + vad.pre_roll_ms
            + 1_000) as usize) / 1_000;
        let partial_interval_ms: u64 = match asked.partial_interval_ms {
            Some(value) => value,
            None => DEFAULT_STREAMING_PARTIAL_INTERVAL_MS,
        };
        if partial_interval_ms == 0 {
            return Err(LiveOptionError::PartialIntervalZero);
        }
        let partial_window_ms: u32 = pick(
            asked.partial_window_ms,
            DEFAULT_STREAMING_PARTIAL_WINDOW_MS,
        );
        if partial_window_ms == 0 {
            return Err(LiveOptionError::PartialWindowZero);
        }
        Ok(
            LivePipelineConfig {
                vad,
                max_buffered_frames,
                max_buffered_samples,
                partial_interval_ms,
                partial_window_ms,
            },
        )
    }
}

/// A session's buffer holds every frame and every sample of its longest utterance
/// with the lead-in.
pub proof fn law_buffer_holds_the_longest_utterance(asked: LiveTiming, vad: VadTiming)
    requires
        asked.frame_duration_ms > 0,
        longest_utterance(vad) + vad.pre_roll_ms + 1_000 <= u32::MAX,
        16_000 * (longest_utterance(vad) + vad.pre_roll_ms + 1_000) <= usize::MAX,
    ensures
        ({
            let config = pipeline_config(asked, vad);
            let span = longest_utterance(vad) + vad.pre_roll_ms;
            &&& config.max_buffered_frames * asked.frame_duration_ms >= span
            &&& config.max_buffered_samples >= 16 * span
        }),
{
    let span = longest_utterance(vad) + vad.pre_roll_ms;
    let step = asked.frame_duration_ms as int;
    let frames = span / step + 2;
    let held = pipeline_config(asked, vad).max_buffered_frames as int;
    assert(frames * step >= span && span / step <= span) by (nonlinear_arith)
        requires
            step > 0,
            span >= 0,
            frames == span / step + 2,
    ;
    assert(held >= frames);
    assert(held * step >= frames * step) by (nonlinear_arith)
        requires
            held >= frames,
            step > 0,
    ;
}

/// A session is refused exactly if one of its limits is zero; the time is looked at
/// first.
pub proof fn law_limits_of_zero_are_refused(
    max_seconds: Option<u64>,
    max_utterances: Option<usize>,
)
    ensures
        limits_error(max_seconds, max_utterances) is None <==> (max_seconds is Some ==> max_seconds->0
            > 0) && (max_utterances is Some ==> max_utterances->0 > 0),
        limits_error(max_seconds, max_utterances) == Some(LiveOptionError::MaxSecondsZero) <==> (
        max_seconds is Some && max_seconds->0 == 0),
        limits_error(max_seconds, max_utterances) is Some && !(max_seconds is Some
            && max_seconds->0 == 0) ==> limits_error(max_seconds, max_utterances) == Some(
            LiveOptionError::MaxUtterancesZero,
        ),
{
}

/// What a session does: with a wish to see the devices it lists those of its source and
/// nothing else, with a file it plays that, and else it hears the source it was given.
pub proof fn law_route_follows_the_request(
    list_devices: bool,
    source: LiveSource,
    has_input_file: bool,
)
    ensures
        ({
            let chosen = route(list_devices, source, has_input_file);
            &&& chosen == LiveRoute::ListMicrophones <==> list_devices && source == LiveSource::Mic
            &&& chosen == LiveRoute::ListSystemAudio <==> list_devices && source
                == LiveSource::System
            &&& chosen == LiveRoute::ReplayFile <==> !list_devices && has_input_file
            &&& chosen == LiveRoute::CaptureSystemAudio <==> !list_devices && !has_input_file
                && source == LiveSource::System
            &&& chosen == LiveRoute::CaptureMicrophone <==> !list_devices && !has_input_file
                && source == LiveSource::Mic
        }),
{
}

/// The device with the very label that was asked for is used, the first of them; without
/// one, the first whose lower-case label has the lower-case request in it; and none is
/// used exactly if there is no such device either.
pub proof fn law_device_is_chosen_by_its_label(
    labels: Seq<Seq<char>>,
    low: Seq<Seq<char>>,
    requested: Seq<char>,
    low_request: Seq<char>,
)
    ensures
        ({
            let chosen = device_choice(labels, low, requested, low_request);
            let named = exists|i: int| 0 <= i < labels.len() && #[trigger] labels[i] == requested;
            let held = exists|i: int|
                0 <= i < low.len() && text::occurs(#[trigger] low[i], low_request);
            &&& chosen is Some <==> named || held
            &&& named ==> (chosen matches Some(at) && at < labels.len() && labels[at as int]
                == requested && forall|j: int| 0 <= j < at ==> #[trigger] labels[j] != requested)
            &&& !named && held ==> (chosen matches Some(at) && at < low.len() && text::occurs(
                low[at as int],
                low_request,
            ) && forall|j: int| 0 <= j < at ==> !text::occurs(#[trigger] low[j], low_request))
        }),
{
    lemma_first_named(labels, requested);
    lemma_first_holding(low, low_request);
}

proof fn lemma_first_named(labels: Seq<Seq<char>>, requested: Seq<char>)
    ensures
        first_named(labels, requested) is None <==> forall|i: int|
            0 <= i < labels.len() ==> #[trigger] labels[i] != requested,
        first_named(labels, requested) matches Some(at) ==> at < labels.len()
            && labels[at as int] == requested && forall|j: int|
            0 <= j < at ==> #[trigger] labels[j] != requested,
    decreases labels.len(),
{
    if labels.len() > 0 {
        let rest = labels.drop_last();
        lemma_first_named(rest, requested);
        if first_named(rest, requested) is None {
            assert forall|i: int| 0 <= i < rest.len() implies #[trigger] labels[i] != requested by {
                assert(rest[i] != requested);
            }
            assert(labels[labels.len() - 1] == labels.last());
        } else {
            let at = first_named(rest, requested)->Some_0;
            assert(labels[at as int] == rest[at as int]);
            assert forall|j: int| 0 <= j < at implies #[trigger] labels[j] != requested by {
                assert(rest[j] != requested);
            }
        }
    }
}

proof fn lemma_first_holding(labels: Seq<Seq<char>>, requested: Seq<char>)
    ensures
        first_holding(labels, requested) is None <==> forall|i: int|
            0 <= i < labels.len() ==> !text::occurs(#[trigger] labels[i], requested),
        first_holding(labels, requested) matches Some(at) ==> at < labels.len() && text::occurs(
            labels[at as int],
            requested,
        ) && forall|j: int| 0 <= j < at ==> !text::occurs(#[trigger] labels[j], requested),
    decreases labels.len(),
{
    if labels.len() > 0 {
        let rest = labels.drop_last();
        lemma_first_holding(rest, requested);
        if first_holding(rest, requested) is None {
            assert forall|i: int| 0 <= i < rest.len() implies !text::occurs(
                #[trigger] labels[i],
                requested,
            ) by {
                assert(!text::occurs(rest[i], requested));
            }
            assert(labels[labels.len() - 1] == labels.last());
        } else {
            let at = first_holding(rest, requested)->Some_0;
            assert(labels[at as int] == rest[at as int]);
            assert forall|j: int| 0 <= j < at implies !text::occurs(
                #[trigger] labels[j],
                requested,
            ) by {
                assert(!text::occurs(rest[j], requested));
            }
        }
    }
}

/// A prepared file can be read exactly if it has one channel at sixteen kilohertz, in
/// whole numbers of 16 bits or floating-point numbers of 32.
pub proof fn law_prepared_audio_is_mono_at_sixteen_kilohertz(
    channels: u16,
    sample_rate: u32,
    bits_per_sample: u16,
    is_float: bool,
)
    ensures
        prepared_error(channels, sample_rate, bits_per_sample, is_float) is None <==> channels == 1
            && sample_rate == 16_000 && bits_per_sample == if is_float {
            32u16
        } else {
            16u16
        },
        prepared_error(channels, sample_rate, bits_per_sample, is_float) matches Some(
            LiveOptionError::PreparedWavNotMono16k { .. },
        ) <==> channels != 1 || sample_rate != 16_000,
{
}

/// A path can be written exactly if its directory, where it has one, is there, is a
/// directory and takes files, and if what stands at the path, where anything does, can be
/// looked at and is a file that may be written.
pub proof fn law_target_can_be_written(facts: TargetFacts)
    ensures
        target_error_kind(facts) is None <==> {
            &&& facts.has_parent ==> facts.parent_exists && facts.parent_is_directory
                && !facts.parent_is_read_only
            &&& facts.exists ==> (facts.inspected matches Some(found) && found.0 && !found.1)
        },
        facts.has_parent && !facts.parent_exists ==> target_error_kind(facts) == Some(
            TargetFault::MissingParent,
        ),
        target_error_kind(facts) == Some(TargetFault::ReadOnly) ==> facts.exists
            && facts.inspected == Some((true, true)),
        target_error_kind(facts) == Some(TargetFault::NotFile) ==> facts.exists && (
        facts.inspected matches Some(found) && !found.0),
        target_error_kind(facts) == Some(TargetFault::CannotInspect) ==> facts.exists
            && facts.inspected is None,
        target_error_kind(facts) == Some(TargetFault::ParentReadOnly) ==> facts.has_parent
            && facts.parent_is_read_only,
        target_error_kind(facts) == Some(TargetFault::ParentNotDirectory) ==> facts.has_parent
            && !facts.parent_is_directory,
        target_error_kind(facts) == Some(TargetFault::MissingParent) ==> facts.has_parent
            && !facts.parent_exists,
{
}

/// A failed session saves subtitles as plain text, and everything else as it was asked.
pub proof fn law_only_subtitles_fall_back(format: ExportFormat)
    ensures
        fallback(format) != ExportFormat::Srt && fallback(format) != ExportFormat::Vtt,
        format == ExportFormat::Srt || format == ExportFormat::Vtt ==> fallback(format)
            == ExportFormat::Text,
        format == ExportFormat::Text || format == ExportFormat::Json || format
            == ExportFormat::Markdown ==> fallback(format) == format,
        obs_lines(None) == 3,
        forall|lines: usize| #[trigger] obs_lines(Some(lines)) == lines,
{
}

/// What is asked of the timing holds; what is not asked is as by default, and the silence
/// that ends an utterance depends on the detector only then.
pub proof fn law_timing_is_as_asked(asked: LiveTiming, defaults: VadDefaults, neural: bool)
    ensures
        ({
            let timing = merged_timing(asked, defaults, neural);
            &&& timing.frame_duration_ms == asked.frame_duration_ms
            &&& timing.neural == neural
            &&& asked.speech_start_ms is Some ==> timing.speech_start_ms
                == asked.speech_start_ms->0
            &&& asked.speech_start_ms is None ==> timing.speech_start_ms
                == defaults.speech_start_ms
            &&& asked.speech_stop_ms is Some ==> timing.speech_stop_ms == asked.speech_stop_ms->0
            &&& asked.speech_stop_ms is None && neural ==> timing.speech_stop_ms
                == defaults.neural_speech_stop_ms
            &&& asked.speech_stop_ms is None && !neural ==> timing.speech_stop_ms
                == defaults.speech_stop_ms
            &&& asked.pre_roll_ms is Some ==> timing.pre_roll_ms == asked.pre_roll_ms->0
            &&& asked.pre_roll_ms is None ==> timing.pre_roll_ms == defaults.pre_roll_ms
            &&& asked.max_utterance_ms is Some ==> timing.max_utterance_ms
                == asked.max_utterance_ms
            &&& asked.max_utterance_ms is None ==> timing.max_utterance_ms
                == defaults.max_utterance_ms
            &&& asked.no_speech_timeout_ms is Some ==> timing.no_speech_timeout_ms
                == asked.no_speech_timeout_ms
            &&& asked.no_speech_timeout_ms is None ==> timing.no_speech_timeout_ms
                == defaults.no_speech_timeout_ms
        }),
{
}

/// A session that sends snapshots at an interval of zero or of no length is refused; it
/// keeps the interval and the length that were asked for, tells speech from silence as
/// told, and has no more room than the longest utterance, its lead-in and a second need.
pub proof fn law_snapshots_are_sent_as_asked(asked: LiveTiming, vad: VadTiming)
    requires
        asked.frame_duration_ms > 0,
        longest_utterance(vad) + vad.pre_roll_ms + 1_000 <= u32::MAX,
        16_000 * (longest_utterance(vad) + vad.pre_roll_ms + 1_000) <= usize::MAX,
    ensures
        partial_error(asked) is None <==> asked.partial_interval_ms != Some(0u64)
            && asked.partial_window_ms != Some(0u32),
        partial_error(asked) == Some(LiveOptionError::PartialIntervalZero)
            <==> asked.partial_interval_ms == Some(0u64),
        longest_utterance(vad) == if vad.max_utterance_ms is Some {
            vad.max_utterance_ms->0
        } else {
            30_000
        },
        ({
            let config = pipeline_config(asked, vad);
            let span = longest_utterance(vad) + vad.pre_roll_ms;
            &&& config.vad == vad
            &&& asked.partial_interval_ms is Some ==> config.partial_interval_ms
                == asked.partial_interval_ms->0
            &&& asked.partial_window_ms is Some ==> config.partial_window_ms
                == asked.partial_window_ms->0
            &&& config.max_buffered_samples == 16 * (span + 1_000)
            &&& asked.partial_interval_ms is None ==> config.partial_interval_ms == 300
            &&& asked.partial_window_ms is None ==> config.partial_window_ms == 3_000
            &&& config.max_buffered_frames == 1_510 || (
            config.max_buffered_frames - 2) * asked.frame_duration_ms <= span
        }),
{
    let span = longest_utterance(vad) + vad.pre_roll_ms;
    let step = asked.frame_duration_ms as int;
    let quotient = span / step;
    assert(quotient * step <= span && 0 <= quotient <= span) by (nonlinear_arith)
        requires
            step > 0,
            span >= 0,
            quotient == span / step,
    ;
}

/// A message names the path, the device, the format and the value that it is about.
pub proof fn law_option_messages_name_their_subject(path: String, value: Seq<char>)
    ensures
        text::occurs(live_option_message(LiveOptionError::ModelPackRejected(path)), path@),
        text::occurs(live_option_message(LiveOptionError::UnsupportedExportExtension(path)), path@),
        text::occurs(live_option_message(LiveOptionError::MissingParent(path)), path@),
        text::occurs(live_option_message(LiveOptionError::ParentNotDirectory(path)), path@),
        text::occurs(live_option_message(LiveOptionError::ParentReadOnly(path)), path@),
        text::occurs(live_option_message(LiveOptionError::CannotInspect(path)), path@),
        text::occurs(live_option_message(LiveOptionError::TargetNotFile(path)), path@),
        text::occurs(live_option_message(LiveOptionError::TargetReadOnly(path)), path@),
        text::occurs(live_option_message(LiveOptionError::DeviceNotFound(path)), path@),
        text::occurs(live_option_message(LiveOptionError::UnsupportedSampleFormat(path)), path@),
        text::occurs(live_option_message(LiveOptionError::SystemAudioUnavailable(path)), path@),
        live_option_message(LiveOptionError::VoiceIdUnsupported(path)) == path@,
        text::occurs(unknown_source_message(value), value),
        text::occurs(unknown_output_message(value), value),
{
    text::lemma_occurs_between(
        "Native model-pack path rejected for live mode: "@,
        path@,
        "\nNative live execution is local-path-only and fail-closed."@,
    );
    text::lemma_occurs_between(
        "Unsupported live export extension for '"@,
        path@,
        "'. Use one of: .txt, .json, .md, .srt, .vtt."@,
    );
    text::lemma_occurs_behind("Live save target parent directory does not exist: "@, path@);
    text::lemma_occurs_behind("Live save target parent path is not a directory: "@, path@);
    text::lemma_occurs_behind("Live save target parent directory is read-only: "@, path@);
    text::lemma_occurs_behind("Could not inspect existing live save target at "@, path@);
    text::lemma_occurs_between(
        "Live save target must be a file path, but '"@,
        path@,
        "' is not a file."@,
    );
    text::lemma_occurs_behind("Live save target is read-only: "@, path@);
    text::lemma_occurs_between(
        "Input device '"@,
        path@,
        "' was not found. Run `openasr live --source mic --list-devices` to inspect available devices."@,
    );
    text::lemma_occurs_between(
        "Unsupported microphone sample format '"@,
        path@,
        "'. M48B currently supports f32, i16, and u16 input samples."@,
    );
    text::lemma_occurs_behind("System audio capture is not available: "@, path@);
    text::lemma_occurs_between(
        "Unsupported live source '"@,
        value,
        "'. Use one of: mic, system."@,
    );
    text::lemma_occurs_between(
        "Unsupported live output format '"@,
        value,
        "'. Use one of: text, jsonl."@,
    );
}

/// A session that lists devices, be they microphones or system audio, ends when they are
/// listed; any other goes from step to step until it has captured, and a step that failed
/// ends it as failed.
pub proof fn law_live_session_goes_through_its_steps(
    step: LiveStep,
    route: LiveRoute,
    kind: BackendKind,
    has_model_pack: bool,
)
    ensures
        next_live_step(step, false, route, kind, has_model_pack) == LiveStep::Failed,
        ({
            let lists = route is ListMicrophones || route is ListSystemAudio;
            let after = |step: LiveStep| next_live_step(step, true, route, kind, has_model_pack);
            &&& only_lists(route) <==> lists
            &&& lists ==> after(LiveStep::CheckRequest) == LiveStep::ListDevices
            &&& !lists ==> after(LiveStep::CheckRequest) == LiveStep::FindModel
            &&& after(LiveStep::ListDevices) == LiveStep::Done
            &&& after(LiveStep::FindModel) == LiveStep::ChooseBackend
            &&& kind is Native && !has_model_pack ==> after(LiveStep::ChooseBackend)
                == LiveStep::InstallModel
            &&& !(kind is Native) || has_model_pack ==> after(LiveStep::ChooseBackend)
                == LiveStep::ResolvePack
            &&& after(LiveStep::InstallModel) == LiveStep::ResolvePack
            &&& after(LiveStep::ResolvePack) == LiveStep::CheckBackend
            &&& after(LiveStep::CheckBackend) == LiveStep::Configure
            &&& after(LiveStep::Configure) == LiveStep::BuildSave
            &&& after(LiveStep::BuildSave) == LiveStep::BuildObs
            &&& after(LiveStep::BuildObs) == LiveStep::BuildNote
            &&& after(LiveStep::BuildNote) == LiveStep::CheckSinks
            &&& after(LiveStep::CheckSinks) == LiveStep::Capture
            &&& after(LiveStep::Capture) == LiveStep::Done
        }),
{
}

} // verus!
