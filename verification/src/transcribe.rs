//! What a transcription is asked for: its language, its extras, its inputs and
//! where its outputs go.

use vstd::prelude::*;

use crate::backend;
use crate::backend::{backend_name, BackendKind};
use crate::formats;
use crate::formats::{needs_subtitle_export, ResponseFormat};
use crate::text;

verus! {

/// What a script is told by the way a command ends.
#[derive(Clone, Copy, Debug, PartialEq, Eq, Structural)]
pub enum ExitCode {
    InputError,
    ModelNotInstalled,
    RuntimeFailed,
}

/// Why a transcription is not carried out.
#[derive(Debug)]
pub enum TranscribeError {
    BenchmarkConflict,
    LanguageUnsupported { model: String, language: String, supported: String },
    StdinNotAlone,
    NoInputs,
    BenchmarkNotSingle,
    SingleInputOnly,
    NeedsOutputDirectory,
    BoostWithoutHotword,
    HotwordUnsupportedByFamily { family: String, adapter: String },
    HotwordUnsupported(BackendKind),
    DiarizationUnsupported(BackendKind),
    DiarizationPacksOffline,
    AlignmentNeedsNative,
    AlignerOverrideInvalid(String),
    AlignerPackOffline,
    AlignerPackMissing,
    SilenceTooLong(usize),
    OutputNotDirectory(String),
    OutputNotCreated { path: String, error: String },
    OutputUnreadable { path: String, error: String },
    FileFailed { path: String, error: String },
    FilesFailed(usize),
    Other(String),
}

/// The name of a backend as a string.
fn backend_label(kind: BackendKind) -> (label: String)
    ensures
        label@ == backend::backend_text(kind),
{
    backend_name(kind).to_owned()
}

/// Whether a text is the message shown where a transcription is not carried out. Of
/// the two refusals that a backend words itself, it is what they name.
pub open spec fn is_transcribe_message(fault: TranscribeError, shown: Seq<char>) -> bool {
    match fault {
        TranscribeError::BenchmarkConflict => shown == "--benchmark measures plain transcription timing; remove --diarize, --word-timestamps, --adapter, --hotword, --language, and --task."@,
        TranscribeError::LanguageUnsupported { model, language, supported } => shown == "Model '"@ + model@ + "' does not support --language '"@ + language@ + "'.\nSupported languages: "@ + supported@,
        TranscribeError::StdinNotAlone => shown == "stdin input '-' must be the only input."@,
        TranscribeError::NoInputs => shown == "No audio inputs found."@,
        TranscribeError::BenchmarkNotSingle => shown == "--benchmark takes exactly one input file."@,
        TranscribeError::SingleInputOnly => shown == "--word-timestamps, --adapter, and --phrase-bias apply to a single input only."@,
        TranscribeError::NeedsOutputDirectory => shown == "Multiple inputs (or a directory) require --output <dir>."@,
        TranscribeError::BoostWithoutHotword => shown == "--hotword-boost requires at least one --hotword."@,
        TranscribeError::HotwordUnsupportedByFamily { family, adapter } => shown == "--hotword is not supported by native model family '"@ + family@ + "' ("@ + adapter@ + "). Omit --hotword/--hotword-boost; the request was rejected instead of silently ignoring phrase_bias."@,
        TranscribeError::HotwordUnsupported(kind) => {
            &&& text::occurs(shown, "Phrase bias / hotword boosting is not supported"@)
            &&& text::occurs(shown, backend::backend_text(kind))
            &&& text::occurs(shown, "silently ignoring phrase_bias"@)
        },
        TranscribeError::DiarizationUnsupported(kind) => {
            &&& text::occurs(shown, "speaker-embedder pack"@)
            &&& text::occurs(shown, "redimnet2-b6-cn"@)
            &&& text::occurs(shown, backend::backend_text(kind))
        },
        TranscribeError::DiarizationPacksOffline => shown == "Speaker diarization capability packs are not installed and OpenASR is offline.\nRun: openasr pull redimnet2-b6 && openasr pull pyannote-segmentation-3.0"@,
        TranscribeError::AlignmentNeedsNative => shown == "--word-timestamps=aligned requires the native backend."@,
        TranscribeError::AlignerOverrideInvalid(path) => shown == "OPENASR_FORCED_ALIGNER_PACK points to a missing or incompatible forced-alignment pack: "@ + path@ + "\nReplace it with a current qwen3-forced-aligner-0.6b pack, or unset OPENASR_FORCED_ALIGNER_PACK and run: openasr pull qwen3-forced-aligner-0.6b"@,
        TranscribeError::AlignerPackOffline => shown == "The Qwen3 forced-alignment capability pack is missing or incompatible with the current precision contract, and OpenASR is offline.\nRun: openasr pull qwen3-forced-aligner-0.6b"@,
        TranscribeError::AlignerPackMissing => shown == "The Qwen3 forced-alignment capability pack is missing or incompatible with the current precision contract.\nPass --word-timestamps=aligned to install it, or run: openasr pull qwen3-forced-aligner-0.6b"@,
        TranscribeError::SilenceTooLong(value) => shown == "--vad-min-silence-ms value "@ + text::decimal(value as nat) + " is too large for native longform options"@,
        TranscribeError::OutputNotDirectory(path) => shown == "Batch output path is not a directory: "@ + path@ + "\nPlease provide a directory path for batch transcript files."@,
        TranscribeError::OutputNotCreated { path, error } => shown == "Could not create batch output directory: "@ + path@ + "\nPlease choose a writable output directory. Details: "@ + error@,
        TranscribeError::OutputUnreadable { path, error } => shown == "Could not read batch output directory: "@ + path@ + "\nPlease check the path and directory permissions. Details: "@ + error@,
        TranscribeError::FileFailed { path, error } => shown == "Transcription failed for "@ + path@ + ": "@ + error@ + "\nCompleted outputs from earlier files were preserved. The failing file output was not written unless a previous final output already existed."@,
        TranscribeError::FilesFailed(count) => shown == "Completed with "@ + text::decimal(count as nat) + " failed file(s). See the summary above."@,
        TranscribeError::Other(error) => shown == error@,
    }
}

impl TranscribeError {
    /// The message shown for the error.
    pub fn message(&self) -> (text: String)
        ensures
            is_transcribe_message(*self, text@),
    {
        match self {
            TranscribeError::BenchmarkConflict => "--benchmark measures plain transcription timing; remove --diarize, --word-timestamps, --adapter, --hotword, --language, and --task.".to_owned(),
            TranscribeError::LanguageUnsupported { model, language, supported } => {
                let mut out = "Model '".to_owned();
                out.append(model.as_str());
                out.append("' does not support --language '");
                out.append(language.as_str());
                out.append("'.\nSupported languages: ");
                out.append(supported.as_str());
                out
            },
            TranscribeError::StdinNotAlone => "stdin input '-' must be the only input.".to_owned(),
            TranscribeError::NoInputs => "No audio inputs found.".to_owned(),
            TranscribeError::BenchmarkNotSingle => "--benchmark takes exactly one input file.".to_owned(),
            TranscribeError::SingleInputOnly => "--word-timestamps, --adapter, and --phrase-bias apply to a single input only.".to_owned(),
            TranscribeError::NeedsOutputDirectory => "Multiple inputs (or a directory) require --output <dir>.".to_owned(),
            TranscribeError::BoostWithoutHotword => "--hotword-boost requires at least one --hotword.".to_owned(),
            TranscribeError::HotwordUnsupportedByFamily { family, adapter } => {
                let mut out = "--hotword is not supported by native model family '".to_owned();
                out.append(family.as_str());
                out.append("' (");
                out.append(adapter.as_str());
                out.append("). Omit --hotword/--hotword-boost; the request was rejected instead of silently ignoring phrase_bias.");
                out
            },
            TranscribeError::HotwordUnsupported(kind) => {
                let mut out = "Phrase bias / hotword boosting is not supported".to_owned();
                out.append(" by the ");
                out.append(backend_label(*kind).as_str());
                out.append(" backend; the request was rejected instead of ");
                out.append("silently ignoring phrase_bias");
                proof {
                    let what = "Phrase bias / hotword boosting is not supported"@;
                    let name = backend::backend_text(*kind);
                    let middle = " backend; the request was rejected instead of "@;
                    let end = "silently ignoring phrase_bias"@;
                    text::lemma_occurs_between(seq![], what, " by the "@ + name + middle + end);
                    text::lemma_occurs_between(what + " by the "@, name, middle + end);
                    text::lemma_occurs_between(what + " by the "@ + name + middle, end, seq![]);
                    assert(out@ =~= Seq::<char>::empty() + what + (" by the "@ + name + middle
                        + end));
                    assert(out@ =~= what + " by the "@ + name + (middle + end));
                    assert(out@ =~= what + " by the "@ + name + middle + end
                        + Seq::<char>::empty());
                }
                out
            },
            TranscribeError::DiarizationUnsupported(kind) => {
                let mut out = "Speaker diarization is not supported by the ".to_owned();
                out.append(backend_label(*kind).as_str());
                out.append(" backend without a ");
                out.append("speaker-embedder pack");
                out.append(" such as ");
                out.append("redimnet2-b6-cn");
                proof {
                    let start = "Speaker diarization is not supported by the "@;
                    let name = backend::backend_text(*kind);
                    let middle = " backend without a "@;
                    let pack = "speaker-embedder pack"@;
                    let end = "redimnet2-b6-cn"@;
                    text::lemma_occurs_between(start, name, middle + pack + " such as "@ + end);
                    text::lemma_occurs_between(start + name + middle, pack, " such as "@ + end);
                    text::lemma_occurs_between(
                        start + name + middle + pack + " such as "@,
                        end,
                        seq![],
                    );
                    assert(out@ =~= start + name + (middle + pack + " such as "@ + end));
                    assert(out@ =~= start + name + middle + pack + (" such as "@ + end));
                    assert(out@ =~= start + name + middle + pack + " such as "@ + end
                        + Seq::<char>::empty());
                }
                out
            },
            TranscribeError::DiarizationPacksOffline => "Speaker diarization capability packs are not installed and OpenASR is offline.\nRun: openasr pull redimnet2-b6 && openasr pull pyannote-segmentation-3.0".to_owned(),
            TranscribeError::AlignmentNeedsNative => "--word-timestamps=aligned requires the native backend.".to_owned(),
            TranscribeError::AlignerOverrideInvalid(path) => {
                let mut out = "OPENASR_FORCED_ALIGNER_PACK points to a missing or incompatible forced-alignment pack: ".to_owned();
                out.append(path.as_str());
                out.append("\nReplace it with a current qwen3-forced-aligner-0.6b pack, or unset OPENASR_FORCED_ALIGNER_PACK and run: openasr pull qwen3-forced-aligner-0.6b");
                out
            },
            TranscribeError::AlignerPackOffline => "The Qwen3 forced-alignment capability pack is missing or incompatible with the current precision contract, and OpenASR is offline.\nRun: openasr pull qwen3-forced-aligner-0.6b".to_owned(),
            TranscribeError::AlignerPackMissing => "The Qwen3 forced-alignment capability pack is missing or incompatible with the current precision contract.\nPass --word-timestamps=aligned to install it, or run: openasr pull qwen3-forced-aligner-0.6b".to_owned(),
            TranscribeError::SilenceTooLong(value) => {
                let mut out = "--vad-min-silence-ms value ".to_owned();
                out.append(text::decimal_text(*value as u64).as_str());
                out.append(" is too large for native longform options");
                out
            },
            TranscribeError::OutputNotDirectory(path) => {
                let mut out = "Batch output path is not a directory: ".to_owned();
                out.append(path.as_str());
                out.append("\nPlease provide a directory path for batch transcript files.");
                out
            },
            TranscribeError::OutputNotCreated { path, error } => {
                let mut out = "Could not create batch output directory: ".to_owned();
                out.append(path.as_str());
                out.append("\nPlease choose a writable output directory. Details: ");
                out.append(error.as_str());
                out
            },
            TranscribeError::OutputUnreadable { path, error } => {
                let mut out = "Could not read batch output directory: ".to_owned();
                out.append(path.as_str());
                out.append("\nPlease check the path and directory permissions. Details: ");
                out.append(error.as_str());
                out
            },
            TranscribeError::FileFailed { path, error } => {
                let mut out = "Transcription failed for ".to_owned();
                out.append(path.as_str());
                out.append(": ");
                out.append(error.as_str());
                out.append("\nCompleted outputs from earlier files were preserved. The failing file output was not written unless a previous final output already existed.");
                out
            },
            TranscribeError::FilesFailed(count) => {
                let mut out = "Completed with ".to_owned();
                out.append(text::decimal_text(*count as u64).as_str());
                out.append(" failed file(s). See the summary above.");
                out
            },
            TranscribeError::Other(error) => {
                let mut out = (error.as_str()).to_owned();
                out
            },
        }
    }
}

/// What a script is told of an error, if anything beyond that there was one.
pub open spec fn exit_code_of(fault: TranscribeError) -> Option<ExitCode> {
    match fault {
        TranscribeError::BenchmarkConflict => Some(ExitCode::InputError),
        TranscribeError::LanguageUnsupported { .. } => Some(ExitCode::InputError),
        TranscribeError::StdinNotAlone => Some(ExitCode::InputError),
        TranscribeError::NoInputs => Some(ExitCode::InputError),
        TranscribeError::BenchmarkNotSingle => Some(ExitCode::InputError),
        TranscribeError::SingleInputOnly => Some(ExitCode::InputError),
        TranscribeError::NeedsOutputDirectory => Some(ExitCode::InputError),
        TranscribeError::DiarizationPacksOffline => Some(ExitCode::ModelNotInstalled),
        TranscribeError::AlignerPackOffline => Some(ExitCode::ModelNotInstalled),
        TranscribeError::AlignerPackMissing => Some(ExitCode::ModelNotInstalled),
        _ => None,
    }
}

impl TranscribeError {
    /// What a script is told of the error, if anything beyond that there was one.
    pub fn exit_code(&self) -> (code: Option<ExitCode>)
        ensures
            code == exit_code_of(*self),
    {
        match self {
            TranscribeError::BenchmarkConflict => Some(ExitCode::InputError),
            TranscribeError::LanguageUnsupported { .. } => Some(ExitCode::InputError),
            TranscribeError::StdinNotAlone => Some(ExitCode::InputError),
            TranscribeError::NoInputs => Some(ExitCode::InputError),
            TranscribeError::BenchmarkNotSingle => Some(ExitCode::InputError),
            TranscribeError::SingleInputOnly => Some(ExitCode::InputError),
            TranscribeError::NeedsOutputDirectory => Some(ExitCode::InputError),
            TranscribeError::DiarizationPacksOffline => Some(ExitCode::ModelNotInstalled),
            TranscribeError::AlignerPackOffline => Some(ExitCode::ModelNotInstalled),
            TranscribeError::AlignerPackMissing => Some(ExitCode::ModelNotInstalled),
            _ => None,
        }
    }
}

/// Whether a language means that none was asked for.
pub open spec fn means_no_language(value: Seq<char>) -> bool {
    value.len() == 0 || text::lowered(value) == "auto"@
}

/// Takes `auto` and the empty text for no language at all.
pub fn normalize_language_hint(language: Option<String>) -> (hint: Option<String>)
    ensures
        text::opt_string(hint) == (match language {
            Some(value) => if means_no_language(value@) {
                None
            } else {
                Some(value@)
            },
            None => None,
        }),
{
    match language {
        Some(value) => {
            proof {
                reveal_strlit("auto");
                assert(text::lowered("auto"@) =~= "auto"@);
            }
            if text::chars_of(value.as_str()).len() == 0 || text::same_ignoring_case(
                value.as_str(),
                "auto",
            ) {
                None
            } else {
                Some(value)
            }
        },
        None => None,
    }
}

/// What a model does about languages.
#[derive(Clone, Copy, Debug, PartialEq, Eq, Structural)]
pub enum LanguageMode {
    DetectAndSpecify,
    DetectImplicit,
    SpecifyOnly,
    FixedMonolingual,
    FixedMultilingual,
    Unknown,
}

/// How a model's way with languages is shown.
pub open spec fn language_mode_text(mode: Option<LanguageMode>) -> Seq<char> {
    match mode {
        Some(LanguageMode::DetectAndSpecify) => "detect_and_specify (auto-detect, or set --language)"@,
        Some(LanguageMode::DetectImplicit) => "detect_implicit (self-detects; --language is rejected)"@,
        Some(LanguageMode::SpecifyOnly) => "specify_only (set --language; the default is used when unset)"@,
        Some(LanguageMode::FixedMonolingual) => "fixed_monolingual (one fixed language)"@,
        Some(LanguageMode::FixedMultilingual) => "fixed_multilingual (built-in set; --language is rejected)"@,
        Some(LanguageMode::Unknown) => "unspecified"@,
        None => "unspecified"@,
    }
}

/// Shows a model's way with languages.
pub fn language_mode_label(mode: Option<LanguageMode>) -> (label: &'static str)
    ensures
        label@ == language_mode_text(mode),
{
    match mode {
        Some(LanguageMode::DetectAndSpecify) => "detect_and_specify (auto-detect, or set --language)",
        Some(LanguageMode::DetectImplicit) => "detect_implicit (self-detects; --language is rejected)",
        Some(LanguageMode::SpecifyOnly) => "specify_only (set --language; the default is used when unset)",
        Some(LanguageMode::FixedMonolingual) => "fixed_monolingual (one fixed language)",
        Some(LanguageMode::FixedMultilingual) => "fixed_multilingual (built-in set; --language is rejected)",
        Some(LanguageMode::Unknown) | None => "unspecified",
    }
}

/// What the catalog says of a model's languages.
pub struct CatalogModel {
    pub id: String,
    pub languages: Vec<String>,
    pub language_mode: Option<LanguageMode>,
    pub language_default: Option<String>,
}

/// Whether a model lets a request choose among its languages.
pub open spec fn lets_choose(mode: Option<LanguageMode>) -> bool {
    mode == Some(LanguageMode::DetectAndSpecify) || mode == Some(LanguageMode::SpecifyOnly) || mode
        == Some(LanguageMode::FixedMonolingual)
}

/// Whether a language is among a model's, whatever the case.
pub open spec fn offers(languages: Seq<Seq<char>>, language: Seq<char>) -> bool {
    exists|i: int|
        0 <= i < languages.len() && text::lowered(#[trigger] languages[i]) == text::lowered(
            text::trimmed(language),
        )
}

/// Checks a language against what the catalog says of a model.
pub fn validate_requested_language(model: Option<&CatalogModel>, language: &str) -> (result: Result<
    (),
    TranscribeError,
>)
    ensures
        match result {
            Ok(_) => model is None || !lets_choose(model->Some_0.language_mode) || offers(
                text::texts(model->Some_0.languages@),
                language@,
            ),
            Err(error) => {
                &&& model is Some
                &&& lets_choose(model->Some_0.language_mode)
                &&& !offers(text::texts(model->Some_0.languages@), language@)
                &&& error matches TranscribeError::LanguageUnsupported {
                    model: shown,
                    language: asked,
                    supported,
                }
                &&& shown@ == model->Some_0.id@
                &&& asked@ == language@
                &&& supported@ == text::joined(text::texts(model->Some_0.languages@), ", "@)
            },
        },
{
    let known = match model {
        Some(known) => known,
        None => {
            return Ok(());
        },
    };
    match known.language_mode {
        Some(LanguageMode::DetectAndSpecify)
        | Some(LanguageMode::SpecifyOnly)
        | Some(LanguageMode::FixedMonolingual) => {},
        _ => {
            return Ok(());
        },
    }
    let requested = text::trim_text(language);
    let ghost all = text::texts(known.languages@);
    let mut i: usize = 0;
    while i < known.languages.len()
        invariant
            model == Some(known),
            all == text::texts(known.languages@),
            requested@ == text::trimmed(language@),
            i <= known.languages@.len(),
            forall|k: int|
                0 <= k < i ==> text::lowered(#[trigger] all[k]) != text::lowered(
                    text::trimmed(language@),
                ),
        decreases known.languages@.len() - i,
    {
        if text::same_ignoring_case(known.languages[i].as_str(), requested.as_str()) {
            assert(all[i as int] == known.languages@[i as int]@);
            assert(offers(all, language@));
            return Ok(());
        }
        assert(all[i as int] == known.languages@[i as int]@);
        i += 1;
    }
    Err(
        TranscribeError::LanguageUnsupported {
            model: known.id.as_str().to_owned(),
            language: language.to_owned(),
            supported: text::join_texts(&known.languages, ", "),
        },
    )
}

/// The lines that show a model's languages.
pub open spec fn language_lines(model: CatalogModel) -> Seq<Seq<char>> {
    seq![
        seq![],
        "Languages for "@ + model.id@ + ":"@,
        "- codes: "@ + text::joined(text::texts(model.languages@), ", "@),
        "- mode: "@ + language_mode_text(model.language_mode),
        "- default: "@ + match model.language_default {
            Some(language) => language@,
            None => "(none)"@,
        },
    ]
}

/// Shows a model's languages.
pub fn model_language_details(model: &CatalogModel) -> (lines: Vec<String>)
    ensures
        text::texts(lines@) == language_lines(*model),
{
    let mut lines: Vec<String> = Vec::new();
    lines.push(String::new());
    let mut head = "Languages for ".to_owned();
    head.append(model.id.as_str());
    head.append(":");
    lines.push(head);
    let mut codes = "- codes: ".to_owned();
    codes.append(text::join_texts(&model.languages, ", ").as_str());
    lines.push(codes);
    let mut mode = "- mode: ".to_owned();
    mode.append(language_mode_label(model.language_mode));
    lines.push(mode);
    let mut default = "- default: ".to_owned();
    match &model.language_default {
        Some(language) => {
            default.append(language.as_str());
        },
        None => {
            default.append("(none)");
        },
    }
    lines.push(default);
    assert(text::texts(lines@) =~= language_lines(*model));
    lines
}

/// What a transcription is asked for beyond its inputs.
#[derive(Clone, Copy, Debug, PartialEq, Eq, Structural)]
pub struct RequestExtras {
    pub benchmark: bool,
    pub diarize: bool,
    pub word_timestamps: Option<WordTimestampsMode>,
    pub has_adapter: bool,
    pub has_language: bool,
    pub has_task: bool,
    pub hotword_count: usize,
    pub has_hotword_boost: bool,
    pub has_model_pack: bool,
    pub offline: bool,
}

/// How exactly the times of words are told.
#[derive(Clone, Copy, Debug, PartialEq, Eq, Structural)]
pub enum WordTimestampsMode {
    Approximate,
    Aligned,
}

/// Whether a timing is asked for with something that it does not measure.
pub open spec fn benchmark_conflict(extras: RequestExtras) -> bool {
    extras.benchmark && (extras.diarize || extras.word_timestamps is Some || extras.has_adapter
        || extras.has_language || extras.has_task || extras.hotword_count > 0)
}

/// Checks that a timing is asked for alone.
pub fn check_benchmark_request(extras: &RequestExtras) -> (result: Result<(), TranscribeError>)
    ensures
        match result {
            Ok(_) => !benchmark_conflict(*extras),
            Err(error) => benchmark_conflict(*extras) && error
                == TranscribeError::BenchmarkConflict,
        },
{
    if extras.benchmark && (extras.diarize || extras.word_timestamps.is_some()
        || extras.has_adapter || extras.has_language || extras.has_task || extras.hotword_count
        > 0) {
        Err(TranscribeError::BenchmarkConflict)
    } else {
        Ok(())
    }
}

/// What a transcription does next.
#[derive(Clone, Copy, Debug, PartialEq, Eq, Structural)]
pub enum TranscribeStep {
    /// Check what was asked for against itself.
    CheckFlags,
    /// Check the language against the catalog.
    CheckLanguage,
    /// Decide on the backend.
    ChooseBackend,
    /// Install the model if it is missing.
    InstallModel,
    /// Decide on the model and the tools.
    Prepare,
    /// Install what telling speakers apart needs.
    InstallDiarization,
    /// Check that speakers can be told apart.
    CheckDiarization,
    /// Install what aligning words needs.
    InstallAligner,
    /// Check that words can be aligned.
    CheckAlignment,
    /// Find the inputs and decide how they are transcribed.
    Route,
    /// The step before failed.
    Failed,
}

/// What a transcription does after a step that succeeded or failed. What was asked
/// for is checked before anything is installed.
pub open spec fn next_transcribe_step(
    step: TranscribeStep,
    ok: bool,
    extras: RequestExtras,
    kind: BackendKind,
) -> TranscribeStep {
    if !ok {
        TranscribeStep::Failed
    } else {
        match step {
            TranscribeStep::CheckFlags => if extras.has_language && !extras.has_model_pack {
                TranscribeStep::CheckLanguage
            } else {
                TranscribeStep::ChooseBackend
            },
            TranscribeStep::CheckLanguage => TranscribeStep::ChooseBackend,
            TranscribeStep::ChooseBackend => if kind == BackendKind::Native
                && !extras.has_model_pack {
                TranscribeStep::InstallModel
            } else {
                TranscribeStep::Prepare
            },
            TranscribeStep::InstallModel => TranscribeStep::Prepare,
            TranscribeStep::Prepare => TranscribeStep::InstallDiarization,
            TranscribeStep::InstallDiarization => TranscribeStep::CheckDiarization,
            TranscribeStep::CheckDiarization => TranscribeStep::InstallAligner,
            TranscribeStep::InstallAligner => TranscribeStep::CheckAlignment,
            TranscribeStep::CheckAlignment => TranscribeStep::Route,
            TranscribeStep::Route => TranscribeStep::Route,
            TranscribeStep::Failed => TranscribeStep::Failed,
        }
    }
}

/// Decides what a transcription does after a step that succeeded or failed.
pub fn transcribe(step: TranscribeStep, ok: bool, extras: &RequestExtras, kind: BackendKind) -> (next:
    TranscribeStep)
    ensures
        next == next_transcribe_step(step, ok, *extras, kind),
{
    if !ok {
        return TranscribeStep::Failed;
    }
    match step {
        TranscribeStep::CheckFlags => if extras.has_language && !extras.has_model_pack {
            TranscribeStep::CheckLanguage
        } else {
            TranscribeStep::ChooseBackend
        },
        TranscribeStep::CheckLanguage => TranscribeStep::ChooseBackend,
        TranscribeStep::ChooseBackend => if kind == BackendKind::Native && !extras.has_model_pack {
            TranscribeStep::InstallModel
        } else {
            TranscribeStep::Prepare
        },
        TranscribeStep::InstallModel => TranscribeStep::Prepare,
        TranscribeStep::Prepare => TranscribeStep::InstallDiarization,
        TranscribeStep::InstallDiarization => TranscribeStep::CheckDiarization,
        TranscribeStep::CheckDiarization => TranscribeStep::InstallAligner,
        TranscribeStep::InstallAligner => TranscribeStep::CheckAlignment,
        TranscribeStep::CheckAlignment => TranscribeStep::Route,
        TranscribeStep::Route => TranscribeStep::Route,
        TranscribeStep::Failed => TranscribeStep::Failed,
    }
}

/// Whether a step may install something.
pub open spec fn installs(step: TranscribeStep) -> bool {
    step == TranscribeStep::InstallModel || step == TranscribeStep::InstallDiarization || step
        == TranscribeStep::InstallAligner
}

/// Where a transcription stands after so many steps, if each succeeded as told.
pub open spec fn transcribe_after(
    outcomes: spec_fn(TranscribeStep) -> bool,
    steps: nat,
    extras: RequestExtras,
    kind: BackendKind,
) -> TranscribeStep
    decreases steps,
{
    if steps == 0 {
        TranscribeStep::CheckFlags
    } else {
        let step = transcribe_after(outcomes, (steps - 1) as nat, extras, kind);
        next_transcribe_step(step, outcomes(step), extras, kind)
    }
}

/// Nothing is installed before what was asked for, and the language with it, was
/// found to hold together.
pub proof fn law_flags_are_checked_before_installing(
    outcomes: spec_fn(TranscribeStep) -> bool,
    steps: nat,
    extras: RequestExtras,
    kind: BackendKind,
)
    requires
        installs(transcribe_after(outcomes, steps, extras, kind)),
    ensures
        outcomes(TranscribeStep::CheckFlags),
        extras.has_language && !extras.has_model_pack ==> outcomes(TranscribeStep::CheckLanguage),
{
    lemma_progress(outcomes, steps, extras, kind);
}

proof fn lemma_progress(
    outcomes: spec_fn(TranscribeStep) -> bool,
    steps: nat,
    extras: RequestExtras,
    kind: BackendKind,
)
    ensures
        ({
            let step = transcribe_after(outcomes, steps, extras, kind);
            &&& step != TranscribeStep::CheckFlags && step != TranscribeStep::Failed ==> outcomes(
                TranscribeStep::CheckFlags,
            )
            &&& step == TranscribeStep::CheckFlags ==> steps == 0
            &&& step != TranscribeStep::CheckFlags && step != TranscribeStep::CheckLanguage && step
                != TranscribeStep::Failed && extras.has_language && !extras.has_model_pack
                ==> outcomes(TranscribeStep::CheckLanguage)
        }),
    decreases steps,
{
    if steps > 0 {
        lemma_progress(outcomes, (steps - 1) as nat, extras, kind);
    }
}

/// A transcription that is not stopped by a failure reaches its inputs.
pub proof fn law_transcription_reaches_its_inputs(
    outcomes: spec_fn(TranscribeStep) -> bool,
    extras: RequestExtras,
    kind: BackendKind,
)
    requires
        forall|step: TranscribeStep| #[trigger] outcomes(step),
    ensures
        transcribe_after(outcomes, 9, extras, kind) == TranscribeStep::Route,
{
    reveal_with_fuel(transcribe_after, 10);
    assert(outcomes(TranscribeStep::CheckFlags) && outcomes(TranscribeStep::CheckLanguage)
        && outcomes(TranscribeStep::ChooseBackend) && outcomes(TranscribeStep::InstallModel)
        && outcomes(TranscribeStep::Prepare) && outcomes(TranscribeStep::InstallDiarization)
        && outcomes(TranscribeStep::CheckDiarization) && outcomes(TranscribeStep::InstallAligner)
        && outcomes(TranscribeStep::CheckAlignment) && outcomes(TranscribeStep::Route));
}

/// Checks the words that are to be favoured: a boost without one means nothing. Says
/// whether there are any.
pub fn phrase_bias_options_from_cli(hotword_count: usize, has_boost: bool) -> (result: Result<
    bool,
    TranscribeError,
>)
    ensures
        match result {
            Ok(any) => any == (hotword_count > 0) && (hotword_count > 0 || !has_boost),
            Err(error) => error == TranscribeError::BoostWithoutHotword && hotword_count == 0
                && has_boost,
        },
{
    if hotword_count == 0 {
        if has_boost {
            return Err(TranscribeError::BoostWithoutHotword);
        }
        return Ok(false);
    }
    Ok(true)
}

/// Checks that words can be favoured. A model whose family is known is named.
pub fn ensure_phrase_bias_supported(
    kind: BackendKind,
    any: bool,
    supported: bool,
    adapter: Option<(String, String)>,
) -> (result: Result<(), TranscribeError>)
    ensures
        match result {
            Ok(_) => !any || supported,
            Err(error) => any && !supported && error == (match adapter {
                Some((family, adapter)) => if kind == BackendKind::Native {
                    TranscribeError::HotwordUnsupportedByFamily { family, adapter }
                } else {
                    TranscribeError::HotwordUnsupported(kind)
                },
                None => TranscribeError::HotwordUnsupported(kind),
            }),
        },
{
    if !any || supported {
        return Ok(());
    }
    match adapter {
        Some((family, adapter)) => if kind == BackendKind::Native {
            Err(TranscribeError::HotwordUnsupportedByFamily { family, adapter })
        } else {
            Err(TranscribeError::HotwordUnsupported(kind))
        },
        None => Err(TranscribeError::HotwordUnsupported(kind)),
    }
}

/// Who knows whether speakers can be told apart.
#[derive(Clone, Copy, Debug, PartialEq, Eq, Structural)]
pub enum DiarizationAuthority {
    /// The model pack.
    Pack,
    /// The packs that are made for it, whatever the model.
    ExternalPacks,
    /// The backend.
    Backend,
}

/// Decides who knows whether speakers can be told apart.
pub fn diarization_supported(kind: BackendKind, has_pack: bool) -> (authority: DiarizationAuthority)
    ensures
        authority == (if kind == BackendKind::Native {
            if has_pack {
                DiarizationAuthority::Pack
            } else {
                DiarizationAuthority::ExternalPacks
            }
        } else {
            DiarizationAuthority::Backend
        }),
{
    if kind == BackendKind::Native {
        if has_pack {
            DiarizationAuthority::Pack
        } else {
            DiarizationAuthority::ExternalPacks
        }
    } else {
        DiarizationAuthority::Backend
    }
}

/// Checks that speakers can be told apart, if they are to be.
pub fn ensure_diarization_supported(kind: BackendKind, diarize: bool, supported: bool) -> (result: Result<
    (),
    TranscribeError,
>)
    ensures
        match result {
            Ok(_) => !diarize || supported,
            Err(error) => diarize && !supported && error == TranscribeError::DiarizationUnsupported(
                kind,
            ),
        },
{
    if !diarize || supported {
        Ok(())
    } else {
        Err(TranscribeError::DiarizationUnsupported(kind))
    }
}

/// Whether packs are installed.
#[derive(Clone, Copy, Debug, PartialEq, Eq, Structural)]
pub enum InstallStep {
    Nothing,
    Install,
}

/// Decides whether a pack that a transcription needs is installed: unless it is
/// there already, or its licence does not let it be installed unasked.
pub fn install_cli_capability_pack_if_missing(
    installed: bool,
    licence_refusal: Option<String>,
) -> (result: Result<InstallStep, TranscribeError>)
    ensures
        match result {
            Ok(InstallStep::Nothing) => installed,
            Ok(InstallStep::Install) => !installed && licence_refusal is None,
            Err(error) => !installed && licence_refusal is Some && error
                == TranscribeError::Other(licence_refusal->Some_0),
        },
{
    if installed {
        return Ok(InstallStep::Nothing);
    }
    match licence_refusal {
        Some(message) => Err(TranscribeError::Other(message)),
        None => Ok(InstallStep::Install),
    }
}

/// Decides whether the packs that tell speakers apart are installed: on the native
/// backend, if they are needed and missing, and never offline.
pub fn ensure_cli_diarization_packs_installed(
    kind: BackendKind,
    diarize: bool,
    supported: bool,
    offline: bool,
) -> (result: Result<InstallStep, TranscribeError>)
    ensures
        ({
            let needed = diarize && kind == BackendKind::Native && !supported;
            match result {
                Ok(InstallStep::Nothing) => !needed,
                Ok(InstallStep::Install) => needed && !offline,
                Err(error) => needed && offline && error
                    == TranscribeError::DiarizationPacksOffline,
            }
        }),
{
    if !diarize || kind != BackendKind::Native || supported {
        return Ok(InstallStep::Nothing);
    }
    if offline {
        return Err(TranscribeError::DiarizationPacksOffline);
    }
    Ok(InstallStep::Install)
}

/// Checks that words can be aligned, if they are to be.
pub fn ensure_word_timestamps_alignment_supported(
    kind: BackendKind,
    mode: Option<WordTimestampsMode>,
) -> (result: Result<(), TranscribeError>)
    ensures
        match result {
            Ok(_) => mode != Some(WordTimestampsMode::Aligned) || kind == BackendKind::Native,
            Err(error) => mode == Some(WordTimestampsMode::Aligned) && kind != BackendKind::Native
                && error == TranscribeError::AlignmentNeedsNative,
        },
{
    match mode {
        Some(WordTimestampsMode::Aligned) => if kind != BackendKind::Native {
            Err(TranscribeError::AlignmentNeedsNative)
        } else {
            Ok(())
        },
        _ => Ok(()),
    }
}

/// Whether a run needs the pack that aligns words.
pub open spec fn needs_aligner(
    kind: BackendKind,
    mode: Option<WordTimestampsMode>,
    diarize: bool,
    model_needs_it: bool,
    subtitles: bool,
) -> bool {
    kind == BackendKind::Native && (mode == Some(WordTimestampsMode::Aligned) || (diarize
        && model_needs_it) || subtitles)
}

/// What can become of the pack that aligns words.
#[derive(Clone, Copy, Debug, PartialEq, Eq, Structural)]
pub enum AlignerStep {
    Nothing,
    Install,
    OverrideInvalid,
    Offline,
    Missing,
}

/// What becomes of the pack that aligns words, for a run that needs it or does not.
/// Asking for aligned words is the consent to install it: a run that needs the pack
/// for another reason is refused where the pack is missing.
pub open spec fn aligner_step(
    kind: BackendKind,
    mode: Option<WordTimestampsMode>,
    diarize: bool,
    model_needs_it: bool,
    subtitles: bool,
    available: bool,
    named: bool,
    offline: bool,
) -> AlignerStep {
    if available || !needs_aligner(kind, mode, diarize, model_needs_it, subtitles) {
        AlignerStep::Nothing
    } else if named {
        AlignerStep::OverrideInvalid
    } else if offline {
        AlignerStep::Offline
    } else if mode == Some(WordTimestampsMode::Aligned) {
        AlignerStep::Install
    } else {
        AlignerStep::Missing
    }
}

/// Decides whether the pack that aligns words is installed: if aligned words were
/// asked for and it is missing, not over one that was named, and never offline. A
/// run that needs it without having asked for it is told how to get it.
pub fn ensure_cli_word_timestamps_pack_installed(
    kind: BackendKind,
    mode: Option<WordTimestampsMode>,
    diarize: bool,
    model_needs_it: bool,
    subtitles: bool,
    available: bool,
    named_pack: Option<&str>,
    offline: bool,
) -> (result: Result<InstallStep, TranscribeError>)
    ensures
        ({
            let named = named_pack is Some && named_pack->Some_0@.len() > 0;
            match aligner_step(
                kind,
                mode,
                diarize,
                model_needs_it,
                subtitles,
                available,
                named,
                offline,
            ) {
                AlignerStep::Nothing => result == Ok::<InstallStep, TranscribeError>(
                    InstallStep::Nothing,
                ),
                AlignerStep::Install => result == Ok::<InstallStep, TranscribeError>(
                    InstallStep::Install,
                ),
                AlignerStep::OverrideInvalid => result matches Err(
                    TranscribeError::AlignerOverrideInvalid(path),
                ) && path@ == named_pack->Some_0@,
                AlignerStep::Offline => result == Err::<InstallStep, TranscribeError>(
                    TranscribeError::AlignerPackOffline,
                ),
                AlignerStep::Missing => result == Err::<InstallStep, TranscribeError>(
                    TranscribeError::AlignerPackMissing,
                ),
            }
        }),
{
    let asked = match mode {
        Some(WordTimestampsMode::Aligned) => true,
        _ => false,
    };
    let for_speakers = diarize && model_needs_it;
    if (!asked && !for_speakers && !subtitles) || kind != BackendKind::Native {
        return Ok(InstallStep::Nothing);
    }
    if available {
        return Ok(InstallStep::Nothing);
    }
    if let Some(path) = named_pack {
        if text::chars_of(path).len() > 0 {
            return Err(TranscribeError::AlignerOverrideInvalid(path.to_owned()));
        }
    }
    if offline {
        return Err(TranscribeError::AlignerPackOffline);
    }
    if !asked {
        return Err(TranscribeError::AlignerPackMissing);
    }
    Ok(InstallStep::Install)
}

/// Approximate times of words, or none, never have a pack installed for them,
/// whatever else is asked for.
pub proof fn law_only_asking_installs_the_aligner(
    kind: BackendKind,
    mode: Option<WordTimestampsMode>,
    diarize: bool,
    model_needs_it: bool,
    subtitles: bool,
    available: bool,
    named: bool,
    offline: bool,
)
    requires
        mode != Some(WordTimestampsMode::Aligned),
    ensures
        aligner_step(kind, mode, diarize, model_needs_it, subtitles, available, named, offline)
            != AlignerStep::Install,
{
}

/// Reads the shortest silence between slices.
pub fn vad_min_silence(milliseconds: usize) -> (result: Result<u32, TranscribeError>)
    ensures
        match result {
            Ok(value) => value == milliseconds,
            Err(error) => milliseconds > u32::MAX && error == TranscribeError::SilenceTooLong(
                milliseconds,
            ),
        },
{
    if milliseconds as u64 > u32::MAX as u64 {
        Err(TranscribeError::SilenceTooLong(milliseconds))
    } else {
        Ok(milliseconds as u32)
    }
}

/// Whether the standard input is what is transcribed.
pub open spec fn names_stdin(inputs: Seq<Seq<char>>) -> bool {
    inputs.contains("-"@)
}

/// Decides whether the standard input is what is transcribed; it must then be the
/// only input.
pub fn maybe_read_stdin_to_temp(inputs: &Vec<String>) -> (result: Result<bool, TranscribeError>)
    ensures
        match result {
            Ok(reads) => reads == names_stdin(text::texts(inputs@)) && (reads ==> inputs@.len()
                == 1),
            Err(error) => names_stdin(text::texts(inputs@)) && inputs@.len() != 1 && error
                == TranscribeError::StdinNotAlone,
        },
{
    let ghost all = text::texts(inputs@);
    let mut i: usize = 0;
    while i < inputs.len()
        invariant
            all == text::texts(inputs@),
            i <= inputs@.len(),
            forall|k: int| 0 <= k < i ==> all[k] != "-"@,
        decreases inputs@.len() - i,
    {
        if text::same_text(inputs[i].as_str(), "-") {
            assert(all[i as int] == "-"@);
            if inputs.len() != 1 {
                return Err(TranscribeError::StdinNotAlone);
            }
            return Ok(true);
        }
        assert(all[i as int] == inputs@[i as int]@);
        i += 1;
    }
    Ok(false)
}

/// An input: a file, or a directory with what was found in it.
pub enum TranscribeInput {
    File(String),
    Directory { files: Vec<String>, skipped: usize },
    Unreadable(String),
}

/// The files of inputs, in order.
pub open spec fn input_files(inputs: Seq<TranscribeInput>) -> Seq<Seq<char>>
    decreases inputs.len(),
{
    if inputs.len() == 0 {
        seq![]
    } else {
        input_files(inputs.drop_last()) + match inputs.last() {
            TranscribeInput::File(path) => seq![path@],
            TranscribeInput::Directory { files, .. } => text::texts(files@),
            TranscribeInput::Unreadable(_) => seq![],
        }
    }
}

/// How many files in directories were passed over.
pub open spec fn skipped_files(inputs: Seq<TranscribeInput>) -> int
    decreases inputs.len(),
{
    if inputs.len() == 0 {
        0
    } else {
        skipped_files(inputs.drop_last()) + match inputs.last() {
            TranscribeInput::Directory { skipped, .. } => skipped as int,
            _ => 0,
        }
    }
}

/// The first input that could not be read.
pub open spec fn first_unreadable(inputs: Seq<TranscribeInput>) -> Option<Seq<char>>
    decreases inputs.len(),
{
    if inputs.len() == 0 {
        None
    } else {
        match first_unreadable(inputs.drop_last()) {
            Some(error) => Some(error),
            None => match inputs.last() {
                TranscribeInput::Unreadable(error) => Some(error@),
                _ => None,
            },
        }
    }
}

proof fn lemma_inputs_grow(inputs: Seq<TranscribeInput>, count: int)
    requires
        0 <= count <= inputs.len(),
    ensures
        0 <= skipped_files(inputs.take(count)) <= skipped_files(inputs),
        first_unreadable(inputs.take(count)) is Some ==> first_unreadable(inputs)
            == first_unreadable(inputs.take(count)),
    decreases inputs.len(),
{
    if count == inputs.len() {
        assert(inputs.take(count) =~= inputs);
        if inputs.len() > 0 {
            lemma_inputs_grow(inputs.drop_last(), inputs.len() - 1);
            assert(inputs.drop_last().take(inputs.len() - 1) =~= inputs.drop_last());
        }
    } else {
        lemma_inputs_grow(inputs.drop_last(), count);
        assert(inputs.drop_last().take(count) =~= inputs.take(count));
    }
}

/// Expands inputs: a directory stands for the files that were found in it, and a
/// file for itself.
pub fn expand_transcribe_inputs(inputs: &Vec<TranscribeInput>) -> (result: Result<
    (Vec<String>, usize),
    TranscribeError,
>)
    requires
        skipped_files(inputs@) <= usize::MAX,
    ensures
        match result {
            Ok((files, skipped)) => {
                &&& first_unreadable(inputs@) is None
                &&& text::texts(files@) == input_files(inputs@)
                &&& skipped == skipped_files(inputs@)
            },
            Err(error) => {
                &&& error matches TranscribeError::Other(shown)
                &&& first_unreadable(inputs@) == Some(shown@)
            },
        },
{
    let mut files: Vec<String> = Vec::new();
    let mut skipped: usize = 0;
    let mut i: usize = 0;
    assert(inputs@.take(0) =~= seq![]);
    assert(text::texts(files@) =~= seq![]);
    while i < inputs.len()
        invariant
            i <= inputs@.len(),
            skipped_files(inputs@) <= usize::MAX,
            text::texts(files@) == input_files(inputs@.take(i as int)),
            skipped == skipped_files(inputs@.take(i as int)),
            first_unreadable(inputs@.take(i as int)) is None,
        decreases inputs@.len() - i,
    {
        let ghost before = text::texts(files@);
        proof {
            let taken = inputs@.take(i + 1);
            assert(taken.drop_last() =~= inputs@.take(i as int));
            assert(taken.last() == inputs@[i as int]);
            lemma_inputs_grow(inputs@, i + 1);
        }
        match &inputs[i] {
            TranscribeInput::File(path) => {
                files.push(path.as_str().to_owned());
                assert(text::texts(files@) =~= before + seq![path@]);
            },
            TranscribeInput::Directory { files: found, skipped: passed } => {
                let mut k: usize = 0;
                while k < found.len()
                    invariant
                        k <= found@.len(),
                        text::texts(files@) == before + text::texts(found@).take(k as int),
                    decreases found@.len() - k,
                {
                    let ghost now = text::texts(files@);
                    files.push(found[k].as_str().to_owned());
                    assert(text::texts(files@) =~= now.push(text::texts(found@)[k as int]));
                    assert(text::texts(found@).take(k + 1) =~= text::texts(found@).take(
                        k as int,
                    ).push(text::texts(found@)[k as int]));
                    k += 1;
                }
                assert(text::texts(found@).take(k as int) =~= text::texts(found@));
                skipped = skipped + *passed;
            },
            TranscribeInput::Unreadable(error) => {
                return Err(TranscribeError::Other(error.as_str().to_owned()));
            },
        }
        i += 1;
    }
    assert(inputs@.take(i as int) =~= inputs@);
    Ok((files, skipped))
}

/// How inputs are transcribed.
#[derive(Clone, Copy, Debug, PartialEq, Eq, Structural)]
pub enum TranscribeRoute {
    /// One input, whose timing is shown.
    Benchmark,
    /// Each input into a file of its own in the output directory.
    Many,
    /// One input, to the terminal or a file.
    Single,
}

/// What is known once the inputs are expanded.
pub struct RouteFacts {
    pub input_count: usize,
    pub any_directory: bool,
    pub file_count: usize,
    pub has_output: bool,
    /// Whether favoured words can be had, if there are any.
    pub bias: Result<(), TranscribeError>,
}

/// Whether each input has an output of its own.
pub open spec fn per_file_output(facts: RouteFacts) -> bool {
    facts.input_count > 1 || facts.any_directory
}

/// Decides how inputs are transcribed.
pub fn route_transcription(extras: &RequestExtras, facts: RouteFacts) -> (result: Result<
    TranscribeRoute,
    TranscribeError,
>)
    ensures
        ({
            let alone = extras.word_timestamps is Some || extras.has_adapter
                || extras.hotword_count > 0;
            let boost_alone = extras.hotword_count == 0 && extras.has_hotword_boost;
            match result {
                Ok(TranscribeRoute::Benchmark) => extras.benchmark && facts.file_count == 1
                    && !per_file_output(facts),
                Ok(TranscribeRoute::Many) => !extras.benchmark && facts.file_count > 0
                    && !boost_alone && facts.bias is Ok && per_file_output(facts) && !alone
                    && facts.has_output,
                Ok(TranscribeRoute::Single) => !extras.benchmark && facts.file_count > 0
                    && !boost_alone && facts.bias is Ok && !per_file_output(facts),
                Err(error) => if facts.file_count == 0 {
                    error == TranscribeError::NoInputs
                } else if extras.benchmark {
                    error == TranscribeError::BenchmarkNotSingle && (per_file_output(facts)
                        || facts.file_count != 1)
                } else if boost_alone {
                    error == TranscribeError::BoostWithoutHotword
                } else if facts.bias is Err {
                    facts.bias == Err::<(), TranscribeError>(error)
                } else if alone {
                    error == TranscribeError::SingleInputOnly && per_file_output(facts)
                } else {
                    error == TranscribeError::NeedsOutputDirectory && per_file_output(facts)
                        && !facts.has_output
                },
            }
        }),
{
    let per_file = facts.input_count > 1 || facts.any_directory;
    if facts.file_count == 0 {
        return Err(TranscribeError::NoInputs);
    }
    if extras.benchmark {
        if per_file || facts.file_count != 1 {
            return Err(TranscribeError::BenchmarkNotSingle);
        }
        return Ok(TranscribeRoute::Benchmark);
    }
    let any_bias = match phrase_bias_options_from_cli(
        extras.hotword_count,
        extras.has_hotword_boost,
    ) {
        Ok(any) => any,
        Err(error) => {
            return Err(error);
        },
    };
    if let Err(error) = facts.bias {
        return Err(error);
    }
    if per_file {
        if extras.word_timestamps.is_some() || extras.has_adapter || any_bias {
            return Err(TranscribeError::SingleInputOnly);
        }
        if !facts.has_output {
            return Err(TranscribeError::NeedsOutputDirectory);
        }
        return Ok(TranscribeRoute::Many);
    }
    Ok(TranscribeRoute::Single)
}

/// What is known of the directory for outputs.
pub enum OutputDirectory {
    Directory,
    NotDirectory,
    Missing,
    Unreadable(String),
}

/// What is done about the directory for outputs: nothing if it is there, and it is
/// made if it is missing.
pub fn ensure_batch_output_dir(path: &str, found: OutputDirectory) -> (result: Result<
    bool,
    TranscribeError,
>)
    ensures
        match found {
            OutputDirectory::Directory => result == Ok::<bool, TranscribeError>(false),
            OutputDirectory::Missing => result == Ok::<bool, TranscribeError>(true),
            OutputDirectory::NotDirectory => result
                matches Err(TranscribeError::OutputNotDirectory(shown)) && shown@ == path@,
            OutputDirectory::Unreadable(reason) => result
                matches Err(TranscribeError::OutputUnreadable { path: shown, error }) && shown@
                == path@ && error == reason,
        },
{
    match found {
        OutputDirectory::Directory => Ok(false),
        OutputDirectory::Missing => Ok(true),
        OutputDirectory::NotDirectory => Err(TranscribeError::OutputNotDirectory(path.to_owned())),
        OutputDirectory::Unreadable(error) => Err(
            TranscribeError::OutputUnreadable { path: path.to_owned(), error },
        ),
    }
}

/// A file that was transcribed, and where its transcript is.
pub struct BatchOutput {
    pub input_path: String,
    pub output_path: String,
}

/// A file that was not transcribed, and why.
pub struct BatchFailure {
    pub input_path: String,
    pub error: String,
}

/// What became of several files.
pub struct BatchTally {
    pub outputs: Vec<BatchOutput>,
    pub failures: Vec<BatchFailure>,
}

/// The files that were transcribed, with where their transcripts are.
pub open spec fn outputs_of(outputs: Seq<BatchOutput>) -> Seq<(Seq<char>, Seq<char>)> {
    outputs.map_values(|output: BatchOutput| (output.input_path@, output.output_path@))
}

/// The files that were not transcribed, with why.
pub open spec fn failures_of(failures: Seq<BatchFailure>) -> Seq<(Seq<char>, Seq<char>)> {
    failures.map_values(|failure: BatchFailure| (failure.input_path@, failure.error@))
}

impl BatchTally {
    /// Nothing has become of anything yet.
    pub fn new() -> (tally: Self)
        ensures
            outputs_of(tally.outputs@) == Seq::<(Seq<char>, Seq<char>)>::empty(),
            failures_of(tally.failures@) == Seq::<(Seq<char>, Seq<char>)>::empty(),
    {
        let tally = BatchTally { outputs: Vec::new(), failures: Vec::new() };
        assert(outputs_of(tally.outputs@) =~= Seq::<(Seq<char>, Seq<char>)>::empty());
        assert(failures_of(tally.failures@) =~= Seq::<(Seq<char>, Seq<char>)>::empty());
        tally
    }

    /// Takes down what became of a file. A failure ends the run, unless it is to go
    /// on all the same.
    pub fn record(
        &mut self,
        file: &str,
        outcome: Result<String, String>,
        continue_on_error: bool,
    ) -> (result: Result<(), TranscribeError>)
        ensures
            match outcome {
                Ok(output) => {
                    &&& result is Ok
                    &&& outputs_of(final(self).outputs@) == outputs_of(old(self).outputs@).push(
                        (file@, output@),
                    )
                    &&& final(self).failures == old(self).failures
                },
                Err(error) => {
                    &&& final(self).outputs == old(self).outputs
                    &&& if continue_on_error {
                        &&& result is Ok
                        &&& failures_of(final(self).failures@) == failures_of(
                            old(self).failures@,
                        ).push((file@, error@))
                    } else {
                        &&& final(self).failures == old(self).failures
                        &&& result matches Err(TranscribeError::FileFailed { path, error: shown })
                        &&& path@ == file@
                        &&& shown == error
                    }
                },
            },
    {
        match outcome {
            Ok(output_path) => {
                let ghost shown = output_path@;
                self.outputs.push(BatchOutput { input_path: file.to_owned(), output_path });
                assert(outputs_of(self.outputs@) =~= outputs_of(old(self).outputs@).push(
                    (file@, shown),
                ));
                Ok(())
            },
            Err(error) => if continue_on_error {
                let ghost shown = error@;
                self.failures.push(BatchFailure { input_path: file.to_owned(), error });
                assert(failures_of(self.failures@) =~= failures_of(old(self).failures@).push(
                    (file@, shown),
                ));
                Ok(())
            } else {
                Err(TranscribeError::FileFailed { path: file.to_owned(), error })
            },
        }
    }

    /// Ends the run: with an error if any file failed.
    pub fn finish(&self) -> (result: Result<(), TranscribeError>)
        ensures
            match result {
                Ok(_) => self.failures@.len() == 0,
                Err(error) => error == TranscribeError::FilesFailed(
                    self.failures@.len() as usize,
                ) && self.failures@.len() > 0,
            },
    {
        if self.failures.len() > 0 {
            Err(TranscribeError::FilesFailed(self.failures.len()))
        } else {
            Ok(())
        }
    }
}

/// The directory that a summary names as the inputs': the one that was given, or
/// else the one of the first file.
pub fn summary_input_dir(single_directory: Option<String>, first_parent: Option<String>) -> (path:
    String)
    ensures
        path@ == (match single_directory {
            Some(directory) => directory@,
            None => match first_parent {
                Some(parent) => parent@,
                None => "."@,
            },
        }),
{
    match single_directory {
        Some(directory) => directory,
        None => match first_parent {
            Some(parent) => parent,
            None => ".".to_owned(),
        },
    }
}

/// Where a request came from.
#[derive(Clone, Copy, Debug, PartialEq, Eq, Structural)]
pub enum RequestSource {
    CliTranscribe,
    CliLive,
    CliBenchSuite,
}

/// What is made of speech: its text in the language spoken, or in English.
#[derive(Clone, Copy, Debug, PartialEq, Eq, Structural)]
pub enum TranscriptionTask {
    Transcribe,
    Translate,
}

/// What a backend is asked to do.
pub struct RequestPlan {
    pub source: RequestSource,
    pub model_id: String,
    pub model_pack_path: Option<String>,
    pub adapter_path: Option<String>,
    pub language: Option<String>,
    pub task: Option<TranscriptionTask>,
    pub display_file_name: Option<String>,
    /// Whether the settings for long recordings go with the request.
    pub takes_longform: bool,
    /// Whether the phrases to favour go with the request.
    pub takes_phrase_bias: bool,
    pub voice_id: bool,
    pub speakers: Option<usize>,
    /// Whether punctuation is restored; where nothing is said, the backend decides.
    pub punctuation: Option<bool>,
    pub word_timestamps: bool,
    /// Whether the times of words are aligned with the audio afterwards.
    pub refines_word_timestamps: bool,
    pub needs_subtitle_export: bool,
    /// Whether the backend is told how the audio was stored.
    pub tells_source_format: bool,
}

/// What all files of a run have in common.
pub struct BatchRunContext {
    pub formats: Vec<ResponseFormat>,
    pub model_id: String,
    pub model_pack_path: Option<String>,
    pub backend_kind: BackendKind,
    pub language: Option<String>,
    pub task: Option<TranscriptionTask>,
    pub diarize: bool,
    pub speakers: Option<usize>,
}

/// What is asked for a single file beyond what several files can have.
pub struct SingleRequest {
    pub adapter_path: Option<String>,
    pub punctuate: bool,
    pub word_timestamps: Option<WordTimestampsMode>,
}

fn copy_optional(value: &Option<String>) -> (copy: Option<String>)
    ensures
        text::opt_string(copy) == text::opt_string(*value),
{
    match value {
        Some(value) => Some(value.as_str().to_owned()),
        None => None,
    }
}

/// What a backend is asked to do for a single file.
pub fn single_transcription_request(
    file_name: Option<String>,
    context: &BatchRunContext,
    single: &SingleRequest,
) -> (plan: RequestPlan)
    ensures
        plan.source == RequestSource::CliTranscribe,
        plan.model_id@ == context.model_id@,
        text::opt_string(plan.model_pack_path) == text::opt_string(context.model_pack_path),
        text::opt_string(plan.adapter_path) == text::opt_string(single.adapter_path),
        text::opt_string(plan.language) == text::opt_string(context.language),
        plan.task == context.task,
        plan.display_file_name == file_name,
        plan.takes_longform == (context.backend_kind == BackendKind::Native),
        plan.takes_phrase_bias,
        plan.voice_id == context.diarize,
        plan.speakers == context.speakers,
        plan.punctuation == Some(single.punctuate),
        plan.word_timestamps == (single.word_timestamps is Some),
        plan.refines_word_timestamps == (single.word_timestamps == Some(
            WordTimestampsMode::Aligned,
        )),
        plan.needs_subtitle_export == (exists|i: int|
            0 <= i < context.formats@.len() && formats::is_subtitle(
                #[trigger] context.formats@[i],
            )),
        plan.tells_source_format,
{
    RequestPlan {
        source: RequestSource::CliTranscribe,
        model_id: context.model_id.as_str().to_owned(),
        model_pack_path: copy_optional(&context.model_pack_path),
        adapter_path: copy_optional(&single.adapter_path),
        language: copy_optional(&context.language),
        task: context.task,
        display_file_name: file_name,
        takes_longform: context.backend_kind == BackendKind::Native,
        takes_phrase_bias: true,
        voice_id: context.diarize,
        speakers: context.speakers,
        punctuation: Some(single.punctuate),
        word_timestamps: single.word_timestamps.is_some(),
        refines_word_timestamps: match single.word_timestamps {
            Some(WordTimestampsMode::Aligned) => true,
            _ => false,
        },
        needs_subtitle_export: needs_subtitle_export(&context.formats),
        tells_source_format: true,
    }
}

/// What a backend is asked to do for one of several files: the same as for a single
/// one, without what is for a single one only.
pub fn batch_item_transcription_request(
    file_name: Option<String>,
    context: &BatchRunContext,
) -> (plan: RequestPlan)
    ensures
        plan.source == RequestSource::CliTranscribe,
        plan.model_id@ == context.model_id@,
        text::opt_string(plan.model_pack_path) == text::opt_string(context.model_pack_path),
        plan.adapter_path is None,
        text::opt_string(plan.language) == text::opt_string(context.language),
        plan.task == context.task,
        plan.display_file_name == file_name,
        plan.takes_longform == (context.backend_kind == BackendKind::Native),
        !plan.takes_phrase_bias,
        plan.voice_id == context.diarize,
        plan.speakers == context.speakers,
        plan.punctuation is None,
        !plan.word_timestamps,
        !plan.refines_word_timestamps,
        plan.needs_subtitle_export == (exists|i: int|
            0 <= i < context.formats@.len() && formats::is_subtitle(
                #[trigger] context.formats@[i],
            )),
        !plan.tells_source_format,
{
    RequestPlan {
        source: RequestSource::CliTranscribe,
        model_id: context.model_id.as_str().to_owned(),
        model_pack_path: copy_optional(&context.model_pack_path),
        adapter_path: None,
        language: copy_optional(&context.language),
        task: context.task,
        display_file_name: file_name,
        takes_longform: context.backend_kind == BackendKind::Native,
        takes_phrase_bias: false,
        voice_id: context.diarize,
        speakers: context.speakers,
        punctuation: None,
        word_timestamps: false,
        refines_word_timestamps: false,
        needs_subtitle_export: needs_subtitle_export(&context.formats),
        tells_source_format: false,
    }
}

/// What a backend is asked to do where the timing is wanted: nothing beyond the
/// transcript, so that nothing else is timed.
pub fn benchmark_transcription_request(
    model_id: &str,
    model_pack_path: &Option<String>,
    backend_kind: BackendKind,
    file_name: Option<String>,
) -> (plan: RequestPlan)
    ensures
        plan.source == RequestSource::CliTranscribe,
        plan.model_id@ == model_id@,
        text::opt_string(plan.model_pack_path) == text::opt_string(*model_pack_path),
        plan.adapter_path is None,
        plan.language is None,
        plan.task is None,
        plan.display_file_name == file_name,
        plan.takes_longform == (backend_kind == BackendKind::Native),
        !plan.takes_phrase_bias,
        !plan.voice_id,
        plan.speakers is None,
        plan.punctuation == Some(false),
        !plan.word_timestamps,
        !plan.refines_word_timestamps,
        !plan.needs_subtitle_export,
        !plan.tells_source_format,
{
    RequestPlan {
        source: RequestSource::CliTranscribe,
        model_id: model_id.to_owned(),
        model_pack_path: copy_optional(model_pack_path),
        adapter_path: None,
        language: None,
        task: None,
        display_file_name: file_name,
        takes_longform: backend_kind == BackendKind::Native,
        takes_phrase_bias: false,
        voice_id: false,
        speakers: None,
        punctuation: Some(false),
        word_timestamps: false,
        refines_word_timestamps: false,
        needs_subtitle_export: false,
        tells_source_format: false,
    }
}

/// The files of two lists of inputs are those of the first, and then those of the
/// second; the files that were passed over add up likewise; and the first input that
/// cannot be read is the first list's where it has one.
pub proof fn law_inputs_expand_one_after_the_other(
    left: Seq<TranscribeInput>,
    right: Seq<TranscribeInput>,
)
    ensures
        input_files(left + right) == input_files(left) + input_files(right),
        skipped_files(left + right) == skipped_files(left) + skipped_files(right),
        first_unreadable(left + right) == if first_unreadable(left) is Some {
            first_unreadable(left)
        } else {
            first_unreadable(right)
        },
    decreases right.len(),
{
    if right.len() == 0 {
        assert(left + right =~= left);
        assert(input_files(left) + input_files(right) =~= input_files(left));
    } else {
        law_inputs_expand_one_after_the_other(left, right.drop_last());
        assert((left + right).drop_last() =~= left + right.drop_last());
        assert((left + right).last() == right.last());
        assert(input_files(left + right) =~= input_files(left) + input_files(right));
    }
}

/// A file stands for itself, a directory for the files that were found in it, in their
/// order, and an input that cannot be read for none.
pub proof fn law_one_input_expands_to_its_files(input: TranscribeInput)
    ensures
        match input {
            TranscribeInput::File(path) => {
                &&& input_files(seq![input]).len() == 1 && input_files(seq![input])[0] == path@
                &&& skipped_files(seq![input]) == 0
                &&& first_unreadable(seq![input]) is None
            },
            TranscribeInput::Directory { files, skipped } => {
                &&& input_files(seq![input]).len() == files@.len()
                &&& forall|i: int|
                    0 <= i < files@.len() ==> #[trigger] input_files(seq![input])[i] == files@[i]@
                &&& skipped_files(seq![input]) == skipped
                &&& first_unreadable(seq![input]) is None
            },
            TranscribeInput::Unreadable(error) => {
                &&& input_files(seq![input]).len() == 0
                &&& first_unreadable(seq![input]) == Some(error@)
            },
        },
{
    assert(seq![input].drop_last() =~= seq![]);
    reveal_with_fuel(input_files, 2);
    reveal_with_fuel(skipped_files, 2);
    reveal_with_fuel(first_unreadable, 2);
    match input {
        TranscribeInput::File(path) => {
            assert(input_files(seq![input]) =~= seq![path@]);
        },
        TranscribeInput::Directory { files, .. } => {
            assert(input_files(seq![input]) =~= text::texts(files@));
        },
        TranscribeInput::Unreadable(_) => {
            assert(input_files(seq![input]) =~= seq![]);
        },
    }
}

/// A named file is among the files, right after those of all the inputs before it, and
/// so is every file that was found in a directory.
pub proof fn law_every_named_file_is_transcribed(inputs: Seq<TranscribeInput>, at: int, k: int)
    requires
        0 <= at < inputs.len(),
    ensures
        ({
            let start = input_files(inputs.take(at)).len();
            match inputs[at] {
                TranscribeInput::File(path) => start < input_files(inputs).len()
                    && input_files(inputs)[start as int] == path@,
                TranscribeInput::Directory { files, .. } => 0 <= k < files@.len() ==> start + k
                    < input_files(inputs).len() && input_files(inputs)[start + k] == files@[k]@,
                TranscribeInput::Unreadable(_) => first_unreadable(inputs) is Some,
            }
        }),
{
    let before = inputs.take(at);
    let own = seq![inputs[at]];
    let after = inputs.skip(at + 1);
    assert(inputs =~= before + own + after);
    law_inputs_expand_one_after_the_other(before + own, after);
    law_inputs_expand_one_after_the_other(before, own);
    law_one_input_expands_to_its_files(inputs[at]);
    if let TranscribeInput::Directory { files, .. } = inputs[at] {
        if 0 <= k < files@.len() {
            assert(input_files(own)[k] == files@[k]@);
        }
    }
}

/// Inputs that are all files are transcribed one for one, in their order.
pub proof fn law_files_are_transcribed_one_for_one(inputs: Seq<TranscribeInput>)
    requires
        forall|i: int| 0 <= i < inputs.len() ==> (#[trigger] inputs[i]) is File,
    ensures
        input_files(inputs).len() == inputs.len(),
        forall|i: int|
            0 <= i < inputs.len() ==> #[trigger] input_files(inputs)[i] == inputs[i]->File_0@,
        skipped_files(inputs) == 0,
        first_unreadable(inputs) is None,
    decreases inputs.len(),
{
    if inputs.len() > 0 {
        let rest = inputs.drop_last();
        assert forall|i: int| 0 <= i < rest.len() implies (#[trigger] rest[i]) is File by {
            assert(inputs[i] is File);
        }
        law_files_are_transcribed_one_for_one(rest);
        assert(inputs[inputs.len() - 1] is File);
        assert forall|i: int| 0 <= i < inputs.len() implies #[trigger] input_files(inputs)[i]
            == inputs[i]->File_0@ by {
            if i < rest.len() {
                assert(input_files(rest)[i] == rest[i]->File_0@);
            }
        }
    }
}

/// Inputs are refused exactly if one of them cannot be read, with the reason of the
/// first such input.
pub proof fn law_an_unreadable_input_is_refused(inputs: Seq<TranscribeInput>)
    ensures
        first_unreadable(inputs) is None <==> forall|i: int|
            0 <= i < inputs.len() ==> !((#[trigger] inputs[i]) is Unreadable),
        first_unreadable(inputs) matches Some(error) ==> exists|i: int|
            #![trigger inputs[i]]
            0 <= i < inputs.len() && inputs[i] is Unreadable && inputs[i]->Unreadable_0@ == error
                && forall|j: int| 0 <= j < i ==> !((#[trigger] inputs[j]) is Unreadable),
    decreases inputs.len(),
{
    if inputs.len() > 0 {
        let rest = inputs.drop_last();
        law_an_unreadable_input_is_refused(rest);
        if first_unreadable(rest) is Some {
            let error = first_unreadable(rest)->Some_0;
            let i = choose|i: int|
                #![trigger rest[i]]
                0 <= i < rest.len() && rest[i] is Unreadable && rest[i]->Unreadable_0@ == error
                    && forall|j: int| 0 <= j < i ==> !((#[trigger] rest[j]) is Unreadable);
            assert(inputs[i] == rest[i]);
            assert forall|j: int| 0 <= j < i implies !((#[trigger] inputs[j]) is Unreadable) by {
                assert(!(rest[j] is Unreadable));
            }
        } else {
            assert forall|j: int| 0 <= j < rest.len() implies !((#[trigger] inputs[j]) is Unreadable) by {
                assert(!(rest[j] is Unreadable));
            }
            let last = inputs.len() - 1;
            assert(inputs[last] == inputs.last());
        }
    }
}

/// A language that is blank or `auto`, in whatever case, is none; any other is one.
pub proof fn law_auto_is_no_language(value: Seq<char>)
    ensures
        value.len() == 0 ==> means_no_language(value),
        means_no_language(value) && value.len() > 0 ==> value.len() == 4 && text::lowered(value)[0]
            == 'a' && text::lowered(value)[1] == 'u' && text::lowered(value)[2] == 't'
            && text::lowered(value)[3] == 'o',
        text::lowered(value) == "auto"@ ==> means_no_language(value),
{
    reveal_strlit("auto");
    if means_no_language(value) && value.len() > 0 {
        assert(text::lowered(value).len() == value.len());
    }
}

/// A model lets a request choose its language exactly if it can be told one or has a
/// single one; a language is offered exactly if one of the model's is the same but for
/// case and the white space around the request.
pub proof fn law_languages_are_offered(
    mode: Option<LanguageMode>,
    languages: Seq<Seq<char>>,
    language: Seq<char>,
    at: int,
)
    ensures
        lets_choose(mode) <==> mode is Some && mode->Some_0 != LanguageMode::DetectImplicit
            && mode->Some_0 != LanguageMode::FixedMultilingual && mode->Some_0
            != LanguageMode::Unknown,
        0 <= at < languages.len() && text::lowered(languages[at]) == text::lowered(
            text::trimmed(language),
        ) ==> offers(languages, language),
        offers(languages, language) ==> exists|i: int|
            0 <= i < languages.len() && text::lowered(#[trigger] languages[i]) == text::lowered(
                text::trimmed(language),
            ),
        languages.len() == 0 ==> !offers(languages, language),
{
}

/// The lines that show a model's languages give its name, every code in order, its way
/// with languages and its default.
pub proof fn law_language_lines_show_the_model(model: CatalogModel)
    ensures
        language_lines(model).len() == 5,
        language_lines(model)[0].len() == 0,
        language_lines(model)[1] == "Languages for "@ + model.id@ + ":"@,
        language_lines(model)[2] == "- codes: "@ + text::joined(
            text::texts(model.languages@),
            ", "@,
        ),
        language_lines(model)[3] == "- mode: "@ + language_mode_text(model.language_mode),
        model.language_default is Some ==> language_lines(model)[4] == "- default: "@
            + model.language_default->Some_0@,
        model.language_default is None ==> language_lines(model)[4] == "- default: "@ + "(none)"@,
        language_mode_text(None) == "unspecified"@,
        language_mode_text(Some(LanguageMode::Unknown)) == "unspecified"@,
        language_mode_text(Some(LanguageMode::SpecifyOnly))
            == "specify_only (set --language; the default is used when unset)"@,
        language_mode_text(Some(LanguageMode::DetectAndSpecify))
            == "detect_and_specify (auto-detect, or set --language)"@,
        language_mode_text(Some(LanguageMode::DetectImplicit))
            == "detect_implicit (self-detects; --language is rejected)"@,
        language_mode_text(Some(LanguageMode::FixedMonolingual))
            == "fixed_monolingual (one fixed language)"@,
        language_mode_text(Some(LanguageMode::FixedMultilingual))
            == "fixed_multilingual (built-in set; --language is rejected)"@,
{
}

/// A timing is refused exactly if something is asked for with it that it does not
/// measure: voices, times of words, an adapter, a language, a task or favoured words.
pub proof fn law_timing_is_asked_for_alone(extras: RequestExtras)
    ensures
        benchmark_conflict(extras) ==> extras.benchmark,
        extras.benchmark ==> (!benchmark_conflict(extras) <==> !extras.diarize
            && extras.word_timestamps is None && !extras.has_adapter && !extras.has_language
            && !extras.has_task && extras.hotword_count == 0),
{
}

/// What a script is told: that the input was wrong, that a model is missing, or nothing
/// beyond that there was an error.
pub proof fn law_exit_codes_tell_input_from_install(fault: TranscribeError)
    ensures
        exit_code_of(fault) == Some(ExitCode::InputError) <==> fault is BenchmarkConflict
            || fault is LanguageUnsupported || fault is StdinNotAlone || fault is NoInputs
            || fault is BenchmarkNotSingle || fault is SingleInputOnly
            || fault is NeedsOutputDirectory,
        exit_code_of(fault) == Some(ExitCode::ModelNotInstalled)
            <==> fault is DiarizationPacksOffline || fault is AlignerPackOffline
            || fault is AlignerPackMissing,
{
}

/// A transcription goes through its steps in order: a language is checked where one was
/// asked for and no pack was given, a model is installed for the native backend where no
/// pack was given, and the rest is done in every run. A failure stops it for good.
pub proof fn law_transcription_goes_through_its_steps(
    step: TranscribeStep,
    extras: RequestExtras,
    kind: BackendKind,
)
    ensures
        next_transcribe_step(step, false, extras, kind) == TranscribeStep::Failed,
        next_transcribe_step(TranscribeStep::Failed, true, extras, kind) == TranscribeStep::Failed,
        ({
            let after = |step: TranscribeStep| next_transcribe_step(step, true, extras, kind);
            &&& after(TranscribeStep::CheckFlags) == TranscribeStep::CheckLanguage
                <==> extras.has_language && !extras.has_model_pack
            &&& after(TranscribeStep::CheckFlags) == TranscribeStep::ChooseBackend <==> !(
            extras.has_language && !extras.has_model_pack)
            &&& after(TranscribeStep::CheckLanguage) == TranscribeStep::ChooseBackend
            &&& after(TranscribeStep::ChooseBackend) == TranscribeStep::InstallModel <==> kind
                == BackendKind::Native && !extras.has_model_pack
            &&& after(TranscribeStep::ChooseBackend) == TranscribeStep::Prepare <==> kind
                != BackendKind::Native || extras.has_model_pack
            &&& after(TranscribeStep::InstallModel) == TranscribeStep::Prepare
            &&& after(TranscribeStep::Prepare) == TranscribeStep::InstallDiarization
            &&& after(TranscribeStep::InstallDiarization) == TranscribeStep::CheckDiarization
            &&& after(TranscribeStep::CheckDiarization) == TranscribeStep::InstallAligner
            &&& after(TranscribeStep::InstallAligner) == TranscribeStep::CheckAlignment
            &&& after(TranscribeStep::CheckAlignment) == TranscribeStep::Route
        }),
{
}

/// The pack that aligns words is needed exactly on the native backend, where aligned
/// words were asked for, where voices are told apart by a model that needs it, or where
/// subtitles are written. A needed pack that is missing is installed exactly if aligned
/// words were asked for, none was named and the run is not offline; one that was named is
/// an error, and so is a run that is offline or did not ask.
pub proof fn law_aligner_is_installed_on_asking(
    kind: BackendKind,
    mode: Option<WordTimestampsMode>,
    diarize: bool,
    model_needs_it: bool,
    subtitles: bool,
    available: bool,
    named: bool,
    offline: bool,
)
    ensures
        ({
            let asked = mode == Some(WordTimestampsMode::Aligned);
            let needed = kind == BackendKind::Native && (asked || (diarize && model_needs_it)
                || subtitles);
            let step = aligner_step(
                kind,
                mode,
                diarize,
                model_needs_it,
                subtitles,
                available,
                named,
                offline,
            );
            &&& needs_aligner(kind, mode, diarize, model_needs_it, subtitles) == needed
            &&& step == AlignerStep::Nothing <==> available || !needed
            &&& step == AlignerStep::OverrideInvalid <==> needed && !available && named
            &&& step == AlignerStep::Offline <==> needed && !available && !named && offline
            &&& step == AlignerStep::Install <==> needed && !available && !named && !offline
                && asked
            &&& step == AlignerStep::Missing <==> needed && !available && !named && !offline
                && !asked
        }),
{
}

/// Each input has an output of its own exactly if there are several or one is a
/// directory; and the standard input is read exactly if an input is a dash.
pub proof fn law_inputs_have_their_own_outputs(
    facts: RouteFacts,
    inputs: Seq<Seq<char>>,
    installing: TranscribeStep,
)
    ensures
        per_file_output(facts) <==> facts.input_count >= 2 || facts.any_directory,
        names_stdin(inputs) <==> exists|i: int|
            0 <= i < inputs.len() && #[trigger] inputs[i] == "-"@,
        installs(installing) <==> installing is InstallModel || installing is InstallDiarization
            || installing is InstallAligner,
{
    if exists|i: int| 0 <= i < inputs.len() && #[trigger] inputs[i] == "-"@ {
        let i = choose|i: int| 0 <= i < inputs.len() && #[trigger] inputs[i] == "-"@;
        assert(inputs.contains(inputs[i]));
    }
}

/// A tally lists every file that was transcribed with its transcript, and every one that
/// was not with its reason, in the order in which they were taken down.
pub proof fn law_tally_lists_every_file(
    outputs: Seq<BatchOutput>,
    failures: Seq<BatchFailure>,
    at: int,
)
    ensures
        outputs_of(outputs).len() == outputs.len(),
        0 <= at < outputs.len() ==> outputs_of(outputs)[at] == (
            outputs[at].input_path@,
            outputs[at].output_path@,
        ),
        failures_of(failures).len() == failures.len(),
        0 <= at < failures.len() ==> failures_of(failures)[at] == (
            failures[at].input_path@,
            failures[at].error@,
        ),
{
}

/// A message of a failed transcription names the model, the language, the path and the
/// reason that it is about.
pub proof fn law_transcription_messages_name_their_subject(
    shown: Seq<char>,
    model: String,
    language: String,
    supported: String,
    path: String,
    error: String,
)
    ensures
        is_transcribe_message(
            TranscribeError::LanguageUnsupported { model, language, supported },
            shown,
        ) ==> text::occurs(shown, model@) && text::occurs(shown, language@) && text::occurs(
            shown,
            supported@,
        ),
        is_transcribe_message(TranscribeError::OutputNotCreated { path, error }, shown)
            ==> text::occurs(shown, path@) && text::occurs(shown, error@),
        is_transcribe_message(TranscribeError::OutputUnreadable { path, error }, shown)
            ==> text::occurs(shown, path@) && text::occurs(shown, error@),
        is_transcribe_message(TranscribeError::FileFailed { path, error }, shown) ==> text::occurs(
            shown,
            path@,
        ) && text::occurs(shown, error@),
{
    text::lemma_both_occur("Model '"@, model@, "' does not support --language '"@, language@);
    let named = "Model '"@ + model@ + "' does not support --language '"@ + language@;
    let third = "'.\nSupported languages: "@;
    text::lemma_occurs_further(named, model@, third);
    text::lemma_occurs_further(named, language@, third);
    text::lemma_occurs_further(named + third, model@, supported@);
    text::lemma_occurs_further(named + third, language@, supported@);
    text::lemma_occurs_behind(named + third, supported@);
    text::lemma_both_occur(
        "Could not create batch output directory: "@,
        path@,
        "\nPlease choose a writable output directory. Details: "@,
        error@,
    );
    text::lemma_both_occur(
        "Could not read batch output directory: "@,
        path@,
        "\nPlease check the path and directory permissions. Details: "@,
        error@,
    );
    text::lemma_both_occur("Transcription failed for "@, path@, ": "@, error@);
    let failed = "Transcription failed for "@ + path@ + ": "@ + error@;
    let last =
        "\nCompleted outputs from earlier files were preserved. The failing file output was not written unless a previous final output already existed."@;
    text::lemma_occurs_further(failed, path@, last);
    text::lemma_occurs_further(failed, error@, last);
}

/// A message counts the files that failed, and names the output that is no directory; any
/// other failure is told in its own words.
pub proof fn law_failed_files_are_counted(
    shown: Seq<char>,
    path: String,
    error: String,
    count: usize,
)
    ensures
        is_transcribe_message(TranscribeError::FilesFailed(count), shown) ==> text::occurs(
            shown,
            text::decimal(count as nat),
        ),
        is_transcribe_message(TranscribeError::OutputNotDirectory(path), shown) ==> text::occurs(
            shown,
            path@,
        ),
        is_transcribe_message(TranscribeError::Other(error), shown) <==> shown == error@,
{
    text::lemma_occurs_between(
        "Completed with "@,
        text::decimal(count as nat),
        " failed file(s). See the summary above."@,
    );
    text::lemma_occurs_between(
        "Batch output path is not a directory: "@,
        path@,
        "\nPlease provide a directory path for batch transcript files."@,
    );
}

} // verus!
