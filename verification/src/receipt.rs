//! Short-audio receipts: what a request must satisfy, which pack and device a
//! receipt names, and what of the caller's environment it may keep.

use vstd::prelude::*;

use crate::backend;
use crate::backend::{backend_name, BackendKind};
use crate::logits;
use crate::logits::LogitsError;
use crate::text;
use crate::trace;
use crate::trace::{TraceError, TraceLineFacts};

verus! {

/// Why a receipt command stops.
#[derive(Debug)]
pub enum ReceiptError {
    NoRuns,
    UnsafeScope,
    AudioNotFound(String),
    TraceNeedsNative,
    LogitsNeedTrace,
    TraceNeedsOneRun,
    ReceiptAndTraceCollide,
    LogitsCollide,
    TraceExists,
    LogitsExist,
    UnsupportedDevice(String),
    NativeNeedsPack,
    PackNotBound(String),
    TraceHasSlices,
    NoExecutionFacts,
    TraceIncomplete,
    Trace(TraceError),
    NoLogits,
    LogitsDoNotCover,
    Logits(LogitsError),
    NoReceipts,
    ReceiptUnreadable(u64),
    ReceiptInvalid(u64),
    ReceiptIneligible(u64),
}

/// The message for a device that cannot be asked for.
pub open spec fn unsupported_device(device: Seq<char>) -> Seq<char> {
    "Unsupported --device '"@ + device
        + "'. Use one of: cpu, metal, cuda, accelerated, auto."@
}

/// The message of a receipt error.
pub open spec fn receipt_message(error: ReceiptError) -> Seq<char> {
    match error {
        ReceiptError::NoRuns => "--runs must be >= 1"@,
        ReceiptError::UnsafeScope => "--scope must be a privacy-safe semantic label, optionally followed by one '/<32-lower-hex-nonce>' runner suffix"@,
        ReceiptError::AudioNotFound(path) => "Audio file not found: "@ + path@ + "\nPass an existing WAV/audio path via --audio."@,
        ReceiptError::TraceNeedsNative => "--trace-out requires --backend native; mock cannot produce a native trace"@,
        ReceiptError::LogitsNeedTrace => "--logits-out requires --trace-out"@,
        ReceiptError::TraceNeedsOneRun => "--trace-out requires --runs 1 so one artifact binds one measured request"@,
        ReceiptError::ReceiptAndTraceCollide => "--out and --trace-out must name different output targets"@,
        ReceiptError::LogitsCollide => "--logits-out must name a different target from --out and --trace-out"@,
        ReceiptError::TraceExists => "refusing to overwrite runtime trace output"@,
        ReceiptError::LogitsExist => "refusing to overwrite full logits trace output"@,
        ReceiptError::UnsupportedDevice(device) => unsupported_device(device@),
        ReceiptError::NativeNeedsPack => "Native short-audio receipt requires an installed model pack or --model-pack.\nRun: openasr pull <model>   or pass --model-pack <path.oasr>"@,
        ReceiptError::PackNotBound(model) => "Could not bind pack content for model '"@ + model@ + "'. Install it or pass --model-pack."@,
        ReceiptError::TraceHasSlices => "--trace-out rejects multi-slice native requests; trace schema has no slice identity"@,
        ReceiptError::NoExecutionFacts => "native trace is missing request-scoped execution facts"@,
        ReceiptError::TraceIncomplete => "native trace is incomplete; refusing to emit a strict runtime trace"@,
        ReceiptError::Trace(inner) => trace::trace_message(inner),
        ReceiptError::NoLogits => "native FullLogits trace is missing its complete logits artifact"@,
        ReceiptError::LogitsDoNotCover => "native FullLogits trace does not cover every token-selection step"@,
        ReceiptError::Logits(inner) => logits::logits_message(inner),
        ReceiptError::NoReceipts => "at least one --receipt is required"@,
        ReceiptError::ReceiptUnreadable(number) => "Could not read qualification receipt #"@ + text::decimal(number as nat),
        ReceiptError::ReceiptInvalid(number) => "Qualification receipt #"@ + text::decimal(number as nat) + " is invalid"@,
        ReceiptError::ReceiptIneligible(number) => "Qualification receipt #"@ + text::decimal(number as nat) + " is ineligible"@,
    }
}

impl ReceiptError {
    /// The message shown for the error.
    pub fn message(&self) -> (text: String)
        ensures
            text@ == receipt_message(*self),
    {
        match self {
            ReceiptError::NoRuns => "--runs must be >= 1".to_owned(),
            ReceiptError::UnsafeScope => "--scope must be a privacy-safe semantic label, optionally followed by one '/<32-lower-hex-nonce>' runner suffix".to_owned(),
            ReceiptError::AudioNotFound(path) => {
                let mut out = "Audio file not found: ".to_owned();
                out.append(path.as_str());
                out.append("\nPass an existing WAV/audio path via --audio.");
                out
            },
            ReceiptError::TraceNeedsNative => "--trace-out requires --backend native; mock cannot produce a native trace".to_owned(),
            ReceiptError::LogitsNeedTrace => "--logits-out requires --trace-out".to_owned(),
            ReceiptError::TraceNeedsOneRun => "--trace-out requires --runs 1 so one artifact binds one measured request".to_owned(),
            ReceiptError::ReceiptAndTraceCollide => "--out and --trace-out must name different output targets".to_owned(),
            ReceiptError::LogitsCollide => "--logits-out must name a different target from --out and --trace-out".to_owned(),
            ReceiptError::TraceExists => "refusing to overwrite runtime trace output".to_owned(),
            ReceiptError::LogitsExist => "refusing to overwrite full logits trace output".to_owned(),
            ReceiptError::UnsupportedDevice(device) => {
                let mut out = "Unsupported --device '".to_owned();
                out.append(device.as_str());
                out.append("'. Use one of: cpu, metal, cuda, accelerated, auto.");
                out
            },
            ReceiptError::NativeNeedsPack => "Native short-audio receipt requires an installed model pack or --model-pack.\nRun: openasr pull <model>   or pass --model-pack <path.oasr>".to_owned(),
            ReceiptError::PackNotBound(model) => {
                let mut out = "Could not bind pack content for model '".to_owned();
                out.append(model.as_str());
                out.append("'. Install it or pass --model-pack.");
                out
            },
            ReceiptError::TraceHasSlices => "--trace-out rejects multi-slice native requests; trace schema has no slice identity".to_owned(),
            ReceiptError::NoExecutionFacts => "native trace is missing request-scoped execution facts".to_owned(),
            ReceiptError::TraceIncomplete => "native trace is incomplete; refusing to emit a strict runtime trace".to_owned(),
            ReceiptError::Trace(inner) => inner.message(),
            ReceiptError::NoLogits => "native FullLogits trace is missing its complete logits artifact".to_owned(),
            ReceiptError::LogitsDoNotCover => "native FullLogits trace does not cover every token-selection step".to_owned(),
            ReceiptError::Logits(inner) => inner.message(),
            ReceiptError::NoReceipts => "at least one --receipt is required".to_owned(),
            ReceiptError::ReceiptUnreadable(number) => {
                let mut out = "Could not read qualification receipt #".to_owned();
                out.append(text::decimal_text(*number).as_str());
                out
            },
            ReceiptError::ReceiptInvalid(number) => {
                let mut out = "Qualification receipt #".to_owned();
                out.append(text::decimal_text(*number).as_str());
                out.append(" is invalid");
                out
            },
            ReceiptError::ReceiptIneligible(number) => {
                let mut out = "Qualification receipt #".to_owned();
                out.append(text::decimal_text(*number).as_str());
                out.append(" is ineligible");
                out
            },
        }
    }
}

/// Whether a result is an error with a message.
pub open spec fn fails_with<T>(result: Result<T, ReceiptError>, message: Seq<char>) -> bool {
    result matches Err(error) && receipt_message(error) == message
}

/// Where a transcription runs.
#[derive(Clone, Copy, Debug, PartialEq, Eq, Structural)]
pub enum ExecutionTarget {
    Cpu,
    Accelerated,
    Auto,
}

/// The execution target that a device name asks for, once it is trimmed and
/// lowered.
pub open spec fn device_target(device: Seq<char>) -> Option<ExecutionTarget> {
    if device == "cpu"@ {
        Some(ExecutionTarget::Cpu)
    } else if device == "auto"@ {
        Some(ExecutionTarget::Auto)
    } else if device == "accelerated"@ || device == "metal"@ || device == "cuda"@ || device
        == "hip"@ || device == "vulkan"@ || device == "gpu"@ {
        Some(ExecutionTarget::Accelerated)
    } else {
        None
    }
}

/// The device label that a receipt keeps: without white space at the ends and in
/// lower case.
pub fn normalize_device_label(raw: &str) -> (label: String)
    ensures
        label@ == text::lowered(text::trimmed(raw@)),
{
    text::lower_text(text::trim_text(raw).as_str())
}

/// The execution target that a device name asks for.
pub fn parse_receipt_device(raw: &str) -> (target: Result<ExecutionTarget, ReceiptError>)
    ensures
        match device_target(text::lowered(text::trimmed(raw@))) {
            Some(expected) => target == Ok::<ExecutionTarget, ReceiptError>(expected),
            None => target matches Err(ReceiptError::UnsupportedDevice(device)) && device@
                == text::lowered(text::trimmed(raw@)),
        },
{
    let device = normalize_device_label(raw);
    let name = device.as_str();
    if text::same_text(name, "cpu") {
        Ok(ExecutionTarget::Cpu)
    } else if text::same_text(name, "auto") {
        Ok(ExecutionTarget::Auto)
    } else if text::same_text(name, "accelerated") || text::same_text(name, "metal")
        || text::same_text(name, "cuda") || text::same_text(name, "hip") || text::same_text(
        name,
        "vulkan",
    ) || text::same_text(name, "gpu") {
        Ok(ExecutionTarget::Accelerated)
    } else {
        Err(ReceiptError::UnsupportedDevice(device))
    }
}

/// The backend preference that a plumbing receipt plans with; none for `auto`.
#[derive(Clone, Copy, Debug, PartialEq, Eq, Structural)]
pub enum RequestBackendPreference {
    CpuOnly,
    Accelerated,
}

/// The preference that stands for an execution target.
pub open spec fn target_preference(target: ExecutionTarget) -> Option<RequestBackendPreference> {
    match target {
        ExecutionTarget::Cpu => Some(RequestBackendPreference::CpuOnly),
        ExecutionTarget::Accelerated => Some(RequestBackendPreference::Accelerated),
        ExecutionTarget::Auto => None,
    }
}

/// The backend preference of a plumbing receipt for a device.
pub fn resolved_runtime_for_mock_receipt(device: &str) -> (preference: Result<
    Option<RequestBackendPreference>,
    ReceiptError,
>)
    ensures
        match device_target(text::lowered(text::trimmed(device@))) {
            Some(target) => preference == Ok::<Option<RequestBackendPreference>, ReceiptError>(
                target_preference(target),
            ),
            None => preference matches Err(ReceiptError::UnsupportedDevice(name)) && name@
                == text::lowered(text::trimmed(device@)),
        },
{
    match parse_receipt_device(device) {
        Ok(ExecutionTarget::Cpu) => Ok(Some(RequestBackendPreference::CpuOnly)),
        Ok(ExecutionTarget::Accelerated) => Ok(Some(RequestBackendPreference::Accelerated)),
        Ok(ExecutionTarget::Auto) => Ok(None),
        Err(error) => Err(error),
    }
}

/// Whether a character is an ASCII letter.
pub open spec fn ascii_letter(c: char) -> bool {
    'a' <= c <= 'z' || 'A' <= c <= 'Z'
}

/// Whether a character is an ASCII letter or digit.
pub open spec fn ascii_alphanumeric(c: char) -> bool {
    ascii_letter(c) || '0' <= c <= '9'
}

/// Whether a character may stand in a scope label.
pub open spec fn scope_char(c: char) -> bool {
    ascii_alphanumeric(c) || c == '-' || c == '_' || c == '.' || c == ':' || c == '+' || c == '@'
        || c == '='
}

/// Whether a text is one segment of a scope label: at most 256 label characters,
/// the first a letter or digit, and no drive prefix.
pub open spec fn safe_scope_segment(value: Seq<char>) -> bool {
    &&& 0 < value.len() <= 256
    &&& ascii_alphanumeric(value[0])
    &&& forall|i: int| 0 <= i < value.len() ==> scope_char(#[trigger] value[i])
    &&& !(value.len() >= 2 && ascii_letter(value[0]) && value[1] == ':')
}

/// Whether a text is a segment, a slash and a nonce, cut at the slash.
pub open spec fn safe_scope_with_nonce(value: Seq<char>, cut: int) -> bool {
    &&& 0 <= cut < value.len()
    &&& value[cut] == '/'
    &&& safe_scope_segment(value.take(cut))
    &&& trace::lower_hex(value.skip(cut + 1), 32)
}

/// Whether a text is a scope label that says nothing of the caller's files: one
/// segment, or one segment and a nonce of 32 hexadecimal digits.
pub open spec fn safe_scope(value: Seq<char>) -> bool {
    safe_scope_segment(value) || exists|cut: int| safe_scope_with_nonce(value, cut)
}

fn is_ascii_letter(c: char) -> (yes: bool)
    ensures
        yes == ascii_letter(c),
{
    ('a' <= c && c <= 'z') || ('A' <= c && c <= 'Z')
}

fn is_ascii_alphanumeric(c: char) -> (yes: bool)
    ensures
        yes == ascii_alphanumeric(c),
{
    is_ascii_letter(c) || ('0' <= c && c <= '9')
}

/// Whether a text is one segment of a scope label.
pub fn privacy_safe_scope_segment(value: &str) -> (safe: bool)
    ensures
        safe == safe_scope_segment(value@),
{
    let chars = text::chars_of(value);
    if chars.len() == 0 || chars.len() > 256 || !is_ascii_alphanumeric(chars[0]) {
        return false;
    }
    if chars.len() >= 2 && is_ascii_letter(chars[0]) && chars[1] == ':' {
        return false;
    }
    let mut i: usize = 0;
    while i < chars.len()
        invariant
            chars@ == value@,
            i <= chars@.len(),
            forall|k: int| 0 <= k < i ==> scope_char(#[trigger] value@[k]),
        decreases chars@.len() - i,
    {
        let c = chars[i];
        if !(is_ascii_alphanumeric(c) || c == '-' || c == '_' || c == '.' || c == ':' || c == '+'
            || c == '@' || c == '=') {
            assert(!scope_char(value@[i as int]));
            return false;
        }
        i += 1;
    }
    true
}

/// Whether a text is a scope label that says nothing of the caller's files.
pub fn privacy_safe_scope_label(value: &str) -> (safe: bool)
    ensures
        safe == safe_scope(value@),
{
    if privacy_safe_scope_segment(value) {
        return true;
    }
    let chars = text::chars_of(value);
    let mut cut: usize = 0;
    while cut < chars.len() && chars[cut] != '/'
        invariant
            chars@ == value@,
            cut <= chars@.len(),
            forall|k: int| 0 <= k < cut ==> value@[k] != '/',
        decreases chars@.len() - cut,
    {
        cut += 1;
    }
    proof {
        assert forall|other: int| safe_scope_with_nonce(value@, other) implies other == cut by {
            if other > cut {
                assert(value@.take(other)[cut as int] == '/');
                assert(!scope_char('/'));
            }
        }
    }
    if cut == chars.len() {
        return false;
    }
    let base = text::text_of(vstd::slice::slice_subrange(chars.as_slice(), 0, cut));
    let nonce = text::text_of(vstd::slice::slice_subrange(chars.as_slice(), cut + 1, chars.len()));
    assert(base@ =~= value@.take(cut as int));
    assert(nonce@ =~= value@.skip(cut + 1));
    let safe = privacy_safe_scope_segment(base.as_str()) && trace::is_lower_hex(nonce.as_str(), 32);
    assert(safe == safe_scope_with_nonce(value@, cut as int));
    safe
}

/// A safe scope label begins with a letter or digit, holds no backslash and no
/// `..` path climb past its one slash, and at most one slash with only a nonce
/// behind it; so it is no path.
pub proof fn law_safe_scope_is_no_path(value: Seq<char>)
    requires
        safe_scope(value),
    ensures
        value.len() > 0,
        ascii_alphanumeric(value[0]),
        !value.contains('\\'),
        !(value.len() >= 2 && ascii_letter(value[0]) && value[1] == ':'),
        forall|i: int|
            0 <= i < value.len() && value[i] == '/' ==> i + 33 == value.len() && trace::lower_hex(
                value.skip(i + 1),
                32,
            ),
{
    if safe_scope_segment(value) {
        assert forall|i: int| 0 <= i < value.len() implies value[i] != '\\' && value[i] != '/' by {
            assert(scope_char(value[i]));
        }
    } else {
        let cut = choose|cut: int| safe_scope_with_nonce(value, cut);
        let base = value.take(cut);
        let nonce = value.skip(cut + 1);
        assert(base[0] == value[0]);
        if base.len() >= 2 {
            assert(base[1] == value[1]);
        }
        assert forall|i: int| 0 <= i < value.len() && i != cut implies value[i] != '\\' && value[i]
            != '/' by {
            if i < cut {
                assert(base[i] == value[i]);
                assert(scope_char(base[i]));
            } else {
                assert(nonce[i - cut - 1] == value[i]);
                assert(trace::lower_hex_digit(nonce[i - cut - 1]));
            }
        }
        assert(!value.contains('\\')) by {
            assert forall|i: int| 0 <= i < value.len() implies value[i] != '\\' by {}
        }
    }
}

/// The label under which a receipt names its audio.
pub open spec fn audio_label(audio_sha256: Seq<char>) -> Seq<char> {
    "audio-sha256:"@ + audio_sha256
}

/// The label under which a receipt names its audio: its digest, never its path.
pub fn receipt_audio_label(audio_sha256: &str) -> (label: String)
    ensures
        label@ == audio_label(audio_sha256@),
{
    let mut label = "audio-sha256:".to_owned();
    label.append(audio_sha256);
    label
}

/// What a short-audio receipt command was asked for. The paths are the caller's
/// spellings.
#[derive(Debug)]
pub struct ShortAudioReceiptOptions {
    pub model: Option<String>,
    pub audio: String,
    pub backend_kind: BackendKind,
    pub device: String,
    pub model_pack: Option<String>,
    pub out: String,
    pub runs: usize,
    pub warmup_runs: usize,
    pub core_commit: Option<String>,
    pub scope: String,
    pub trace_out: Option<String>,
    pub logits_out: Option<String>,
    pub write_outputs: bool,
}

/// Why a receipt request is refused before anything runs.
pub open spec fn request_fault(
    options: ShortAudioReceiptOptions,
    audio_is_file: bool,
) -> Option<Seq<char>> {
    if options.runs == 0 {
        Some(receipt_message(ReceiptError::NoRuns))
    } else if !safe_scope(options.scope@) {
        Some(receipt_message(ReceiptError::UnsafeScope))
    } else if !audio_is_file {
        Some(receipt_message(ReceiptError::AudioNotFound(options.audio)))
    } else if options.trace_out is Some && options.backend_kind != BackendKind::Native {
        Some(receipt_message(ReceiptError::TraceNeedsNative))
    } else if options.logits_out is Some && options.trace_out is None {
        Some(receipt_message(ReceiptError::LogitsNeedTrace))
    } else if options.trace_out is Some && options.runs != 1 {
        Some(receipt_message(ReceiptError::TraceNeedsOneRun))
    } else {
        None
    }
}

/// Checks a receipt request before anything runs. `audio_is_file` says whether
/// the audio path names a file.
pub fn check_receipt_request(options: &ShortAudioReceiptOptions, audio_is_file: bool) -> (result:
    Result<(), ReceiptError>)
    ensures
        match request_fault(*options, audio_is_file) {
            Some(message) => fails_with(result, message),
            None => result is Ok,
        },
{
    if options.runs == 0 {
        return Err(ReceiptError::NoRuns);
    }
    if !privacy_safe_scope_label(options.scope.as_str()) {
        return Err(ReceiptError::UnsafeScope);
    }
    if !audio_is_file {
        return Err(ReceiptError::AudioNotFound(options.audio.clone()));
    }
    if options.trace_out.is_some() && options.backend_kind != BackendKind::Native {
        return Err(ReceiptError::TraceNeedsNative);
    }
    if options.logits_out.is_some() && options.trace_out.is_none() {
        return Err(ReceiptError::LogitsNeedTrace);
    }
    if options.trace_out.is_some() && options.runs != 1 {
        return Err(ReceiptError::TraceNeedsOneRun);
    }
    Ok(())
}

/// Checks that the resolved targets of the receipt and of the trace differ.
pub fn fixed_receipt_and_trace_targets(receipt: &str, trace: &str) -> (result: Result<
    (),
    ReceiptError,
>)
    ensures
        if receipt@ == trace@ {
            result == Err::<(), ReceiptError>(ReceiptError::ReceiptAndTraceCollide)
        } else {
            result is Ok
        },
{
    if text::same_text(receipt, trace) {
        return Err(ReceiptError::ReceiptAndTraceCollide);
    }
    Ok(())
}

/// Checks that the resolved targets of the receipt, of the trace and of the
/// logits are pairwise different.
pub fn fixed_receipt_trace_and_logits_targets(
    receipt: &str,
    trace: &str,
    logits: Option<&str>,
) -> (result: Result<(), ReceiptError>)
    ensures
        if receipt@ == trace@ {
            result == Err::<(), ReceiptError>(ReceiptError::ReceiptAndTraceCollide)
        } else if text::opt_str(logits) == Some(receipt@) || text::opt_str(logits) == Some(trace@) {
            result == Err::<(), ReceiptError>(ReceiptError::LogitsCollide)
        } else {
            result is Ok
        },
{
    match fixed_receipt_and_trace_targets(receipt, trace) {
        Ok(_) => {},
        Err(error) => {
            return Err(error);
        },
    }
    if text::is_text(logits, receipt) || text::is_text(logits, trace) {
        return Err(ReceiptError::LogitsCollide);
    }
    Ok(())
}

/// Checks that neither the trace nor the logits would replace a file.
pub fn check_outputs_are_new(trace_exists: bool, logits_exist: bool) -> (result: Result<
    (),
    ReceiptError,
>)
    ensures
        if trace_exists {
            result == Err::<(), ReceiptError>(ReceiptError::TraceExists)
        } else if logits_exist {
            result == Err::<(), ReceiptError>(ReceiptError::LogitsExist)
        } else {
            result is Ok
        },
{
    if trace_exists {
        return Err(ReceiptError::TraceExists);
    }
    if logits_exist {
        return Err(ReceiptError::LogitsExist);
    }
    Ok(())
}

/// Checks that a native receipt has a pack whose bytes it can bind.
pub fn check_native_pack(backend_kind: BackendKind, has_pack: bool) -> (result: Result<
    (),
    ReceiptError,
>)
    ensures
        if backend_kind == BackendKind::Native && !has_pack {
            result == Err::<(), ReceiptError>(ReceiptError::NativeNeedsPack)
        } else {
            result is Ok
        },
{
    if backend_kind == BackendKind::Native && !has_pack {
        return Err(ReceiptError::NativeNeedsPack);
    }
    Ok(())
}

/// How the execution core reads a model reference: the family, and the canonical
/// form of the tag where the reference has one.
#[derive(Debug)]
pub struct ModelRef {
    pub reference: String,
    pub family: String,
    pub canonical_tag: Option<String>,
}

/// The position of the reading of a reference among `refs`, at or after `from`;
/// their number when the reference was not read.
pub open spec fn ref_position(refs: Seq<ModelRef>, reference: Seq<char>, from: int) -> int
    decreases refs.len() - from,
{
    if from < 0 || from >= refs.len() {
        refs.len() as int
    } else if refs[from].reference@ == reference {
        from
    } else {
        ref_position(refs, reference, from + 1)
    }
}

/// The reading of a reference; nothing where the core could not read it.
pub open spec fn ref_of(refs: Seq<ModelRef>, reference: Seq<char>) -> Option<ModelRef> {
    let at = ref_position(refs, reference, 0);
    if at < refs.len() {
        Some(refs[at])
    } else {
        None
    }
}

/// Looks up the reading of a reference.
fn find_ref<'a>(refs: &'a Vec<ModelRef>, reference: &str) -> (found: Option<&'a ModelRef>)
    ensures
        match found {
            Some(found) => ref_of(refs@, reference@) == Some(*found),
            None => ref_of(refs@, reference@) is None,
        },
{
    let mut i: usize = 0;
    while i < refs.len()
        invariant
            i <= refs@.len(),
            ref_position(refs@, reference@, 0) == ref_position(refs@, reference@, i as int),
        decreases refs@.len() - i,
    {
        if text::same_text(refs[i].reference.as_str(), reference) {
            return Some(&refs[i]);
        }
        i += 1;
    }
    None
}

/// Whether a text holds a path separator.
pub open spec fn local_path(value: Seq<char>) -> bool {
    value.contains('/') || value.contains('\\')
}

/// Whether a text holds a path separator of any system.
pub fn looks_like_local_path(value: &str) -> (yes: bool)
    ensures
        yes == local_path(value@),
{
    let chars = text::chars_of(value);
    let mut i: usize = 0;
    while i < chars.len()
        invariant
            chars@ == value@,
            i <= chars@.len(),
            forall|k: int| 0 <= k < i ==> chars@[k] != '/' && chars@[k] != '\\',
        decreases chars@.len() - i,
    {
        if chars[i] == '/' || chars[i] == '\\' {
            assert(value@[i as int] == chars@[i as int]);
            return true;
        }
        i += 1;
    }
    false
}

/// The text that a displayed model id is taken from: the trimmed argument unless
/// it is empty or looks like a path, else the resolved id.
pub open spec fn display_source(model_arg: Option<Seq<char>>, resolved: Seq<char>) -> Seq<char> {
    match model_arg {
        Some(value) => if text::trimmed(value).len() > 0 && !local_path(text::trimmed(value)) {
            text::trimmed(value)
        } else {
            resolved
        },
        None => resolved,
    }
}

/// The part of a text before its first colon, or all of it.
pub open spec fn before_colon(value: Seq<char>) -> Seq<char>
    decreases value.len(),
{
    if value.len() == 0 || value[0] == ':' {
        seq![]
    } else {
        seq![value[0]] + before_colon(value.drop_first())
    }
}

/// The family of a displayed model id.
pub open spec fn display_family(source: Seq<char>, refs: Seq<ModelRef>) -> Seq<char> {
    match ref_of(refs, source) {
        Some(found) => found.family@,
        None => before_colon(source),
    }
}

/// The model id that a receipt displays: the family, and the quantization unless
/// it is unknown.
pub open spec fn displayed_id(
    model_arg: Option<Seq<char>>,
    resolved: Seq<char>,
    quant: Seq<char>,
    refs: Seq<ModelRef>,
) -> Seq<char> {
    let family = display_family(display_source(model_arg, resolved), refs);
    if quant != "unknown"@ {
        family + ":"@ + quant
    } else {
        family
    }
}

/// The part of a text before its first colon.
fn text_before_colon(value: &str) -> (out: String)
    ensures
        out@ == before_colon(value@),
{
    let chars = text::chars_of(value);
    let mut out = String::new();
    let mut i: usize = 0;
    assert(chars@.skip(0) =~= chars@);
    assert(out@ + before_colon(chars@.skip(0)) =~= before_colon(value@));
    while i < chars.len() && chars[i] != ':'
        invariant
            chars@ == value@,
            i <= chars@.len(),
            out@ + before_colon(chars@.skip(i as int)) == before_colon(value@),
        decreases chars@.len() - i,
    {
        let ghost rest = chars@.skip(i as int);
        let ghost before = out@;
        assert(rest.drop_first() =~= chars@.skip(i + 1));
        text::push_char(&mut out, chars[i]);
        assert(before + (seq![rest[0]] + before_colon(rest.drop_first())) =~= out@ + before_colon(
            rest.drop_first(),
        ));
        i += 1;
    }
    assert(out@ + before_colon(chars@.skip(i as int)) =~= out@);
    out
}

/// The model id that a receipt displays. `refs` holds how the execution core
/// reads the references involved.
pub fn display_model_id(
    model_arg: Option<&str>,
    resolved_model_id: &str,
    quant: &str,
    refs: &Vec<ModelRef>,
) -> (id: String)
    ensures
        id@ == displayed_id(text::opt_str(model_arg), resolved_model_id@, quant@, refs@),
{
    let source = match model_arg {
        Some(value) => {
            let trimmed = text::trim_text(value);
            if !trimmed.as_str().is_empty() && !looks_like_local_path(trimmed.as_str()) {
                trimmed
            } else {
                resolved_model_id.to_owned()
            }
        },
        None => resolved_model_id.to_owned(),
    };
    let mut id = match find_ref(refs, source.as_str()) {
        Some(found) => found.family.clone(),
        None => text_before_colon(source.as_str()),
    };
    if !text::same_text(quant, "unknown") {
        id.append(":");
        id.append(quant);
    }
    id
}

/// A displayed model id repeats nothing of an argument that looks like a path.
pub proof fn law_displayed_id_hides_paths(
    path_arg: Seq<char>,
    resolved: Seq<char>,
    quant: Seq<char>,
    refs: Seq<ModelRef>,
)
    requires
        local_path(text::trimmed(path_arg)),
    ensures
        displayed_id(Some(path_arg), resolved, quant, refs) == displayed_id(
            None,
            resolved,
            quant,
            refs,
        ),
{
}

/// The quantization that a model argument names.
pub open spec fn named_quant(model_arg: Option<Seq<char>>, refs: Seq<ModelRef>) -> Option<
    Seq<char>,
> {
    match model_arg {
        Some(value) => match ref_of(refs, value) {
            Some(found) => text::opt_string(found.canonical_tag),
            None => None,
        },
        None => None,
    }
}

/// A copy of an optional text.
pub(crate) fn clone_optional(value: &Option<String>) -> (copy: Option<String>)
    ensures
        text::opt_string(copy) == text::opt_string(*value),
{
    match value {
        Some(value) => Some(value.clone()),
        None => None,
    }
}

/// The quantization that a model argument names, in its canonical form.
pub fn quant_from_model_ref(model_arg: Option<&str>, refs: &Vec<ModelRef>) -> (quant: Option<
    String,
>)
    ensures
        text::opt_string(quant) == named_quant(text::opt_str(model_arg), refs@),
{
    match model_arg {
        Some(value) => match find_ref(refs, value) {
            Some(found) => clone_optional(&found.canonical_tag),
            None => None,
        },
        None => None,
    }
}

/// An installed model pack, with the canonical forms of its quantization and of
/// its suffix.
#[derive(Debug)]
pub struct InstalledPack {
    pub path: String,
    pub model_id: String,
    pub pull: String,
    pub filename: String,
    pub quant: String,
    pub suffix: String,
    pub canonical_quant: String,
    pub canonical_suffix: String,
    pub sha256: String,
    pub size_bytes: u64,
}

/// The pack that a receipt binds.
#[derive(Debug)]
pub struct PackBinding {
    pub model_id: String,
    pub content_sha256: String,
    pub size_bytes: u64,
    pub quant: String,
}

/// What a pack binding says.
#[verifier::ext_equal]
pub struct PackBindingView {
    pub model_id: Seq<char>,
    pub content_sha256: Seq<char>,
    pub size_bytes: u64,
    pub quant: Seq<char>,
}

impl View for PackBinding {
    type V = PackBindingView;

    open spec fn view(&self) -> PackBindingView {
        PackBindingView {
            model_id: self.model_id@,
            content_sha256: self.content_sha256@,
            size_bytes: self.size_bytes,
            quant: self.quant@,
        }
    }
}

/// A pack file given by its path, with what hashing it gave.
#[derive(Debug)]
pub struct HashedPack {
    pub path: String,
    pub content_sha256: String,
    pub size_bytes: u64,
}

/// Whether an installed pack answers to a model argument: by its pull name or
/// id, or by family with a tag that names its quantization or suffix.
pub open spec fn pack_answers(
    pack: InstalledPack,
    model_arg: Seq<char>,
    refs: Seq<ModelRef>,
) -> bool {
    ||| pack.pull@ == model_arg
    ||| pack.model_id@ == model_arg
    ||| {
        &&& ref_of(refs, model_arg) matches Some(found) && pack.model_id@ == found.family@ && (
        found.canonical_tag is None || found.canonical_tag->0@ == pack.canonical_quant@
            || found.canonical_tag->0@ == pack.canonical_suffix@)
    }
}

/// Whether an installed pack goes by a resolved model id.
pub open spec fn pack_is_named(pack: InstalledPack, resolved: Seq<char>) -> bool {
    pack.model_id@ == resolved || pack.pull@ == resolved || pack.filename@ == resolved
}

/// What a pack is searched by.
pub enum PackQuery {
    Path(Seq<char>),
    Argument(Seq<char>, Seq<ModelRef>),
    Name(Seq<char>),
}

/// Whether a pack is one that is searched for.
pub open spec fn pack_matches(pack: InstalledPack, query: PackQuery) -> bool {
    match query {
        PackQuery::Path(path) => pack.path@ == path,
        PackQuery::Argument(model_arg, refs) => pack_answers(pack, model_arg, refs),
        PackQuery::Name(resolved) => pack_is_named(pack, resolved),
    }
}

/// The first pack at or after `from` that is searched for; their number when
/// none is.
pub open spec fn first_pack(packs: Seq<InstalledPack>, query: PackQuery, from: int) -> int
    decreases packs.len() - from,
{
    if from < 0 || from >= packs.len() {
        packs.len() as int
    } else if pack_matches(packs[from], query) {
        from
    } else {
        first_pack(packs, query, from + 1)
    }
}

/// The pack that a model argument names: the one at the path that the core
/// resolved the argument to, or else the first that answers to it.
pub open spec fn named_pack(
    packs: Seq<InstalledPack>,
    model_arg: Seq<char>,
    resolved_path: Option<Seq<char>>,
    refs: Seq<ModelRef>,
) -> int {
    match resolved_path {
        Some(path) => first_pack(packs, PackQuery::Path(path), 0),
        None => first_pack(packs, PackQuery::Argument(model_arg, refs), 0),
    }
}

/// Whether a search result is the position that the model gives.
pub open spec fn found_at(found: Option<usize>, expected: int, count: nat) -> bool {
    match found {
        Some(at) => at == expected && at < count,
        None => expected == count,
    }
}

fn find_pack_by_path(packs: &Vec<InstalledPack>, path: &str) -> (found: Option<usize>)
    ensures
        found_at(
            found,
            first_pack(packs@, PackQuery::Path(path@), 0),
            packs@.len(),
        ),
{
    let ghost query = PackQuery::Path(path@);
    let mut i: usize = 0;
    while i < packs.len()
        invariant
            query == PackQuery::Path(path@),
            i <= packs@.len(),
            first_pack(packs@, query, 0) == first_pack(packs@, query, i as int),
        decreases packs@.len() - i,
    {
        if text::same_text(packs[i].path.as_str(), path) {
            return Some(i);
        }
        i += 1;
    }
    None
}

fn does_pack_answer(pack: &InstalledPack, model_arg: &str, refs: &Vec<ModelRef>) -> (yes: bool)
    ensures
        yes == pack_answers(*pack, model_arg@, refs@),
{
    if text::same_text(pack.pull.as_str(), model_arg) || text::same_text(
        pack.model_id.as_str(),
        model_arg,
    ) {
        return true;
    }
    match find_ref(refs, model_arg) {
        Some(found) => {
            if !text::same_text(pack.model_id.as_str(), found.family.as_str()) {
                return false;
            }
            match &found.canonical_tag {
                None => true,
                Some(tag) => text::same_text(tag.as_str(), pack.canonical_quant.as_str())
                    || text::same_text(tag.as_str(), pack.canonical_suffix.as_str()),
            }
        },
        None => false,
    }
}

/// The pack that a model argument names. `resolved_path` is the path of the pack
/// that the core resolved the argument to, where it resolved one.
pub fn find_installed_pack(
    packs: &Vec<InstalledPack>,
    model_arg: &str,
    resolved_path: Option<&str>,
    refs: &Vec<ModelRef>,
) -> (found: Option<usize>)
    ensures
        found_at(
            found,
            named_pack(packs@, model_arg@, text::opt_str(resolved_path), refs@),
            packs@.len(),
        ),
{
    if let Some(path) = resolved_path {
        return find_pack_by_path(packs, path);
    }
    let ghost query = PackQuery::Argument(model_arg@, refs@);
    let mut i: usize = 0;
    while i < packs.len()
        invariant
            resolved_path is None,
            query == PackQuery::Argument(model_arg@, refs@),
            i <= packs@.len(),
            first_pack(packs@, query, 0) == first_pack(packs@, query, i as int),
        decreases packs@.len() - i,
    {
        if does_pack_answer(&packs[i], model_arg, refs) {
            return Some(i);
        }
        i += 1;
    }
    None
}

fn find_named_pack(packs: &Vec<InstalledPack>, resolved: &str) -> (found: Option<usize>)
    ensures
        found_at(
            found,
            first_pack(packs@, PackQuery::Name(resolved@), 0),
            packs@.len(),
        ),
{
    let ghost query = PackQuery::Name(resolved@);
    let mut i: usize = 0;
    while i < packs.len()
        invariant
            query == PackQuery::Name(resolved@),
            i <= packs@.len(),
            first_pack(packs@, query, 0) == first_pack(packs@, query, i as int),
        decreases packs@.len() - i,
    {
        if text::same_text(packs[i].model_id.as_str(), resolved) || text::same_text(
            packs[i].pull.as_str(),
            resolved,
        ) || text::same_text(packs[i].filename.as_str(), resolved) {
            return Some(i);
        }
        i += 1;
    }
    None
}

/// The binding of an installed pack.
pub open spec fn installed_binding(
    model_arg: Seq<char>,
    pack: InstalledPack,
    refs: Seq<ModelRef>,
) -> PackBindingView {
    PackBindingView {
        model_id: displayed_id(Some(model_arg), pack.model_id@, pack.quant@, refs),
        content_sha256: pack.sha256@,
        size_bytes: pack.size_bytes,
        quant: pack.quant@,
    }
}

/// The binding of an installed pack that a model argument named.
pub fn binding_from_installed(model_arg: &str, pack: &InstalledPack, refs: &Vec<ModelRef>) -> (
binding: PackBinding)
    ensures
        binding@ == installed_binding(model_arg@, *pack, refs@),
{
    PackBinding {
        model_id: display_model_id(
            Some(model_arg),
            pack.model_id.as_str(),
            pack.quant.as_str(),
            refs,
        ),
        content_sha256: pack.sha256.clone(),
        size_bytes: pack.size_bytes,
        quant: pack.quant.clone(),
    }
}

/// A text or, where there is none, `unknown`.
pub open spec fn or_unknown(value: Option<Seq<char>>) -> Seq<char> {
    match value {
        Some(value) => value,
        None => "unknown"@,
    }
}

/// The digest that stands for no pack: 64 zeros.
pub open spec fn zero_digest() -> Seq<char> {
    Seq::new(64, |i: int| '0')
}

/// What a receipt binds: the pack given by path, else the installed pack that
/// the argument names, else the one that goes by the resolved id, else, for the
/// mock backend, a placeholder.
pub open spec fn pack_binding(
    model_arg: Option<Seq<char>>,
    resolved: Seq<char>,
    explicit: Option<HashedPack>,
    backend_kind: BackendKind,
    packs: Seq<InstalledPack>,
    resolved_path: Option<Seq<char>>,
    refs: Seq<ModelRef>,
) -> Option<PackBindingView> {
    let by_arg = match model_arg {
        Some(value) => named_pack(packs, value, resolved_path, refs),
        None => packs.len() as int,
    };
    let by_id = first_pack(packs, PackQuery::Name(resolved), 0);
    match explicit {
        Some(file) => {
            let at = first_pack(packs, PackQuery::Path(file.path@), 0);
            let quant = if at < packs.len() {
                packs[at].quant@
            } else {
                or_unknown(named_quant(model_arg, refs))
            };
            Some(
                PackBindingView {
                    model_id: displayed_id(model_arg, resolved, quant, refs),
                    content_sha256: file.content_sha256@,
                    size_bytes: file.size_bytes,
                    quant,
                },
            )
        },
        None => if by_arg < packs.len() {
            Some(installed_binding(model_arg->0, packs[by_arg], refs))
        } else if by_id < packs.len() {
            Some(
                installed_binding(
                    match model_arg {
                        Some(value) => value,
                        None => resolved,
                    },
                    packs[by_id],
                    refs,
                ),
            )
        } else if backend_kind == BackendKind::Mock {
            let quant = or_unknown(named_quant(model_arg, refs));
            Some(
                PackBindingView {
                    model_id: displayed_id(model_arg, resolved, quant, refs),
                    content_sha256: zero_digest(),
                    size_bytes: 0,
                    quant,
                },
            )
        } else {
            None
        },
    }
}

fn zeros() -> (out: String)
    ensures
        out@ == zero_digest(),
{
    let mut out = String::new();
    let mut i: usize = 0;
    while i < 64
        invariant
            i <= 64,
            out@ == zero_digest().take(i as int),
        decreases 64 - i,
    {
        text::push_char(&mut out, '0');
        assert(zero_digest().take(i + 1) =~= zero_digest().take(i as int).push('0'));
        i += 1;
    }
    assert(zero_digest().take(64) =~= zero_digest());
    out
}

/// Binds the pack of a receipt. `explicit` is the pack given by path once it was
/// validated and hashed; `resolved_path` is the path of the installed pack that
/// the core resolved the model argument to.
pub fn resolve_pack_binding(
    model_arg: Option<&str>,
    resolved_model_id: &str,
    explicit: Option<&HashedPack>,
    backend_kind: BackendKind,
    packs: &Vec<InstalledPack>,
    resolved_path: Option<&str>,
    refs: &Vec<ModelRef>,
) -> (binding: Result<PackBinding, ReceiptError>)
    ensures
        match pack_binding(
            text::opt_str(model_arg),
            resolved_model_id@,
            (match explicit {
                Some(explicit) => Some(*explicit),
                None => None,
            }),
            backend_kind,
            packs@,
            text::opt_str(resolved_path),
            refs@,
        ) {
            Some(expected) => binding matches Ok(binding) && binding@ == expected,
            None => binding matches Err(ReceiptError::PackNotBound(model)) && model@ == (
            match model_arg {
                Some(value) => value@,
                None => resolved_model_id@,
            }),
        },
{
    if let Some(file) = explicit {
        let quant = match find_pack_by_path(packs, file.path.as_str()) {
            Some(at) => packs[at].quant.clone(),
            None => match quant_from_model_ref(model_arg, refs) {
                Some(quant) => quant,
                None => "unknown".to_owned(),
            },
        };
        let model_id = display_model_id(model_arg, resolved_model_id, quant.as_str(), refs);
        return Ok(
            PackBinding {
                model_id,
                content_sha256: file.content_sha256.clone(),
                size_bytes: file.size_bytes,
                quant,
            },
        );
    }
    if let Some(value) = model_arg {
        if let Some(at) = find_installed_pack(packs, value, resolved_path, refs) {
            return Ok(binding_from_installed(value, &packs[at], refs));
        }
    }
    let shown = match model_arg {
        Some(value) => value,
        None => resolved_model_id,
    };
    if let Some(at) = find_named_pack(packs, resolved_model_id) {
        return Ok(binding_from_installed(shown, &packs[at], refs));
    }
    if backend_kind == BackendKind::Mock {
        let quant = match quant_from_model_ref(model_arg, refs) {
            Some(quant) => quant,
            None => "unknown".to_owned(),
        };
        let model_id = display_model_id(model_arg, resolved_model_id, quant.as_str(), refs);
        return Ok(PackBinding { model_id, content_sha256: zeros(), size_bytes: 0, quant });
    }
    Err(ReceiptError::PackNotBound(shown.to_owned()))
}

/// The command that a receipt keeps. No path of the caller occurs in it: the
/// audio and the pack are named by their digests and the outputs by their roles.
pub open spec fn receipt_command(
    options: ShortAudioReceiptOptions,
    pack: PackBindingView,
    device_label: Seq<char>,
    audio: Seq<char>,
) -> Seq<Seq<char>> {
    seq![
        "openasr"@,
        "bench-receipt"@,
        "short-audio"@,
        "--audio"@,
        audio,
        "--backend"@,
        backend::backend_text(options.backend_kind),
        "--device"@,
        device_label,
        "--out"@,
        "receipt-output"@,
        "--runs"@,
        text::decimal(options.runs as nat),
        "--warmup-runs"@,
        text::decimal(options.warmup_runs as nat),
        "--scope"@,
        options.scope@,
        "--model"@,
        pack.model_id,
    ] + (if options.model_pack is Some {
        seq!["--model-pack"@, "pack-content-sha256:"@ + pack.content_sha256]
    } else {
        seq![]
    }) + (match options.core_commit {
        Some(core_commit) => seq!["--core-commit"@, core_commit@],
        None => seq![],
    }) + (if options.trace_out is Some {
        seq!["--trace-out"@, "runtime-trace-output"@]
    } else {
        seq![]
    }) + (if options.logits_out is Some {
        seq!["--logits-out"@, "full-logits-output"@]
    } else {
        seq![]
    })
}

/// Appends two words to a command.
fn push_pair(command: &mut Vec<String>, first: &str, second: &str)
    ensures
        text::texts(final(command)@) == text::texts(old(command)@) + seq![first@, second@],
{
    command.push(first.to_owned());
    command.push(second.to_owned());
    assert(text::texts(command@) =~= text::texts(old(command)@) + seq![first@, second@]);
}

/// The command that a receipt keeps.
pub fn build_command_argv(
    options: &ShortAudioReceiptOptions,
    pack: &PackBinding,
    device_label: &str,
    audio_label: &str,
) -> (command: Vec<String>)
    ensures
        text::texts(command@) == receipt_command(*options, pack@, device_label@, audio_label@),
{
    let mut command: Vec<String> = Vec::new();
    command.push("openasr".to_owned());
    command.push("bench-receipt".to_owned());
    command.push("short-audio".to_owned());
    let ghost base = text::texts(command@);
    assert(base =~= seq!["openasr"@, "bench-receipt"@, "short-audio"@]);
    push_pair(&mut command, "--audio", audio_label);
    push_pair(&mut command, "--backend", backend_name(options.backend_kind));
    push_pair(&mut command, "--device", device_label);
    push_pair(&mut command, "--out", "receipt-output");
    push_pair(&mut command, "--runs", text::decimal_text(options.runs as u64).as_str());
    push_pair(
        &mut command,
        "--warmup-runs",
        text::decimal_text(options.warmup_runs as u64).as_str(),
    );
    push_pair(&mut command, "--scope", options.scope.as_str());
    push_pair(&mut command, "--model", pack.model_id.as_str());
    let ghost fixed = text::texts(command@);
    assert(fixed =~= seq![
        "openasr"@,
        "bench-receipt"@,
        "short-audio"@,
        "--audio"@,
        audio_label@,
        "--backend"@,
        backend::backend_text(options.backend_kind),
        "--device"@,
        device_label@,
        "--out"@,
        "receipt-output"@,
        "--runs"@,
        text::decimal(options.runs as nat),
        "--warmup-runs"@,
        text::decimal(options.warmup_runs as nat),
        "--scope"@,
        options.scope@,
        "--model"@,
        pack@.model_id,
    ]);
    if options.model_pack.is_some() {
        let mut digest = "pack-content-sha256:".to_owned();
        digest.append(pack.content_sha256.as_str());
        push_pair(&mut command, "--model-pack", digest.as_str());
    }
    if let Some(core_commit) = &options.core_commit {
        push_pair(&mut command, "--core-commit", core_commit.as_str());
    }
    if options.trace_out.is_some() {
        push_pair(&mut command, "--trace-out", "runtime-trace-output");
    }
    if options.logits_out.is_some() {
        push_pair(&mut command, "--logits-out", "full-logits-output");
    }
    assert(text::texts(command@) =~= receipt_command(
        *options,
        pack@,
        device_label@,
        audio_label@,
    ));
    command
}

/// The command that a receipt keeps depends on which paths were given, never on
/// what they are.
pub proof fn law_receipt_command_hides_paths(
    left: ShortAudioReceiptOptions,
    right: ShortAudioReceiptOptions,
    pack: PackBindingView,
    device_label: Seq<char>,
    audio: Seq<char>,
)
    requires
        left.backend_kind == right.backend_kind,
        left.runs == right.runs,
        left.warmup_runs == right.warmup_runs,
        left.scope@ == right.scope@,
        text::opt_string(left.core_commit) == text::opt_string(right.core_commit),
        left.model_pack is Some == right.model_pack is Some,
        left.trace_out is Some == right.trace_out is Some,
        left.logits_out is Some == right.logits_out is Some,
    ensures
        receipt_command(left, pack, device_label, audio) == receipt_command(
            right,
            pack,
            device_label,
            audio,
        ),
{
}

/// The part of the environment that a receipt keeps.
pub open spec fn env_allowlist(
    core_commit: Seq<char>,
    ggml_backend: Option<Seq<char>>,
    build_commit: Option<Seq<char>>,
    build_commit_is_valid: bool,
    offline: Option<Seq<char>>,
) -> Seq<(Seq<char>, Seq<char>)> {
    let normal = |value: Seq<char>| text::lowered(text::trimmed(value));
    (if build_commit is Some && normal(build_commit->0) == core_commit && build_commit_is_valid {
        seq![("OPENASR_BUILD_COMMIT"@, normal(build_commit->0))]
    } else {
        seq![]
    }) + (if ggml_backend is Some && kept_backend(normal(ggml_backend->0)) {
        seq![("OPENASR_GGML_BACKEND"@, normal(ggml_backend->0))]
    } else {
        seq![]
    }) + (if offline is Some && switched_on(normal(offline->0)) {
        seq![("OPENASR_OFFLINE"@, "true"@)]
    } else {
        seq![]
    })
}

/// Whether a backend name is one that a receipt keeps.
pub open spec fn kept_backend(name: Seq<char>) -> bool {
    name == "cpu"@ || name == "metal"@ || name == "gpu"@ || name == "cuda"@ || name == "hip"@
        || name == "vulkan"@
}

/// Whether a value switches a setting on.
pub open spec fn switched_on(value: Seq<char>) -> bool {
    value == "1"@ || value == "true"@ || value == "yes"@ || value == "on"@
}

/// The views of named values.
pub open spec fn pairs_view(pairs: Seq<(String, String)>) -> Seq<(Seq<char>, Seq<char>)> {
    pairs.map_values(|pair: (String, String)| (pair.0@, pair.1@))
}

/// The part of the environment that a receipt keeps, in the order of the names.
/// The arguments are the values of the variables where they are set, and whether
/// the core accepts the normalized build commit.
pub fn capture_env_allowlist(
    core_commit: &str,
    ggml_backend: Option<&str>,
    build_commit: Option<&str>,
    build_commit_is_valid: bool,
    offline: Option<&str>,
) -> (kept: Vec<(String, String)>)
    ensures
        pairs_view(kept@) == env_allowlist(
            core_commit@,
            text::opt_str(ggml_backend),
            text::opt_str(build_commit),
            build_commit_is_valid,
            text::opt_str(offline),
        ),
{
    let mut kept: Vec<(String, String)> = Vec::new();
    if let Some(value) = build_commit {
        let normalized = normalize_device_label(value);
        if text::same_text(normalized.as_str(), core_commit) && build_commit_is_valid {
            kept.push(("OPENASR_BUILD_COMMIT".to_owned(), normalized));
        }
    }
    if let Some(value) = ggml_backend {
        let normalized = normalize_device_label(value);
        let name = normalized.as_str();
        if text::same_text(name, "cpu") || text::same_text(name, "metal") || text::same_text(
            name,
            "gpu",
        ) || text::same_text(name, "cuda") || text::same_text(name, "hip") || text::same_text(
            name,
            "vulkan",
        ) {
            kept.push(("OPENASR_GGML_BACKEND".to_owned(), normalized));
        }
    }
    if let Some(value) = offline {
        let normalized = normalize_device_label(value);
        let name = normalized.as_str();
        if text::same_text(name, "1") || text::same_text(name, "true") || text::same_text(
            name,
            "yes",
        ) || text::same_text(name, "on") {
            kept.push(("OPENASR_OFFLINE".to_owned(), "true".to_owned()));
        }
    }
    assert(pairs_view(kept@) =~= env_allowlist(
        core_commit@,
        text::opt_str(ggml_backend),
        text::opt_str(build_commit),
        build_commit_is_valid,
        text::opt_str(offline),
    ));
    kept
}

/// How one pass of a receipt run is made.
#[derive(Clone, Copy, Debug, PartialEq, Eq, Structural)]
pub struct PassPlan {
    pub is_warmup: bool,
    pub is_cold: bool,
    pub traces_full_logits: bool,
}

/// The number of passes of a receipt run: the warm-up passes and the timed ones.
pub fn total_passes(warmup_runs: usize, runs: usize) -> (total: usize)
    ensures
        total == if warmup_runs + runs <= usize::MAX {
            warmup_runs + runs
        } else {
            usize::MAX as int
        },
{
    warmup_runs.saturating_add(runs)
}

/// How a pass is made: the first ones warm up, the very first runs cold, and a
/// timed pass keeps its full logits when they are wanted.
pub fn plan_pass(pass: usize, options: &ShortAudioReceiptOptions) -> (plan: PassPlan)
    ensures
        plan.is_warmup == (pass < options.warmup_runs),
        plan.is_cold == (pass == 0),
        plan.traces_full_logits == (pass >= options.warmup_runs && (options.logits_out is Some
            || !options.write_outputs)),
{
    let is_warmup = pass < options.warmup_runs;
    PassPlan {
        is_warmup,
        is_cold: pass == 0,
        traces_full_logits: (options.logits_out.is_some() || !options.write_outputs) && !is_warmup,
    }
}

/// The warm-up and cache labels of a receipt.
pub fn warmup_labels(warmup_runs: usize) -> (labels: (String, String))
    ensures
        labels.0@ == if warmup_runs > 0 {
            "warm"@
        } else {
            "cold"@
        },
        labels.1@ == if warmup_runs > 0 {
            "populated"@
        } else {
            "empty"@
        },
{
    if warmup_runs > 0 {
        ("warm".to_owned(), "populated".to_owned())
    } else {
        ("cold".to_owned(), "empty".to_owned())
    }
}

/// The notes with which a receipt begins.
pub open spec fn first_notes(backend_kind: BackendKind, measurement: Seq<char>) -> Seq<Seq<char>> {
    (if backend_kind == BackendKind::Mock {
        seq!["backend=mock: transcript and RTF are plumbing-only, not a quality/perf claim"@]
    } else {
        seq![]
    }) + seq![
        "placement is the requested device; observed_placement reports actual ggml graph-node backends"@,
        "measurement_method="@ + measurement,
    ]
}

/// The notes with which a receipt begins. `measurement` names the method of
/// measurement.
pub fn begin_notes(backend_kind: BackendKind, measurement: &str) -> (notes: Vec<String>)
    ensures
        text::texts(notes@) == first_notes(backend_kind, measurement@),
{
    let mut notes: Vec<String> = Vec::new();
    if backend_kind == BackendKind::Mock {
        notes.push(
            "backend=mock: transcript and RTF are plumbing-only, not a quality/perf claim".to_owned(),
        );
    }
    notes.push(
        "placement is the requested device; observed_placement reports actual ggml graph-node backends".to_owned(),
    );
    let mut method = "measurement_method=".to_owned();
    method.append(measurement);
    notes.push(method);
    assert(text::texts(notes@) =~= first_notes(backend_kind, measurement@));
    notes
}

/// The notes on how decoding stopped: one for each truncated decode, or one for
/// the stop token where nothing was truncated and the last step ended the text.
pub open spec fn stop_notes(truncated: Seq<Seq<char>>, last_step_is_eot: bool) -> Seq<Seq<char>> {
    if truncated.len() > 0 {
        truncated.map_values(|reason: Seq<char>| "decode_stop="@ + reason)
    } else if last_step_is_eot {
        seq!["decode_stop=stop_token"@]
    } else {
        seq![]
    }
}

/// The notes on how decoding stopped.
pub fn decode_stop_notes(truncated: &Vec<String>, last_step_is_eot: bool) -> (notes: Vec<String>)
    ensures
        text::texts(notes@) == stop_notes(text::texts(truncated@), last_step_is_eot),
{
    let mut notes: Vec<String> = Vec::new();
    assert(text::texts(truncated@).len() == truncated@.len());
    let ghost expected = stop_notes(text::texts(truncated@), last_step_is_eot);
    if truncated.len() > 0 {
        let mut i: usize = 0;
        while i < truncated.len()
            invariant
                truncated@.len() > 0,
                expected == stop_notes(text::texts(truncated@), last_step_is_eot),
                expected.len() == truncated@.len(),
                i <= truncated@.len(),
                text::texts(notes@) == expected.take(i as int),
            decreases truncated@.len() - i,
        {
            let mut note = "decode_stop=".to_owned();
            note.append(truncated[i].as_str());
            assert(text::texts(truncated@)[i as int] == truncated@[i as int]@);
            assert(expected[i as int] == note@);
            notes.push(note);
            assert(text::texts(notes@) =~= expected.take(i as int).push(note@));
            assert(expected.take(i + 1) =~= expected.take(i as int).push(note@));
            i += 1;
        }
        assert(expected.take(i as int) =~= expected);
    } else if last_step_is_eot {
        notes.push("decode_stop=stop_token".to_owned());
        assert(text::texts(notes@) =~= expected);
    } else {
        assert(text::texts(notes@) =~= expected);
    }
    notes
}

/// What a native run recorded of its trace.
#[derive(Debug)]
pub struct NativeTraceSnapshot {
    pub completed: bool,
    pub trace_overflowed: bool,
    pub trace_invalid_binding: bool,
    pub trace_event_count: usize,
    pub jsonl: String,
    pub line_facts: Vec<TraceLineFacts>,
    pub lifecycle_overflowed: bool,
    pub lifecycle_event_count: usize,
    pub facts: Option<NativeExecutionFacts>,
    pub full_logits_jsonl: Option<String>,
    pub full_logits_step_count: usize,
    pub token_step_count: usize,
}

/// The route that a native run selected and the one that it took.
#[derive(Debug)]
pub struct NativeExecutionFacts {
    pub selected_provider: String,
    pub actual_provider: Option<String>,
    pub stable_device_id: String,
    pub actual_stable_device_id: Option<String>,
    pub actual_device_known: bool,
    pub scheduler_known: bool,
}

/// Whether a run took the route that it selected and recorded it in full.
pub open spec fn facts_are_complete(facts: NativeExecutionFacts) -> bool {
    &&& text::opt_string(facts.actual_provider) == Some(facts.selected_provider@)
    &&& text::opt_string(facts.actual_stable_device_id) == Some(facts.stable_device_id@)
    &&& facts.actual_device_known
    &&& facts.scheduler_known
}

/// Whether a native run recorded a whole trace on the route that it selected.
pub open spec fn snapshot_is_complete(snapshot: NativeTraceSnapshot) -> bool {
    &&& snapshot.completed
    &&& !snapshot.trace_overflowed
    &&& !snapshot.trace_invalid_binding
    &&& snapshot.trace_event_count > 0
    &&& snapshot.jsonl@.len() > 0
    &&& !snapshot.lifecycle_overflowed
    &&& snapshot.lifecycle_event_count > 0
    &&& snapshot.facts matches Some(facts) && facts_are_complete(facts)
}

/// Whether the trace of a native run may be published, and its logits with it
/// when they are wanted.
pub open spec fn publication(
    snapshot: NativeTraceSnapshot,
    wants_logits: bool,
    max_steps: nat,
    max_vocab: nat,
) -> Result<(), ReceiptError> {
    if snapshot.facts is None {
        Err(ReceiptError::NoExecutionFacts)
    } else if !snapshot_is_complete(snapshot) {
        Err(ReceiptError::TraceIncomplete)
    } else {
        match trace::strict_trace(
            trace::trace_events(snapshot.jsonl@),
            snapshot.line_facts@,
            max_steps,
        ) {
            Err(error) => Err(ReceiptError::Trace(error)),
            Ok(_) => if !wants_logits {
                Ok(())
            } else if snapshot.full_logits_jsonl is None {
                Err(ReceiptError::NoLogits)
            } else if snapshot.full_logits_step_count != snapshot.token_step_count
                || snapshot.full_logits_step_count == 0 {
                Err(ReceiptError::LogitsDoNotCover)
            } else {
                match logits::full_logits_trace(
                    logits::jsonl_events(snapshot.full_logits_jsonl->0@),
                    logits::jsonl_events(snapshot.jsonl@),
                    max_steps,
                    max_vocab,
                ) {
                    Err(error) => Err(ReceiptError::Logits(error)),
                    Ok(_) => Ok(()),
                }
            },
        }
    }
}

/// Whether an optional text holds exactly the expected characters.
fn optional_is(actual: &Option<String>, expected: &str) -> (same: bool)
    ensures
        same == (text::opt_string(*actual) == Some(expected@)),
{
    match actual {
        Some(value) => text::same_text(value.as_str(), expected),
        None => false,
    }
}

/// Checks whether the trace of a native run may be published, and its logits
/// with it when they are wanted.
pub fn check_native_trace(
    snapshot: &NativeTraceSnapshot,
    wants_logits: bool,
    max_steps: usize,
    max_vocab: usize,
) -> (result: Result<(), ReceiptError>)
    requires
        snapshot.line_facts@.len() == text::lines_of(snapshot.jsonl@).len(),
    ensures
        result == publication(*snapshot, wants_logits, max_steps as nat, max_vocab as nat),
{
    let facts = match &snapshot.facts {
        Some(facts) => facts,
        None => {
            return Err(ReceiptError::NoExecutionFacts);
        },
    };
    if !snapshot.completed || snapshot.trace_overflowed || snapshot.trace_invalid_binding
        || snapshot.trace_event_count == 0 || snapshot.jsonl.as_str().is_empty()
        || snapshot.lifecycle_overflowed || snapshot.lifecycle_event_count == 0 || !optional_is(
        &facts.actual_provider,
        facts.selected_provider.as_str(),
    ) || !optional_is(&facts.actual_stable_device_id, facts.stable_device_id.as_str())
        || !facts.actual_device_known || !facts.scheduler_known {
        return Err(ReceiptError::TraceIncomplete);
    }
    match trace::validate_strict_runtime_trace(
        snapshot.jsonl.as_str(),
        &snapshot.line_facts,
        max_steps,
    ) {
        Ok(_) => {},
        Err(error) => {
            return Err(ReceiptError::Trace(error));
        },
    }
    if !wants_logits {
        return Ok(());
    }
    let full_logits = match &snapshot.full_logits_jsonl {
        Some(full_logits) => full_logits,
        None => {
            return Err(ReceiptError::NoLogits);
        },
    };
    if snapshot.full_logits_step_count != snapshot.token_step_count
        || snapshot.full_logits_step_count == 0 {
        return Err(ReceiptError::LogitsDoNotCover);
    }
    match logits::validate_full_logits_trace(
        full_logits.as_str(),
        snapshot.jsonl.as_str(),
        max_steps,
        max_vocab,
    ) {
        Ok(_) => Ok(()),
        Err(error) => Err(ReceiptError::Logits(error)),
    }
}

/// A trace is never published for a run that took another provider or device
/// than it selected.
pub proof fn law_published_trace_took_its_route(
    snapshot: NativeTraceSnapshot,
    wants_logits: bool,
    max_steps: nat,
    max_vocab: nat,
)
    requires
        publication(snapshot, wants_logits, max_steps, max_vocab) is Ok,
    ensures
        snapshot.facts is Some,
        facts_are_complete(snapshot.facts->0),
        trace::strict_trace(
            trace::trace_events(snapshot.jsonl@),
            snapshot.line_facts@,
            max_steps,
        ) is Ok,
{
}

/// Checks that a traced request ran as one slice. `chunk_count` is the number of
/// slices of a long-form request.
pub fn check_single_slice(traces: bool, chunk_count: Option<usize>) -> (result: Result<
    (),
    ReceiptError,
>)
    ensures
        if traces && (chunk_count matches Some(count) && count > 1) {
            result == Err::<(), ReceiptError>(ReceiptError::TraceHasSlices)
        } else {
            result is Ok
        },
{
    match chunk_count {
        Some(count) => {
            if traces && count > 1 {
                return Err(ReceiptError::TraceHasSlices);
            }
            Ok(())
        },
        None => Ok(()),
    }
}

/// What reading and checking a qualification receipt gave.
#[derive(Clone, Copy, Debug, PartialEq, Eq, Structural)]
pub enum ReceiptCheck {
    Unreadable,
    Invalid,
    Ineligible,
    Eligible,
}

/// The outcome of checking receipts from the one at `from` on.
pub open spec fn qualification(checks: Seq<ReceiptCheck>, from: int) -> Result<(), ReceiptError>
    decreases checks.len() - from,
{
    if from < 0 || from >= checks.len() {
        Ok(())
    } else {
        match checks[from] {
            ReceiptCheck::Unreadable => Err(ReceiptError::ReceiptUnreadable((from + 1) as u64)),
            ReceiptCheck::Invalid => Err(ReceiptError::ReceiptInvalid((from + 1) as u64)),
            ReceiptCheck::Ineligible => Err(ReceiptError::ReceiptIneligible((from + 1) as u64)),
            ReceiptCheck::Eligible => qualification(checks, from + 1),
        }
    }
}

/// Validates qualification receipts: there must be one, and the first that fails
/// its check is reported with its number.
pub fn validate_qualification_receipts(checks: &Vec<ReceiptCheck>) -> (result: Result<
    (),
    ReceiptError,
>)
    ensures
        result == if checks@.len() == 0 {
            Err(ReceiptError::NoReceipts)
        } else {
            qualification(checks@, 0)
        },
{
    if checks.len() == 0 {
        return Err(ReceiptError::NoReceipts);
    }
    let mut i: usize = 0;
    while i < checks.len()
        invariant
            i <= checks@.len(),
            qualification(checks@, 0) == qualification(checks@, i as int),
        decreases checks@.len() - i,
    {
        match checks[i] {
            ReceiptCheck::Unreadable => {
                return Err(ReceiptError::ReceiptUnreadable((i + 1) as u64));
            },
            ReceiptCheck::Invalid => {
                return Err(ReceiptError::ReceiptInvalid((i + 1) as u64));
            },
            ReceiptCheck::Ineligible => {
                return Err(ReceiptError::ReceiptIneligible((i + 1) as u64));
            },
            ReceiptCheck::Eligible => {},
        }
        i += 1;
    }
    Ok(())
}

/// Why an accelerator receipt does not show the placement it claims.
#[derive(Debug)]
pub enum PlacementError {
    NoMetalNodes,
    Fallback(Vec<(String, u64)>),
}

/// Whether a backend name stands for Metal.
pub open spec fn metal_backend(backend: Seq<char>) -> bool {
    text::occurs(text::lowered(backend), "metal"@) || text::begins(text::lowered(backend), "mtl"@)
}

/// Whether a backend name stands for Metal.
fn is_metal_backend(backend: &str) -> (yes: bool)
    ensures
        yes == metal_backend(backend@),
{
    let normalized = text::lower_text(backend);
    text::contains_text(normalized.as_str(), "metal") || text::begins_with(
        normalized.as_str(),
        "mtl",
    )
}

/// The views of node counts by backend.
pub open spec fn counts_view(counts: Seq<(String, u64)>) -> Seq<(Seq<char>, u64)> {
    counts.map_values(|count: (String, u64)| (count.0@, count.1))
}

/// The counts of nodes that ran outside Metal, from the entry at `from` on.
pub open spec fn outside_metal(counts: Seq<(Seq<char>, u64)>, upto: nat) -> Seq<(Seq<char>, u64)>
    decreases upto,
{
    if upto == 0 {
        seq![]
    } else {
        let before = outside_metal(counts, (upto - 1) as nat);
        let entry = counts[upto - 1];
        if !metal_backend(entry.0) && entry.1 > 0 {
            before.push(entry)
        } else {
            before
        }
    }
}

/// Whether some node ran on Metal.
pub open spec fn ran_on_metal(counts: Seq<(Seq<char>, u64)>) -> bool {
    exists|i: int|
        0 <= i < counts.len() && metal_backend((#[trigger] counts[i]).0) && counts[i].1 > 0
}

/// Holds a Metal receipt to the backends on which its compute nodes ran: some
/// must have run on Metal and none elsewhere. Receipts for other devices are not
/// held to anything.
pub fn validate_observed_accelerator_placement(
    requested_device: &str,
    compute_nodes: &Vec<(String, u64)>,
) -> (result: Result<(), PlacementError>)
    ensures
        ({
            let counts = counts_view(compute_nodes@);
            if text::lowered(requested_device@) != text::lowered("metal"@) {
                result is Ok
            } else if !ran_on_metal(counts) {
                result matches Err(PlacementError::NoMetalNodes)
            } else if outside_metal(counts, counts.len()).len() > 0 {
                result matches Err(PlacementError::Fallback(entries)) && counts_view(entries@)
                    == outside_metal(counts, counts.len())
            } else {
                result is Ok
            }
        }),
{
    if !text::same_ignoring_case(requested_device, "metal") {
        return Ok(());
    }
    let ghost counts = counts_view(compute_nodes@);
    let mut on_metal = false;
    let mut outside: Vec<(String, u64)> = Vec::new();
    let mut i: usize = 0;
    assert(counts_view(outside@) =~= seq![]);
    while i < compute_nodes.len()
        invariant
            counts == counts_view(compute_nodes@),
            counts.len() == compute_nodes@.len(),
            i <= compute_nodes@.len(),
            on_metal == exists|k: int|
                0 <= k < i && metal_backend((#[trigger] counts[k]).0) && counts[k].1 > 0,
            counts_view(outside@) == outside_metal(counts, i as nat),
        decreases compute_nodes@.len() - i,
    {
        let nodes: u64 = compute_nodes[i].1;
        assert(counts[i as int] == (compute_nodes@[i as int].0@, nodes));
        let ghost before = counts_view(outside@);
        if is_metal_backend(compute_nodes[i].0.as_str()) {
            if nodes > 0 {
                on_metal = true;
            }
        } else if nodes > 0 {
            outside.push((compute_nodes[i].0.clone(), nodes));
            assert(counts_view(outside@) =~= before.push(counts[i as int]));
        }
        i += 1;
    }
    assert(counts_view(outside@).len() == outside@.len());
    if !on_metal {
        return Err(PlacementError::NoMetalNodes);
    }
    if outside.len() > 0 {
        return Err(PlacementError::Fallback(outside));
    }
    Ok(())
}

/// In an accepted Metal receipt every node that ran at all ran on Metal.
pub proof fn law_metal_receipt_has_no_fallback(counts: Seq<(Seq<char>, u64)>, at: int)
    requires
        outside_metal(counts, counts.len()).len() == 0,
        0 <= at < counts.len(),
        counts[at].1 > 0,
    ensures
        metal_backend(counts[at].0),
{
    if !metal_backend(counts[at].0) {
        lemma_outside_metal_keeps(counts, counts.len(), at);
    }
}

proof fn lemma_outside_metal_keeps(counts: Seq<(Seq<char>, u64)>, upto: nat, at: int)
    requires
        0 <= at < upto <= counts.len(),
        counts[at].1 > 0,
        !metal_backend(counts[at].0),
    ensures
        outside_metal(counts, upto).len() > 0,
    decreases upto,
{
    if at < upto - 1 {
        lemma_outside_metal_keeps(counts, (upto - 1) as nat, at);
    }
}

/// What is known of a native run whose decode diagnostics are missing.
#[derive(Clone, Copy, Debug, PartialEq, Eq, Structural)]
pub struct DiagnosticsSnapshot {
    pub completed: bool,
    pub has_facts: bool,
    pub token_steps: usize,
    pub lifecycle_events: usize,
    pub overflowed: bool,
}

/// `true` or `false`.
pub open spec fn boolean_text(value: bool) -> Seq<char> {
    if value {
        "true"@
    } else {
        "false"@
    }
}

fn boolean_name(value: bool) -> (name: &'static str)
    ensures
        name@ == boolean_text(value),
{
    if value {
        "true"
    } else {
        "false"
    }
}

/// What the message on missing decode diagnostics says of the run.
pub open spec fn diagnostics_detail(snapshot: Option<DiagnosticsSnapshot>) -> Seq<char> {
    match snapshot {
        None => "native snapshot is absent"@,
        Some(snapshot) => "native snapshot completed="@ + boolean_text(snapshot.completed)
            + " facts="@ + boolean_text(snapshot.has_facts) + " token_steps="@ + text::decimal(
            snapshot.token_steps as nat,
        ) + " lifecycle_events="@ + text::decimal(snapshot.lifecycle_events as nat)
            + " overflowed="@ + boolean_text(snapshot.overflowed),
    }
}

/// The message for a run whose decode diagnostics are missing.
pub fn missing_diagnostics_message(snapshot: Option<DiagnosticsSnapshot>) -> (message: String)
    ensures
        message@
            == "short-audio receipt is missing shipped output_plan/reuse_mode; refusing to emit a receipt ("@
            + diagnostics_detail(snapshot) + ")"@,
{
    let mut detail = String::new();
    match snapshot {
        None => {
            detail.append("native snapshot is absent");
            assert(detail@ =~= diagnostics_detail(snapshot));
        },
        Some(snapshot) => {
            detail = "native snapshot completed=".to_owned();
            detail.append(boolean_name(snapshot.completed));
            detail.append(" facts=");
            detail.append(boolean_name(snapshot.has_facts));
            detail.append(" token_steps=");
            detail.append(text::decimal_text(snapshot.token_steps as u64).as_str());
            detail.append(" lifecycle_events=");
            detail.append(text::decimal_text(snapshot.lifecycle_events as u64).as_str());
            detail.append(" overflowed=");
            detail.append(boolean_name(snapshot.overflowed));
        },
    }
    let mut message =
        "short-audio receipt is missing shipped output_plan/reuse_mode; refusing to emit a receipt (".to_owned();
    message.append(detail.as_str());
    message.append(")");
    message
}

/// A device is known exactly under these names: the processor, the automatic choice, and
/// the accelerators; and a plumbing receipt plans with the preference that goes with it.
pub proof fn law_devices_have_these_targets(device: Seq<char>)
    ensures
        device_target(device) == Some(ExecutionTarget::Cpu) <==> device == "cpu"@,
        device_target(device) == Some(ExecutionTarget::Auto) <==> device == "auto"@,
        device_target(device) == Some(ExecutionTarget::Accelerated) <==> seq![
            "accelerated"@,
            "metal"@,
            "cuda"@,
            "hip"@,
            "vulkan"@,
            "gpu"@,
        ].contains(device),
        target_preference(ExecutionTarget::Cpu) == Some(RequestBackendPreference::CpuOnly),
        target_preference(ExecutionTarget::Accelerated) == Some(
            RequestBackendPreference::Accelerated,
        ),
        target_preference(ExecutionTarget::Auto) is None,
{
    let names = seq!["accelerated"@, "metal"@, "cuda"@, "hip"@, "vulkan"@, "gpu"@];
    assert(names[0] == "accelerated"@ && names[1] == "metal"@ && names[2] == "cuda"@ && names[3]
        == "hip"@ && names[4] == "vulkan"@ && names[5] == "gpu"@);
    reveal_strlit("cpu");
    reveal_strlit("auto");
    reveal_strlit("accelerated");
    reveal_strlit("metal");
    reveal_strlit("cuda");
    reveal_strlit("hip");
    reveal_strlit("vulkan");
    reveal_strlit("gpu");
    assert("cpu"@[0] == 'c' && "auto"@[0] == 'a' && "auto"@[1] == 'u' && "accelerated"@[1] == 'c');
    assert("metal"@[0] == 'm' && "hip"@[0] == 'h' && "vulkan"@[0] == 'v' && "gpu"@[0] == 'g');
    assert("cuda"@.len() == 4 && "cpu"@.len() == 3 && "cuda"@[0] == 'c');
}

/// A scope label is safe exactly if it is one segment, or one segment, a slash and 32
/// lower-case hexadecimal digits. A segment is of one to 256 letters, digits and the marks
/// `-_.:+@=`, begins with a letter or a digit, and not as a drive does.
pub proof fn law_safe_scopes(segment: Seq<char>, nonce: Seq<char>)
    ensures
        safe_scope_segment(segment) <==> {
            &&& 1 <= segment.len() <= 256
            &&& ascii_alphanumeric(segment[0])
            &&& forall|i: int|
                0 <= i < segment.len() ==> {
                    let c = #[trigger] segment[i];
                    ||| 'a' <= c && c <= 'z'
                    ||| 'A' <= c && c <= 'Z'
                    ||| '0' <= c && c <= '9'
                    ||| seq!['-', '_', '.', ':', '+', '@', '='].contains(c)
                }
            &&& !(segment.len() > 1 && segment[1] == ':' && ('a' <= segment[0] && segment[0] <= 'z'
                || 'A' <= segment[0] && segment[0] <= 'Z'))
        },
        safe_scope_segment(segment) ==> safe_scope(segment),
        safe_scope_segment(segment) && trace::lower_hex(nonce, 32) ==> safe_scope(
            segment + seq!['/'] + nonce,
        ),
        safe_scope(segment) && !safe_scope_segment(segment) ==> exists|cut: int|
            0 <= cut < segment.len() && segment[cut] == '/' && safe_scope_segment(
                #[trigger] segment.take(cut),
            ) && trace::lower_hex(segment.skip(cut + 1), 32),
{
    let marks = seq!['-', '_', '.', ':', '+', '@', '='];
    assert(marks[0] == '-' && marks[1] == '_' && marks[2] == '.' && marks[3] == ':' && marks[4]
        == '+' && marks[5] == '@' && marks[6] == '=');
    assert forall|c: char| #[trigger] scope_char(c) <==> {
        ||| 'a' <= c && c <= 'z'
        ||| 'A' <= c && c <= 'Z'
        ||| '0' <= c && c <= '9'
        ||| marks.contains(c)
    } by {}
    if forall|i: int|
        0 <= i < segment.len() ==> {
            let c = #[trigger] segment[i];
            ||| 'a' <= c && c <= 'z'
            ||| 'A' <= c && c <= 'Z'
            ||| '0' <= c && c <= '9'
            ||| marks.contains(c)
        } {
        assert forall|i: int| 0 <= i < segment.len() implies scope_char(#[trigger] segment[i]) by {}
    }
    if safe_scope_segment(segment) {
        assert forall|i: int| 0 <= i < segment.len() implies ({
            let c = #[trigger] segment[i];
            ||| 'a' <= c && c <= 'z'
            ||| 'A' <= c && c <= 'Z'
            ||| '0' <= c && c <= '9'
            ||| marks.contains(c)
        }) by {
            assert(scope_char(segment[i]));
        }
    }
    let whole = segment + seq!['/'] + nonce;
    if safe_scope_segment(segment) && trace::lower_hex(nonce, 32) {
        assert(whole.take(segment.len() as int) =~= segment);
        assert(whole.skip(segment.len() as int + 1) =~= nonce);
        assert(safe_scope_with_nonce(whole, segment.len() as int));
    }
    if safe_scope(segment) && !safe_scope_segment(segment) {
        let cut = choose|cut: int| safe_scope_with_nonce(segment, cut);
        assert(safe_scope_segment(segment.take(cut)));
    }
}

/// A receipt request is accepted exactly if it asks for a run, its scope is safe, its
/// audio is a file, a trace is asked of the native backend and of one run alone, and
/// logits only with a trace.
pub proof fn law_receipt_request_is_accepted(
    options: ShortAudioReceiptOptions,
    audio_is_file: bool,
)
    ensures
        request_fault(options, audio_is_file) is None <==> {
            &&& options.runs > 0
            &&& safe_scope(options.scope@)
            &&& audio_is_file
            &&& options.trace_out is Some ==> options.backend_kind == BackendKind::Native
                && options.runs == 1
            &&& options.logits_out is Some ==> options.trace_out is Some
        },
{
}

/// The reading of a reference is the first of that reference, and there is one exactly
/// if it was read.
pub proof fn law_reading_is_the_first_of_its_reference(refs: Seq<ModelRef>, reference: Seq<char>)
    ensures
        ref_of(refs, reference) is None <==> forall|i: int|
            0 <= i < refs.len() ==> (#[trigger] refs[i]).reference@ != reference,
        ref_of(refs, reference) matches Some(found) ==> found.reference@ == reference && exists|
            i: int,
        |
            #![trigger refs[i]]
            0 <= i < refs.len() && refs[i] == found && forall|j: int|
                0 <= j < i ==> (#[trigger] refs[j]).reference@ != reference,
{
    lemma_ref_position(refs, reference, 0);
    let at = ref_position(refs, reference, 0);
    if at < refs.len() {
        assert(refs[at].reference@ == reference);
    }
}

proof fn lemma_ref_position(refs: Seq<ModelRef>, reference: Seq<char>, from: int)
    requires
        0 <= from <= refs.len(),
    ensures
        ({
            let at = ref_position(refs, reference, from);
            &&& from <= at <= refs.len()
            &&& at < refs.len() ==> refs[at].reference@ == reference
            &&& forall|j: int| from <= j < at ==> (#[trigger] refs[j]).reference@ != reference
        }),
    decreases refs.len() - from,
{
    if from < refs.len() && refs[from].reference@ != reference {
        lemma_ref_position(refs, reference, from + 1);
    }
}

/// What stands before the first colon of a text has no colon in it, is a beginning of the
/// text, and is all of it where it has none.
pub proof fn law_before_the_first_colon(value: Seq<char>)
    ensures
        before_colon(value).len() <= value.len(),
        before_colon(value) == value.take(before_colon(value).len() as int),
        !before_colon(value).contains(':'),
        before_colon(value).len() < value.len() ==> value[before_colon(value).len() as int] == ':',
    decreases value.len(),
{
    if value.len() > 0 && value[0] != ':' {
        let rest = value.drop_first();
        law_before_the_first_colon(rest);
        let part = before_colon(rest);
        assert(before_colon(value) =~= value.take(part.len() as int + 1)) by {
            assert(part =~= rest.take(part.len() as int));
            assert forall|i: int| 0 <= i < part.len() implies part[i] == value[i + 1] by {
                assert(rest.take(part.len() as int)[i] == rest[i]);
            }
        }
        if before_colon(value).contains(':') {
            let i = choose|i: int| 0 <= i < before_colon(value).len() && before_colon(value)[i] == ':';
            assert(part[i - 1] == ':');
        }
    } else {
        assert(before_colon(value) =~= value.take(0));
    }
}

/// The model id that a receipt shows: the family that the core reads from the model
/// argument, or from the resolved id where the argument is blank or a path, and after it
/// the quantization, where it is known.
pub proof fn law_displayed_id_names_family_and_quant(
    model_arg: Option<Seq<char>>,
    resolved: Seq<char>,
    quant: Seq<char>,
    refs: Seq<ModelRef>,
)
    ensures
        ({
            let given = model_arg is Some && text::trimmed(model_arg->Some_0).len() > 0
                && !text::trimmed(model_arg->Some_0).contains('/') && !text::trimmed(
                model_arg->Some_0,
            ).contains('\\');
            let source = if given {
                text::trimmed(model_arg->Some_0)
            } else {
                resolved
            };
            let family = if ref_of(refs, source) is Some {
                ref_of(refs, source)->Some_0.family@
            } else {
                before_colon(source)
            };
            &&& quant == "unknown"@ ==> displayed_id(model_arg, resolved, quant, refs) == family
            &&& quant != "unknown"@ ==> displayed_id(model_arg, resolved, quant, refs) == family
                + ":"@ + quant
        }),
{
}

/// A search finds the first pack that is searched for, and none exactly if there is none.
pub proof fn law_search_finds_the_first_pack(packs: Seq<InstalledPack>, query: PackQuery)
    ensures
        0 <= first_pack(packs, query, 0) <= packs.len(),
        first_pack(packs, query, 0) == packs.len() <==> forall|i: int|
            0 <= i < packs.len() ==> !pack_matches(#[trigger] packs[i], query),
        first_pack(packs, query, 0) < packs.len() ==> pack_matches(
            packs[first_pack(packs, query, 0)],
            query,
        ),
        forall|i: int|
            0 <= i < first_pack(packs, query, 0) ==> !pack_matches(#[trigger] packs[i], query),
{
    lemma_first_pack(packs, query, 0);
}

proof fn lemma_first_pack(packs: Seq<InstalledPack>, query: PackQuery, from: int)
    requires
        0 <= from <= packs.len(),
    ensures
        ({
            let at = first_pack(packs, query, from);
            &&& from <= at <= packs.len()
            &&& at < packs.len() ==> pack_matches(packs[at], query)
            &&& forall|i: int| from <= i < at ==> !pack_matches(#[trigger] packs[i], query)
        }),
    decreases packs.len() - from,
{
    if from < packs.len() && !pack_matches(packs[from], query) {
        lemma_first_pack(packs, query, from + 1);
    }
}

/// A pack is searched for by its path; by an argument that is its pull name or its id, or
/// that names its family and, where it has a tag, its quantization or suffix; or by a
/// name that is its id, its pull name or its file name.
pub proof fn law_packs_answer_to_their_names(
    pack: InstalledPack,
    value: Seq<char>,
    refs: Seq<ModelRef>,
)
    ensures
        pack_matches(pack, PackQuery::Path(value)) <==> pack.path@ == value,
        pack_matches(pack, PackQuery::Name(value)) <==> value == pack.model_id@ || value
            == pack.pull@ || value == pack.filename@,
        pack_matches(pack, PackQuery::Argument(value, refs)) <==> value == pack.pull@ || value
            == pack.model_id@ || (ref_of(refs, value) is Some && ({
            let read = ref_of(refs, value)->Some_0;
            &&& read.family@ == pack.model_id@
            &&& read.canonical_tag is Some ==> read.canonical_tag->Some_0@ == pack.canonical_quant@
                || read.canonical_tag->Some_0@ == pack.canonical_suffix@
        })),
{
}

/// What a receipt binds. A pack given by its path is bound by its own digest and size,
/// whatever is installed; else the installed pack that the argument names, or that goes by
/// the resolved id, by the digest and size that it was installed with; and without any, a
/// mock receipt binds 64 zeros and no bytes, and a native one nothing.
pub proof fn law_receipt_binds_its_pack(
    model_arg: Option<Seq<char>>,
    resolved: Seq<char>,
    explicit: Option<HashedPack>,
    backend_kind: BackendKind,
    packs: Seq<InstalledPack>,
    resolved_path: Option<Seq<char>>,
    refs: Seq<ModelRef>,
)
    ensures
        ({
            let bound = pack_binding(
                model_arg,
                resolved,
                explicit,
                backend_kind,
                packs,
                resolved_path,
                refs,
            );
            let by_arg = if model_arg is None {
                packs.len() as int
            } else if resolved_path is Some {
                first_pack(packs, PackQuery::Path(resolved_path->Some_0), 0)
            } else {
                first_pack(packs, PackQuery::Argument(model_arg->Some_0, refs), 0)
            };
            let by_id = first_pack(packs, PackQuery::Name(resolved), 0);
            &&& bound is None <==> explicit is None && by_arg >= packs.len() && by_id
                >= packs.len() && backend_kind != BackendKind::Mock
            &&& explicit matches Some(file) ==> bound->Some_0.content_sha256
                == file.content_sha256@ && bound->Some_0.size_bytes == file.size_bytes
            &&& explicit is None && by_arg < packs.len() ==> {
                &&& bound->Some_0.content_sha256 == packs[by_arg].sha256@
                &&& bound->Some_0.size_bytes == packs[by_arg].size_bytes
                &&& bound->Some_0.quant == packs[by_arg].quant@
                &&& bound->Some_0.model_id == displayed_id(
                    model_arg,
                    packs[by_arg].model_id@,
                    packs[by_arg].quant@,
                    refs,
                )
            }
            &&& explicit is None && by_arg >= packs.len() && by_id < packs.len() ==> {
                &&& bound->Some_0.content_sha256 == packs[by_id].sha256@
                &&& bound->Some_0.size_bytes == packs[by_id].size_bytes
                &&& bound->Some_0.quant == packs[by_id].quant@
            }
            &&& explicit is None && by_arg >= packs.len() && by_id >= packs.len() && bound is Some
                ==> {
                &&& bound->Some_0.size_bytes == 0
                &&& bound->Some_0.content_sha256.len() == 64
                &&& forall|i: int|
                    0 <= i < 64 ==> #[trigger] bound->Some_0.content_sha256[i] == '0'
            }
        }),
{
    lemma_first_pack(packs, PackQuery::Name(resolved), 0);
    if model_arg is Some {
        lemma_first_pack(packs, PackQuery::Argument(model_arg->Some_0, refs), 0);
    }
    if resolved_path is Some {
        lemma_first_pack(packs, PackQuery::Path(resolved_path->Some_0), 0);
    }
}

/// The command that a receipt keeps names each option that was given, with its value or,
/// for a path, its digest or its role, and names no option that was not.
pub proof fn law_receipt_command_names_its_options(
    options: ShortAudioReceiptOptions,
    pack: PackBindingView,
    device_label: Seq<char>,
    audio: Seq<char>,
)
    ensures
        ({
            let command = receipt_command(options, pack, device_label, audio);
            let packs = if options.model_pack is Some {
                2int
            } else {
                0
            };
            let commits = if options.core_commit is Some {
                2int
            } else {
                0
            };
            let traces = if options.trace_out is Some {
                2int
            } else {
                0
            };
            let logits = if options.logits_out is Some {
                2int
            } else {
                0
            };
            &&& command.len() == 19 + packs + commits + traces + logits
            &&& command[0] == "openasr"@ && command[1] == "bench-receipt"@ && command[2]
                == "short-audio"@
            &&& command[3] == "--audio"@ && command[4] == audio
            &&& command[5] == "--backend"@ && command[6] == backend::backend_text(
                options.backend_kind,
            )
            &&& command[7] == "--device"@ && command[8] == device_label
            &&& command[9] == "--out"@ && command[10] == "receipt-output"@
            &&& command[11] == "--runs"@ && command[12] == text::decimal(options.runs as nat)
            &&& command[13] == "--warmup-runs"@ && command[14] == text::decimal(
                options.warmup_runs as nat,
            )
            &&& command[15] == "--scope"@ && command[16] == options.scope@
            &&& command[17] == "--model"@ && command[18] == pack.model_id
            &&& options.model_pack is Some ==> command[19] == "--model-pack"@ && command[20]
                == "pack-content-sha256:"@ + pack.content_sha256
            &&& options.core_commit is Some ==> command[19 + packs] == "--core-commit"@
                && command[20 + packs] == options.core_commit->Some_0@
            &&& options.trace_out is Some ==> command[19 + packs + commits] == "--trace-out"@
                && command[20 + packs + commits] == "runtime-trace-output"@
            &&& options.logits_out is Some ==> command[19 + packs + commits + traces]
                == "--logits-out"@ && command[20 + packs + commits + traces]
                == "full-logits-output"@
        }),
{
}

/// What a receipt keeps of the environment: the build commit if it is valid and the one of
/// the core, the backend if it is one of six, and that it was offline if it was, each in
/// its normal form and nothing else.
pub proof fn law_environment_is_kept(
    core_commit: Seq<char>,
    ggml_backend: Option<Seq<char>>,
    build_commit: Option<Seq<char>>,
    build_commit_is_valid: bool,
    offline: Option<Seq<char>>,
)
    ensures
        ({
            let kept = env_allowlist(
                core_commit,
                ggml_backend,
                build_commit,
                build_commit_is_valid,
                offline,
            );
            let backend = text::lowered(text::trimmed(ggml_backend->Some_0));
            let switch = text::lowered(text::trimmed(offline->Some_0));
            let keeps_commit = build_commit is Some && build_commit_is_valid && text::lowered(
                text::trimmed(build_commit->Some_0),
            ) == core_commit;
            let keeps_backend = ggml_backend is Some && (backend == "cpu"@ || backend == "metal"@
                || backend == "gpu"@ || backend == "cuda"@ || backend == "hip"@ || backend
                == "vulkan"@);
            let keeps_offline = offline is Some && (switch == "1"@ || switch == "true"@ || switch
                == "yes"@ || switch == "on"@);
            let commits = if keeps_commit {
                1int
            } else {
                0
            };
            let backends = if keeps_backend {
                1int
            } else {
                0
            };
            &&& kept.len() == commits + backends + if keeps_offline {
                1int
            } else {
                0
            }
            &&& keeps_commit ==> kept[0] == ("OPENASR_BUILD_COMMIT"@, core_commit)
            &&& keeps_backend ==> kept[commits] == ("OPENASR_GGML_BACKEND"@, backend)
            &&& keeps_offline ==> kept[commits + backends] == ("OPENASR_OFFLINE"@, "true"@)
        }),
{
}

/// The notes of a receipt: a mock one says that it is no claim, every one says what its
/// placement is and how it was measured, and each truncated decode is noted with its
/// reason, or else the stop token where there was one.
pub proof fn law_receipt_notes(
    backend_kind: BackendKind,
    measurement: Seq<char>,
    truncated: Seq<Seq<char>>,
    at: int,
    last_step_is_eot: bool,
)
    ensures
        ({
            let notes = first_notes(backend_kind, measurement);
            &&& notes.len() == if backend_kind == BackendKind::Mock {
                3int
            } else {
                2
            }
            &&& notes.last() == "measurement_method="@ + measurement
            &&& notes[notes.len() - 2]
                == "placement is the requested device; observed_placement reports actual ggml graph-node backends"@
            &&& backend_kind == BackendKind::Mock ==> notes[0]
                == "backend=mock: transcript and RTF are plumbing-only, not a quality/perf claim"@
        }),
        truncated.len() > 0 ==> stop_notes(truncated, last_step_is_eot).len() == truncated.len(),
        0 <= at < truncated.len() ==> stop_notes(truncated, last_step_is_eot)[at]
            == "decode_stop="@ + truncated[at],
        truncated.len() == 0 && last_step_is_eot ==> stop_notes(truncated, last_step_is_eot)
            == seq!["decode_stop=stop_token"@],
        truncated.len() == 0 && !last_step_is_eot ==> stop_notes(truncated, last_step_is_eot).len()
            == 0,
{
}

/// A trace may be published exactly if the run recorded which route it took, took the one
/// it selected, completed and recorded everything; if the trace is accepted; and if the
/// logits, where they are wanted, are there, cover every token step and are accepted.
pub proof fn law_trace_may_be_published(
    snapshot: NativeTraceSnapshot,
    wants_logits: bool,
    max_steps: nat,
    max_vocab: nat,
)
    ensures
        publication(snapshot, wants_logits, max_steps, max_vocab) is Ok <==> {
            &&& snapshot.facts matches Some(facts) && {
                &&& facts.actual_provider is Some && facts.actual_provider->Some_0@
                    == facts.selected_provider@
                &&& facts.actual_stable_device_id is Some && facts.actual_stable_device_id->Some_0@
                    == facts.stable_device_id@
                &&& facts.actual_device_known && facts.scheduler_known
            }
            &&& snapshot.completed && !snapshot.trace_overflowed && !snapshot.lifecycle_overflowed
            &&& !snapshot.trace_invalid_binding
            &&& snapshot.trace_event_count > 0 && snapshot.lifecycle_event_count > 0
            &&& snapshot.jsonl@.len() > 0
            &&& trace::strict_trace(
                trace::trace_events(snapshot.jsonl@),
                snapshot.line_facts@,
                max_steps,
            ) is Ok
            &&& wants_logits ==> {
                &&& snapshot.full_logits_jsonl is Some
                &&& snapshot.full_logits_step_count > 0
                &&& snapshot.full_logits_step_count == snapshot.token_step_count
                &&& logits::full_logits_trace(
                    logits::jsonl_events(snapshot.full_logits_jsonl->Some_0@),
                    logits::jsonl_events(snapshot.jsonl@),
                    max_steps,
                    max_vocab,
                ) is Ok
            }
        },
{
}

/// Receipts qualify exactly if each of them is eligible; else the first that is not is
/// named by its number, with what is wrong with it.
pub proof fn law_every_receipt_must_qualify(checks: Seq<ReceiptCheck>, at: int)
    requires
        0 <= at < checks.len() <= u64::MAX,
        forall|i: int| 0 <= i < at ==> #[trigger] checks[i] == ReceiptCheck::Eligible,
    ensures
        (forall|i: int| 0 <= i < checks.len() ==> #[trigger] checks[i] == ReceiptCheck::Eligible)
            ==> qualification(checks, 0) is Ok,
        checks[at] == ReceiptCheck::Unreadable ==> qualification(checks, 0) == Err::<
            (),
            ReceiptError,
        >(ReceiptError::ReceiptUnreadable((at + 1) as u64)),
        checks[at] == ReceiptCheck::Invalid ==> qualification(checks, 0) == Err::<
            (),
            ReceiptError,
        >(ReceiptError::ReceiptInvalid((at + 1) as u64)),
        checks[at] == ReceiptCheck::Ineligible ==> qualification(checks, 0) == Err::<
            (),
            ReceiptError,
        >(ReceiptError::ReceiptIneligible((at + 1) as u64)),
{
    lemma_qualification_skips(checks, 0, at);
    if forall|i: int| 0 <= i < checks.len() ==> #[trigger] checks[i] == ReceiptCheck::Eligible {
        lemma_qualification_skips(checks, 0, checks.len() as int);
    }
}

proof fn lemma_qualification_skips(checks: Seq<ReceiptCheck>, from: int, to: int)
    requires
        0 <= from <= to <= checks.len(),
        forall|i: int| from <= i < to ==> #[trigger] checks[i] == ReceiptCheck::Eligible,
    ensures
        qualification(checks, from) == qualification(checks, to),
    decreases to - from,
{
    if from < to {
        assert(checks[from] == ReceiptCheck::Eligible);
        lemma_qualification_skips(checks, from + 1, to);
    }
}

/// A backend is Metal exactly if its name has `metal` in it or begins with `mtl`, whatever
/// the case; and the nodes that ran elsewhere are kept, with their counts, in their order.
pub proof fn law_nodes_outside_metal_are_kept(
    backend: Seq<char>,
    counts: Seq<(Seq<char>, u64)>,
    upto: nat,
)
    requires
        upto <= counts.len(),
    ensures
        metal_backend(backend) <==> text::occurs(text::lowered(backend), "metal"@) || text::occurs_at(
            text::lowered(backend),
            "mtl"@,
            0,
        ),
        outside_metal(counts, upto) == counts.take(upto as int).filter(
            |entry: (Seq<char>, u64)| !metal_backend(entry.0) && entry.1 > 0,
        ),
        ran_on_metal(counts) <==> exists|i: int|
            0 <= i < counts.len() && metal_backend((#[trigger] counts[i]).0) && counts[i].1 > 0,
    decreases upto,
{
    reveal(Seq::filter);
    if upto > 0 {
        law_nodes_outside_metal_are_kept(backend, counts, (upto - 1) as nat);
        assert(counts.take(upto as int).drop_last() =~= counts.take(upto - 1));
    } else {
        assert(counts.take(0) =~= seq![]);
    }
}

/// A message names the file, the model, the device and the receipt that it is about, and
/// a fault of a trace is told as that of the trace.
pub proof fn law_receipt_messages_name_their_subject(
    path: String,
    model: String,
    device: String,
    number: u64,
    trace_error: TraceError,
    logits_error: LogitsError,
)
    ensures
        text::occurs(receipt_message(ReceiptError::AudioNotFound(path)), path@),
        text::occurs(receipt_message(ReceiptError::PackNotBound(model)), model@),
        text::occurs(receipt_message(ReceiptError::UnsupportedDevice(device)), device@),
        text::occurs(
            receipt_message(ReceiptError::ReceiptUnreadable(number)),
            text::decimal(number as nat),
        ),
        text::occurs(
            receipt_message(ReceiptError::ReceiptInvalid(number)),
            text::decimal(number as nat),
        ),
        text::occurs(
            receipt_message(ReceiptError::ReceiptIneligible(number)),
            text::decimal(number as nat),
        ),
        receipt_message(ReceiptError::Trace(trace_error)) == trace::trace_message(trace_error),
        receipt_message(ReceiptError::Logits(logits_error)) == logits::logits_message(
            logits_error,
        ),
{
    let count = text::decimal(number as nat);
    text::lemma_occurs_between(
        "Audio file not found: "@,
        path@,
        "\nPass an existing WAV/audio path via --audio."@,
    );
    text::lemma_occurs_between(
        "Could not bind pack content for model '"@,
        model@,
        "'. Install it or pass --model-pack."@,
    );
    text::lemma_occurs_between(
        "Unsupported --device '"@,
        device@,
        "'. Use one of: cpu, metal, cuda, accelerated, auto."@,
    );
    text::lemma_occurs_behind("Could not read qualification receipt #"@, count);
    text::lemma_occurs_between("Qualification receipt #"@, count, " is invalid"@);
    text::lemma_occurs_between("Qualification receipt #"@, count, " is ineligible"@);
}

} // verus!
