//! The full logits trace: one complete row of scores for every step of a token
//! trace.

use vstd::prelude::*;

use crate::json;
use crate::json::{Json, JsonView};
use crate::table;
use crate::table::Table;
use crate::text;
use crate::trace;
use crate::trace::{
    ArtifactComputeIdentity, ArtifactSelectionIdentity, GGML_GRAPH_LIFECYCLE_SCHEMA,
    GPU_CORRECTNESS_TRACE_SCHEMA,
};

verus! {

/// The schema of full logits trace events.
pub const GPU_FULL_LOGITS_TRACE_SCHEMA: &'static str = "openasr.gpu-full-logits-trace.v1";

/// The numbers of an output-read line.
#[derive(Clone, Copy, Debug, PartialEq, Eq, Structural)]
pub enum OutputReadField {
    GraphInstance,
    GraphGeneration,
    ComputeSequence,
    OutputGenerationConsumed,
    Bytes,
}

/// The name of a number of an output-read line.
pub open spec fn output_read_field_name(field: OutputReadField) -> Seq<char> {
    match field {
        OutputReadField::GraphInstance => "graph_instance"@,
        OutputReadField::GraphGeneration => "graph_generation"@,
        OutputReadField::ComputeSequence => "compute_sequence"@,
        OutputReadField::OutputGenerationConsumed => "output_generation_consumed"@,
        OutputReadField::Bytes => "bytes"@,
    }
}

impl OutputReadField {
    /// The name of the field.
    pub fn name(self) -> (name: String)
        ensures
            name@ == output_read_field_name(self),
    {
        match self {
            OutputReadField::GraphInstance => "graph_instance".to_owned(),
            OutputReadField::GraphGeneration => "graph_generation".to_owned(),
            OutputReadField::ComputeSequence => "compute_sequence".to_owned(),
            OutputReadField::OutputGenerationConsumed => "output_generation_consumed".to_owned(),
            OutputReadField::Bytes => "bytes".to_owned(),
        }
    }
}

/// The header fields that a logits trace shares with its token trace.
#[derive(Clone, Copy, Debug, PartialEq, Eq, Structural)]
pub enum SharedHeaderField {
    RunId,
    ProcessNonce,
    ProcessId,
    Mode,
    GraphMode,
    Provider,
    DeviceTarget,
    BackendId,
    DriverVersion,
    ArtifactFingerprint,
    Device,
    ActualProvider,
    ActualStableDeviceId,
    ActualDevice,
}

/// The name of a shared header field.
pub open spec fn shared_field_name(field: SharedHeaderField) -> Seq<char> {
    match field {
        SharedHeaderField::RunId => "run_id"@,
        SharedHeaderField::ProcessNonce => "process_nonce"@,
        SharedHeaderField::ProcessId => "process_id"@,
        SharedHeaderField::Mode => "mode"@,
        SharedHeaderField::GraphMode => "graph_mode"@,
        SharedHeaderField::Provider => "provider"@,
        SharedHeaderField::DeviceTarget => "device_target"@,
        SharedHeaderField::BackendId => "backend_id"@,
        SharedHeaderField::DriverVersion => "driver_version"@,
        SharedHeaderField::ArtifactFingerprint => "artifact_fingerprint"@,
        SharedHeaderField::Device => "device"@,
        SharedHeaderField::ActualProvider => "actual_provider"@,
        SharedHeaderField::ActualStableDeviceId => "actual_stable_device_id"@,
        SharedHeaderField::ActualDevice => "actual_device"@,
    }
}

impl SharedHeaderField {
    /// The name of the field.
    pub fn name(self) -> (name: String)
        ensures
            name@ == shared_field_name(self),
    {
        match self {
            SharedHeaderField::RunId => "run_id".to_owned(),
            SharedHeaderField::ProcessNonce => "process_nonce".to_owned(),
            SharedHeaderField::ProcessId => "process_id".to_owned(),
            SharedHeaderField::Mode => "mode".to_owned(),
            SharedHeaderField::GraphMode => "graph_mode".to_owned(),
            SharedHeaderField::Provider => "provider".to_owned(),
            SharedHeaderField::DeviceTarget => "device_target".to_owned(),
            SharedHeaderField::BackendId => "backend_id".to_owned(),
            SharedHeaderField::DriverVersion => "driver_version".to_owned(),
            SharedHeaderField::ArtifactFingerprint => "artifact_fingerprint".to_owned(),
            SharedHeaderField::Device => "device".to_owned(),
            SharedHeaderField::ActualProvider => "actual_provider".to_owned(),
            SharedHeaderField::ActualStableDeviceId => "actual_stable_device_id".to_owned(),
            SharedHeaderField::ActualDevice => "actual_device".to_owned(),
        }
    }
}

/// Why a full logits trace is refused.
#[derive(Clone, Copy, Debug, PartialEq, Eq, Structural)]
pub enum LogitsError {
    TokenInvalidJson,
    NoTokenHeader,
    OutputReadInvalid(OutputReadField),
    RepeatedOutputRead,
    TokenInvalidStep,
    TokenInvalidId,
    TokenWithoutCompute,
    TokenComputeInvalid,
    TokenDuplicateStep,
    LogitsInvalidJson,
    LogitsEmpty,
    InvalidHeader,
    HeaderMismatch(SharedHeaderField),
    NoStepCount,
    UnknownEvent,
    InvalidStep,
    InvalidVocabSize,
    IncompleteRow,
    ComputeInvalid,
    StepWithoutToken,
    TokenComputeMismatch,
    ByteCountOverflow,
    PartitionMismatch,
    DuplicateStep,
    StepsNotCovered,
}

/// The message of a logits error.
pub open spec fn logits_message(error: LogitsError) -> Seq<char> {
    match error {
        LogitsError::TokenInvalidJson => "runtime token trace contains invalid JSON"@,
        LogitsError::NoTokenHeader => "runtime token trace has no leading header"@,
        LogitsError::OutputReadInvalid(field) => "output_read has invalid "@ + output_read_field_name(field),
        LogitsError::RepeatedOutputRead => "token trace has ambiguous repeated output reads for one compute"@,
        LogitsError::TokenInvalidStep => "runtime token trace has an invalid step"@,
        LogitsError::TokenInvalidId => "runtime token trace has an invalid token id"@,
        LogitsError::TokenWithoutCompute => "runtime token trace has no compute ref"@,
        LogitsError::TokenComputeInvalid => "runtime token trace compute ref is invalid"@,
        LogitsError::TokenDuplicateStep => "runtime token trace contains a duplicate step"@,
        LogitsError::LogitsInvalidJson => "full logits trace contains invalid JSON"@,
        LogitsError::LogitsEmpty => "full logits trace is empty"@,
        LogitsError::InvalidHeader => "full logits trace has an invalid header"@,
        LogitsError::HeaderMismatch(field) => "full logits trace header does not match token trace field "@ + shared_field_name(field),
        LogitsError::NoStepCount => "full logits trace has no valid step_count"@,
        LogitsError::UnknownEvent => "full logits trace contains an unknown event"@,
        LogitsError::InvalidStep => "full logits trace has an invalid step"@,
        LogitsError::InvalidVocabSize => "full logits trace has an invalid vocab_size"@,
        LogitsError::IncompleteRow => "full logits trace has an incomplete f32 row"@,
        LogitsError::ComputeInvalid => "full logits trace compute ref is invalid"@,
        LogitsError::StepWithoutToken => "full logits trace step has no token event"@,
        LogitsError::TokenComputeMismatch => "full logits trace step is not bound to its token compute"@,
        LogitsError::ByteCountOverflow => "full logits output byte count overflowed"@,
        LogitsError::PartitionMismatch => "full logits row partition does not match its native output read size"@,
        LogitsError::DuplicateStep => "full logits trace contains a duplicate step"@,
        LogitsError::StepsNotCovered => "full logits trace does not cover every token step"@,
    }
}

impl LogitsError {
    /// The message shown for the error.
    pub fn message(self) -> (text: String)
        ensures
            text@ == logits_message(self),
    {
        match self {
            LogitsError::TokenInvalidJson => "runtime token trace contains invalid JSON".to_owned(),
            LogitsError::NoTokenHeader => "runtime token trace has no leading header".to_owned(),
            LogitsError::OutputReadInvalid(field) => {
                let mut out = "output_read has invalid ".to_owned();
                out.append(field.name().as_str());
                out
            },
            LogitsError::RepeatedOutputRead => "token trace has ambiguous repeated output reads for one compute".to_owned(),
            LogitsError::TokenInvalidStep => "runtime token trace has an invalid step".to_owned(),
            LogitsError::TokenInvalidId => "runtime token trace has an invalid token id".to_owned(),
            LogitsError::TokenWithoutCompute => "runtime token trace has no compute ref".to_owned(),
            LogitsError::TokenComputeInvalid => "runtime token trace compute ref is invalid".to_owned(),
            LogitsError::TokenDuplicateStep => "runtime token trace contains a duplicate step".to_owned(),
            LogitsError::LogitsInvalidJson => "full logits trace contains invalid JSON".to_owned(),
            LogitsError::LogitsEmpty => "full logits trace is empty".to_owned(),
            LogitsError::InvalidHeader => "full logits trace has an invalid header".to_owned(),
            LogitsError::HeaderMismatch(field) => {
                let mut out = "full logits trace header does not match token trace field ".to_owned();
                out.append(field.name().as_str());
                out
            },
            LogitsError::NoStepCount => "full logits trace has no valid step_count".to_owned(),
            LogitsError::UnknownEvent => "full logits trace contains an unknown event".to_owned(),
            LogitsError::InvalidStep => "full logits trace has an invalid step".to_owned(),
            LogitsError::InvalidVocabSize => "full logits trace has an invalid vocab_size".to_owned(),
            LogitsError::IncompleteRow => "full logits trace has an incomplete f32 row".to_owned(),
            LogitsError::ComputeInvalid => "full logits trace compute ref is invalid".to_owned(),
            LogitsError::StepWithoutToken => "full logits trace step has no token event".to_owned(),
            LogitsError::TokenComputeMismatch => "full logits trace step is not bound to its token compute".to_owned(),
            LogitsError::ByteCountOverflow => "full logits output byte count overflowed".to_owned(),
            LogitsError::PartitionMismatch => "full logits row partition does not match its native output read size".to_owned(),
            LogitsError::DuplicateStep => "full logits trace contains a duplicate step".to_owned(),
            LogitsError::StepsNotCovered => "full logits trace does not cover every token step".to_owned(),
        }
    }
}

/// The first shared header field in which two headers differ.
pub open spec fn header_mismatch(header: JsonView, token_header: JsonView) -> Option<SharedHeaderField> {
    if !json::same_optional(header.field("run_id"@), token_header.field("run_id"@)) {
        Some(SharedHeaderField::RunId)
    } else if !json::same_optional(header.field("process_nonce"@), token_header.field("process_nonce"@)) {
        Some(SharedHeaderField::ProcessNonce)
    } else if !json::same_optional(header.field("process_id"@), token_header.field("process_id"@)) {
        Some(SharedHeaderField::ProcessId)
    } else if !json::same_optional(header.field("mode"@), token_header.field("mode"@)) {
        Some(SharedHeaderField::Mode)
    } else if !json::same_optional(header.field("graph_mode"@), token_header.field("graph_mode"@)) {
        Some(SharedHeaderField::GraphMode)
    } else if !json::same_optional(header.field("provider"@), token_header.field("provider"@)) {
        Some(SharedHeaderField::Provider)
    } else if !json::same_optional(header.field("device_target"@), token_header.field("device_target"@)) {
        Some(SharedHeaderField::DeviceTarget)
    } else if !json::same_optional(header.field("backend_id"@), token_header.field("backend_id"@)) {
        Some(SharedHeaderField::BackendId)
    } else if !json::same_optional(header.field("driver_version"@), token_header.field("driver_version"@)) {
        Some(SharedHeaderField::DriverVersion)
    } else if !json::same_optional(header.field("artifact_fingerprint"@), token_header.field("artifact_fingerprint"@)) {
        Some(SharedHeaderField::ArtifactFingerprint)
    } else if !json::same_optional(header.field("device"@), token_header.field("device"@)) {
        Some(SharedHeaderField::Device)
    } else if !json::same_optional(header.field("actual_provider"@), token_header.field("actual_provider"@)) {
        Some(SharedHeaderField::ActualProvider)
    } else if !json::same_optional(header.field("actual_stable_device_id"@), token_header.field("actual_stable_device_id"@)) {
        Some(SharedHeaderField::ActualStableDeviceId)
    } else if !json::same_optional(header.field("actual_device"@), token_header.field("actual_device"@)) {
        Some(SharedHeaderField::ActualDevice)
    } else {
        None
    }
}

/// Looks for the first shared header field in which two headers differ.
fn find_header_mismatch(header: &Json, token_header: &Json) -> (field: Option<SharedHeaderField>)
    ensures
        field == header_mismatch(header@, token_header@),
{
    if !json::is_same_optional(header.field("run_id"), token_header.field("run_id")) {
        return Some(SharedHeaderField::RunId);
    }
    if !json::is_same_optional(header.field("process_nonce"), token_header.field("process_nonce")) {
        return Some(SharedHeaderField::ProcessNonce);
    }
    if !json::is_same_optional(header.field("process_id"), token_header.field("process_id")) {
        return Some(SharedHeaderField::ProcessId);
    }
    if !json::is_same_optional(header.field("mode"), token_header.field("mode")) {
        return Some(SharedHeaderField::Mode);
    }
    if !json::is_same_optional(header.field("graph_mode"), token_header.field("graph_mode")) {
        return Some(SharedHeaderField::GraphMode);
    }
    if !json::is_same_optional(header.field("provider"), token_header.field("provider")) {
        return Some(SharedHeaderField::Provider);
    }
    if !json::is_same_optional(header.field("device_target"), token_header.field("device_target")) {
        return Some(SharedHeaderField::DeviceTarget);
    }
    if !json::is_same_optional(header.field("backend_id"), token_header.field("backend_id")) {
        return Some(SharedHeaderField::BackendId);
    }
    if !json::is_same_optional(header.field("driver_version"), token_header.field("driver_version")) {
        return Some(SharedHeaderField::DriverVersion);
    }
    if !json::is_same_optional(header.field("artifact_fingerprint"), token_header.field("artifact_fingerprint")) {
        return Some(SharedHeaderField::ArtifactFingerprint);
    }
    if !json::is_same_optional(header.field("device"), token_header.field("device")) {
        return Some(SharedHeaderField::Device);
    }
    if !json::is_same_optional(header.field("actual_provider"), token_header.field("actual_provider")) {
        return Some(SharedHeaderField::ActualProvider);
    }
    if !json::is_same_optional(header.field("actual_stable_device_id"), token_header.field("actual_stable_device_id")) {
        return Some(SharedHeaderField::ActualStableDeviceId);
    }
    if !json::is_same_optional(header.field("actual_device"), token_header.field("actual_device")) {
        return Some(SharedHeaderField::ActualDevice);
    }
    None
}


/// The events of the lines that hold more than white space, or nothing where one
/// of them is no JSON document.
pub open spec fn documents(lines: Seq<Seq<char>>, count: nat) -> Option<Seq<JsonView>>
    decreases count,
{
    if count == 0 {
        Some(seq![])
    } else {
        match documents(lines, (count - 1) as nat) {
            None => None,
            Some(events) => if text::trimmed(lines[count - 1]).len() == 0 {
                Some(events)
            } else {
                match json::parsed_json(lines[count - 1]) {
                    Some(event) => Some(events.push(event)),
                    None => None,
                }
            },
        }
    }
}

/// The events of a text of JSON lines.
pub open spec fn jsonl_events(jsonl: Seq<char>) -> Option<Seq<JsonView>> {
    documents(text::lines_of(jsonl), text::lines_of(jsonl).len())
}

/// The views of a list of values.
pub open spec fn values_view(values: Seq<Json>) -> Seq<JsonView> {
    values.map_values(|value: Json| value@)
}

/// The view of an optional list of values.
pub open spec fn opt_values(values: Option<Vec<Json>>) -> Option<Seq<JsonView>> {
    match values {
        Some(values) => Some(values_view(values@)),
        None => None,
    }
}

proof fn lemma_documents_stay_refused(lines: Seq<Seq<char>>, from: nat, to: nat)
    requires
        from <= to,
        documents(lines, from) is None,
    ensures
        documents(lines, to) is None,
    decreases to,
{
    if from < to {
        lemma_documents_stay_refused(lines, from, (to - 1) as nat);
    }
}

/// Parses the lines of a text that hold more than white space.
fn parse_documents(jsonl: &str) -> (events: Option<Vec<Json>>)
    ensures
        opt_values(events) == jsonl_events(jsonl@),
{
    let lines = text::split_lines(jsonl);
    let ghost texts = text::lines_of(jsonl@);
    let mut events: Vec<Json> = Vec::new();
    let mut i: usize = 0;
    assert(texts.len() == lines@.len()) by {
        assert(text::texts(lines@).len() == lines@.len());
    }
    assert(values_view(events@) =~= seq![]);
    while i < lines.len()
        invariant
            texts == text::lines_of(jsonl@),
            texts == text::texts(lines@),
            texts.len() == lines@.len(),
            i <= lines@.len(),
            documents(texts, i as nat) == Some(values_view(events@)),
        decreases lines@.len() - i,
    {
        assert(texts[i as int] == lines@[i as int]@);
        let ghost before = values_view(events@);
        if !text::trim_text(lines[i].as_str()).as_str().is_empty() {
            match json::parse_json(lines[i].as_str()) {
                Some(event) => {
                    events.push(event);
                    assert(values_view(events@) =~= before.push(event@));
                },
                None => {
                    proof {
                        assert(documents(texts, (i + 1) as nat) is None);
                        lemma_documents_stay_refused(texts, (i + 1) as nat, texts.len());
                    }
                    return None;
                },
            }
        }
        i += 1;
    }
    Some(events)
}

/// Whether an event has this schema and event name.
pub open spec fn is_event(event: JsonView, schema: Seq<char>, name: Seq<char>) -> bool {
    event.text_field("schema"@) == Some(schema) && event.text_field("event"@) == Some(name)
}

/// A positive number recorded in an output-read line.
pub open spec fn positive_field(event: JsonView, field: OutputReadField) -> Option<u64> {
    match event.natural_field(output_read_field_name(field)) {
        Some(value) => if value > 0 {
            Some(value)
        } else {
            None
        },
        None => None,
    }
}

/// What an output-read line records: the compute and the number of bytes.
pub open spec fn output_read_of(event: JsonView) -> Result<
    (ArtifactComputeIdentity, u64),
    LogitsError,
> {
    let graph_instance = positive_field(event, OutputReadField::GraphInstance);
    let graph_generation = positive_field(event, OutputReadField::GraphGeneration);
    let compute_sequence = positive_field(event, OutputReadField::ComputeSequence);
    let output_generation = positive_field(event, OutputReadField::OutputGenerationConsumed);
    let bytes = positive_field(event, OutputReadField::Bytes);
    if graph_instance is None {
        Err(LogitsError::OutputReadInvalid(OutputReadField::GraphInstance))
    } else if graph_generation is None {
        Err(LogitsError::OutputReadInvalid(OutputReadField::GraphGeneration))
    } else if compute_sequence is None {
        Err(LogitsError::OutputReadInvalid(OutputReadField::ComputeSequence))
    } else if output_generation is None {
        Err(LogitsError::OutputReadInvalid(OutputReadField::OutputGenerationConsumed))
    } else if bytes is None {
        Err(LogitsError::OutputReadInvalid(OutputReadField::Bytes))
    } else {
        Ok(
            (
                (graph_instance->0, graph_generation->0, compute_sequence->0, output_generation->0),
                bytes->0,
            ),
        )
    }
}

/// The bytes read from each compute, as the token events from the second up to
/// `count` record them.
pub open spec fn reads_after(events: Seq<JsonView>, count: nat) -> Result<
    Map<ArtifactComputeIdentity, u64>,
    LogitsError,
>
    decreases count,
{
    if count <= 1 {
        Ok(Map::empty())
    } else {
        match reads_after(events, (count - 1) as nat) {
            Err(error) => Err(error),
            Ok(reads) => {
                let event = events[count - 1];
                if !is_event(event, GGML_GRAPH_LIFECYCLE_SCHEMA@, "output_read"@) {
                    Ok(reads)
                } else {
                    match output_read_of(event) {
                        Err(error) => Err(error),
                        Ok(read) => if reads.contains_key(read.0) {
                            Err(LogitsError::RepeatedOutputRead)
                        } else {
                            Ok(reads.insert(read.0, read.1))
                        },
                    }
                }
            },
        }
    }
}

/// The token and the selected output of each step, as the token events from the
/// second up to `count` record them.
pub open spec fn tokens_after(events: Seq<JsonView>, count: nat) -> Result<
    Map<u64, (u64, ArtifactSelectionIdentity)>,
    LogitsError,
>
    decreases count,
{
    if count <= 1 {
        Ok(Map::empty())
    } else {
        match tokens_after(events, (count - 1) as nat) {
            Err(error) => Err(error),
            Ok(tokens) => {
                let event = events[count - 1];
                let step = event.natural_field("step_index"@);
                let compute = trace::selection_in(event);
                if !is_event(event, GPU_CORRECTNESS_TRACE_SCHEMA@, "token"@) {
                    Ok(tokens)
                } else if step is None {
                    Err(LogitsError::TokenInvalidStep)
                } else if !trace::token_number(event) {
                    Err(LogitsError::TokenInvalidId)
                } else if event.field("compute"@) is None {
                    Err(LogitsError::TokenWithoutCompute)
                } else if compute is None {
                    Err(LogitsError::TokenComputeInvalid)
                } else if tokens.contains_key(step->0) {
                    Err(LogitsError::TokenDuplicateStep)
                } else {
                    Ok(
                        tokens.insert(
                            step->0,
                            (event.natural_field("token_id"@)->0, compute->0.selection()),
                        ),
                    )
                }
            },
        }
    }
}

/// The fields of a logits header.
pub open spec fn logits_header_names() -> Seq<Seq<char>> {
    trace::header_names() + seq!["dtype"@, "encoding"@, "step_count"@]
}

/// Whether a value is a logits header.
pub open spec fn is_logits_header(header: JsonView) -> bool {
    &&& header.has_exact_fields(logits_header_names())
    &&& is_event(header, GPU_FULL_LOGITS_TRACE_SCHEMA@, "header"@)
    &&& header.text_field("dtype"@) == Some("f32"@)
    &&& header.text_field("encoding"@) == Some("json_numbers"@)
}

/// A natural field that lies between one and `limit`.
pub open spec fn bounded_field(event: JsonView, name: Seq<char>, limit: nat) -> Option<u64> {
    match event.natural_field(name) {
        Some(value) => if 0 < value <= limit {
            Some(value)
        } else {
            None
        },
        None => None,
    }
}

/// The fields of a logits row.
pub open spec fn logits_names() -> Seq<Seq<char>> {
    seq!["schema"@, "event"@, "step_index"@, "compute"@, "vocab_size"@, "values"@]
}

/// Whether a row has a finite number for each entry of the vocabulary.
pub open spec fn row_is_complete(event: JsonView, vocab_size: u64) -> bool {
    event.field("values"@) matches Some(JsonView::Array(values)) && values.len() == vocab_size && (
    forall|i: int| 0 <= i < values.len() ==> (#[trigger] values[i]).finite_number())
}

/// The steps with a row and the size of each, as the logits events from the
/// second up to `count` record them.
pub open spec fn rows_after(
    events: Seq<JsonView>,
    count: nat,
    tokens: Map<u64, (u64, ArtifactSelectionIdentity)>,
    reads: Map<ArtifactComputeIdentity, u64>,
    max_vocab: nat,
) -> Result<Map<u64, u64>, LogitsError>
    decreases count,
{
    if count <= 1 {
        Ok(Map::empty())
    } else {
        match rows_after(events, (count - 1) as nat, tokens, reads, max_vocab) {
            Err(error) => Err(error),
            Ok(rows) => match row_of(events[count - 1], tokens, reads, max_vocab) {
                Err(error) => Err(error),
                Ok(row) => if rows.contains_key(row.0) {
                    Err(LogitsError::DuplicateStep)
                } else {
                    Ok(rows.insert(row.0, row.1))
                },
            },
        }
    }
}

/// The step and the size of the row that an event records, where it is complete
/// and bound to the token and to the output read of its step.
pub open spec fn row_of(
    event: JsonView,
    tokens: Map<u64, (u64, ArtifactSelectionIdentity)>,
    reads: Map<ArtifactComputeIdentity, u64>,
    max_vocab: nat,
) -> Result<(u64, u64), LogitsError> {
    let step = event.natural_field("step_index"@);
    let vocab_size = bounded_field(event, "vocab_size"@, max_vocab);
    let compute = trace::selection_in(event);
    if !event.has_exact_fields(logits_names()) || !is_event(
        event,
        GPU_FULL_LOGITS_TRACE_SCHEMA@,
        "logits"@,
    ) {
        Err(LogitsError::UnknownEvent)
    } else if step is None {
        Err(LogitsError::InvalidStep)
    } else if vocab_size is None {
        Err(LogitsError::InvalidVocabSize)
    } else if !row_is_complete(event, vocab_size->0) {
        Err(LogitsError::IncompleteRow)
    } else if compute is None {
        Err(LogitsError::ComputeInvalid)
    } else if !tokens.contains_key(step->0) {
        Err(LogitsError::StepWithoutToken)
    } else if tokens[step->0].1 != compute->0.selection() || tokens[step->0].0 >= vocab_size->0 {
        Err(LogitsError::TokenComputeMismatch)
    } else if compute->0.output_count * vocab_size->0 * 4 > u64::MAX {
        Err(LogitsError::ByteCountOverflow)
    } else if !reads.contains_key(trace::compute_of(compute->0.selection())) || reads[trace::compute_of(
        compute->0.selection(),
    )] != compute->0.output_count * vocab_size->0 * 4 {
        Err(LogitsError::PartitionMismatch)
    } else {
        Ok((step->0, vocab_size->0))
    }
}

/// Whether the keys of a map are the numbers below `count`.
pub open spec fn covers<V>(map: Map<u64, V>, count: nat) -> bool {
    forall|step: u64| #[trigger] map.contains_key(step) <==> step < count
}

/// Whether the events of a logits trace fit those of its token trace, or why
/// not. Nothing stands for a trace with a line that is no JSON document.
pub open spec fn full_logits_trace(
    logits_events: Option<Seq<JsonView>>,
    token_events: Option<Seq<JsonView>>,
    max_steps: nat,
    max_vocab: nat,
) -> Result<(), LogitsError> {
    if token_events is None {
        Err(LogitsError::TokenInvalidJson)
    } else if token_events->0.len() == 0 || token_events->0[0].text_field("event"@) != Some(
        "header"@,
    ) {
        Err(LogitsError::NoTokenHeader)
    } else {
        let token_events = token_events->0;
        match reads_after(token_events, token_events.len()) {
            Err(error) => Err(error),
            Ok(reads) => match tokens_after(token_events, token_events.len()) {
                Err(error) => Err(error),
                Ok(tokens) => if logits_events is None {
                    Err(LogitsError::LogitsInvalidJson)
                } else if logits_events->0.len() == 0 {
                    Err(LogitsError::LogitsEmpty)
                } else {
                    logits_rows(
                        logits_events->0,
                        token_events[0],
                        tokens,
                        reads,
                        max_steps,
                        max_vocab,
                    )
                },
            },
        }
    }
}

/// Whether the header and the rows of a logits trace fit the header, the tokens
/// and the output reads of its token trace.
pub open spec fn logits_rows(
    events: Seq<JsonView>,
    token_header: JsonView,
    tokens: Map<u64, (u64, ArtifactSelectionIdentity)>,
    reads: Map<ArtifactComputeIdentity, u64>,
    max_steps: nat,
    max_vocab: nat,
) -> Result<(), LogitsError> {
    let declared = bounded_field(events[0], "step_count"@, max_steps);
    if !is_logits_header(events[0]) {
        Err(LogitsError::InvalidHeader)
    } else if header_mismatch(events[0], token_header) is Some {
        Err(LogitsError::HeaderMismatch(header_mismatch(events[0], token_header)->0))
    } else if declared is None {
        Err(LogitsError::NoStepCount)
    } else {
        match rows_after(events, events.len(), tokens, reads, max_vocab) {
            Err(error) => Err(error),
            Ok(rows) => if covers(rows, declared->0 as nat) && covers(tokens, declared->0 as nat) {
                Ok(())
            } else {
                Err(LogitsError::StepsNotCovered)
            },
        }
    }
}

/// Whether an event has this schema and event name.
fn has_event(event: &Json, schema: &str, name: &str) -> (yes: bool)
    ensures
        yes == is_event(event@, schema@, name@),
{
    event.text_field_is("schema", schema) && event.text_field_is("event", name)
}

/// Reads a positive number of an output-read line.
fn read_positive(event: &Json, field: OutputReadField) -> (value: Result<u64, LogitsError>)
    ensures
        value == (match positive_field(event@, field) {
            Some(value) => Ok(value),
            None => Err(LogitsError::OutputReadInvalid(field)),
        }),
{
    match event.natural_field(field.name().as_str()) {
        Some(value) => {
            if value > 0 {
                Ok(value)
            } else {
                Err(LogitsError::OutputReadInvalid(field))
            }
        },
        None => Err(LogitsError::OutputReadInvalid(field)),
    }
}

/// Reads the compute and the number of bytes of an output-read line.
fn read_output_read(event: &Json) -> (read: Result<(ArtifactComputeIdentity, u64), LogitsError>)
    ensures
        read == output_read_of(event@),
{
    let graph_instance: u64 = match read_positive(event, OutputReadField::GraphInstance) {
        Ok(value) => value,
        Err(error) => {
            return Err(error);
        },
    };
    let graph_generation: u64 = match read_positive(event, OutputReadField::GraphGeneration) {
        Ok(value) => value,
        Err(error) => {
            return Err(error);
        },
    };
    let compute_sequence: u64 = match read_positive(event, OutputReadField::ComputeSequence) {
        Ok(value) => value,
        Err(error) => {
            return Err(error);
        },
    };
    let output_generation: u64 = match read_positive(
        event,
        OutputReadField::OutputGenerationConsumed,
    ) {
        Ok(value) => value,
        Err(error) => {
            return Err(error);
        },
    };
    let bytes: u64 = match read_positive(event, OutputReadField::Bytes) {
        Ok(value) => value,
        Err(error) => {
            return Err(error);
        },
    };
    Ok(((graph_instance, graph_generation, compute_sequence, output_generation), bytes))
}

proof fn lemma_reads_stay_refused(events: Seq<JsonView>, from: nat, to: nat)
    requires
        1 < from <= to,
        reads_after(events, from) is Err,
    ensures
        reads_after(events, to) == reads_after(events, from),
    decreases to,
{
    if from < to {
        lemma_reads_stay_refused(events, from, (to - 1) as nat);
    }
}

proof fn lemma_tokens_stay_refused(events: Seq<JsonView>, from: nat, to: nat)
    requires
        1 < from <= to,
        tokens_after(events, from) is Err,
    ensures
        tokens_after(events, to) == tokens_after(events, from),
    decreases to,
{
    if from < to {
        lemma_tokens_stay_refused(events, from, (to - 1) as nat);
    }
}

proof fn lemma_rows_stay_refused(
    events: Seq<JsonView>,
    from: nat,
    to: nat,
    tokens: Map<u64, (u64, ArtifactSelectionIdentity)>,
    reads: Map<ArtifactComputeIdentity, u64>,
    max_vocab: nat,
)
    requires
        1 < from <= to,
        rows_after(events, from, tokens, reads, max_vocab) is Err,
    ensures
        rows_after(events, to, tokens, reads, max_vocab) == rows_after(
            events,
            from,
            tokens,
            reads,
            max_vocab,
        ),
    decreases to,
{
    if from < to {
        lemma_rows_stay_refused(events, from, (to - 1) as nat, tokens, reads, max_vocab);
    }
}

/// Gathers the bytes read from each compute.
fn gather_reads(events: &Vec<Json>) -> (result: Result<
    Table<ArtifactComputeIdentity, u64>,
    LogitsError,
>)
    requires
        events@.len() > 0,
    ensures
        match result {
            Ok(reads) => reads.wf() && reads_after(values_view(events@), events@.len()) == Ok::<
                Map<ArtifactComputeIdentity, u64>,
                LogitsError,
            >(reads.map()),
            Err(error) => reads_after(values_view(events@), events@.len()) == Err::<
                Map<ArtifactComputeIdentity, u64>,
                LogitsError,
            >(error),
        },
{
    let ghost view = values_view(events@);
    let mut reads: Table<ArtifactComputeIdentity, u64> = Table::new();
    let mut i: usize = 1;
    while i < events.len()
        invariant
            view == values_view(events@),
            1 <= i <= events@.len(),
            reads.wf(),
            reads_after(view, i as nat) == Ok::<
                Map<ArtifactComputeIdentity, u64>,
                LogitsError,
            >(reads.map()),
        decreases events@.len() - i,
    {
        assert(view[i as int] == events@[i as int]@);
        if has_event(&events[i], GGML_GRAPH_LIFECYCLE_SCHEMA, "output_read") {
            match read_output_read(&events[i]) {
                Ok(read) => {
                    if reads.insert(read.0, read.1) {
                        proof {
                            assert(reads_after(view, (i + 1) as nat) == Err::<
                                Map<ArtifactComputeIdentity, u64>,
                                LogitsError,
                            >(LogitsError::RepeatedOutputRead));
                            lemma_reads_stay_refused(view, (i + 1) as nat, view.len());
                        }
                        return Err(LogitsError::RepeatedOutputRead);
                    }
                },
                Err(error) => {
                    proof {
                        assert(reads_after(view, (i + 1) as nat) == Err::<
                            Map<ArtifactComputeIdentity, u64>,
                            LogitsError,
                        >(error));
                        lemma_reads_stay_refused(view, (i + 1) as nat, view.len());
                    }
                    return Err(error);
                },
            }
        }
        i += 1;
    }
    Ok(reads)
}

/// Reads the step, the token and the selected output of a token line.
fn read_token(event: &Json) -> (token: Result<(u64, (u64, ArtifactSelectionIdentity)), LogitsError>)
    ensures
        token == ({
            let step = event@.natural_field("step_index"@);
            let compute = trace::selection_in(event@);
            if step is None {
                Err(LogitsError::TokenInvalidStep)
            } else if !trace::token_number(event@) {
                Err(LogitsError::TokenInvalidId)
            } else if event@.field("compute"@) is None {
                Err(LogitsError::TokenWithoutCompute)
            } else if compute is None {
                Err(LogitsError::TokenComputeInvalid)
            } else {
                Ok(
                    (
                        step->0,
                        (event@.natural_field("token_id"@)->0, compute->0.selection()),
                    ),
                )
            }
        }),
{
    let step: u64 = match event.natural_field("step_index") {
        Some(step) => step,
        None => {
            return Err(LogitsError::TokenInvalidStep);
        },
    };
    let token_id: u64 = match event.natural_field("token_id") {
        Some(token_id) => token_id,
        None => {
            return Err(LogitsError::TokenInvalidId);
        },
    };
    if token_id > 0xffff_ffff {
        return Err(LogitsError::TokenInvalidId);
    }
    if event.field("compute").is_none() {
        return Err(LogitsError::TokenWithoutCompute);
    }
    match trace::event_selection(event) {
        Some(compute) => Ok((step, (token_id, compute.selection_identity()))),
        None => Err(LogitsError::TokenComputeInvalid),
    }
}

/// Gathers the token and the selected output of each step.
fn gather_tokens(events: &Vec<Json>) -> (result: Result<
    Table<u64, (u64, ArtifactSelectionIdentity)>,
    LogitsError,
>)
    requires
        events@.len() > 0,
    ensures
        match result {
            Ok(tokens) => tokens.wf() && tokens_after(values_view(events@), events@.len()) == Ok::<
                Map<u64, (u64, ArtifactSelectionIdentity)>,
                LogitsError,
            >(tokens.map()),
            Err(error) => tokens_after(values_view(events@), events@.len()) == Err::<
                Map<u64, (u64, ArtifactSelectionIdentity)>,
                LogitsError,
            >(error),
        },
{
    let ghost view = values_view(events@);
    let mut tokens: Table<u64, (u64, ArtifactSelectionIdentity)> = Table::new();
    let mut i: usize = 1;
    while i < events.len()
        invariant
            view == values_view(events@),
            1 <= i <= events@.len(),
            tokens.wf(),
            tokens_after(view, i as nat) == Ok::<
                Map<u64, (u64, ArtifactSelectionIdentity)>,
                LogitsError,
            >(tokens.map()),
        decreases events@.len() - i,
    {
        assert(view[i as int] == events@[i as int]@);
        if has_event(&events[i], GPU_CORRECTNESS_TRACE_SCHEMA, "token") {
            match read_token(&events[i]) {
                Ok(token) => {
                    if tokens.insert(token.0, token.1) {
                        proof {
                            assert(tokens_after(view, (i + 1) as nat) == Err::<
                                Map<u64, (u64, ArtifactSelectionIdentity)>,
                                LogitsError,
                            >(LogitsError::TokenDuplicateStep));
                            lemma_tokens_stay_refused(view, (i + 1) as nat, view.len());
                        }
                        return Err(LogitsError::TokenDuplicateStep);
                    }
                },
                Err(error) => {
                    proof {
                        assert(tokens_after(view, (i + 1) as nat) == Err::<
                            Map<u64, (u64, ArtifactSelectionIdentity)>,
                            LogitsError,
                        >(error));
                        lemma_tokens_stay_refused(view, (i + 1) as nat, view.len());
                    }
                    return Err(error);
                },
            }
        }
        i += 1;
    }
    Ok(tokens)
}

/// Reads a natural field that lies between one and `limit`.
fn read_bounded(event: &Json, name: &str, limit: usize) -> (value: Option<u64>)
    ensures
        value == bounded_field(event@, name@, limit as nat),
{
    match event.natural_field(name) {
        Some(value) => {
            if 0 < value && value <= limit as u64 {
                Some(value)
            } else {
                None
            }
        },
        None => None,
    }
}

/// Whether a row has a finite number for each entry of the vocabulary.
fn is_row_complete(event: &Json, vocab_size: u64) -> (yes: bool)
    ensures
        yes == row_is_complete(event@, vocab_size),
{
    let value = match event.field("values") {
        Some(value) => value,
        None => {
            return false;
        },
    };
    let items = match value.as_items() {
        Some(items) => items,
        None => {
            return false;
        },
    };
    let ghost view = value@->Array_0;
    if items.len() as u64 != vocab_size {
        return false;
    }
    let mut i: usize = 0;
    while i < items.len()
        invariant
            view.len() == items@.len(),
            forall|k: int| 0 <= k < items@.len() ==> view[k] == (#[trigger] items@[k])@,
            value@ == JsonView::Array(view),
            event@.field("values"@) == Some(value@),
            i <= items@.len(),
            forall|k: int| 0 <= k < i ==> (#[trigger] view[k]).finite_number(),
        decreases items@.len() - i,
    {
        assert(view[i as int] == items@[i as int]@);
        if !items[i].is_finite_number() {
            return false;
        }
        i += 1;
    }
    true
}

/// Reads a row and holds it to the token and to the output read of its step.
fn read_row(
    event: &Json,
    tokens: &Table<u64, (u64, ArtifactSelectionIdentity)>,
    reads: &Table<ArtifactComputeIdentity, u64>,
    max_vocab: usize,
) -> (row: Result<(u64, u64), LogitsError>)
    requires
        tokens.wf(),
        reads.wf(),
    ensures
        row == row_of(event@, tokens.map(), reads.map(), max_vocab as nat),
{
    let names: [&str; 6] = ["schema", "event", "step_index", "compute", "vocab_size", "values"];
    assert(json::names_view(names@) =~= logits_names());
    if !json::has_exact_json_fields(event, &names) || !has_event(
        event,
        GPU_FULL_LOGITS_TRACE_SCHEMA,
        "logits",
    ) {
        return Err(LogitsError::UnknownEvent);
    }
    let step: u64 = match event.natural_field("step_index") {
        Some(step) => step,
        None => {
            return Err(LogitsError::InvalidStep);
        },
    };
    let vocab_size: u64 = match read_bounded(event, "vocab_size", max_vocab) {
        Some(vocab_size) => vocab_size,
        None => {
            return Err(LogitsError::InvalidVocabSize);
        },
    };
    if !is_row_complete(event, vocab_size) {
        return Err(LogitsError::IncompleteRow);
    }
    let compute = match trace::event_selection(event) {
        Some(compute) => compute,
        None => {
            return Err(LogitsError::ComputeInvalid);
        },
    };
    let token = match tokens.get(&step) {
        Some(token) => token,
        None => {
            return Err(LogitsError::StepWithoutToken);
        },
    };
    if !trace::same_selection(token.1, compute.selection_identity()) || token.0 >= vocab_size {
        return Err(LogitsError::TokenComputeMismatch);
    }
    let elements: u64 = match compute.output_count.checked_mul(vocab_size) {
        Some(elements) => elements,
        None => {
            return Err(LogitsError::ByteCountOverflow);
        },
    };
    let expected: u64 = match elements.checked_mul(4) {
        Some(expected) => expected,
        None => {
            return Err(LogitsError::ByteCountOverflow);
        },
    };
    match reads.get(&compute.compute_identity()) {
        Some(bytes) => {
            if *bytes != expected {
                return Err(LogitsError::PartitionMismatch);
            }
        },
        None => {
            return Err(LogitsError::PartitionMismatch);
        },
    }
    Ok((step, vocab_size))
}

/// Gathers the rows of a logits trace.
fn gather_rows(
    events: &Vec<Json>,
    tokens: &Table<u64, (u64, ArtifactSelectionIdentity)>,
    reads: &Table<ArtifactComputeIdentity, u64>,
    max_vocab: usize,
) -> (result: Result<Table<u64, u64>, LogitsError>)
    requires
        tokens.wf(),
        reads.wf(),
        events@.len() > 0,
    ensures
        match result {
            Ok(rows) => rows.wf() && rows_after(
                values_view(events@),
                events@.len(),
                tokens.map(),
                reads.map(),
                max_vocab as nat,
            ) == Ok::<Map<u64, u64>, LogitsError>(rows.map()),
            Err(error) => rows_after(
                values_view(events@),
                events@.len(),
                tokens.map(),
                reads.map(),
                max_vocab as nat,
            ) == Err::<Map<u64, u64>, LogitsError>(error),
        },
{
    let ghost view = values_view(events@);
    let mut rows: Table<u64, u64> = Table::new();
    let mut i: usize = 1;
    while i < events.len()
        invariant
            tokens.wf(),
            reads.wf(),
            view == values_view(events@),
            1 <= i <= events@.len(),
            rows.wf(),
            rows_after(view, i as nat, tokens.map(), reads.map(), max_vocab as nat) == Ok::<
                Map<u64, u64>,
                LogitsError,
            >(rows.map()),
        decreases events@.len() - i,
    {
        assert(view[i as int] == events@[i as int]@);
        let row = match read_row(&events[i], tokens, reads, max_vocab) {
            Ok(row) => row,
            Err(error) => {
                proof {
                    assert(rows_after(
                        view,
                        (i + 1) as nat,
                        tokens.map(),
                        reads.map(),
                        max_vocab as nat,
                    ) == Err::<Map<u64, u64>, LogitsError>(error));
                    lemma_rows_stay_refused(
                        view,
                        (i + 1) as nat,
                        view.len(),
                        tokens.map(),
                        reads.map(),
                        max_vocab as nat,
                    );
                }
                return Err(error);
            },
        };
        if rows.insert(row.0, row.1) {
            proof {
                assert(rows_after(
                    view,
                    (i + 1) as nat,
                    tokens.map(),
                    reads.map(),
                    max_vocab as nat,
                ) == Err::<Map<u64, u64>, LogitsError>(LogitsError::DuplicateStep));
                lemma_rows_stay_refused(
                    view,
                    (i + 1) as nat,
                    view.len(),
                    tokens.map(),
                    reads.map(),
                    max_vocab as nat,
                );
            }
            return Err(LogitsError::DuplicateStep);
        }
        i += 1;
    }
    Ok(rows)
}

/// Whether the keys of a table are the numbers below `count`.
fn does_cover<V>(map: &Table<u64, V>, count: u64) -> (yes: bool)
    requires
        map.wf(),
    ensures
        yes == covers(map.map(), count as nat),
{
    let mut i: usize = 0;
    while i < map.entries.len()
        invariant
            map.wf(),
            i <= map.entries@.len(),
            forall|k: int| 0 <= k < i ==> (#[trigger] map.entries@[k]).0 < count,
        decreases map.entries@.len() - i,
    {
        if map.entries[i].0 >= count {
            proof {
                table::lemma_entry(map.entries@, i as int);
                assert(map.map().contains_key(map.entries@[i as int].0));
            }
            return false;
        }
        i += 1;
    }
    let mut step: u64 = 0;
    while step < count
        invariant
            map.wf(),
            step <= count,
            forall|s: u64| s < step ==> #[trigger] map.map().contains_key(s),
        decreases count - step,
    {
        if !map.contains(&step) {
            return false;
        }
        step += 1;
    }
    assert forall|s: u64| #[trigger] map.map().contains_key(s) implies s < count by {
        let k = choose|k: int| 0 <= k < map.entries@.len() && (#[trigger] map.entries@[k]).0 == s;
        assert(map.entries@[k].0 < count);
    }
    true
}

/// Whether a value is a logits header.
fn has_logits_header(header: &Json) -> (yes: bool)
    ensures
        yes == is_logits_header(header@),
{
    let names: [&str; 19] = [
        "schema",
        "event",
        "run_id",
        "process_nonce",
        "process_id",
        "mode",
        "graph_mode",
        "provider",
        "device_target",
        "backend_id",
        "driver_version",
        "artifact_fingerprint",
        "device",
        "actual_provider",
        "actual_stable_device_id",
        "actual_device",
        "dtype",
        "encoding",
        "step_count",
    ];
    assert(json::names_view(names@) =~= logits_header_names());
    json::has_exact_json_fields(header, &names) && has_event(
        header,
        GPU_FULL_LOGITS_TRACE_SCHEMA,
        "header",
    ) && header.text_field_is("dtype", "f32") && header.text_field_is("encoding", "json_numbers")
}

/// Validates the header and the rows of a logits trace.
fn check_rows(
    events: &Vec<Json>,
    token_header: &Json,
    tokens: &Table<u64, (u64, ArtifactSelectionIdentity)>,
    reads: &Table<ArtifactComputeIdentity, u64>,
    max_steps: usize,
    max_vocab: usize,
) -> (result: Result<(), LogitsError>)
    requires
        tokens.wf(),
        reads.wf(),
        events@.len() > 0,
    ensures
        result == logits_rows(
            values_view(events@),
            token_header@,
            tokens.map(),
            reads.map(),
            max_steps as nat,
            max_vocab as nat,
        ),
{
    assert(values_view(events@)[0] == events@[0]@);
    if !has_logits_header(&events[0]) {
        return Err(LogitsError::InvalidHeader);
    }
    if let Some(field) = find_header_mismatch(&events[0], token_header) {
        return Err(LogitsError::HeaderMismatch(field));
    }
    let declared: u64 = match read_bounded(&events[0], "step_count", max_steps) {
        Some(declared) => declared,
        None => {
            return Err(LogitsError::NoStepCount);
        },
    };
    let rows = match gather_rows(events, tokens, reads, max_vocab) {
        Ok(rows) => rows,
        Err(error) => {
            return Err(error);
        },
    };
    if does_cover(&rows, declared) && does_cover(tokens, declared) {
        Ok(())
    } else {
        Err(LogitsError::StepsNotCovered)
    }
}

/// Validates the events of a logits trace against those of its token trace.
/// Nothing stands for a trace with a line that is no JSON document.
pub fn validate_logits_events(
    logits_events: &Option<Vec<Json>>,
    token_events: &Option<Vec<Json>>,
    max_steps: usize,
    max_vocab: usize,
) -> (result: Result<(), LogitsError>)
    ensures
        result == full_logits_trace(
            opt_values(*logits_events),
            opt_values(*token_events),
            max_steps as nat,
            max_vocab as nat,
        ),
{
    let token_events = match token_events {
        Some(token_events) => token_events,
        None => {
            return Err(LogitsError::TokenInvalidJson);
        },
    };
    assert(values_view(token_events@).len() == token_events@.len());
    if token_events.len() == 0 {
        return Err(LogitsError::NoTokenHeader);
    }
    assert(values_view(token_events@)[0] == token_events@[0]@);
    if !token_events[0].text_field_is("event", "header") {
        return Err(LogitsError::NoTokenHeader);
    }
    let reads = match gather_reads(token_events) {
        Ok(reads) => reads,
        Err(error) => {
            return Err(error);
        },
    };
    let tokens = match gather_tokens(token_events) {
        Ok(tokens) => tokens,
        Err(error) => {
            return Err(error);
        },
    };
    let logits_events = match logits_events {
        Some(logits_events) => logits_events,
        None => {
            return Err(LogitsError::LogitsInvalidJson);
        },
    };
    assert(values_view(logits_events@).len() == logits_events@.len());
    if logits_events.len() == 0 {
        return Err(LogitsError::LogitsEmpty);
    }
    check_rows(logits_events, &token_events[0], &tokens, &reads, max_steps, max_vocab)
}

/// Validates a full logits trace against its token trace. `max_steps` and
/// `max_vocab` bound the number of steps and the length of a row.
pub fn validate_full_logits_trace(
    logits_jsonl: &str,
    token_jsonl: &str,
    max_steps: usize,
    max_vocab: usize,
) -> (result: Result<(), LogitsError>)
    ensures
        result == full_logits_trace(
            jsonl_events(logits_jsonl@),
            jsonl_events(token_jsonl@),
            max_steps as nat,
            max_vocab as nat,
        ),
{
    let token_events = parse_documents(token_jsonl);
    let logits_events = parse_documents(logits_jsonl);
    validate_logits_events(&logits_events, &token_events, max_steps, max_vocab)
}

/// Whether an event of a logits trace records the row of a step.
pub open spec fn row_at(
    events: Seq<JsonView>,
    i: int,
    step: u64,
    tokens: Map<u64, (u64, ArtifactSelectionIdentity)>,
    reads: Map<ArtifactComputeIdentity, u64>,
    max_vocab: nat,
) -> bool {
    row_of(events[i], tokens, reads, max_vocab) matches Ok(row) && row.0 == step
}

/// Every event after the header records a row, the steps with a row are those
/// recorded, and each is recorded once.
pub proof fn law_rows_come_from_logits_lines(
    events: Seq<JsonView>,
    count: nat,
    tokens: Map<u64, (u64, ArtifactSelectionIdentity)>,
    reads: Map<ArtifactComputeIdentity, u64>,
    max_vocab: nat,
)
    requires
        count <= events.len(),
    ensures
        rows_after(events, count, tokens, reads, max_vocab) matches Ok(rows) ==> {
            &&& forall|i: int| 1 <= i < count ==> row_of(#[trigger] events[i], tokens, reads, max_vocab) is Ok
            &&& forall|step: u64|
                rows.contains_key(step) <==> exists|i: int|
                    1 <= i < count && row_at(events, i, step, tokens, reads, max_vocab)
            &&& forall|i: int, j: int, step: u64|
                1 <= i < count && 1 <= j < count && row_at(
                    events,
                    i,
                    step,
                    tokens,
                    reads,
                    max_vocab,
                ) && row_at(events, j, step, tokens, reads, max_vocab) ==> i == j
        },
    decreases count,
{
    if count > 1 {
        let last = count - 1;
        law_rows_come_from_logits_lines(events, last as nat, tokens, reads, max_vocab);
        if let Ok(rows) = rows_after(events, count, tokens, reads, max_vocab) {
            let before = rows_after(events, last as nat, tokens, reads, max_vocab)->Ok_0;
            let row = row_of(events[last], tokens, reads, max_vocab)->Ok_0;
            assert(row_at(events, last, row.0, tokens, reads, max_vocab));
            assert forall|step: u64|
                rows.contains_key(step) <==> exists|i: int|
                    1 <= i < count && row_at(events, i, step, tokens, reads, max_vocab) by {
                if before.contains_key(step) {
                    let i = choose|i: int|
                        1 <= i < last && row_at(events, i, step, tokens, reads, max_vocab);
                    assert(1 <= i < count && row_at(events, i, step, tokens, reads, max_vocab));
                }
                if exists|i: int|
                    1 <= i < count && row_at(events, i, step, tokens, reads, max_vocab) {
                    let i = choose|i: int|
                        1 <= i < count && row_at(events, i, step, tokens, reads, max_vocab);
                    if i < last {
                        assert(before.contains_key(step));
                    }
                }
            }
            assert forall|i: int, j: int, step: u64|
                1 <= i < count && 1 <= j < count && row_at(
                    events,
                    i,
                    step,
                    tokens,
                    reads,
                    max_vocab,
                ) && row_at(events, j, step, tokens, reads, max_vocab) implies i == j by {
                if i == last && j < last {
                    assert(before.contains_key(step));
                }
                if j == last && i < last {
                    assert(before.contains_key(step));
                }
            }
        }
    }
}

/// An accepted logits trace declares the number of steps, and both it and its
/// token trace record exactly the steps below that number: no token step lacks
/// its row, and no row lacks its token.
pub proof fn law_accepted_logits_cover_every_token(
    logits_events: Seq<JsonView>,
    token_events: Seq<JsonView>,
    max_steps: nat,
    max_vocab: nat,
    step: u64,
)
    requires
        full_logits_trace(Some(logits_events), Some(token_events), max_steps, max_vocab) is Ok,
    ensures
        logits_events.len() > 0,
        tokens_after(token_events, token_events.len()) is Ok,
        reads_after(token_events, token_events.len()) is Ok,
        ({
            let tokens = tokens_after(token_events, token_events.len())->Ok_0;
            let reads = reads_after(token_events, token_events.len())->Ok_0;
            let declared = logits_events[0].natural_field("step_count"@);
            &&& declared matches Some(count) && 0 < count <= max_steps
            &&& tokens.contains_key(step) <==> step < declared->0
            &&& (exists|i: int|
                1 <= i < logits_events.len() && row_at(
                    logits_events,
                    i,
                    step,
                    tokens,
                    reads,
                    max_vocab,
                )) <==> step < declared->0
        }),
{
    let tokens = tokens_after(token_events, token_events.len())->Ok_0;
    let reads = reads_after(token_events, token_events.len())->Ok_0;
    law_rows_come_from_logits_lines(
        logits_events,
        logits_events.len(),
        tokens,
        reads,
        max_vocab,
    );
    let rows = rows_after(logits_events, logits_events.len(), tokens, reads, max_vocab)->Ok_0;
    assert(rows.contains_key(step) <==> step < logits_events[0].natural_field("step_count"@)->0);
    assert(tokens.contains_key(step) <==> step < logits_events[0].natural_field("step_count"@)->0);
}

/// Whether an event of a token trace records that the output of a compute was read.
pub open spec fn tells_of_a_read(event: JsonView) -> bool {
    event.text_field("schema"@) == Some("openasr.ggml-graph-lifecycle.v1"@) && event.text_field(
        "event"@,
    ) == Some("output_read"@)
}

/// Whether an event of a token trace records a token.
pub open spec fn tells_of_a_token(event: JsonView) -> bool {
    event.text_field("schema"@) == Some("openasr.gpu-correctness-trace.v1"@) && event.text_field(
        "event"@,
    ) == Some("token"@)
}

/// Whether a token trace names a token of a step.
pub open spec fn names_a_token(events: Seq<JsonView>, step: u64) -> bool {
    exists|i: int|
        1 <= i < events.len() && tells_of_a_token(#[trigger] events[i]) && events[i].natural_field(
            "step_index"@,
        ) == Some(step)
}

/// Whether a line after the header names a step.
pub open spec fn names_a_row(events: Seq<JsonView>, step: u64) -> bool {
    exists|i: int|
        1 <= i < events.len() && (#[trigger] events[i]).natural_field("step_index"@) == Some(step)
}

spec fn read_identity(event: JsonView) -> ArtifactComputeIdentity {
    (
        event.natural_field("graph_instance"@)->Some_0,
        event.natural_field("graph_generation"@)->Some_0,
        event.natural_field("compute_sequence"@)->Some_0,
        event.natural_field("output_generation_consumed"@)->Some_0,
    )
}

spec fn reads_are_fit(events: Seq<JsonView>) -> bool {
    &&& forall|i: int|
        1 <= i < events.len() && tells_of_a_read(#[trigger] events[i]) ==> {
            &&& events[i].natural_field("graph_instance"@) matches Some(value) && value > 0
            &&& events[i].natural_field("graph_generation"@) matches Some(value) && value > 0
            &&& events[i].natural_field("compute_sequence"@) matches Some(value) && value > 0
            &&& events[i].natural_field("output_generation_consumed"@) matches Some(value) && value
                > 0
            &&& events[i].natural_field("bytes"@) matches Some(value) && value > 0
        }
    &&& forall|i: int, j: int|
        1 <= i < j < events.len() && tells_of_a_read(#[trigger] events[i]) && tells_of_a_read(
            #[trigger] events[j],
        ) ==> read_identity(events[i]) != read_identity(events[j])
}

spec fn tokens_are_fit(events: Seq<JsonView>) -> bool {
    &&& forall|i: int|
        1 <= i < events.len() && tells_of_a_token(#[trigger] events[i]) ==> {
            &&& events[i].natural_field("step_index"@) is Some
            &&& events[i].natural_field("token_id"@) matches Some(id) && id <= u32::MAX
            &&& trace::selection_in(events[i]) is Some
        }
    &&& forall|i: int, j: int|
        1 <= i < j < events.len() && tells_of_a_token(#[trigger] events[i]) && tells_of_a_token(
            #[trigger] events[j],
        ) ==> events[i].natural_field("step_index"@) != events[j].natural_field("step_index"@)
}

proof fn lemma_reads_gathered(events: Seq<JsonView>, count: nat)
    requires
        count <= events.len(),
        reads_are_fit(events),
    ensures
        reads_after(events, count) is Ok,
        forall|i: int|
            1 <= i < count && tells_of_a_read(#[trigger] events[i]) ==> reads_after(
                events,
                count,
            )->Ok_0.contains_key(read_identity(events[i])) && reads_after(
                events,
                count,
            )->Ok_0[read_identity(events[i])] == events[i].natural_field("bytes"@)->Some_0,
        forall|id: ArtifactComputeIdentity| #[trigger]
            reads_after(events, count)->Ok_0.contains_key(id) ==> exists|i: int|
                1 <= i < count && tells_of_a_read(#[trigger] events[i]) && read_identity(events[i])
                    == id,
    decreases count,
{
    if count > 1 {
        let last = count - 1;
        lemma_reads_gathered(events, last as nat);
        let before = reads_after(events, last as nat)->Ok_0;
        let event = events[last];
        if tells_of_a_read(event) {
            assert(output_read_of(event) == Ok::<(ArtifactComputeIdentity, u64), LogitsError>(
                (read_identity(event), event.natural_field("bytes"@)->Some_0),
            ));
            if before.contains_key(read_identity(event)) {
                let i = choose|i: int|
                    1 <= i < last && tells_of_a_read(#[trigger] events[i]) && read_identity(
                        events[i],
                    ) == read_identity(event);
                assert(read_identity(events[i]) != read_identity(events[last]));
            }
            let after = reads_after(events, count)->Ok_0;
            assert forall|id: ArtifactComputeIdentity| #[trigger]
                after.contains_key(id) implies exists|i: int|
                1 <= i < count && tells_of_a_read(#[trigger] events[i]) && read_identity(events[i])
                    == id by {
                if before.contains_key(id) {
                    let i = choose|i: int|
                        1 <= i < last && tells_of_a_read(#[trigger] events[i]) && read_identity(
                            events[i],
                        ) == id;
                    assert(tells_of_a_read(events[i]));
                } else {
                    assert(tells_of_a_read(events[last]));
                }
            }
        } else {
            assert(reads_after(events, count) == reads_after(events, last as nat));
        }
    }
}

proof fn lemma_tokens_gathered(events: Seq<JsonView>, count: nat)
    requires
        count <= events.len(),
        tokens_are_fit(events),
    ensures
        tokens_after(events, count) is Ok,
        forall|i: int|
            1 <= i < count && tells_of_a_token(#[trigger] events[i]) ==> {
                let step = events[i].natural_field("step_index"@)->Some_0;
                &&& tokens_after(events, count)->Ok_0.contains_key(step)
                &&& tokens_after(events, count)->Ok_0[step].0 == events[i].natural_field(
                    "token_id"@,
                )->Some_0
                &&& tokens_after(events, count)->Ok_0[step].1 == trace::selection_in(
                    events[i],
                )->Some_0.selection()
            },
        forall|step: u64| #[trigger]
            tokens_after(events, count)->Ok_0.contains_key(step) ==> exists|i: int|
                1 <= i < count && tells_of_a_token(#[trigger] events[i]) && events[i].natural_field(
                    "step_index"@,
                ) == Some(step),
    decreases count,
{
    if count > 1 {
        let last = count - 1;
        lemma_tokens_gathered(events, last as nat);
        let before = tokens_after(events, last as nat)->Ok_0;
        let event = events[last];
        if tells_of_a_token(event) {
            let own = event.natural_field("step_index"@)->Some_0;
            if before.contains_key(own) {
                let i = choose|i: int|
                    1 <= i < last && tells_of_a_token(#[trigger] events[i])
                        && events[i].natural_field("step_index"@) == Some(own);
                assert(events[i].natural_field("step_index"@) != events[last].natural_field(
                    "step_index"@,
                ));
            }
            let after = tokens_after(events, count)->Ok_0;
            assert forall|step: u64| #[trigger] after.contains_key(step) implies exists|i: int|
                1 <= i < count && tells_of_a_token(#[trigger] events[i]) && events[i].natural_field(
                    "step_index"@,
                ) == Some(step) by {
                if before.contains_key(step) {
                    let i = choose|i: int|
                        1 <= i < last && tells_of_a_token(#[trigger] events[i])
                            && events[i].natural_field("step_index"@) == Some(step);
                    assert(tells_of_a_token(events[i]));
                } else {
                    assert(tells_of_a_token(events[last]));
                }
            }
        } else {
            assert(tokens_after(events, count) == tokens_after(events, last as nat));
        }
    }
}

proof fn lemma_rows_gathered(
    events: Seq<JsonView>,
    count: nat,
    tokens: Map<u64, (u64, ArtifactSelectionIdentity)>,
    reads: Map<ArtifactComputeIdentity, u64>,
    max_vocab: nat,
)
    requires
        count <= events.len(),
        forall|i: int|
            1 <= i < events.len() ==> (row_of(#[trigger] events[i], tokens, reads, max_vocab) matches Ok(
                row,
            ) && events[i].natural_field("step_index"@) == Some(row.0)),
        forall|i: int, j: int|
            1 <= i < j < events.len() ==> (#[trigger] events[i]).natural_field("step_index"@) != (
            #[trigger] events[j]).natural_field("step_index"@),
    ensures
        rows_after(events, count, tokens, reads, max_vocab) is Ok,
        forall|step: u64| #[trigger]
            rows_after(events, count, tokens, reads, max_vocab)->Ok_0.contains_key(step) <==> exists|
                i: int,
            |
                1 <= i < count && (#[trigger] events[i]).natural_field("step_index"@) == Some(step),
    decreases count,
{
    if count > 1 {
        let last = count - 1;
        lemma_rows_gathered(events, last as nat, tokens, reads, max_vocab);
        let before = rows_after(events, last as nat, tokens, reads, max_vocab)->Ok_0;
        let row = row_of(events[last], tokens, reads, max_vocab)->Ok_0;
        if before.contains_key(row.0) {
            let i = choose|i: int|
                1 <= i < last && (#[trigger] events[i]).natural_field("step_index"@) == Some(row.0);
            assert(events[i].natural_field("step_index"@) != events[last].natural_field(
                "step_index"@,
            ));
        }
        let after = rows_after(events, count, tokens, reads, max_vocab)->Ok_0;
        assert(after == before.insert(row.0, row.1));
        assert forall|step: u64| #[trigger] after.contains_key(step) <==> exists|i: int|
            1 <= i < count && (#[trigger] events[i]).natural_field("step_index"@) == Some(step) by {
            if before.contains_key(step) {
                let i = choose|i: int|
                    1 <= i < last && (#[trigger] events[i]).natural_field("step_index"@) == Some(
                        step,
                    );
                assert(events[i].natural_field("step_index"@) == Some(step));
            }
            if step == row.0 {
                assert(events[last].natural_field("step_index"@) == Some(step));
            }
            if exists|i: int|
                1 <= i < count && (#[trigger] events[i]).natural_field("step_index"@) == Some(step) {
                let i = choose|i: int|
                    1 <= i < count && (#[trigger] events[i]).natural_field("step_index"@) == Some(
                        step,
                    );
                if i < last {
                    assert(before.contains_key(step));
                }
            }
        }
    }
}

/// A complete logits trace is accepted, however many steps it has. It is complete if
/// its header is one of full logits in `f32` as JSON numbers and agrees with the token
/// trace's; if the token trace reads each compute once and names each of the declared
/// steps once, and no other; and if there is one row for each of the steps and no other
/// line, each with a finite number for every entry of the vocabulary, the selected
/// output of its step's token, and the size of the output that was read.
pub proof fn law_complete_logits_trace_is_accepted(
    logits: Seq<JsonView>,
    tokens: Seq<JsonView>,
    steps: u64,
    max_steps: nat,
    max_vocab: nat,
)
    requires
        // The token trace.
        tokens.len() > 0,
        tokens[0].text_field("event"@) == Some("header"@),
        forall|i: int|
            1 <= i < tokens.len() && tells_of_a_read(#[trigger] tokens[i]) ==> {
                &&& tokens[i].natural_field("graph_instance"@) matches Some(value) && value > 0
                &&& tokens[i].natural_field("graph_generation"@) matches Some(value) && value > 0
                &&& tokens[i].natural_field("compute_sequence"@) matches Some(value) && value > 0
                &&& tokens[i].natural_field("output_generation_consumed"@) matches Some(value)
                    && value > 0
                &&& tokens[i].natural_field("bytes"@) matches Some(value) && value > 0
            },
        forall|i: int, j: int|
            1 <= i < j < tokens.len() && tells_of_a_read(#[trigger] tokens[i]) && tells_of_a_read(
                #[trigger] tokens[j],
            ) ==> {
                ||| tokens[i].natural_field("graph_instance"@) != tokens[j].natural_field(
                    "graph_instance"@,
                )
                ||| tokens[i].natural_field("graph_generation"@) != tokens[j].natural_field(
                    "graph_generation"@,
                )
                ||| tokens[i].natural_field("compute_sequence"@) != tokens[j].natural_field(
                    "compute_sequence"@,
                )
                ||| tokens[i].natural_field("output_generation_consumed"@)
                    != tokens[j].natural_field("output_generation_consumed"@)
            },
        forall|i: int|
            1 <= i < tokens.len() && tells_of_a_token(#[trigger] tokens[i]) ==> {
                &&& tokens[i].natural_field("step_index"@) matches Some(step) && step < steps
                &&& tokens[i].natural_field("token_id"@) matches Some(id) && id <= u32::MAX
                &&& trace::selection_in(tokens[i]) is Some
            },
        forall|i: int, j: int|
            1 <= i < j < tokens.len() && tells_of_a_token(#[trigger] tokens[i])
                && tells_of_a_token(#[trigger] tokens[j]) ==> tokens[i].natural_field(
                "step_index"@,
            ) != tokens[j].natural_field("step_index"@),
        forall|step: u64| step < steps ==> #[trigger] names_a_token(tokens, step),
        // The header of the logits trace.
        logits.len() > 0,
        logits[0].has_exact_fields(
            seq![
                "schema"@, "event"@, "run_id"@, "process_nonce"@, "process_id"@, "mode"@,
                "graph_mode"@, "provider"@, "device_target"@, "backend_id"@, "driver_version"@,
                "artifact_fingerprint"@, "device"@, "actual_provider"@,
                "actual_stable_device_id"@, "actual_device"@, "dtype"@, "encoding"@,
                "step_count"@,
            ],
        ),
        logits[0].text_field("schema"@) == Some("openasr.gpu-full-logits-trace.v1"@),
        logits[0].text_field("event"@) == Some("header"@),
        logits[0].text_field("dtype"@) == Some("f32"@),
        logits[0].text_field("encoding"@) == Some("json_numbers"@),
        logits[0].natural_field("step_count"@) == Some(steps),
        0 < steps <= max_steps,
        forall|name: Seq<char>|
            seq![
                "run_id"@, "process_nonce"@, "process_id"@, "mode"@, "graph_mode"@, "provider"@,
                "device_target"@, "backend_id"@, "driver_version"@, "artifact_fingerprint"@,
                "device"@, "actual_provider"@, "actual_stable_device_id"@, "actual_device"@,
            ].contains(name) ==> json::same_optional(
                #[trigger] logits[0].field(name),
                tokens[0].field(name),
            ),
        // The rows.
        forall|i: int|
            1 <= i < logits.len() ==> {
                let row = #[trigger] logits[i];
                let step = row.natural_field("step_index"@);
                let size = row.natural_field("vocab_size"@);
                let chosen = trace::selection_in(row);
                &&& row.has_exact_fields(
                    seq!["schema"@, "event"@, "step_index"@, "compute"@, "vocab_size"@, "values"@],
                )
                &&& row.text_field("schema"@) == Some("openasr.gpu-full-logits-trace.v1"@)
                &&& row.text_field("event"@) == Some("logits"@)
                &&& step is Some && step->0 < steps
                &&& size is Some && 0 < size->0 <= max_vocab
                &&& row.field("values"@) matches Some(JsonView::Array(values)) && values.len()
                    == size->0 && forall|k: int|
                    0 <= k < values.len() ==> (#[trigger] values[k]).finite_number()
                &&& chosen is Some
                &&& exists|j: int|
                    1 <= j < tokens.len() && tells_of_a_token(#[trigger] tokens[j])
                        && tokens[j].natural_field("step_index"@) == step
                        && tokens[j].natural_field("token_id"@)->0 < size->0
                        && trace::selection_in(tokens[j])->0.selection() == chosen->0.selection()
                &&& exists|j: int|
                    1 <= j < tokens.len() && tells_of_a_read(#[trigger] tokens[j])
                        && tokens[j].natural_field("graph_instance"@) == Some(
                        chosen->0.graph_instance,
                    ) && tokens[j].natural_field("graph_generation"@) == Some(
                        chosen->0.graph_generation,
                    ) && tokens[j].natural_field("compute_sequence"@) == Some(
                        chosen->0.compute_sequence,
                    ) && tokens[j].natural_field("output_generation_consumed"@) == Some(
                        chosen->0.output_generation,
                    ) && tokens[j].natural_field("bytes"@)->0 == chosen->0.output_count * size->0
                        * 4
            },
        forall|i: int, j: int|
            1 <= i < j < logits.len() ==> (#[trigger] logits[i]).natural_field("step_index"@) != (
            #[trigger] logits[j]).natural_field("step_index"@),
        forall|step: u64| step < steps ==> #[trigger] names_a_row(logits, step),
    ensures
        full_logits_trace(Some(logits), Some(tokens), max_steps, max_vocab) is Ok,
{
    let count = tokens.len();
    assert(reads_are_fit(tokens)) by {
        assert forall|i: int, j: int|
            1 <= i < j < tokens.len() && tells_of_a_read(#[trigger] tokens[i]) && tells_of_a_read(
                #[trigger] tokens[j],
            ) implies read_identity(tokens[i]) != read_identity(tokens[j]) by {
            assert(tokens[i].natural_field("graph_instance"@) is Some);
            assert(tokens[j].natural_field("graph_instance"@) is Some);
        }
    }
    assert(tokens_are_fit(tokens));
    lemma_reads_gathered(tokens, count);
    lemma_tokens_gathered(tokens, count);
    let reads = reads_after(tokens, count)->Ok_0;
    let named = tokens_after(tokens, count)->Ok_0;
    let shared = seq![
        "run_id"@, "process_nonce"@, "process_id"@, "mode"@, "graph_mode"@, "provider"@,
        "device_target"@, "backend_id"@, "driver_version"@, "artifact_fingerprint"@, "device"@,
        "actual_provider"@, "actual_stable_device_id"@, "actual_device"@,
    ];
    assert(header_mismatch(logits[0], tokens[0]) is None) by {
        assert(shared[0] == "run_id"@ && shared[1] == "process_nonce"@ && shared[2]
            == "process_id"@);
        assert(shared[3] == "mode"@ && shared[4] == "graph_mode"@ && shared[5] == "provider"@);
        assert(shared[6] == "device_target"@ && shared[7] == "backend_id"@ && shared[8]
            == "driver_version"@);
        assert(shared[9] == "artifact_fingerprint"@ && shared[10] == "device"@ && shared[11]
            == "actual_provider"@);
        assert(shared[12] == "actual_stable_device_id"@ && shared[13] == "actual_device"@);
    }
    assert(logits_header_names() =~= seq![
        "schema"@, "event"@, "run_id"@, "process_nonce"@, "process_id"@, "mode"@, "graph_mode"@,
        "provider"@, "device_target"@, "backend_id"@, "driver_version"@, "artifact_fingerprint"@,
        "device"@, "actual_provider"@, "actual_stable_device_id"@, "actual_device"@, "dtype"@,
        "encoding"@, "step_count"@,
    ]);
    assert(is_logits_header(logits[0]));
    assert forall|i: int| 1 <= i < logits.len() implies (row_of(
        #[trigger] logits[i],
        named,
        reads,
        max_vocab,
    ) matches Ok(row) && logits[i].natural_field("step_index"@) == Some(row.0)) by {
        let row = logits[i];
        let step = row.natural_field("step_index"@);
        let size = row.natural_field("vocab_size"@);
        let chosen = trace::selection_in(row);
        let t = choose|j: int|
            1 <= j < tokens.len() && tells_of_a_token(#[trigger] tokens[j])
                && tokens[j].natural_field("step_index"@) == step && tokens[j].natural_field(
                "token_id"@,
            )->0 < size->0 && trace::selection_in(tokens[j])->0.selection()
                == chosen->0.selection();
        let r = choose|j: int|
            1 <= j < tokens.len() && tells_of_a_read(#[trigger] tokens[j])
                && tokens[j].natural_field("graph_instance"@) == Some(chosen->0.graph_instance)
                && tokens[j].natural_field("graph_generation"@) == Some(
                chosen->0.graph_generation,
            ) && tokens[j].natural_field("compute_sequence"@) == Some(chosen->0.compute_sequence)
                && tokens[j].natural_field("output_generation_consumed"@) == Some(
                chosen->0.output_generation,
            ) && tokens[j].natural_field("bytes"@)->0 == chosen->0.output_count * size->0 * 4;
        assert(named.contains_key(step->0));
        assert(reads.contains_key(read_identity(tokens[r])));
        assert(read_identity(tokens[r]) == trace::compute_of(chosen->0.selection()));
        assert(row_is_complete(row, size->0));
    }
    lemma_rows_gathered(logits, logits.len(), named, reads, max_vocab);
    let rows = rows_after(logits, logits.len(), named, reads, max_vocab)->Ok_0;
    assert forall|step: u64| #[trigger] rows.contains_key(step) <==> step < steps as nat by {
        if rows.contains_key(step) {
            let i = choose|i: int|
                1 <= i < logits.len() && (#[trigger] logits[i]).natural_field("step_index"@)
                    == Some(step);
            assert(logits[i].natural_field("step_index"@)->0 < steps);
        }
        if step < steps {
            assert(names_a_row(logits, step));
        }
    }
    assert forall|step: u64| #[trigger] named.contains_key(step) <==> step < steps as nat by {
        if named.contains_key(step) {
            let i = choose|i: int|
                1 <= i < tokens.len() && tells_of_a_token(#[trigger] tokens[i])
                    && tokens[i].natural_field("step_index"@) == Some(step);
            assert(tokens[i].natural_field("step_index"@)->0 < steps);
        }
        if step < steps {
            assert(names_a_token(tokens, step));
            let i = choose|i: int|
                1 <= i < tokens.len() && tells_of_a_token(#[trigger] tokens[i])
                    && tokens[i].natural_field("step_index"@) == Some(step);
            assert(tells_of_a_token(tokens[i]));
        }
    }
}

proof fn lemma_gathered_reads_are_fit(events: Seq<JsonView>, count: nat)
    requires
        count <= events.len(),
        reads_after(events, count) is Ok,
    ensures
        forall|id: ArtifactComputeIdentity| #[trigger]
            reads_after(events, count)->Ok_0.contains_key(id) ==> exists|i: int|
                1 <= i < count && tells_of_a_read(#[trigger] events[i]) && read_identity(events[i])
                    == id && events[i].natural_field("bytes"@) == Some(
                    reads_after(events, count)->Ok_0[id],
                ),
        reads_are_fit(events.take(count as int)),
        forall|i: int|
            1 <= i < count && tells_of_a_read(#[trigger] events[i]) ==> reads_after(
                events,
                count,
            )->Ok_0.contains_key(read_identity(events[i])),
    decreases count,
{
    let taken = events.take(count as int);
    if count > 1 {
        let last = count - 1;
        lemma_gathered_reads_are_fit(events, last as nat);
        let before = reads_after(events, last as nat)->Ok_0;
        let after = reads_after(events, count)->Ok_0;
        let earlier = events.take(last);
        assert forall|i: int| 1 <= i < last implies earlier[i] == taken[i] by {}
        assert forall|i: int|
            1 <= i < taken.len() && tells_of_a_read(#[trigger] taken[i]) implies {
            &&& taken[i].natural_field("graph_instance"@) matches Some(value) && value > 0
            &&& taken[i].natural_field("graph_generation"@) matches Some(value) && value > 0
            &&& taken[i].natural_field("compute_sequence"@) matches Some(value) && value > 0
            &&& taken[i].natural_field("output_generation_consumed"@) matches Some(value) && value
                > 0
            &&& taken[i].natural_field("bytes"@) matches Some(value) && value > 0
        } by {
            if i < last {
                assert(earlier[i] == taken[i]);
            }
        }
        assert forall|i: int, j: int|
            1 <= i < j < taken.len() && tells_of_a_read(#[trigger] taken[i]) && tells_of_a_read(
                #[trigger] taken[j],
            ) implies read_identity(taken[i]) != read_identity(taken[j]) by {
            if j < last {
                assert(earlier[i] == taken[i] && earlier[j] == taken[j]);
            } else {
                assert(before.contains_key(read_identity(events[i])));
            }
        }
        assert forall|id: ArtifactComputeIdentity| #[trigger] after.contains_key(id) implies exists|
            i: int,
        |
            1 <= i < count && tells_of_a_read(#[trigger] events[i]) && read_identity(events[i])
                == id && events[i].natural_field("bytes"@) == Some(after[id]) by {
            if before.contains_key(id) {
                let i = choose|i: int|
                    1 <= i < last && tells_of_a_read(#[trigger] events[i]) && read_identity(
                        events[i],
                    ) == id && events[i].natural_field("bytes"@) == Some(before[id]);
                assert(tells_of_a_read(events[i]));
            } else {
                assert(tells_of_a_read(events[last]));
            }
        }
    }
}

proof fn lemma_gathered_tokens_are_fit(events: Seq<JsonView>, count: nat)
    requires
        count <= events.len(),
        tokens_after(events, count) is Ok,
    ensures
        forall|step: u64| #[trigger]
            tokens_after(events, count)->Ok_0.contains_key(step) ==> exists|i: int|
                1 <= i < count && tells_of_a_token(#[trigger] events[i]) && events[i].natural_field(
                    "step_index"@,
                ) == Some(step) && events[i].natural_field("token_id"@) == Some(
                    tokens_after(events, count)->Ok_0[step].0,
                ) && trace::selection_in(events[i])->Some_0.selection() == tokens_after(
                    events,
                    count,
                )->Ok_0[step].1,
        tokens_are_fit(events.take(count as int)),
        forall|i: int|
            1 <= i < count && tells_of_a_token(#[trigger] events[i]) ==> tokens_after(
                events,
                count,
            )->Ok_0.contains_key(events[i].natural_field("step_index"@)->Some_0),
    decreases count,
{
    let taken = events.take(count as int);
    if count > 1 {
        let last = count - 1;
        lemma_gathered_tokens_are_fit(events, last as nat);
        let before = tokens_after(events, last as nat)->Ok_0;
        let after = tokens_after(events, count)->Ok_0;
        let earlier = events.take(last);
        assert forall|i: int|
            1 <= i < taken.len() && tells_of_a_token(#[trigger] taken[i]) implies {
            &&& taken[i].natural_field("step_index"@) is Some
            &&& taken[i].natural_field("token_id"@) matches Some(id) && id <= u32::MAX
            &&& trace::selection_in(taken[i]) is Some
        } by {
            if i < last {
                assert(earlier[i] == taken[i]);
            }
        }
        assert forall|i: int, j: int|
            1 <= i < j < taken.len() && tells_of_a_token(#[trigger] taken[i]) && tells_of_a_token(
                #[trigger] taken[j],
            ) implies taken[i].natural_field("step_index"@) != taken[j].natural_field(
            "step_index"@,
        ) by {
            if j < last {
                assert(earlier[i] == taken[i] && earlier[j] == taken[j]);
            } else {
                assert(before.contains_key(events[i].natural_field("step_index"@)->Some_0));
                assert(earlier[i] == taken[i]);
            }
        }
        assert forall|step: u64| #[trigger] after.contains_key(step) implies exists|i: int|
            1 <= i < count && tells_of_a_token(#[trigger] events[i]) && events[i].natural_field(
                "step_index"@,
            ) == Some(step) && events[i].natural_field("token_id"@) == Some(after[step].0)
                && trace::selection_in(events[i])->Some_0.selection() == after[step].1 by {
            if before.contains_key(step) {
                let i = choose|i: int|
                    1 <= i < last && tells_of_a_token(#[trigger] events[i])
                        && events[i].natural_field("step_index"@) == Some(step)
                        && events[i].natural_field("token_id"@) == Some(before[step].0)
                        && trace::selection_in(events[i])->Some_0.selection() == before[step].1;
                assert(tells_of_a_token(events[i]));
            } else {
                assert(tells_of_a_token(events[last]));
            }
        }
    }
}

/// An accepted logits trace is complete. Its header is one of full logits in `f32` as
/// JSON numbers, agrees with the token trace's and declares how many steps there are;
/// the tokens name each of these steps once and no other, and so do the rows; and each
/// row has a finite number for every entry of the vocabulary, belongs to the selected
/// output of its step's token, whose number is one of the vocabulary, and has the size
/// of the output that was read.
pub proof fn law_accepted_logits_trace_is_complete(
    logits: Seq<JsonView>,
    tokens: Seq<JsonView>,
    max_steps: nat,
    max_vocab: nat,
)
    requires
        full_logits_trace(Some(logits), Some(tokens), max_steps, max_vocab) is Ok,
    ensures
        tokens.len() > 0,
        tokens[0].text_field("event"@) == Some("header"@),
        logits.len() > 0,
        logits[0].text_field("schema"@) == Some("openasr.gpu-full-logits-trace.v1"@),
        logits[0].text_field("event"@) == Some("header"@),
        logits[0].text_field("dtype"@) == Some("f32"@),
        logits[0].text_field("encoding"@) == Some("json_numbers"@),
        json::same_optional(logits[0].field("run_id"@), tokens[0].field("run_id"@)),
        json::same_optional(logits[0].field("process_nonce"@), tokens[0].field("process_nonce"@)),
        json::same_optional(logits[0].field("process_id"@), tokens[0].field("process_id"@)),
        json::same_optional(logits[0].field("mode"@), tokens[0].field("mode"@)),
        json::same_optional(logits[0].field("graph_mode"@), tokens[0].field("graph_mode"@)),
        json::same_optional(logits[0].field("provider"@), tokens[0].field("provider"@)),
        json::same_optional(logits[0].field("device_target"@), tokens[0].field("device_target"@)),
        json::same_optional(logits[0].field("backend_id"@), tokens[0].field("backend_id"@)),
        json::same_optional(
            logits[0].field("driver_version"@),
            tokens[0].field("driver_version"@),
        ),
        json::same_optional(
            logits[0].field("artifact_fingerprint"@),
            tokens[0].field("artifact_fingerprint"@),
        ),
        json::same_optional(logits[0].field("device"@), tokens[0].field("device"@)),
        json::same_optional(
            logits[0].field("actual_provider"@),
            tokens[0].field("actual_provider"@),
        ),
        json::same_optional(
            logits[0].field("actual_stable_device_id"@),
            tokens[0].field("actual_stable_device_id"@),
        ),
        json::same_optional(logits[0].field("actual_device"@), tokens[0].field("actual_device"@)),
        logits[0].natural_field("step_count"@) matches Some(steps) && 0 < steps <= max_steps,
        forall|step: u64| #[trigger]
            names_a_token(tokens, step) <==> step < logits[0].natural_field("step_count"@)->0,
        forall|step: u64| #[trigger]
            names_a_row(logits, step) <==> step < logits[0].natural_field("step_count"@)->0,
        forall|i: int, j: int|
            1 <= i < j < tokens.len() && tells_of_a_token(#[trigger] tokens[i])
                && tells_of_a_token(#[trigger] tokens[j]) ==> tokens[i].natural_field(
                "step_index"@,
            ) != tokens[j].natural_field("step_index"@),
        forall|i: int, j: int|
            1 <= i < j < logits.len() ==> (#[trigger] logits[i]).natural_field("step_index"@) != (
            #[trigger] logits[j]).natural_field("step_index"@),
        forall|i: int|
            1 <= i < logits.len() ==> {
                let row = #[trigger] logits[i];
                let size = row.natural_field("vocab_size"@);
                let chosen = trace::selection_in(row);
                &&& row.text_field("schema"@) == Some("openasr.gpu-full-logits-trace.v1"@)
                &&& row.text_field("event"@) == Some("logits"@)
                &&& row.natural_field("step_index"@) is Some
                &&& size is Some && 0 < size->0 <= max_vocab
                &&& row.field("values"@) matches Some(JsonView::Array(values)) && values.len()
                    == size->0 && forall|k: int|
                    0 <= k < values.len() ==> (#[trigger] values[k]).finite_number()
                &&& chosen is Some
                &&& exists|j: int|
                    1 <= j < tokens.len() && tells_of_a_token(#[trigger] tokens[j])
                        && tokens[j].natural_field("step_index"@) == row.natural_field(
                        "step_index"@,
                    ) && tokens[j].natural_field("token_id"@) is Some && tokens[j].natural_field(
                        "token_id"@,
                    )->0 < size->0 && trace::selection_in(tokens[j])->Some_0.selection()
                        == chosen->0.selection()
                &&& exists|j: int|
                    1 <= j < tokens.len() && tells_of_a_read(#[trigger] tokens[j])
                        && tokens[j].natural_field("graph_instance"@) == Some(
                        chosen->0.graph_instance,
                    ) && tokens[j].natural_field("graph_generation"@) == Some(
                        chosen->0.graph_generation,
                    ) && tokens[j].natural_field("compute_sequence"@) == Some(
                        chosen->0.compute_sequence,
                    ) && tokens[j].natural_field("output_generation_consumed"@) == Some(
                        chosen->0.output_generation,
                    ) && tokens[j].natural_field("bytes"@) is Some && tokens[j].natural_field(
                        "bytes"@,
                    )->0 == chosen->0.output_count * size->0 * 4
            },
{
    let count = tokens.len();
    let reads = reads_after(tokens, count)->Ok_0;
    let named = tokens_after(tokens, count)->Ok_0;
    let rows = rows_after(logits, logits.len(), named, reads, max_vocab)->Ok_0;
    let steps = logits[0].natural_field("step_count"@)->0;
    assert(tokens.take(count as int) =~= tokens);
    lemma_gathered_reads_are_fit(tokens, count);
    lemma_gathered_tokens_are_fit(tokens, count);
    law_rows_come_from_logits_lines(logits, logits.len(), named, reads, max_vocab);
    assert forall|step: u64| #[trigger] names_a_token(tokens, step) <==> step < steps by {
        assert(named.contains_key(step) <==> step < steps);
        if names_a_token(tokens, step) {
            let i = choose|i: int|
                1 <= i < tokens.len() && tells_of_a_token(#[trigger] tokens[i])
                    && tokens[i].natural_field("step_index"@) == Some(step);
            assert(named.contains_key(step));
        }
    }
    assert forall|i: int| 1 <= i < logits.len() implies row_at(
        logits,
        i,
        (#[trigger] logits[i]).natural_field("step_index"@)->0,
        named,
        reads,
        max_vocab,
    ) && logits[i].natural_field("step_index"@) is Some by {
        assert(row_of(logits[i], named, reads, max_vocab) is Ok);
    }
    assert forall|step: u64| #[trigger] names_a_row(logits, step) <==> step < steps by {
        assert(rows.contains_key(step) <==> step < steps);
        if names_a_row(logits, step) {
            let i = choose|i: int|
                1 <= i < logits.len() && (#[trigger] logits[i]).natural_field("step_index"@)
                    == Some(step);
            assert(row_at(logits, i, step, named, reads, max_vocab));
        }
        if rows.contains_key(step) {
            let i = choose|i: int|
                1 <= i < logits.len() && row_at(logits, i, step, named, reads, max_vocab);
            assert(logits[i].natural_field("step_index"@) == Some(step));
        }
    }
    assert forall|i: int, j: int| 1 <= i < j < logits.len() implies (
    #[trigger] logits[i]).natural_field("step_index"@) != (#[trigger] logits[j]).natural_field(
        "step_index"@,
    ) by {
        let step = logits[i].natural_field("step_index"@)->0;
        assert(row_at(logits, i, step, named, reads, max_vocab));
        if logits[j].natural_field("step_index"@) == Some(step) {
            assert(row_at(logits, j, step, named, reads, max_vocab));
        }
    }
    assert forall|i: int| 1 <= i < logits.len() implies ({
        let row = #[trigger] logits[i];
        let size = row.natural_field("vocab_size"@);
        let chosen = trace::selection_in(row);
        &&& exists|j: int|
            1 <= j < tokens.len() && tells_of_a_token(#[trigger] tokens[j])
                && tokens[j].natural_field("step_index"@) == row.natural_field("step_index"@)
                && tokens[j].natural_field("token_id"@) is Some && tokens[j].natural_field(
                "token_id"@,
            )->0 < size->0 && trace::selection_in(tokens[j])->Some_0.selection()
                == chosen->0.selection()
        &&& exists|j: int|
            1 <= j < tokens.len() && tells_of_a_read(#[trigger] tokens[j])
                && tokens[j].natural_field("graph_instance"@) == Some(chosen->0.graph_instance)
                && tokens[j].natural_field("graph_generation"@) == Some(
                chosen->0.graph_generation,
            ) && tokens[j].natural_field("compute_sequence"@) == Some(chosen->0.compute_sequence)
                && tokens[j].natural_field("output_generation_consumed"@) == Some(
                chosen->0.output_generation,
            ) && tokens[j].natural_field("bytes"@) is Some && tokens[j].natural_field("bytes"@)->0
                == chosen->0.output_count * size->0 * 4
    }) by {
        let row = logits[i];
        let step = row.natural_field("step_index"@)->0;
        let chosen = trace::selection_in(row)->0;
        assert(row_of(row, named, reads, max_vocab) is Ok);
        assert(named.contains_key(step));
        let t = choose|t: int|
            1 <= t < count && tells_of_a_token(#[trigger] tokens[t]) && tokens[t].natural_field(
                "step_index"@,
            ) == Some(step) && tokens[t].natural_field("token_id"@) == Some(named[step].0)
                && trace::selection_in(tokens[t])->Some_0.selection() == named[step].1;
        assert(tells_of_a_token(tokens[t]));
        let id = trace::compute_of(chosen.selection());
        assert(reads.contains_key(id));
        let r = choose|r: int|
            1 <= r < count && tells_of_a_read(#[trigger] tokens[r]) && read_identity(tokens[r])
                == id && tokens[r].natural_field("bytes"@) == Some(reads[id]);
        assert(tells_of_a_read(tokens[r]));
        assert(tokens[r].natural_field("graph_instance"@) is Some);
    }
}

} // verus!
