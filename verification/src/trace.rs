//! The strict runtime trace: a header, the lifecycle of the graphs that ran, and
//! for every decoded step a token and its best alternatives.

use vstd::prelude::*;

use crate::capture;
use crate::capture::{
    ArtifactCaptureLifecycleState, CaptureError, CaptureView, GgmlGraphLifecycleEvent,
    GgmlGraphLifecycleEventKind,
};
use crate::json;
use crate::json::{Json, JsonView};
use crate::table;
use crate::table::Table;
use crate::text;

verus! {

/// The schema of graph lifecycle events.
pub const GGML_GRAPH_LIFECYCLE_SCHEMA: &'static str = "openasr.ggml-graph-lifecycle.v1";

/// The schema of correctness trace events.
pub const GPU_CORRECTNESS_TRACE_SCHEMA: &'static str = "openasr.gpu-correctness-trace.v1";

/// One compute of one graph, with the generation of its output.
pub type ArtifactComputeIdentity = (u64, u64, u64, u64);

/// One output of a compute.
pub type ArtifactSelectionIdentity = (u64, u64, u64, u64, u64, u64);

/// Which compute output a recorded step was selected from.
#[derive(Clone, Copy, Debug, PartialEq, Eq, Structural)]
pub struct ArtifactSelectionEvidenceRef {
    pub graph_instance: u64,
    pub graph_generation: u64,
    pub compute_sequence: u64,
    pub output_generation: u64,
    pub output_index: u64,
    pub output_count: u64,
}

/// The names of the fields of a selection reference, in order.
pub open spec fn selection_names() -> Seq<Seq<char>> {
    seq![
        "graph_instance"@,
        "graph_generation"@,
        "compute_sequence"@,
        "output_generation"@,
        "output_index"@,
        "output_count"@,
    ]
}

/// The selection reference that six optional numbers make.
pub open spec fn selection_from(
    graph_instance: Option<u64>,
    graph_generation: Option<u64>,
    compute_sequence: Option<u64>,
    output_generation: Option<u64>,
    output_index: Option<u64>,
    output_count: Option<u64>,
) -> Option<ArtifactSelectionEvidenceRef> {
    if graph_instance is Some && graph_generation is Some && compute_sequence is Some
        && output_generation is Some && output_index is Some && output_count is Some {
        Some(
            ArtifactSelectionEvidenceRef {
                graph_instance: graph_instance->0,
                graph_generation: graph_generation->0,
                compute_sequence: compute_sequence->0,
                output_generation: output_generation->0,
                output_index: output_index->0,
                output_count: output_count->0,
            },
        )
    } else {
        None
    }
}

/// The six numbers of a selection reference, read from an object with exactly
/// their fields or from an array that lists them in order.
pub open spec fn selection_fields(value: JsonView) -> Option<ArtifactSelectionEvidenceRef> {
    match value {
        JsonView::Object(_) => if value.has_exact_fields(selection_names()) {
            selection_from(
                value.natural_field("graph_instance"@),
                value.natural_field("graph_generation"@),
                value.natural_field("compute_sequence"@),
                value.natural_field("output_generation"@),
                value.natural_field("output_index"@),
                value.natural_field("output_count"@),
            )
        } else {
            None
        },
        JsonView::Array(items) => if items.len() == 6 {
            selection_from(
                items[0].natural(),
                items[1].natural(),
                items[2].natural(),
                items[3].natural(),
                items[4].natural(),
                items[5].natural(),
            )
        } else {
            None
        },
        _ => None,
    }
}

/// Whether a selection reference can name a real output: every identity is
/// positive and the index lies below the count.
pub open spec fn selection_is_real(selection: ArtifactSelectionEvidenceRef) -> bool {
    &&& selection.graph_instance > 0
    &&& selection.graph_generation > 0
    &&& selection.compute_sequence > 0
    &&& selection.output_generation > 0
    &&& selection.output_index < selection.output_count
}

/// The selection reference that a value records.
pub open spec fn selection_of(value: JsonView) -> Option<ArtifactSelectionEvidenceRef> {
    match selection_fields(value) {
        Some(selection) => if selection_is_real(selection) {
            Some(selection)
        } else {
            None
        },
        None => None,
    }
}

/// The selection reference recorded in a field of an event.
pub open spec fn selection_in(event: JsonView) -> Option<ArtifactSelectionEvidenceRef> {
    match event.field("compute"@) {
        Some(value) => selection_of(value),
        None => None,
    }
}

/// The compute that a selection identity belongs to.
pub open spec fn compute_of(selection: ArtifactSelectionIdentity) -> ArtifactComputeIdentity {
    (selection.0, selection.1, selection.2, selection.3)
}

impl ArtifactSelectionEvidenceRef {
    /// The identity of the output, as the spec functions name it.
    pub open spec fn selection(self) -> ArtifactSelectionIdentity {
        (
            self.graph_instance,
            self.graph_generation,
            self.compute_sequence,
            self.output_generation,
            self.output_index,
            self.output_count,
        )
    }

    /// Reads a selection reference; nothing when a field is missing, unknown, no
    /// 64-bit natural, or when no real output has that identity.
    pub fn parse(value: &Json) -> (selection: Option<Self>)
        ensures
            selection == selection_of(value@),
    {
        let fields = match value {
            Json::Object(_) => {
                let names: [&str; 6] = [
                    "graph_instance",
                    "graph_generation",
                    "compute_sequence",
                    "output_generation",
                    "output_index",
                    "output_count",
                ];
                assert(json::names_view(names@) =~= selection_names());
                if !json::has_exact_json_fields(value, &names) {
                    return None;
                }
                (
                    value.natural_field("graph_instance"),
                    value.natural_field("graph_generation"),
                    value.natural_field("compute_sequence"),
                    value.natural_field("output_generation"),
                    value.natural_field("output_index"),
                    value.natural_field("output_count"),
                )
            },
            Json::Array(items) => {
                assert(value@->Array_0.len() == items@.len());
                assert forall|i: int| 0 <= i < items@.len() implies value@->Array_0[i]
                    == #[trigger] items@[i]@ by {}
                if items.len() != 6 {
                    return None;
                }
                (
                    items[0].as_natural(),
                    items[1].as_natural(),
                    items[2].as_natural(),
                    items[3].as_natural(),
                    items[4].as_natural(),
                    items[5].as_natural(),
                )
            },
            _ => {
                return None;
            },
        };
        match fields {
            (
                Some(graph_instance),
                Some(graph_generation),
                Some(compute_sequence),
                Some(output_generation),
                Some(output_index),
                Some(output_count),
            ) => {
                if graph_instance == 0 || graph_generation == 0 || compute_sequence == 0
                    || output_generation == 0 || output_count == 0 || output_index
                    >= output_count {
                    return None;
                }
                Some(
                    ArtifactSelectionEvidenceRef {
                        graph_instance,
                        graph_generation,
                        compute_sequence,
                        output_generation,
                        output_index,
                        output_count,
                    },
                )
            },
            _ => None,
        }
    }

    /// The compute that the selection belongs to.
    pub fn compute_identity(&self) -> (identity: ArtifactComputeIdentity)
        ensures
            identity == compute_of(self.selection()),
    {
        (
            self.graph_instance,
            self.graph_generation,
            self.compute_sequence,
            self.output_generation,
        )
    }

    /// The identity of the selected output.
    pub fn selection_identity(&self) -> (identity: ArtifactSelectionIdentity)
        ensures
            identity == self.selection(),
    {
        (
            self.graph_instance,
            self.graph_generation,
            self.compute_sequence,
            self.output_generation,
            self.output_index,
            self.output_count,
        )
    }
}

/// Reads the selection reference in the `compute` field of an event.
pub(crate) fn event_selection(event: &Json) -> (selection: Option<ArtifactSelectionEvidenceRef>)
    ensures
        selection == selection_in(event@),
{
    match event.field("compute") {
        Some(value) => ArtifactSelectionEvidenceRef::parse(value),
        None => None,
    }
}

/// How the execution core read a lifecycle line.
#[derive(Debug)]
pub enum LifecycleDecode {
    NotStrict,
    Invalid,
    Event(GgmlGraphLifecycleEvent),
}

/// The device that a header names as the one that ran.
#[derive(Debug)]
pub struct GgmlActualDeviceFacts {
    pub device_type: String,
    pub name: String,
    pub description: String,
}

/// What the execution core read from one line of a trace: the lifecycle event,
/// where the line is one, and the device of a header.
#[derive(Debug)]
pub struct TraceLineFacts {
    pub lifecycle: LifecycleDecode,
    pub actual_device: Option<GgmlActualDeviceFacts>,
}

/// The header fields that must be short single-line texts.
#[derive(Clone, Copy, Debug, PartialEq, Eq, Structural)]
pub enum HeaderTextField {
    Provider,
    DeviceTarget,
    BackendId,
    DriverVersion,
    ArtifactFingerprint,
    Device,
}

/// The name of a header field.
pub open spec fn header_field_name(field: HeaderTextField) -> Seq<char> {
    match field {
        HeaderTextField::Provider => "provider"@,
        HeaderTextField::DeviceTarget => "device_target"@,
        HeaderTextField::BackendId => "backend_id"@,
        HeaderTextField::DriverVersion => "driver_version"@,
        HeaderTextField::ArtifactFingerprint => "artifact_fingerprint"@,
        HeaderTextField::Device => "device"@,
    }
}

impl HeaderTextField {
    /// The name of the field.
    pub fn name(self) -> (name: String)
        ensures
            name@ == header_field_name(self),
    {
        match self {
            HeaderTextField::Provider => "provider".to_owned(),
            HeaderTextField::DeviceTarget => "device_target".to_owned(),
            HeaderTextField::BackendId => "backend_id".to_owned(),
            HeaderTextField::DriverVersion => "driver_version".to_owned(),
            HeaderTextField::ArtifactFingerprint => "artifact_fingerprint".to_owned(),
            HeaderTextField::Device => "device".to_owned(),
        }
    }
}

/// The lifecycle events that a trace cannot lack.
#[derive(Clone, Copy, Debug, PartialEq, Eq, Structural)]
pub enum RequiredEvent {
    InputWrite,
    ComputeStarted,
    ComputeCompleted,
    OutputRead,
}

/// The name of a required event.
pub open spec fn required_event_name(event: RequiredEvent) -> Seq<char> {
    match event {
        RequiredEvent::InputWrite => "input_write"@,
        RequiredEvent::ComputeStarted => "compute_started"@,
        RequiredEvent::ComputeCompleted => "compute_completed"@,
        RequiredEvent::OutputRead => "output_read"@,
    }
}

impl RequiredEvent {
    /// The name of the event.
    pub fn name(self) -> (name: String)
        ensures
            name@ == required_event_name(self),
    {
        match self {
            RequiredEvent::InputWrite => "input_write".to_owned(),
            RequiredEvent::ComputeStarted => "compute_started".to_owned(),
            RequiredEvent::ComputeCompleted => "compute_completed".to_owned(),
            RequiredEvent::OutputRead => "output_read".to_owned(),
        }
    }
}

/// Why a runtime trace is refused.
#[derive(Clone, Copy, Debug, PartialEq, Eq, Structural)]
pub enum TraceError {
    InvalidJson,
    LifecycleNotStrict,
    LifecycleInvalid,
    SequenceNotIncreasing,
    LifecycleBeforeHeader,
    LifecycleRouteMismatch,
    Capture(CaptureError),
    RepeatedOutputRead,
    MisplacedHeader,
    HeaderWithoutProvider,
    HeaderWithoutDevice,
    HeaderIdentityMismatch,
    HeaderActualDeviceInvalid,
    HeaderActualDeviceMismatch,
    HeaderWithoutRunId,
    HeaderInvalidRunId,
    HeaderWithoutProcessNonce,
    HeaderInvalidProcess,
    HeaderInvalidMode,
    HeaderInvalidGraphMode,
    HeaderInvalidField(HeaderTextField),
    TokenFields,
    TokenWithoutStep,
    TokenInvalid,
    TokenComputeInvalid,
    TokenDuplicateStep(u64),
    TopKFields,
    TopKWithoutStep,
    TopKWithoutItems,
    TopKWithoutMargin(u64),
    TopKDuplicateStep(u64),
    TopKComputeInvalid,
    UnknownEvent,
    NoHeader,
    StepsUnmatched,
    StepsNotContiguous,
    ComputeNotBound,
    NoAttachment,
    MissingLifecycleEvent(RequiredEvent),
    InconsistentCaptureMode,
    CaptureNotConsumed,
}

/// The message of a trace error.
pub open spec fn trace_message(error: TraceError) -> Seq<char> {
    match error {
        TraceError::InvalidJson => "runtime trace contains invalid JSON"@,
        TraceError::LifecycleNotStrict => "runtime lifecycle event has unknown or missing fields"@,
        TraceError::LifecycleInvalid => "runtime graph lifecycle event is invalid"@,
        TraceError::SequenceNotIncreasing => "runtime graph lifecycle sequence is not strictly increasing"@,
        TraceError::LifecycleBeforeHeader => "runtime graph lifecycle event precedes the strict trace header"@,
        TraceError::LifecycleRouteMismatch => "runtime graph lifecycle event is not bound to the final route"@,
        TraceError::Capture(inner) => capture::capture_message(inner),
        TraceError::RepeatedOutputRead => "runtime trace has ambiguous repeated output reads for one compute"@,
        TraceError::MisplacedHeader => "runtime trace must contain exactly one leading header"@,
        TraceError::HeaderWithoutProvider => "runtime trace header has no provider"@,
        TraceError::HeaderWithoutDevice => "runtime trace header has no device"@,
        TraceError::HeaderIdentityMismatch => "runtime trace header lacks matching live backend identity"@,
        TraceError::HeaderActualDeviceInvalid => "runtime trace header actual_device is invalid"@,
        TraceError::HeaderActualDeviceMismatch => "runtime trace header actual_device does not match its stable id"@,
        TraceError::HeaderWithoutRunId => "runtime trace header has no run_id"@,
        TraceError::HeaderInvalidRunId => "runtime trace header has an invalid run_id"@,
        TraceError::HeaderWithoutProcessNonce => "runtime trace header has no process_nonce"@,
        TraceError::HeaderInvalidProcess => "runtime trace header has an invalid process identity"@,
        TraceError::HeaderInvalidMode => "runtime trace header has an invalid execution mode"@,
        TraceError::HeaderInvalidGraphMode => "runtime trace header has an invalid graph mode"@,
        TraceError::HeaderInvalidField(field) => "runtime trace header has an invalid "@ + header_field_name(field),
        TraceError::TokenFields => "runtime token trace contains unknown or missing fields"@,
        TraceError::TokenWithoutStep => "runtime token trace has no step_index"@,
        TraceError::TokenInvalid => "runtime token trace has an invalid token or EOT value"@,
        TraceError::TokenComputeInvalid => "runtime token trace compute ref is invalid"@,
        TraceError::TokenDuplicateStep(step) => "runtime token trace has duplicate step_index "@ + text::decimal(step as nat),
        TraceError::TopKFields => "runtime top-k trace contains unknown or missing fields"@,
        TraceError::TopKWithoutStep => "runtime top-k trace has no step_index"@,
        TraceError::TopKWithoutItems => "runtime top-k trace has no items"@,
        TraceError::TopKWithoutMargin(step) => "runtime top-k trace lacks a real top1/top2 margin at step "@ + text::decimal(step as nat),
        TraceError::TopKDuplicateStep(step) => "runtime top-k trace has duplicate step_index "@ + text::decimal(step as nat),
        TraceError::TopKComputeInvalid => "runtime top-k trace compute ref is invalid"@,
        TraceError::UnknownEvent => "runtime trace contains an unknown event"@,
        TraceError::NoHeader => "runtime trace has no strict header"@,
        TraceError::StepsUnmatched => "every runtime token trace step must have exactly one same-step top-k/margin record"@,
        TraceError::StepsNotContiguous => "runtime token trace steps must be bounded and contiguous from zero"@,
        TraceError::ComputeNotBound => "every runtime token/top-k step must bind the same successfully read graph compute"@,
        TraceError::NoAttachment => "runtime trace lacks a real graph creation or warm attachment event"@,
        TraceError::MissingLifecycleEvent(required) => "runtime trace lacks required lifecycle event "@ + required_event_name(required),
        TraceError::InconsistentCaptureMode => "runtime trace does not bind one consistent native capture mode to every computed graph"@,
        TraceError::CaptureNotConsumed => "runtime trace observes enabled native capture without a compute that consumed its executable generation"@,
    }
}

impl TraceError {
    /// The message shown for the error.
    pub fn message(self) -> (text: String)
        ensures
            text@ == trace_message(self),
    {
        match self {
            TraceError::InvalidJson => "runtime trace contains invalid JSON".to_owned(),
            TraceError::LifecycleNotStrict => "runtime lifecycle event has unknown or missing fields".to_owned(),
            TraceError::LifecycleInvalid => "runtime graph lifecycle event is invalid".to_owned(),
            TraceError::SequenceNotIncreasing => "runtime graph lifecycle sequence is not strictly increasing".to_owned(),
            TraceError::LifecycleBeforeHeader => "runtime graph lifecycle event precedes the strict trace header".to_owned(),
            TraceError::LifecycleRouteMismatch => "runtime graph lifecycle event is not bound to the final route".to_owned(),
            TraceError::Capture(inner) => inner.message(),
            TraceError::RepeatedOutputRead => "runtime trace has ambiguous repeated output reads for one compute".to_owned(),
            TraceError::MisplacedHeader => "runtime trace must contain exactly one leading header".to_owned(),
            TraceError::HeaderWithoutProvider => "runtime trace header has no provider".to_owned(),
            TraceError::HeaderWithoutDevice => "runtime trace header has no device".to_owned(),
            TraceError::HeaderIdentityMismatch => "runtime trace header lacks matching live backend identity".to_owned(),
            TraceError::HeaderActualDeviceInvalid => "runtime trace header actual_device is invalid".to_owned(),
            TraceError::HeaderActualDeviceMismatch => "runtime trace header actual_device does not match its stable id".to_owned(),
            TraceError::HeaderWithoutRunId => "runtime trace header has no run_id".to_owned(),
            TraceError::HeaderInvalidRunId => "runtime trace header has an invalid run_id".to_owned(),
            TraceError::HeaderWithoutProcessNonce => "runtime trace header has no process_nonce".to_owned(),
            TraceError::HeaderInvalidProcess => "runtime trace header has an invalid process identity".to_owned(),
            TraceError::HeaderInvalidMode => "runtime trace header has an invalid execution mode".to_owned(),
            TraceError::HeaderInvalidGraphMode => "runtime trace header has an invalid graph mode".to_owned(),
            TraceError::HeaderInvalidField(field) => {
                let mut out = "runtime trace header has an invalid ".to_owned();
                out.append(field.name().as_str());
                out
            },
            TraceError::TokenFields => "runtime token trace contains unknown or missing fields".to_owned(),
            TraceError::TokenWithoutStep => "runtime token trace has no step_index".to_owned(),
            TraceError::TokenInvalid => "runtime token trace has an invalid token or EOT value".to_owned(),
            TraceError::TokenComputeInvalid => "runtime token trace compute ref is invalid".to_owned(),
            TraceError::TokenDuplicateStep(step) => {
                let mut out = "runtime token trace has duplicate step_index ".to_owned();
                out.append(text::decimal_text(step).as_str());
                out
            },
            TraceError::TopKFields => "runtime top-k trace contains unknown or missing fields".to_owned(),
            TraceError::TopKWithoutStep => "runtime top-k trace has no step_index".to_owned(),
            TraceError::TopKWithoutItems => "runtime top-k trace has no items".to_owned(),
            TraceError::TopKWithoutMargin(step) => {
                let mut out = "runtime top-k trace lacks a real top1/top2 margin at step ".to_owned();
                out.append(text::decimal_text(step).as_str());
                out
            },
            TraceError::TopKDuplicateStep(step) => {
                let mut out = "runtime top-k trace has duplicate step_index ".to_owned();
                out.append(text::decimal_text(step).as_str());
                out
            },
            TraceError::TopKComputeInvalid => "runtime top-k trace compute ref is invalid".to_owned(),
            TraceError::UnknownEvent => "runtime trace contains an unknown event".to_owned(),
            TraceError::NoHeader => "runtime trace has no strict header".to_owned(),
            TraceError::StepsUnmatched => "every runtime token trace step must have exactly one same-step top-k/margin record".to_owned(),
            TraceError::StepsNotContiguous => "runtime token trace steps must be bounded and contiguous from zero".to_owned(),
            TraceError::ComputeNotBound => "every runtime token/top-k step must bind the same successfully read graph compute".to_owned(),
            TraceError::NoAttachment => "runtime trace lacks a real graph creation or warm attachment event".to_owned(),
            TraceError::MissingLifecycleEvent(required) => {
                let mut out = "runtime trace lacks required lifecycle event ".to_owned();
                out.append(required.name().as_str());
                out
            },
            TraceError::InconsistentCaptureMode => "runtime trace does not bind one consistent native capture mode to every computed graph".to_owned(),
            TraceError::CaptureNotConsumed => "runtime trace observes enabled native capture without a compute that consumed its executable generation".to_owned(),
        }
    }
}


/// Which lifecycle events a trace has shown.
#[derive(Clone, Copy, Debug, PartialEq, Eq, Structural)]
pub struct LifecycleKinds {
    pub created: bool,
    pub existing_graph_observed: bool,
    pub input_write: bool,
    pub compute_started: bool,
    pub compute_completed: bool,
    pub output_read: bool,
}

/// The kinds seen once an event of this kind is added.
pub open spec fn kinds_with(
    kinds: LifecycleKinds,
    kind: GgmlGraphLifecycleEventKind,
) -> LifecycleKinds {
    LifecycleKinds {
        created: kinds.created || kind is Created,
        existing_graph_observed: kinds.existing_graph_observed || kind is ExistingGraphObserved,
        input_write: kinds.input_write || kind is InputWrite,
        compute_started: kinds.compute_started || kind is ComputeStarted,
        compute_completed: kinds.compute_completed || kind is ComputeCompleted,
        output_read: kinds.output_read || kind is OutputRead,
    }
}

/// What a validator has gathered from the lines of a trace.
pub struct TraceState {
    pub tokens: Table<u64, ArtifactSelectionIdentity>,
    pub top_k: Table<u64, ArtifactSelectionIdentity>,
    pub output_reads: Table<ArtifactComputeIdentity, u64>,
    pub captures: Table<(u64, u64), ArtifactCaptureLifecycleState>,
    pub kinds: LifecycleKinds,
    pub last_sequence: u64,
    pub route: Option<(String, String)>,
}

/// What the lines of a trace say: the selection of each token step and of each
/// alternatives step, the bytes read from each compute, the capture state of
/// each graph, the lifecycle kinds seen, the latest sequence number, and the
/// provider and device of the header.
#[verifier::ext_equal]
pub struct TraceView {
    pub tokens: Map<u64, ArtifactSelectionIdentity>,
    pub top_k: Map<u64, ArtifactSelectionIdentity>,
    pub output_reads: Map<ArtifactComputeIdentity, u64>,
    pub captures: Map<(u64, u64), CaptureView>,
    pub kinds: LifecycleKinds,
    pub last_sequence: u64,
    pub route: Option<(Seq<char>, Seq<char>)>,
}

impl TraceState {
    /// Whether every table has one entry per key.
    pub open spec fn wf(&self) -> bool {
        &&& self.tokens.wf()
        &&& self.top_k.wf()
        &&& self.output_reads.wf()
        &&& self.captures.wf()
    }
}

impl View for TraceState {
    type V = TraceView;

    open spec fn view(&self) -> TraceView {
        TraceView {
            tokens: self.tokens.map(),
            top_k: self.top_k.map(),
            output_reads: self.output_reads.map(),
            captures: capture::captures(self.captures),
            kinds: self.kinds,
            last_sequence: self.last_sequence,
            route: match self.route {
                Some(route) => Some((route.0@, route.1@)),
                None => None,
            },
        }
    }
}

/// What is known before the first line.
pub open spec fn empty_trace() -> TraceView {
    TraceView {
        tokens: Map::empty(),
        top_k: Map::empty(),
        output_reads: Map::empty(),
        captures: Map::empty(),
        kinds: LifecycleKinds {
            created: false,
            existing_graph_observed: false,
            input_write: false,
            compute_started: false,
            compute_completed: false,
            output_read: false,
        },
        last_sequence: 0,
        route: None,
    }
}

/// What a lifecycle line adds to the trace.
pub open spec fn lifecycle_line(
    state: TraceView,
    decode: LifecycleDecode,
) -> Result<TraceView, TraceError> {
    match decode {
        LifecycleDecode::NotStrict => Err(TraceError::LifecycleNotStrict),
        LifecycleDecode::Invalid => Err(TraceError::LifecycleInvalid),
        LifecycleDecode::Event(event) => {
            let graph = (event.graph_instance, event.graph_generation);
            if event.sequence <= state.last_sequence {
                Err(TraceError::SequenceNotIncreasing)
            } else if state.route is None {
                Err(TraceError::LifecycleBeforeHeader)
            } else if state.route != Some((event.provider@, event.device@)) {
                Err(TraceError::LifecycleRouteMismatch)
            } else {
                match capture::capture_step(state.captures, graph, event.kind) {
                    Err(error) => Err(TraceError::Capture(error)),
                    Ok(captures) => {
                        let next = TraceView {
                            captures,
                            kinds: kinds_with(state.kinds, event.kind),
                            last_sequence: event.sequence,
                            ..state
                        };
                        match event.kind {
                            GgmlGraphLifecycleEventKind::OutputRead {
                                compute_sequence,
                                output_generation_consumed,
                                bytes,
                            } => {
                                let identity = (
                                    event.graph_instance,
                                    event.graph_generation,
                                    compute_sequence,
                                    output_generation_consumed,
                                );
                                if state.output_reads.contains_key(identity) {
                                    Err(TraceError::RepeatedOutputRead)
                                } else {
                                    Ok(
                                        TraceView {
                                            output_reads: state.output_reads.insert(
                                                identity,
                                                bytes,
                                            ),
                                            ..next
                                        },
                                    )
                                }
                            },
                            _ => Ok(next),
                        }
                    },
                }
            }
        },
    }
}

/// The fields of a trace header.
pub open spec fn header_names() -> Seq<Seq<char>> {
    seq![
        "schema"@,
        "event"@,
        "run_id"@,
        "process_nonce"@,
        "process_id"@,
        "mode"@,
        "graph_mode"@,
        "provider"@,
        "device_target"@,
        "backend_id"@,
        "driver_version"@,
        "artifact_fingerprint"@,
        "device"@,
        "actual_provider"@,
        "actual_stable_device_id"@,
        "actual_device"@,
    ]
}

/// Whether a text consists of exactly `count` lower-case hexadecimal digits.
pub open spec fn lower_hex(text: Seq<char>, count: nat) -> bool {
    text.len() == count && forall|i: int| 0 <= i < text.len() ==> lower_hex_digit(#[trigger] text[i])
}

/// Whether a character is a lower-case hexadecimal digit.
pub open spec fn lower_hex_digit(c: char) -> bool {
    '0' <= c <= '9' || 'a' <= c <= 'f'
}

/// Whether a text can stand in a header: not empty, at most 256 bytes, one line.
pub open spec fn header_text(text: Seq<char>) -> bool {
    &&& text.len() > 0
    &&& vstd::utf8::encode_utf8(text).len() <= 256
    &&& !text.contains('\n')
    &&& !text.contains('\r')
}

/// Whether a header field is a text that can stand there.
pub open spec fn header_field_is_valid(event: JsonView, field: HeaderTextField) -> bool {
    event.text_field(header_field_name(field)) matches Some(value) && header_text(value)
}

/// Why a header is refused, once it leads the trace and has its fields.
pub open spec fn header_fault(
    event: JsonView,
    actual_device: Option<GgmlActualDeviceFacts>,
) -> Option<TraceError> {
    let provider = event.text_field("provider"@);
    let device = event.text_field("device"@);
    let run_id = event.text_field("run_id"@);
    let process_nonce = event.text_field("process_nonce"@);
    let process_id = event.natural_field("process_id"@);
    let mode = event.text_field("mode"@);
    let graph_mode = event.text_field("graph_mode"@);
    if provider is None {
        Some(TraceError::HeaderWithoutProvider)
    } else if device is None {
        Some(TraceError::HeaderWithoutDevice)
    } else if event.text_field("actual_provider"@) != provider || event.text_field(
        "actual_stable_device_id"@,
    ) != device {
        Some(TraceError::HeaderIdentityMismatch)
    } else if actual_device is None {
        Some(TraceError::HeaderActualDeviceInvalid)
    } else if actual_device->0.name@ != device->0 || actual_device->0.device_type@.len() == 0
        || actual_device->0.description@.len() == 0 {
        Some(TraceError::HeaderActualDeviceMismatch)
    } else if run_id is None {
        Some(TraceError::HeaderWithoutRunId)
    } else if !lower_hex(run_id->0, 32) {
        Some(TraceError::HeaderInvalidRunId)
    } else if process_nonce is None {
        Some(TraceError::HeaderWithoutProcessNonce)
    } else if !lower_hex(process_nonce->0, 32) || !(process_id matches Some(id) && 0 < id
        <= u32::MAX) {
        Some(TraceError::HeaderInvalidProcess)
    } else if mode != Some("cold"@) && mode != Some("reuse"@) {
        Some(TraceError::HeaderInvalidMode)
    } else if graph_mode != Some("fresh_graph"@) && graph_mode != Some("reusable_graph"@) {
        Some(TraceError::HeaderInvalidGraphMode)
    } else if !header_field_is_valid(event, HeaderTextField::Provider) {
        Some(TraceError::HeaderInvalidField(HeaderTextField::Provider))
    } else if !header_field_is_valid(event, HeaderTextField::DeviceTarget) {
        Some(TraceError::HeaderInvalidField(HeaderTextField::DeviceTarget))
    } else if !header_field_is_valid(event, HeaderTextField::BackendId) {
        Some(TraceError::HeaderInvalidField(HeaderTextField::BackendId))
    } else if !header_field_is_valid(event, HeaderTextField::DriverVersion) {
        Some(TraceError::HeaderInvalidField(HeaderTextField::DriverVersion))
    } else if !header_field_is_valid(event, HeaderTextField::ArtifactFingerprint) {
        Some(TraceError::HeaderInvalidField(HeaderTextField::ArtifactFingerprint))
    } else if !header_field_is_valid(event, HeaderTextField::Device) {
        Some(TraceError::HeaderInvalidField(HeaderTextField::Device))
    } else {
        None
    }
}

/// What a header line adds to the trace.
pub open spec fn header_line(
    state: TraceView,
    index: nat,
    event: JsonView,
    actual_device: Option<GgmlActualDeviceFacts>,
) -> Result<TraceView, TraceError> {
    if index != 0 || state.route is Some || event.text_field("schema"@) != Some(
        GPU_CORRECTNESS_TRACE_SCHEMA@,
    ) || !event.has_exact_fields(header_names()) {
        Err(TraceError::MisplacedHeader)
    } else {
        match header_fault(event, actual_device) {
            Some(error) => Err(error),
            None => Ok(
                TraceView {
                    route: Some(
                        (event.text_field("provider"@)->0, event.text_field("device"@)->0),
                    ),
                    ..state
                },
            ),
        }
    }
}

/// The fields of a token line.
pub open spec fn token_names() -> Seq<Seq<char>> {
    seq!["schema"@, "event"@, "step_index"@, "token_id"@, "is_eot"@, "compute"@]
}

/// The fields of an alternatives line.
pub open spec fn top_k_names() -> Seq<Seq<char>> {
    seq!["schema"@, "event"@, "step_index"@, "items"@, "top1_top2_margin"@, "compute"@]
}

/// The fields of one alternative.
pub open spec fn top_k_item_names() -> Seq<Seq<char>> {
    seq!["token_id"@, "value"@]
}

/// Whether a field holds a token number.
pub open spec fn token_number(event: JsonView) -> bool {
    event.natural_field("token_id"@) matches Some(id) && id <= u32::MAX
}

/// What a token line adds to the trace.
pub open spec fn token_line(state: TraceView, event: JsonView) -> Result<TraceView, TraceError> {
    let step = event.natural_field("step_index"@);
    let is_eot = event.natural_field("is_eot"@);
    let compute = selection_in(event);
    if !event.has_exact_fields(token_names()) {
        Err(TraceError::TokenFields)
    } else if step is None {
        Err(TraceError::TokenWithoutStep)
    } else if !token_number(event) || !(is_eot == Some(0u64) || is_eot == Some(1u64)) {
        Err(TraceError::TokenInvalid)
    } else if compute is None {
        Err(TraceError::TokenComputeInvalid)
    } else if state.tokens.contains_key(step->0) {
        Err(TraceError::TokenDuplicateStep(step->0))
    } else {
        Ok(
            TraceView {
                tokens: state.tokens.insert(step->0, compute->0.selection()),
                ..state
            },
        )
    }
}

/// Whether a value is one alternative: a token number and a finite score.
pub open spec fn top_k_item(item: JsonView) -> bool {
    &&& item.has_exact_fields(top_k_item_names())
    &&& token_number(item)
    &&& item.field("value"@) matches Some(value) && value.finite_number()
}

/// Whether an alternatives line has a margin and at least two alternatives.
pub open spec fn top_k_is_real(event: JsonView, items: Seq<JsonView>) -> bool {
    &&& items.len() >= 2
    &&& event.field("top1_top2_margin"@) matches Some(margin)
        && margin.finite_non_negative_number()
    &&& forall|i: int| 0 <= i < items.len() ==> top_k_item(#[trigger] items[i])
}

/// The items recorded in an event.
pub open spec fn items_in(event: JsonView) -> Option<Seq<JsonView>> {
    match event.field("items"@) {
        Some(value) => value.items(),
        None => None,
    }
}

/// What an alternatives line adds to the trace.
pub open spec fn top_k_line(state: TraceView, event: JsonView) -> Result<TraceView, TraceError> {
    let step = event.natural_field("step_index"@);
    let items = items_in(event);
    let compute = selection_in(event);
    if !event.has_exact_fields(top_k_names()) {
        Err(TraceError::TopKFields)
    } else if step is None {
        Err(TraceError::TopKWithoutStep)
    } else if items is None {
        Err(TraceError::TopKWithoutItems)
    } else if !top_k_is_real(event, items->0) {
        Err(TraceError::TopKWithoutMargin(step->0))
    } else if state.top_k.contains_key(step->0) {
        Err(TraceError::TopKDuplicateStep(step->0))
    } else if compute is None {
        Err(TraceError::TopKComputeInvalid)
    } else {
        Ok(
            TraceView {
                top_k: state.top_k.insert(step->0, compute->0.selection()),
                ..state
            },
        )
    }
}

/// What one line adds to the trace, or why the trace is refused at it.
pub open spec fn trace_line(
    state: TraceView,
    index: nat,
    event: JsonView,
    facts: TraceLineFacts,
) -> Result<TraceView, TraceError> {
    let name = event.text_field("event"@);
    if event.text_field("schema"@) == Some(GGML_GRAPH_LIFECYCLE_SCHEMA@) {
        lifecycle_line(state, facts.lifecycle)
    } else if name == Some("header"@) {
        header_line(state, index, event, facts.actual_device)
    } else if name == Some("token"@) {
        token_line(state, event)
    } else if name == Some("top_k"@) {
        top_k_line(state, event)
    } else {
        Err(TraceError::UnknownEvent)
    }
}

/// What the first `count` lines of a trace say, or why it is refused at one of
/// them. A line that is no JSON document has no event.
pub open spec fn trace_after(
    events: Seq<Option<JsonView>>,
    facts: Seq<TraceLineFacts>,
    count: nat,
) -> Result<TraceView, TraceError>
    decreases count,
{
    if count == 0 {
        Ok(empty_trace())
    } else {
        match trace_after(events, facts, (count - 1) as nat) {
            Err(error) => Err(error),
            Ok(state) => match events[count - 1] {
                None => Err(TraceError::InvalidJson),
                Some(event) => trace_line(state, (count - 1) as nat, event, facts[count - 1]),
            },
        }
    }
}

/// Whether the steps are the numbers below their count, which is at most
/// `max_steps`.
pub open spec fn steps_are_contiguous(
    steps: Map<u64, ArtifactSelectionIdentity>,
    max_steps: nat,
) -> bool {
    &&& steps.dom().len() <= max_steps
    &&& forall|step: u64| steps.contains_key(step) <==> step < steps.dom().len()
}

/// Whether two steps were selected from the same output.
pub open spec fn selections_repeat(tokens: Map<u64, ArtifactSelectionIdentity>) -> bool {
    exists|a: u64, b: u64|
        #![trigger tokens.contains_key(a), tokens.contains_key(b)]
        tokens.contains_key(a) && tokens.contains_key(b) && a != b && tokens[a] == tokens[b]
}

/// Whether some step was selected from a compute whose output was never read.
pub open spec fn some_step_was_not_read(state: TraceView) -> bool {
    exists|step: u64| #[trigger]
        state.tokens.contains_key(step) && !state.output_reads.contains_key(
            compute_of(state.tokens[step]),
        )
}

/// Whether a graph ran a compute in the trace.
pub open spec fn graph_computed(captures: Map<(u64, u64), CaptureView>, graph: (u64, u64)) -> bool {
    captures.contains_key(graph) && captures[graph].computed
}

/// Whether the capture state of a graph that ran was observed.
pub open spec fn mode_observed(captures: Map<(u64, u64), CaptureView>, graph: (u64, u64)) -> bool {
    graph_computed(captures, graph) && captures[graph].capture_supported is Some
}

/// Whether the observed capture state of a graph that ran shows any capture.
pub open spec fn mode_is_native(captures: Map<(u64, u64), CaptureView>, graph: (u64, u64)) -> bool {
    mode_observed(captures, graph) && (captures[graph].capture_supported == Some(true)
        || captures[graph].graph_tracked == Some(true) || captures[graph].capture_enabled is Some)
}

/// Whether two graphs that ran show different capture modes.
pub open spec fn modes_differ(
    captures: Map<(u64, u64), CaptureView>,
    a: (u64, u64),
    b: (u64, u64),
) -> bool {
    mode_observed(captures, a) && mode_observed(captures, b) && !same_mode(captures[a], captures[b])
}

/// Whether two capture states have the same mode.
pub open spec fn same_mode(a: CaptureView, b: CaptureView) -> bool {
    a.capture_supported == b.capture_supported && a.graph_tracked == b.graph_tracked
        && a.capture_enabled == b.capture_enabled
}

/// Whether capture shows anywhere although the graphs that ran do not all show
/// the same mode.
pub open spec fn capture_mode_is_inconsistent(captures: Map<(u64, u64), CaptureView>) -> bool {
    &&& exists|graph: (u64, u64)| mode_is_native(captures, graph)
    &&& {
        ||| exists|a: (u64, u64), b: (u64, u64)| modes_differ(captures, a, b)
        ||| exists|graph: (u64, u64)|
            graph_computed(captures, graph) && !mode_observed(captures, graph)
    }
}

/// Whether a graph that ran has capture enabled and an executable.
pub open spec fn executable_observed(
    captures: Map<(u64, u64), CaptureView>,
    graph: (u64, u64),
) -> bool {
    graph_computed(captures, graph) && captures[graph].capture_enabled == Some(true)
        && captures[graph].executable_present
}

/// Whether a graph that ran consumed a capture generation.
pub open spec fn generation_consumed(
    captures: Map<(u64, u64), CaptureView>,
    graph: (u64, u64),
) -> bool {
    graph_computed(captures, graph) && captures[graph].capture_generation_consumed
}

/// Why a trace is refused once all its lines were read.
pub open spec fn trace_fault(state: TraceView, max_steps: nat) -> Option<TraceError> {
    if state.route is None {
        Some(TraceError::NoHeader)
    } else if state.tokens.dom() == Set::<u64>::empty() || state.tokens.dom() != state.top_k.dom() {
        Some(TraceError::StepsUnmatched)
    } else if !steps_are_contiguous(state.tokens, max_steps) {
        Some(TraceError::StepsNotContiguous)
    } else if state.tokens != state.top_k || some_step_was_not_read(state) || selections_repeat(
        state.tokens,
    ) {
        Some(TraceError::ComputeNotBound)
    } else if !state.kinds.created && !state.kinds.existing_graph_observed {
        Some(TraceError::NoAttachment)
    } else if !state.kinds.input_write {
        Some(TraceError::MissingLifecycleEvent(RequiredEvent::InputWrite))
    } else if !state.kinds.compute_started {
        Some(TraceError::MissingLifecycleEvent(RequiredEvent::ComputeStarted))
    } else if !state.kinds.compute_completed {
        Some(TraceError::MissingLifecycleEvent(RequiredEvent::ComputeCompleted))
    } else if !state.kinds.output_read {
        Some(TraceError::MissingLifecycleEvent(RequiredEvent::OutputRead))
    } else if capture_mode_is_inconsistent(state.captures) {
        Some(TraceError::InconsistentCaptureMode)
    } else if (exists|graph: (u64, u64)| executable_observed(state.captures, graph)) && !(exists|
        graph: (u64, u64),
    | generation_consumed(state.captures, graph)) {
        Some(TraceError::CaptureNotConsumed)
    } else {
        None
    }
}

/// Whether a trace is accepted, or why not.
pub open spec fn strict_trace(
    events: Seq<Option<JsonView>>,
    facts: Seq<TraceLineFacts>,
    max_steps: nat,
) -> Result<(), TraceError> {
    match trace_after(events, facts, events.len()) {
        Err(error) => Err(error),
        Ok(state) => match trace_fault(state, max_steps) {
            Some(error) => Err(error),
            None => Ok(()),
        },
    }
}

/// Whether a text consists of exactly `count` lower-case hexadecimal digits.
pub(crate) fn is_lower_hex(text: &str, count: usize) -> (yes: bool)
    ensures
        yes == lower_hex(text@, count as nat),
{
    let chars = text::chars_of(text);
    if chars.len() != count {
        return false;
    }
    let mut i: usize = 0;
    while i < chars.len()
        invariant
            chars@ == text@,
            i <= chars@.len(),
            forall|k: int| 0 <= k < i ==> lower_hex_digit(#[trigger] chars@[k]),
        decreases chars@.len() - i,
    {
        let c = chars[i];
        if !(('0' <= c && c <= '9') || ('a' <= c && c <= 'f')) {
            assert(!lower_hex_digit(text@[i as int]));
            return false;
        }
        i += 1;
    }
    true
}

/// Whether a text can stand in a header.
fn is_header_text(text: &str) -> (yes: bool)
    ensures
        yes == header_text(text@),
{
    if text.as_bytes().len() > 256 {
        return false;
    }
    let chars = text::chars_of(text);
    let mut i: usize = 0;
    while i < chars.len()
        invariant
            chars@ == text@,
            i <= chars@.len(),
            forall|k: int| 0 <= k < i ==> chars@[k] != '\n' && chars@[k] != '\r',
        decreases chars@.len() - i,
    {
        if chars[i] == '\n' || chars[i] == '\r' {
            assert(text@[i as int] == chars@[i as int]);
            return false;
        }
        i += 1;
    }
    chars.len() > 0
}

/// Whether a header field is a text that can stand there.
fn is_header_field_valid(event: &Json, field: HeaderTextField) -> (yes: bool)
    ensures
        yes == header_field_is_valid(event@, field),
{
    match event.text_field(field.name().as_str()) {
        Some(value) => is_header_text(value),
        None => false,
    }
}

/// Looks for the fault of a header that leads the trace and has its fields.
fn find_header_fault(event: &Json, actual_device: &Option<GgmlActualDeviceFacts>) -> (fault: Option<
    TraceError,
>)
    ensures
        fault == header_fault(event@, *actual_device),
{
    let provider = match event.text_field("provider") {
        Some(provider) => provider,
        None => {
            return Some(TraceError::HeaderWithoutProvider);
        },
    };
    let device = match event.text_field("device") {
        Some(device) => device,
        None => {
            return Some(TraceError::HeaderWithoutDevice);
        },
    };
    if !event.text_field_is("actual_provider", provider) || !event.text_field_is(
        "actual_stable_device_id",
        device,
    ) {
        return Some(TraceError::HeaderIdentityMismatch);
    }
    match actual_device {
        None => {
            return Some(TraceError::HeaderActualDeviceInvalid);
        },
        Some(actual) => {
            if !text::same_text(actual.name.as_str(), device)
                || actual.device_type.as_str().is_empty()
                || actual.description.as_str().is_empty() {
                return Some(TraceError::HeaderActualDeviceMismatch);
            }
        },
    }
    match event.text_field("run_id") {
        None => {
            return Some(TraceError::HeaderWithoutRunId);
        },
        Some(run_id) => {
            if !is_lower_hex(run_id, 32) {
                return Some(TraceError::HeaderInvalidRunId);
            }
        },
    }
    match event.text_field("process_nonce") {
        None => {
            return Some(TraceError::HeaderWithoutProcessNonce);
        },
        Some(process_nonce) => {
            let process_known = match event.natural_field("process_id") {
                Some(process_id) => 0 < process_id && process_id <= 0xffff_ffff,
                None => false,
            };
            if !is_lower_hex(process_nonce, 32) || !process_known {
                return Some(TraceError::HeaderInvalidProcess);
            }
        },
    }
    if !event.text_field_is("mode", "cold") && !event.text_field_is("mode", "reuse") {
        return Some(TraceError::HeaderInvalidMode);
    }
    if !event.text_field_is("graph_mode", "fresh_graph") && !event.text_field_is(
        "graph_mode",
        "reusable_graph",
    ) {
        return Some(TraceError::HeaderInvalidGraphMode);
    }
    if !is_header_field_valid(event, HeaderTextField::Provider) {
        return Some(TraceError::HeaderInvalidField(HeaderTextField::Provider));
    }
    if !is_header_field_valid(event, HeaderTextField::DeviceTarget) {
        return Some(TraceError::HeaderInvalidField(HeaderTextField::DeviceTarget));
    }
    if !is_header_field_valid(event, HeaderTextField::BackendId) {
        return Some(TraceError::HeaderInvalidField(HeaderTextField::BackendId));
    }
    if !is_header_field_valid(event, HeaderTextField::DriverVersion) {
        return Some(TraceError::HeaderInvalidField(HeaderTextField::DriverVersion));
    }
    if !is_header_field_valid(event, HeaderTextField::ArtifactFingerprint) {
        return Some(TraceError::HeaderInvalidField(HeaderTextField::ArtifactFingerprint));
    }
    if !is_header_field_valid(event, HeaderTextField::Device) {
        return Some(TraceError::HeaderInvalidField(HeaderTextField::Device));
    }
    None
}

/// Whether a result of reading a line is the one that the trace model gives.
pub open spec fn line_result(
    expected: Result<TraceView, TraceError>,
    result: Result<(), TraceError>,
    state: TraceView,
) -> bool {
    match result {
        Ok(_) => expected == Ok::<TraceView, TraceError>(state),
        Err(error) => expected == Err::<TraceView, TraceError>(error),
    }
}

/// Reads a header line.
fn read_header(
    state: &mut TraceState,
    index: usize,
    event: &Json,
    actual_device: &Option<GgmlActualDeviceFacts>,
) -> (result: Result<(), TraceError>)
    requires
        old(state).wf(),
    ensures
        final(state).wf(),
        line_result(
            header_line(old(state)@, index as nat, event@, *actual_device),
            result,
            final(state)@,
        ),
{
    let names: [&str; 16] = [
        "schema",
        "event",
        "run_id",
        "process_nonce",
        "process_id",
        "mode",
        "graph_mode",
        "provider",
        "device_target",
        "backend_id",
        "driver_version",
        "artifact_fingerprint",
        "device",
        "actual_provider",
        "actual_stable_device_id",
        "actual_device",
    ];
    assert(json::names_view(names@) =~= header_names());
    if index != 0 || state.route.is_some() || !event.text_field_is(
        "schema",
        GPU_CORRECTNESS_TRACE_SCHEMA,
    ) || !json::has_exact_json_fields(event, &names) {
        return Err(TraceError::MisplacedHeader);
    }
    match find_header_fault(event, actual_device) {
        Some(error) => Err(error),
        None => {
            match (event.text_field("provider"), event.text_field("device")) {
                (Some(provider), Some(device)) => {
                    state.route = Some((provider.to_owned(), device.to_owned()));
                    Ok(())
                },
                _ => Err(TraceError::HeaderWithoutProvider),
            }
        },
    }
}

/// Whether a field holds a token number.
fn has_token_number(event: &Json) -> (yes: bool)
    ensures
        yes == token_number(event@),
{
    match event.natural_field("token_id") {
        Some(id) => id <= 0xffff_ffff,
        None => false,
    }
}

/// Reads a token line.
fn read_token(state: &mut TraceState, event: &Json) -> (result: Result<(), TraceError>)
    requires
        old(state).wf(),
    ensures
        final(state).wf(),
        line_result(token_line(old(state)@, event@), result, final(state)@),
{
    let names: [&str; 6] = ["schema", "event", "step_index", "token_id", "is_eot", "compute"];
    assert(json::names_view(names@) =~= token_names());
    if !json::has_exact_json_fields(event, &names) {
        return Err(TraceError::TokenFields);
    }
    let step: u64 = match event.natural_field("step_index") {
        Some(step) => step,
        None => {
            return Err(TraceError::TokenWithoutStep);
        },
    };
    let eot_known = match event.natural_field("is_eot") {
        Some(value) => value <= 1,
        None => false,
    };
    if !has_token_number(event) || !eot_known {
        return Err(TraceError::TokenInvalid);
    }
    match event_selection(event) {
        None => Err(TraceError::TokenComputeInvalid),
        Some(compute) => {
            if state.tokens.contains(&step) {
                return Err(TraceError::TokenDuplicateStep(step));
            }
            state.tokens.insert(step, compute.selection_identity());
            Ok(())
        },
    }
}

/// Whether a value is one alternative.
fn is_top_k_item(item: &Json) -> (yes: bool)
    ensures
        yes == top_k_item(item@),
{
    let names: [&str; 2] = ["token_id", "value"];
    assert(json::names_view(names@) =~= top_k_item_names());
    let scored = match item.field("value") {
        Some(value) => value.is_finite_number(),
        None => false,
    };
    json::has_exact_json_fields(item, &names) && has_token_number(item) && scored
}

/// Whether an alternatives line has a margin and at least two alternatives.
fn is_top_k_real(event: &Json, items: &Vec<Json>, Ghost(view): Ghost<Seq<JsonView>>) -> (yes: bool)
    requires
        view.len() == items@.len(),
        forall|i: int| 0 <= i < items@.len() ==> view[i] == (#[trigger] items@[i])@,
    ensures
        yes == top_k_is_real(event@, view),
{
    let margin = match event.field("top1_top2_margin") {
        Some(margin) => margin.is_finite_non_negative_number(),
        None => false,
    };
    if items.len() < 2 || !margin {
        return false;
    }
    let mut i: usize = 0;
    while i < items.len()
        invariant
            view.len() == items@.len(),
            forall|k: int| 0 <= k < items@.len() ==> view[k] == (#[trigger] items@[k])@,
            i <= items@.len(),
            forall|k: int| 0 <= k < i ==> top_k_item(#[trigger] view[k]),
        decreases items@.len() - i,
    {
        assert(view[i as int] == items@[i as int]@);
        if !is_top_k_item(&items[i]) {
            return false;
        }
        i += 1;
    }
    true
}

/// Reads an alternatives line.
fn read_top_k(state: &mut TraceState, event: &Json) -> (result: Result<(), TraceError>)
    requires
        old(state).wf(),
    ensures
        final(state).wf(),
        line_result(top_k_line(old(state)@, event@), result, final(state)@),
{
    let names: [&str; 6] = [
        "schema",
        "event",
        "step_index",
        "items",
        "top1_top2_margin",
        "compute",
    ];
    assert(json::names_view(names@) =~= top_k_names());
    if !json::has_exact_json_fields(event, &names) {
        return Err(TraceError::TopKFields);
    }
    let step: u64 = match event.natural_field("step_index") {
        Some(step) => step,
        None => {
            return Err(TraceError::TopKWithoutStep);
        },
    };
    let value = match event.field("items") {
        Some(value) => value,
        None => {
            return Err(TraceError::TopKWithoutItems);
        },
    };
    let items = match value.as_items() {
        Some(items) => items,
        None => {
            return Err(TraceError::TopKWithoutItems);
        },
    };
    if !is_top_k_real(event, items, Ghost(value@->Array_0)) {
        return Err(TraceError::TopKWithoutMargin(step));
    }
    if state.top_k.contains(&step) {
        return Err(TraceError::TopKDuplicateStep(step));
    }
    match event_selection(event) {
        None => Err(TraceError::TopKComputeInvalid),
        Some(compute) => {
            state.top_k.insert(step, compute.selection_identity());
            Ok(())
        },
    }
}

/// Adds the kind of an event to those seen.
fn note_kind(kinds: LifecycleKinds, kind: &GgmlGraphLifecycleEventKind) -> (next: LifecycleKinds)
    ensures
        next == kinds_with(kinds, *kind),
{
    let mut next = kinds;
    match *kind {
        GgmlGraphLifecycleEventKind::Created => {
            next.created = true;
        },
        GgmlGraphLifecycleEventKind::ExistingGraphObserved => {
            next.existing_graph_observed = true;
        },
        GgmlGraphLifecycleEventKind::InputWrite => {
            next.input_write = true;
        },
        GgmlGraphLifecycleEventKind::ComputeStarted { .. } => {
            next.compute_started = true;
        },
        GgmlGraphLifecycleEventKind::ComputeCompleted { .. } => {
            next.compute_completed = true;
        },
        GgmlGraphLifecycleEventKind::OutputRead { .. } => {
            next.output_read = true;
        },
        _ => {},
    }
    next
}

/// Reads a lifecycle line.
fn read_lifecycle(state: &mut TraceState, decode: &LifecycleDecode) -> (result: Result<
    (),
    TraceError,
>)
    requires
        old(state).wf(),
    ensures
        final(state).wf(),
        line_result(lifecycle_line(old(state)@, *decode), result, final(state)@),
{
    let event = match decode {
        LifecycleDecode::NotStrict => {
            return Err(TraceError::LifecycleNotStrict);
        },
        LifecycleDecode::Invalid => {
            return Err(TraceError::LifecycleInvalid);
        },
        LifecycleDecode::Event(event) => event,
    };
    if event.sequence <= state.last_sequence {
        return Err(TraceError::SequenceNotIncreasing);
    }
    match &state.route {
        None => {
            return Err(TraceError::LifecycleBeforeHeader);
        },
        Some(route) => {
            if !text::same_text(event.provider.as_str(), route.0.as_str()) || !text::same_text(
                event.device.as_str(),
                route.1.as_str(),
            ) {
                return Err(TraceError::LifecycleRouteMismatch);
            }
        },
    }
    match capture::validate_artifact_capture_lifecycle(&mut state.captures, event) {
        Err(error) => Err(TraceError::Capture(error)),
        Ok(_) => {
            if let GgmlGraphLifecycleEventKind::OutputRead {
                compute_sequence,
                output_generation_consumed,
                bytes,
            } = event.kind {
                let identity = (
                    event.graph_instance,
                    event.graph_generation,
                    compute_sequence,
                    output_generation_consumed,
                );
                if state.output_reads.insert(identity, bytes) {
                    return Err(TraceError::RepeatedOutputRead);
                }
            }
            state.kinds = note_kind(state.kinds, &event.kind);
            state.last_sequence = event.sequence;
            Ok(())
        },
    }
}

/// Reads one line of a trace.
fn read_line(
    state: &mut TraceState,
    index: usize,
    event: &Json,
    facts: &TraceLineFacts,
) -> (result: Result<(), TraceError>)
    requires
        old(state).wf(),
    ensures
        final(state).wf(),
        line_result(
            trace_line(old(state)@, index as nat, event@, *facts),
            result,
            final(state)@,
        ),
{
    if event.text_field_is("schema", GGML_GRAPH_LIFECYCLE_SCHEMA) {
        return read_lifecycle(state, &facts.lifecycle);
    }
    if event.text_field_is("event", "header") {
        return read_header(state, index, event, &facts.actual_device);
    }
    if event.text_field_is("event", "token") {
        return read_token(state, event);
    }
    if event.text_field_is("event", "top_k") {
        return read_top_k(state, event);
    }
    Err(TraceError::UnknownEvent)
}

/// The views of parsed lines.
pub open spec fn events_view(events: Seq<Option<Json>>) -> Seq<Option<JsonView>> {
    events.map_values(
        |event: Option<Json>|
            match event {
                Some(event) => Some(event@),
                None => None,
            },
    )
}

proof fn lemma_trace_fault_stays(
    events: Seq<Option<JsonView>>,
    facts: Seq<TraceLineFacts>,
    from: nat,
    to: nat,
)
    requires
        from <= to,
        trace_after(events, facts, from) is Err,
    ensures
        trace_after(events, facts, to) == trace_after(events, facts, from),
    decreases to,
{
    if from < to {
        lemma_trace_fault_stays(events, facts, from, (to - 1) as nat);
    }
}

/// Reads the lines of a trace in order.
fn read_trace(events: &Vec<Option<Json>>, facts: &Vec<TraceLineFacts>) -> (result: Result<
    TraceState,
    TraceError,
>)
    requires
        facts@.len() == events@.len(),
    ensures
        match result {
            Ok(state) => state.wf() && trace_after(
                events_view(events@),
                facts@,
                events@.len(),
            ) == Ok::<TraceView, TraceError>(state@),
            Err(error) => trace_after(events_view(events@), facts@, events@.len()) == Err::<
                TraceView,
                TraceError,
            >(error),
        },
{
    let ghost view = events_view(events@);
    let mut state = TraceState {
        tokens: Table::new(),
        top_k: Table::new(),
        output_reads: Table::new(),
        captures: Table::new(),
        kinds: LifecycleKinds {
            created: false,
            existing_graph_observed: false,
            input_write: false,
            compute_started: false,
            compute_completed: false,
            output_read: false,
        },
        last_sequence: 0,
        route: None,
    };
    assert(capture::captures(state.captures) =~= Map::<(u64, u64), CaptureView>::empty());
    assert(state@ =~= empty_trace());
    let mut i: usize = 0;
    while i < events.len()
        invariant
            view == events_view(events@),
            facts@.len() == events@.len(),
            i <= events@.len(),
            state.wf(),
            trace_after(view, facts@, i as nat) == Ok::<TraceView, TraceError>(state@),
        decreases events@.len() - i,
    {
        match &events[i] {
            None => {
                assert(view[i as int] is None);
                proof {
                    assert(trace_after(view, facts@, (i + 1) as nat) == Err::<
                        TraceView,
                        TraceError,
                    >(TraceError::InvalidJson));
                    lemma_trace_fault_stays(view, facts@, (i + 1) as nat, events@.len());
                }
                return Err(TraceError::InvalidJson);
            },
            Some(event) => {
                assert(view[i as int] == Some(event@));
                match read_line(&mut state, i, event, &facts[i]) {
                    Ok(_) => {},
                    Err(error) => {
                        proof {
                            assert(trace_after(view, facts@, (i + 1) as nat) == Err::<
                                TraceView,
                                TraceError,
                            >(error));
                            lemma_trace_fault_stays(view, facts@, (i + 1) as nat, events@.len());
                        }
                        return Err(error);
                    },
                }
            },
        }
        i += 1;
    }
    Ok(state)
}

/// Whether two tables have the same keys.
fn same_steps(
    left: &Table<u64, ArtifactSelectionIdentity>,
    right: &Table<u64, ArtifactSelectionIdentity>,
) -> (same: bool)
    requires
        left.wf(),
        right.wf(),
    ensures
        same == (left.map().dom() == right.map().dom()),
{
    let ghost lm = left.map();
    let ghost rm = right.map();
    let mut i: usize = 0;
    while i < left.entries.len()
        invariant
            left.wf(),
            right.wf(),
            lm == left.map(),
            rm == right.map(),
            i <= left.entries@.len(),
            forall|k: int|
                0 <= k < i ==> rm.contains_key((#[trigger] left.entries@[k]).0),
        decreases left.entries@.len() - i,
    {
        if !right.contains(&left.entries[i].0) {
            proof {
                table::lemma_entry(left.entries@, i as int);
                assert(lm.dom().contains(left.entries@[i as int].0));
                assert(!rm.dom().contains(left.entries@[i as int].0));
            }
            return false;
        }
        i += 1;
    }
    let mut j: usize = 0;
    while j < right.entries.len()
        invariant
            left.wf(),
            right.wf(),
            lm == left.map(),
            rm == right.map(),
            j <= right.entries@.len(),
            forall|k: int|
                0 <= k < j ==> lm.contains_key((#[trigger] right.entries@[k]).0),
        decreases right.entries@.len() - j,
    {
        if !left.contains(&right.entries[j].0) {
            proof {
                table::lemma_entry(right.entries@, j as int);
                assert(rm.dom().contains(right.entries@[j as int].0));
                assert(!lm.dom().contains(right.entries@[j as int].0));
            }
            return false;
        }
        j += 1;
    }
    assert(lm.dom() =~= rm.dom());
    true
}

/// Whether the steps are the numbers below their count, at most `max_steps`.
fn are_steps_contiguous(
    steps: &Table<u64, ArtifactSelectionIdentity>,
    max_steps: usize,
) -> (yes: bool)
    requires
        steps.wf(),
    ensures
        yes == steps_are_contiguous(steps.map(), max_steps as nat),
{
    proof {
        table::lemma_domain(steps.entries@);
    }
    let count: usize = steps.entries.len();
    if count > max_steps {
        return false;
    }
    let mut i: usize = 0;
    while i < count
        invariant
            steps.wf(),
            count == steps.entries@.len(),
            steps.map().dom().len() == count,
            i <= count,
            forall|k: int| 0 <= k < i ==> (#[trigger] steps.entries@[k]).0 < count,
            forall|step: u64| step < i ==> steps.map().contains_key(step),
        decreases count - i,
    {
        if steps.entries[i].0 >= count as u64 {
            proof {
                table::lemma_entry(steps.entries@, i as int);
            }
            return false;
        }
        if !steps.contains(&(i as u64)) {
            return false;
        }
        i += 1;
    }
    assert forall|step: u64| steps.map().contains_key(step) implies step < count by {
        let k = choose|k: int| 0 <= k < steps.entries@.len() && (#[trigger] steps.entries@[k]).0
            == step;
        assert(steps.entries@[k].0 < count);
    }
    true
}

/// Whether two selection identities are equal.
pub(crate) fn same_selection(left: ArtifactSelectionIdentity, right: ArtifactSelectionIdentity) -> (same: bool)
    ensures
        same == (left == right),
{
    left.0 == right.0 && left.1 == right.1 && left.2 == right.2 && left.3 == right.3 && left.4
        == right.4 && left.5 == right.5
}

/// Whether two tables with the same keys have the same values.
fn same_selections(
    left: &Table<u64, ArtifactSelectionIdentity>,
    right: &Table<u64, ArtifactSelectionIdentity>,
) -> (same: bool)
    requires
        left.wf(),
        right.wf(),
        left.map().dom() == right.map().dom(),
    ensures
        same == (left.map() == right.map()),
{
    let ghost lm = left.map();
    let ghost rm = right.map();
    let mut i: usize = 0;
    while i < left.entries.len()
        invariant
            left.wf(),
            right.wf(),
            lm == left.map(),
            rm == right.map(),
            lm.dom() == rm.dom(),
            i <= left.entries@.len(),
            forall|k: int|
                0 <= k < i ==> rm[(#[trigger] left.entries@[k]).0] == left.entries@[k].1,
        decreases left.entries@.len() - i,
    {
        proof {
            table::lemma_entry(left.entries@, i as int);
            assert(lm.dom().contains(left.entries@[i as int].0));
        }
        match right.get(&left.entries[i].0) {
            Some(value) => {
                if !same_selection(*value, left.entries[i].1) {
                    return false;
                }
            },
            None => {
                return false;
            },
        }
        i += 1;
    }
    assert forall|step: u64| lm.contains_key(step) implies lm[step] == rm[step] by {
        let k = choose|k: int| 0 <= k < left.entries@.len() && (#[trigger] left.entries@[k]).0
            == step;
        table::lemma_entry(left.entries@, k);
    }
    assert(lm =~= rm);
    true
}

/// Whether every step was selected from a compute whose output was read.
fn all_steps_were_read(state: &TraceState) -> (yes: bool)
    requires
        state.wf(),
    ensures
        yes == !some_step_was_not_read(state@),
{
    let mut i: usize = 0;
    while i < state.tokens.entries.len()
        invariant
            state.wf(),
            i <= state.tokens.entries@.len(),
            forall|k: int|
                0 <= k < i ==> state@.output_reads.contains_key(
                    compute_of((#[trigger] state.tokens.entries@[k]).1),
                ),
        decreases state.tokens.entries@.len() - i,
    {
        let selection = state.tokens.entries[i].1;
        let identity = (selection.0, selection.1, selection.2, selection.3);
        if !state.output_reads.contains(&identity) {
            proof {
                table::lemma_entry(state.tokens.entries@, i as int);
                assert(state@.tokens.contains_key(state.tokens.entries@[i as int].0));
            }
            return false;
        }
        i += 1;
    }
    assert forall|step: u64| #[trigger]
        state@.tokens.contains_key(step) implies state@.output_reads.contains_key(
        compute_of(state@.tokens[step]),
    ) by {
        let k = choose|k: int|
            0 <= k < state.tokens.entries@.len() && (#[trigger] state.tokens.entries@[k]).0 == step;
        table::lemma_entry(state.tokens.entries@, k);
    }
    true
}

/// Whether two steps were selected from the same output.
fn do_selections_repeat(tokens: &Table<u64, ArtifactSelectionIdentity>) -> (yes: bool)
    requires
        tokens.wf(),
    ensures
        yes == selections_repeat(tokens.map()),
{
    let ghost entries = tokens.entries@;
    let mut i: usize = 0;
    while i < tokens.entries.len()
        invariant
            tokens.wf(),
            entries == tokens.entries@,
            i <= entries.len(),
            forall|a: int, b: int|
                0 <= a < i && a < b < entries.len() ==> (#[trigger] entries[a]).1 != (
                #[trigger] entries[b]).1,
        decreases entries.len() - i,
    {
        let mut j: usize = i + 1;
        while j < tokens.entries.len()
            invariant
                tokens.wf(),
                entries == tokens.entries@,
                i < j <= entries.len(),
                forall|b: int|
                    i < b < j ==> entries[i as int].1 != (#[trigger] entries[b]).1,
            decreases entries.len() - j,
        {
            if same_selection(tokens.entries[i].1, tokens.entries[j].1) {
                proof {
                    table::lemma_entry(entries, i as int);
                    table::lemma_entry(entries, j as int);
                    assert(tokens.map().contains_key(entries[i as int].0));
                    assert(tokens.map().contains_key(entries[j as int].0));
                    assert(entries[i as int].0 != entries[j as int].0);
                }
                return true;
            }
            j += 1;
        }
        i += 1;
    }
    assert forall|a: u64, b: u64|
        #![trigger tokens.map().contains_key(a), tokens.map().contains_key(b)]
        tokens.map().contains_key(a) && tokens.map().contains_key(b) && a
            != b implies tokens.map()[a] != tokens.map()[b] by {
        let x = choose|x: int| 0 <= x < entries.len() && (#[trigger] entries[x]).0 == a;
        let y = choose|y: int| 0 <= y < entries.len() && (#[trigger] entries[y]).0 == b;
        table::lemma_entry(entries, x);
        table::lemma_entry(entries, y);
        if x < y {
            assert(entries[x].1 != entries[y].1);
        } else {
            assert(entries[y].1 != entries[x].1);
        }
    }
    false
}

/// What the capture states of the graphs that ran show together.
struct CaptureSummary {
    inconsistent: bool,
    observed: bool,
    consumed: bool,
}

/// Whether two capture states have the same mode.
fn is_same_mode(
    left: &ArtifactCaptureLifecycleState,
    right: &ArtifactCaptureLifecycleState,
) -> (same: bool)
    ensures
        same == same_mode(left@, right@),
{
    left.capture_supported == right.capture_supported && left.graph_tracked == right.graph_tracked
        && left.capture_enabled == right.capture_enabled
}

/// Sums up the capture states of the graphs that ran.
fn summarize_captures(
    captures: &Table<(u64, u64), ArtifactCaptureLifecycleState>,
) -> (summary: CaptureSummary)
    requires
        captures.wf(),
    ensures
        summary.inconsistent == capture_mode_is_inconsistent(capture::captures(*captures)),
        summary.observed == exists|graph: (u64, u64)|
            executable_observed(capture::captures(*captures), graph),
        summary.consumed == exists|graph: (u64, u64)|
            generation_consumed(capture::captures(*captures), graph),
{
    let ghost view = capture::captures(*captures);
    let ghost entries = captures.entries@;
    let mut native = false;
    let mut differ = false;
    let mut unobserved = false;
    let mut observed = false;
    let mut consumed = false;
    let mut first: Option<usize> = None;
    let mut i: usize = 0;
    while i < captures.entries.len()
        invariant
            captures.wf(),
            view == capture::captures(*captures),
            entries == captures.entries@,
            i <= entries.len(),
            native == exists|k: int| 0 <= k < i && mode_is_native(view, (#[trigger] entries[k]).0),
            unobserved == exists|k: int|
                0 <= k < i && graph_computed(view, (#[trigger] entries[k]).0) && !mode_observed(
                    view,
                    entries[k].0,
                ),
            observed == exists|k: int|
                0 <= k < i && executable_observed(view, (#[trigger] entries[k]).0),
            consumed == exists|k: int|
                0 <= k < i && generation_consumed(view, (#[trigger] entries[k]).0),
            match first {
                None => forall|k: int| 0 <= k < i ==> !mode_observed(view, (#[trigger] entries[k]).0),
                Some(at) => at < i && mode_observed(view, entries[at as int].0),
            },
            first is None ==> !differ,
            differ == (first is Some && exists|k: int|
                0 <= k < i && modes_differ(
                    view,
                    entries[first->0 as int].0,
                    (#[trigger] entries[k]).0,
                )),
        decreases entries.len() - i,
    {
        proof {
            table::lemma_entry(entries, i as int);
        }
        let state = &captures.entries[i].1;
        let ghost graph = entries[i as int].0;
        assert(view.contains_key(graph) && view[graph] == state@);
        if state.computed {
            if state.capture_supported.is_some() {
                if state.capture_supported == Some(true) || state.graph_tracked == Some(true)
                    || state.capture_enabled.is_some() {
                    assert(mode_is_native(view, entries[i as int].0));
                    native = true;
                }
                match first {
                    None => {
                        first = Some(i);
                    },
                    Some(at) => {
                        proof {
                            table::lemma_entry(entries, at as int);
                        }
                        if !is_same_mode(&captures.entries[at].1, state) {
                            assert(modes_differ(view, entries[at as int].0, entries[i as int].0));
                            differ = true;
                        }
                    },
                }
            } else {
                assert(graph_computed(view, entries[i as int].0) && !mode_observed(
                    view,
                    entries[i as int].0,
                ));
                unobserved = true;
            }
            if state.capture_enabled == Some(true) && state.executable_present {
                assert(executable_observed(view, entries[i as int].0));
                observed = true;
            }
            if state.capture_generation_consumed {
                assert(generation_consumed(view, entries[i as int].0));
                consumed = true;
            }
        }
        i += 1;
    }
    proof {
        assert forall|graph: (u64, u64)| view.contains_key(graph) implies exists|k: int|
            0 <= k < entries.len() && (#[trigger] entries[k]).0 == graph by {}
        if exists|graph: (u64, u64)| mode_is_native(view, graph) {
            let graph = choose|graph: (u64, u64)| mode_is_native(view, graph);
            let k = choose|k: int| 0 <= k < entries.len() && (#[trigger] entries[k]).0 == graph;
            assert(native);
        }
        if exists|graph: (u64, u64)| executable_observed(view, graph) {
            let graph = choose|graph: (u64, u64)| executable_observed(view, graph);
            let k = choose|k: int| 0 <= k < entries.len() && (#[trigger] entries[k]).0 == graph;
            assert(observed);
        }
        if exists|graph: (u64, u64)| generation_consumed(view, graph) {
            let graph = choose|graph: (u64, u64)| generation_consumed(view, graph);
            let k = choose|k: int| 0 <= k < entries.len() && (#[trigger] entries[k]).0 == graph;
            assert(consumed);
        }
        if exists|graph: (u64, u64)| graph_computed(view, graph) && !mode_observed(view, graph) {
            let graph = choose|graph: (u64, u64)|
                graph_computed(view, graph) && !mode_observed(view, graph);
            let k = choose|k: int| 0 <= k < entries.len() && (#[trigger] entries[k]).0 == graph;
            assert(unobserved);
        }
        if exists|a: (u64, u64), b: (u64, u64)| modes_differ(view, a, b) {
            let (a, b) = choose|a: (u64, u64), b: (u64, u64)| modes_differ(view, a, b);
            let x = choose|x: int| 0 <= x < entries.len() && (#[trigger] entries[x]).0 == a;
            let y = choose|y: int| 0 <= y < entries.len() && (#[trigger] entries[y]).0 == b;
            assert(mode_observed(view, entries[x].0));
            assert(first is Some);
            let f = entries[first->0 as int].0;
            if !modes_differ(view, f, entries[x].0) {
                assert(modes_differ(view, f, entries[y].0));
            }
            assert(differ);
        }
    }
    CaptureSummary { inconsistent: native && (differ || unobserved), observed, consumed }
}

/// Looks for the fault of a trace whose lines were all read.
fn find_trace_fault(state: &TraceState, max_steps: usize) -> (fault: Option<TraceError>)
    requires
        state.wf(),
    ensures
        fault == trace_fault(state@, max_steps as nat),
{
    if state.route.is_none() {
        return Some(TraceError::NoHeader);
    }
    proof {
        table::lemma_domain(state.tokens.entries@);
        if state.tokens.entries@.len() == 0 {
            assert(state@.tokens.dom() =~= Set::<u64>::empty());
        }
    }
    if state.tokens.entries.len() == 0 || !same_steps(&state.tokens, &state.top_k) {
        return Some(TraceError::StepsUnmatched);
    }
    if !are_steps_contiguous(&state.tokens, max_steps) {
        return Some(TraceError::StepsNotContiguous);
    }
    if !same_selections(&state.tokens, &state.top_k) || !all_steps_were_read(state)
        || do_selections_repeat(&state.tokens) {
        return Some(TraceError::ComputeNotBound);
    }
    if !state.kinds.created && !state.kinds.existing_graph_observed {
        return Some(TraceError::NoAttachment);
    }
    if !state.kinds.input_write {
        return Some(TraceError::MissingLifecycleEvent(RequiredEvent::InputWrite));
    }
    if !state.kinds.compute_started {
        return Some(TraceError::MissingLifecycleEvent(RequiredEvent::ComputeStarted));
    }
    if !state.kinds.compute_completed {
        return Some(TraceError::MissingLifecycleEvent(RequiredEvent::ComputeCompleted));
    }
    if !state.kinds.output_read {
        return Some(TraceError::MissingLifecycleEvent(RequiredEvent::OutputRead));
    }
    let summary = summarize_captures(&state.captures);
    if summary.inconsistent {
        return Some(TraceError::InconsistentCaptureMode);
    }
    if summary.observed && !summary.consumed {
        return Some(TraceError::CaptureNotConsumed);
    }
    None
}

/// Validates the parsed lines of a runtime trace. A line that is no JSON
/// document has no event; `facts` holds what the execution core read from each
/// line.
pub fn validate_trace_events(
    events: &Vec<Option<Json>>,
    facts: &Vec<TraceLineFacts>,
    max_steps: usize,
) -> (result: Result<(), TraceError>)
    requires
        facts@.len() == events@.len(),
    ensures
        result == strict_trace(events_view(events@), facts@, max_steps as nat),
{
    let state = match read_trace(events, facts) {
        Ok(state) => state,
        Err(error) => {
            return Err(error);
        },
    };
    match find_trace_fault(&state, max_steps) {
        Some(error) => Err(error),
        None => Ok(()),
    }
}

/// The events of the lines of a trace.
pub open spec fn trace_events(jsonl: Seq<char>) -> Seq<Option<JsonView>> {
    text::lines_of(jsonl).map_values(|line: Seq<char>| json::parsed_json(line))
}

/// Parses every line of a trace.
fn parse_lines(jsonl: &str) -> (events: Vec<Option<Json>>)
    ensures
        events_view(events@) == trace_events(jsonl@),
{
    let lines = text::split_lines(jsonl);
    let ghost expected = trace_events(jsonl@);
    let mut events: Vec<Option<Json>> = Vec::new();
    let mut i: usize = 0;
    assert(expected.len() == lines@.len()) by {
        assert(text::texts(lines@).len() == lines@.len());
    }
    while i < lines.len()
        invariant
            text::texts(lines@) == text::lines_of(jsonl@),
            expected == trace_events(jsonl@),
            expected.len() == lines@.len(),
            i <= lines@.len(),
            events@.len() == i,
            events_view(events@) == expected.take(i as int),
        decreases lines@.len() - i,
    {
        assert(text::texts(lines@)[i as int] == lines@[i as int]@);
        let event = json::parse_json(lines[i].as_str());
        events.push(event);
        assert(events_view(events@) =~= expected.take(i + 1));
        i += 1;
    }
    assert(expected.take(i as int) =~= expected);
    events
}

/// Validates a runtime trace. `facts` holds what the execution core read from
/// each line, and `max_steps` bounds the number of steps.
pub fn validate_strict_runtime_trace(
    jsonl: &str,
    facts: &Vec<TraceLineFacts>,
    max_steps: usize,
) -> (result: Result<(), TraceError>)
    requires
        facts@.len() == text::lines_of(jsonl@).len(),
    ensures
        result == strict_trace(trace_events(jsonl@), facts@, max_steps as nat),
{
    let events = parse_lines(jsonl);
    assert(events_view(events@).len() == events@.len());
    validate_trace_events(&events, facts, max_steps)
}

/// A trace refused at one of its lines is refused for the same reason whatever
/// lines follow.
pub proof fn law_refused_lines_stay_refused(
    events: Seq<Option<JsonView>>,
    facts: Seq<TraceLineFacts>,
    more_events: Seq<Option<JsonView>>,
    more_facts: Seq<TraceLineFacts>,
    max_steps: nat,
)
    requires
        facts.len() == events.len(),
        more_facts.len() == more_events.len(),
        trace_after(events, facts, events.len()) is Err,
    ensures
        strict_trace(events + more_events, facts + more_facts, max_steps) == strict_trace(
            events,
            facts,
            max_steps,
        ),
{
    let all = events + more_events;
    let all_facts = facts + more_facts;
    lemma_trace_reads_prefix(events, facts, all, all_facts, events.len());
    lemma_trace_fault_stays(all, all_facts, events.len(), all.len());
}

proof fn lemma_trace_reads_prefix(
    events: Seq<Option<JsonView>>,
    facts: Seq<TraceLineFacts>,
    all: Seq<Option<JsonView>>,
    all_facts: Seq<TraceLineFacts>,
    count: nat,
)
    requires
        count <= events.len() <= all.len(),
        facts.len() == events.len(),
        all_facts.len() == all.len(),
        forall|i: int| 0 <= i < events.len() ==> all[i] == events[i],
        forall|i: int| 0 <= i < events.len() ==> all_facts[i] == facts[i],
    ensures
        trace_after(all, all_facts, count) == trace_after(events, facts, count),
    decreases count,
{
    if count > 0 {
        lemma_trace_reads_prefix(events, facts, all, all_facts, (count - 1) as nat);
    }
}

/// Whether a line is a lifecycle line.
pub open spec fn lifecycle_at(events: Seq<Option<JsonView>>, i: int) -> bool {
    events[i] matches Some(event) && event.text_field("schema"@) == Some(
        GGML_GRAPH_LIFECYCLE_SCHEMA@,
    )
}

/// Whether a line that is no lifecycle line has this event name.
pub open spec fn event_at(events: Seq<Option<JsonView>>, i: int, name: Seq<char>) -> bool {
    &&& !lifecycle_at(events, i)
    &&& events[i] matches Some(event) && event.text_field("event"@) == Some(name)
}

/// Whether a line records the token of a step.
pub open spec fn token_at(events: Seq<Option<JsonView>>, i: int, step: u64) -> bool {
    event_at(events, i, "token"@) && events[i]->0.natural_field("step_index"@) == Some(step)
}

/// Whether a line records the ranking of a step.
pub open spec fn top_k_at(events: Seq<Option<JsonView>>, i: int, step: u64) -> bool {
    event_at(events, i, "top_k"@) && events[i]->0.natural_field("step_index"@) == Some(step)
}

/// What the lifecycle lines of a trace leave behind: a graph, created or found, and
/// the events that a trace cannot lack.
pub enum TraceMark {
    Graph,
    Event(RequiredEvent),
}

/// Whether a lifecycle event is what leaves a mark.
pub open spec fn kind_shows(kind: GgmlGraphLifecycleEventKind, mark: TraceMark) -> bool {
    match mark {
        TraceMark::Graph => kind is Created || kind is ExistingGraphObserved,
        TraceMark::Event(RequiredEvent::InputWrite) => kind is InputWrite,
        TraceMark::Event(RequiredEvent::ComputeStarted) => kind is ComputeStarted,
        TraceMark::Event(RequiredEvent::ComputeCompleted) => kind is ComputeCompleted,
        TraceMark::Event(RequiredEvent::OutputRead) => kind is OutputRead,
    }
}

/// Whether a mark was left by the kinds seen.
pub open spec fn kinds_show(kinds: LifecycleKinds, mark: TraceMark) -> bool {
    match mark {
        TraceMark::Graph => kinds.created || kinds.existing_graph_observed,
        TraceMark::Event(RequiredEvent::InputWrite) => kinds.input_write,
        TraceMark::Event(RequiredEvent::ComputeStarted) => kinds.compute_started,
        TraceMark::Event(RequiredEvent::ComputeCompleted) => kinds.compute_completed,
        TraceMark::Event(RequiredEvent::OutputRead) => kinds.output_read,
    }
}

/// Whether a line is a lifecycle line that shows a mark.
pub open spec fn shows_at(
    events: Seq<Option<JsonView>>,
    facts: Seq<TraceLineFacts>,
    i: int,
    mark: TraceMark,
) -> bool {
    &&& lifecycle_at(events, i)
    &&& facts[i].lifecycle matches LifecycleDecode::Event(line) && kind_shows(line.kind, mark)
}

/// Whether one of the first `count` lines shows a mark.
pub open spec fn lines_show(
    events: Seq<Option<JsonView>>,
    facts: Seq<TraceLineFacts>,
    count: nat,
    mark: TraceMark,
) -> bool {
    exists|i: int| 0 <= i < count && shows_at(events, facts, i, mark)
}

/// Whether a line is a lifecycle line on which the output of a compute was read.
pub open spec fn read_at(
    events: Seq<Option<JsonView>>,
    facts: Seq<TraceLineFacts>,
    i: int,
    identity: ArtifactComputeIdentity,
) -> bool {
    &&& lifecycle_at(events, i)
    &&& facts[i].lifecycle matches LifecycleDecode::Event(event) && {
        &&& event.kind matches GgmlGraphLifecycleEventKind::OutputRead {
            compute_sequence,
            output_generation_consumed,
            bytes,
        } && identity == (
            event.graph_instance,
            event.graph_generation,
            compute_sequence,
            output_generation_consumed,
        )
    }
}

/// The sequence number of a lifecycle line.
pub open spec fn sequence_at(facts: Seq<TraceLineFacts>, i: int) -> int {
    match facts[i].lifecycle {
        LifecycleDecode::Event(event) => event.sequence as int,
        _ => 0,
    }
}

/// Whether some line records the token of a step.
pub open spec fn step_has_token(events: Seq<Option<JsonView>>, step: u64) -> bool {
    exists|i: int| 0 <= i < events.len() && token_at(events, i, step)
}

/// Whether token lines record exactly the steps below `steps`.
pub open spec fn tokens_cover(events: Seq<Option<JsonView>>, steps: nat) -> bool {
    forall|step: u64| #[trigger] step_has_token(events, step) <==> step < steps
}

proof fn lemma_names_differ()
    ensures
        "header"@ != "token"@,
        "header"@ != "top_k"@,
        "token"@ != "top_k"@,
{
    reveal_strlit("header");
    reveal_strlit("token");
    reveal_strlit("top_k");
    assert("header"@.len() == 6);
    assert("token"@.len() == 5);
    assert("top_k"@.len() == 5);
    assert("token"@[1] == 'o');
    assert("top_k"@[4] == 'k');
    assert("token"@[4] == 'n');
}

/// The steps with a token are those that a token line records, and each is
/// recorded once.
pub proof fn law_token_steps_come_from_token_lines(
    events: Seq<Option<JsonView>>,
    facts: Seq<TraceLineFacts>,
    count: nat,
)
    requires
        facts.len() == events.len(),
        count <= events.len(),
    ensures
        trace_after(events, facts, count) matches Ok(state) ==> {
            &&& forall|step: u64|
                state.tokens.contains_key(step) <==> exists|i: int|
                    0 <= i < count && token_at(events, i, step)
            &&& forall|i: int, j: int, step: u64|
                0 <= i < count && 0 <= j < count && token_at(events, i, step) && token_at(
                    events,
                    j,
                    step,
                ) ==> i == j
            &&& forall|i: int, step: u64|
                0 <= i < count && token_at(events, i, step) ==> (selection_in(
                    events[i]->0,
                ) matches Some(compute) && state.tokens[step] == compute.selection())
        },
    decreases count,
{
    if count > 0 {
        let last = count - 1;
        law_token_steps_come_from_token_lines(events, facts, last as nat);
        lemma_names_differ();
        if let Ok(state) = trace_after(events, facts, count) {
            let before = trace_after(events, facts, last as nat)->Ok_0;
            let event = events[last]->0;
            if event_at(events, last, "token"@) {
                let step = event.natural_field("step_index"@)->0;
                assert(token_at(events, last, step));
                assert(state.tokens == before.tokens.insert(step, selection_in(event)->0.selection()));
                assert(!before.tokens.contains_key(step));
            } else {
                assert(state.tokens == before.tokens);
                assert(forall|step: u64| !token_at(events, last, step));
            }
            assert forall|step: u64|
                state.tokens.contains_key(step) <==> exists|i: int|
                    0 <= i < count && token_at(events, i, step) by {
                if state.tokens.contains_key(step) {
                    if before.tokens.contains_key(step) {
                        let i = choose|i: int| 0 <= i < last && token_at(events, i, step);
                        assert(0 <= i < count && token_at(events, i, step));
                    } else {
                        assert(token_at(events, last, step));
                    }
                }
                if exists|i: int| 0 <= i < count && token_at(events, i, step) {
                    let i = choose|i: int| 0 <= i < count && token_at(events, i, step);
                    if i < last {
                        assert(0 <= i < last && token_at(events, i, step));
                        assert(before.tokens.contains_key(step));
                    }
                }
            }
        }
    }
}

/// The steps with a ranking are those that a top_k line records, and each is
/// recorded once.
pub proof fn law_top_k_steps_come_from_top_k_lines(
    events: Seq<Option<JsonView>>,
    facts: Seq<TraceLineFacts>,
    count: nat,
)
    requires
        facts.len() == events.len(),
        count <= events.len(),
    ensures
        trace_after(events, facts, count) matches Ok(state) ==> {
            &&& forall|step: u64|
                state.top_k.contains_key(step) <==> exists|i: int|
                    0 <= i < count && top_k_at(events, i, step)
            &&& forall|i: int, j: int, step: u64|
                0 <= i < count && 0 <= j < count && top_k_at(events, i, step) && top_k_at(
                    events,
                    j,
                    step,
                ) ==> i == j
            &&& forall|i: int, step: u64|
                0 <= i < count && top_k_at(events, i, step) ==> (selection_in(
                    events[i]->0,
                ) matches Some(compute) && state.top_k[step] == compute.selection())
        },
    decreases count,
{
    if count > 0 {
        let last = count - 1;
        law_top_k_steps_come_from_top_k_lines(events, facts, last as nat);
        lemma_names_differ();
        if let Ok(state) = trace_after(events, facts, count) {
            let before = trace_after(events, facts, last as nat)->Ok_0;
            let event = events[last]->0;
            if event_at(events, last, "top_k"@) {
                let step = event.natural_field("step_index"@)->0;
                assert(top_k_at(events, last, step));
                assert(state.top_k == before.top_k.insert(step, selection_in(event)->0.selection()));
                assert(!before.top_k.contains_key(step));
            } else {
                assert(state.top_k == before.top_k);
                assert(forall|step: u64| !top_k_at(events, last, step));
            }
            assert forall|step: u64|
                state.top_k.contains_key(step) <==> exists|i: int|
                    0 <= i < count && top_k_at(events, i, step) by {
                if state.top_k.contains_key(step) {
                    if before.top_k.contains_key(step) {
                        let i = choose|i: int| 0 <= i < last && top_k_at(events, i, step);
                        assert(0 <= i < count && top_k_at(events, i, step));
                    } else {
                        assert(top_k_at(events, last, step));
                    }
                }
                if exists|i: int| 0 <= i < count && top_k_at(events, i, step) {
                    let i = choose|i: int| 0 <= i < count && top_k_at(events, i, step);
                    if i < last {
                        assert(0 <= i < last && top_k_at(events, i, step));
                        assert(before.top_k.contains_key(step));
                    }
                }
            }
        }
    }
}

/// The lifecycle kinds that count as seen are those of the lifecycle lines.
pub proof fn law_kinds_come_from_lifecycle_lines(
    events: Seq<Option<JsonView>>,
    facts: Seq<TraceLineFacts>,
    count: nat,
)
    requires
        facts.len() == events.len(),
        count <= events.len(),
    ensures
        trace_after(events, facts, count) matches Ok(state) ==> forall|mark: TraceMark|
            #[trigger]
            kinds_show(state.kinds, mark) <==> lines_show(events, facts, count, mark),
    decreases count,
{
    if count > 0 {
        let last = count - 1;
        law_kinds_come_from_lifecycle_lines(events, facts, last as nat);
        lemma_names_differ();
        if let Ok(state) = trace_after(events, facts, count) {
            let before = trace_after(events, facts, last as nat)->Ok_0;
            assert forall|mark: TraceMark| #[trigger]
                kinds_show(state.kinds, mark) <==> lines_show(events, facts, count, mark) by {
                assert(kinds_show(state.kinds, mark) <==> kinds_show(before.kinds, mark)
                    || shows_at(events, facts, last, mark));
                if lines_show(events, facts, last as nat, mark) {
                    let i = choose|i: int| 0 <= i < last && shows_at(events, facts, i, mark);
                    assert(0 <= i < count && shows_at(events, facts, i, mark));
                }
                if lines_show(events, facts, count, mark) {
                    let i = choose|i: int| 0 <= i < count && shows_at(events, facts, i, mark);
                    if i < last {
                        assert(lines_show(events, facts, last as nat, mark));
                    }
                }
            }
        }
    }
}

/// The computes whose output counts as read are those that an output-read line
/// names, and each is named once.
pub proof fn law_output_reads_come_from_lifecycle_lines(
    events: Seq<Option<JsonView>>,
    facts: Seq<TraceLineFacts>,
    count: nat,
)
    requires
        facts.len() == events.len(),
        count <= events.len(),
    ensures
        trace_after(events, facts, count) matches Ok(state) ==> {
            &&& forall|identity: ArtifactComputeIdentity|
                state.output_reads.contains_key(identity) <==> exists|i: int|
                    0 <= i < count && read_at(events, facts, i, identity)
            &&& forall|i: int, j: int, identity: ArtifactComputeIdentity|
                0 <= i < count && 0 <= j < count && read_at(events, facts, i, identity) && read_at(
                    events,
                    facts,
                    j,
                    identity,
                ) ==> i == j
        },
    decreases count,
{
    if count > 0 {
        let last = count - 1;
        law_output_reads_come_from_lifecycle_lines(events, facts, last as nat);
        lemma_names_differ();
        if let Ok(state) = trace_after(events, facts, count) {
            let before = trace_after(events, facts, last as nat)->Ok_0;
            assert forall|identity: ArtifactComputeIdentity|
                state.output_reads.contains_key(identity) <==> exists|i: int|
                    0 <= i < count && read_at(events, facts, i, identity) by {
                if state.output_reads.contains_key(identity) {
                    if before.output_reads.contains_key(identity) {
                        let i = choose|i: int| 0 <= i < last && read_at(events, facts, i, identity);
                        assert(0 <= i < count && read_at(events, facts, i, identity));
                    } else {
                        assert(read_at(events, facts, last, identity));
                    }
                }
                if exists|i: int| 0 <= i < count && read_at(events, facts, i, identity) {
                    let i = choose|i: int| 0 <= i < count && read_at(events, facts, i, identity);
                    if i < last {
                        assert(0 <= i < last && read_at(events, facts, i, identity));
                        assert(before.output_reads.contains_key(identity));
                    }
                }
            }
            assert forall|i: int, j: int, identity: ArtifactComputeIdentity|
                0 <= i < count && 0 <= j < count && read_at(events, facts, i, identity) && read_at(
                    events,
                    facts,
                    j,
                    identity,
                ) implies i == j by {
                if i == last && j < last {
                    assert(0 <= j < last && read_at(events, facts, j, identity));
                    assert(before.output_reads.contains_key(identity));
                }
                if j == last && i < last {
                    assert(0 <= i < last && read_at(events, facts, i, identity));
                    assert(before.output_reads.contains_key(identity));
                }
            }
        }
    }
}

/// The sequence numbers of the lifecycle lines rise strictly.
pub proof fn law_lifecycle_sequence_rises(
    events: Seq<Option<JsonView>>,
    facts: Seq<TraceLineFacts>,
    count: nat,
)
    requires
        facts.len() == events.len(),
        count <= events.len(),
    ensures
        trace_after(events, facts, count) matches Ok(state) ==> {
            &&& forall|i: int|
                0 <= i < count && lifecycle_at(events, i) ==> 0 < #[trigger] sequence_at(facts, i)
                    <= state.last_sequence
            &&& forall|i: int, j: int|
                0 <= i < j < count && lifecycle_at(events, i) && lifecycle_at(events, j)
                    ==> #[trigger] sequence_at(facts, i) < #[trigger] sequence_at(facts, j)
        },
    decreases count,
{
    if count > 0 {
        let last = count - 1;
        law_lifecycle_sequence_rises(events, facts, last as nat);
        lemma_names_differ();
    }
}

/// Once a header was read it is the first line, no other line is a header, and
/// every lifecycle line names the provider and device of that header.
pub proof fn law_header_leads_and_binds(
    events: Seq<Option<JsonView>>,
    facts: Seq<TraceLineFacts>,
    count: nat,
)
    requires
        facts.len() == events.len(),
        count <= events.len(),
    ensures
        trace_after(events, facts, count) matches Ok(state) ==> {
            &&& state.route matches Some(route) ==> count > 0 && event_at(events, 0, "header"@)
                && events[0]->0.text_field("provider"@) == Some(route.0)
                && events[0]->0.text_field("device"@) == Some(route.1)
            &&& forall|i: int| 0 < i < count ==> !#[trigger] event_at(events, i, "header"@)
            &&& forall|i: int|
                0 <= i < count && #[trigger] lifecycle_at(events, i) ==> (
                facts[i].lifecycle matches LifecycleDecode::Event(event) && state.route == Some(
                    (event.provider@, event.device@),
                ))
        },
    decreases count,
{
    if count > 0 {
        let last = count - 1;
        law_header_leads_and_binds(events, facts, last as nat);
        lemma_names_differ();
    }
}

/// Every graph that an accepted prefix of a trace attached keeps the capture
/// invariant.
pub proof fn law_trace_keeps_capture_invariant(
    events: Seq<Option<JsonView>>,
    facts: Seq<TraceLineFacts>,
    count: nat,
)
    requires
        facts.len() == events.len(),
        count <= events.len(),
    ensures
        trace_after(events, facts, count) matches Ok(state) ==> forall|graph: (u64, u64)| #[trigger]
            state.captures.contains_key(graph) ==> capture::capture_invariant(
                state.captures[graph],
            ),
    decreases count,
{
    if count > 0 {
        let last = count - 1;
        law_trace_keeps_capture_invariant(events, facts, last as nat);
        lemma_names_differ();
        if let Ok(state) = trace_after(events, facts, count) {
            let before = trace_after(events, facts, last as nat)->Ok_0;
            if lifecycle_at(events, last) {
                if let LifecycleDecode::Event(event) = facts[last].lifecycle {
                    capture::law_capture_invariant(
                        before.captures,
                        (event.graph_instance, event.graph_generation),
                        event.kind,
                    );
                }
            }
        }
    }
}

/// An accepted trace has a token line for exactly the steps below their number,
/// which is positive and at most `max_steps`; each step was selected from its
/// own output of a compute whose output a lifecycle line shows to have been
/// read.
pub proof fn law_accepted_trace_binds_every_step(
    events: Seq<Option<JsonView>>,
    facts: Seq<TraceLineFacts>,
    max_steps: nat,
)
    requires
        facts.len() == events.len(),
        strict_trace(events, facts, max_steps) is Ok,
    ensures
        event_at(events, 0, "header"@),
        exists|steps: nat| 0 < steps <= max_steps && #[trigger] tokens_cover(events, steps),
        forall|i: int, step: u64|
            0 <= i < events.len() && token_at(events, i, step) ==> (selection_in(
                events[i]->0,
            ) matches Some(compute) && exists|j: int|
                0 <= j < events.len() && read_at(
                    events,
                    facts,
                    j,
                    compute_of(compute.selection()),
                )),
        forall|i: int, j: int, a: u64, b: u64|
            0 <= i < events.len() && 0 <= j < events.len() && token_at(events, i, a) && token_at(
                events,
                j,
                b,
            ) && a != b ==> selection_in(events[i]->0) != selection_in(events[j]->0),
{
    let count = events.len();
    law_token_steps_come_from_token_lines(events, facts, count);
    law_output_reads_come_from_lifecycle_lines(events, facts, count);
    law_header_leads_and_binds(events, facts, count);
    let state = trace_after(events, facts, count)->Ok_0;
    let steps = state.tokens.dom().len();
    assert(0 < steps) by {
        assert(state.tokens.dom() != Set::<u64>::empty());
        if steps == 0 {
            assert(state.tokens.dom() =~= Set::<u64>::empty()) by {
                assert forall|step: u64| !state.tokens.dom().contains(step) by {
                    assert(!state.tokens.contains_key(step));
                }
            }
        }
    }
    assert(tokens_cover(events, steps)) by {
        assert forall|step: u64| #[trigger] step_has_token(events, step) <==> step < steps by {
            assert(state.tokens.contains_key(step) <==> step < steps);
        }
    }
    assert forall|i: int, step: u64|
        0 <= i < events.len() && token_at(events, i, step) implies (selection_in(
        events[i]->0,
    ) matches Some(compute) && exists|j: int|
        0 <= j < events.len() && read_at(events, facts, j, compute_of(compute.selection()))) by {
        assert(state.tokens.contains_key(step));
        assert(state.output_reads.contains_key(compute_of(state.tokens[step])));
    }
    assert forall|i: int, j: int, a: u64, b: u64|
        0 <= i < events.len() && 0 <= j < events.len() && token_at(events, i, a) && token_at(
            events,
            j,
            b,
        ) && a != b implies selection_in(events[i]->0) != selection_in(events[j]->0) by {
        assert(state.tokens.contains_key(a));
        assert(state.tokens.contains_key(b));
    }
}

/// Every step of an accepted trace has one token line and one top_k line, and both
/// select from the same compute.
pub proof fn law_accepted_trace_ranks_every_step(
    events: Seq<Option<JsonView>>,
    facts: Seq<TraceLineFacts>,
    max_steps: nat,
)
    requires
        facts.len() == events.len(),
        strict_trace(events, facts, max_steps) is Ok,
    ensures
        forall|step: u64|
            step_has_token(events, step) <==> exists|j: int|
                0 <= j < events.len() && top_k_at(events, j, step),
        forall|i: int, j: int, step: u64|
            0 <= i < events.len() && 0 <= j < events.len() && top_k_at(events, i, step)
                && top_k_at(events, j, step) ==> i == j,
        forall|i: int, j: int, step: u64|
            0 <= i < events.len() && 0 <= j < events.len() && token_at(events, i, step)
                && top_k_at(events, j, step) ==> (selection_in(events[i]->0) matches Some(token)
                && selection_in(events[j]->0) matches Some(ranking) && token.selection()
                == ranking.selection()),
{
    let count = events.len();
    law_token_steps_come_from_token_lines(events, facts, count);
    law_top_k_steps_come_from_top_k_lines(events, facts, count);
    let state = trace_after(events, facts, count)->Ok_0;
    assert(state.tokens == state.top_k);
    assert forall|step: u64|
        step_has_token(events, step) <==> exists|j: int|
            0 <= j < events.len() && top_k_at(events, j, step) by {
        assert(state.tokens.contains_key(step) <==> state.top_k.contains_key(step));
    }
}

/// An accepted trace shows every lifecycle event that it cannot lack, and a graph that they
/// are about.
pub proof fn law_accepted_trace_shows_the_lifecycle(
    events: Seq<Option<JsonView>>,
    facts: Seq<TraceLineFacts>,
    max_steps: nat,
    mark: TraceMark,
)
    requires
        facts.len() == events.len(),
        strict_trace(events, facts, max_steps) is Ok,
    ensures
        lines_show(events, facts, events.len(), mark),
{
    law_kinds_come_from_lifecycle_lines(events, facts, events.len());
    let state = trace_after(events, facts, events.len())->Ok_0;
    assert(kinds_show(state.kinds, mark));
}

/// A value names the output of a compute exactly if it is an object with exactly the six
/// numbers, or an array of them in their order, all of them naturals of 64 bits; the
/// first four are positive, and the index lies below the count. The numbers read are the
/// ones recorded.
pub proof fn law_selection_is_read(value: JsonView)
    ensures
        value matches JsonView::Array(items) ==> {
            &&& selection_of(value) is Some <==> {
                &&& items.len() == 6
                &&& forall|i: int| 0 <= i < 6 ==> (#[trigger] items[i]).natural() is Some
                &&& items[0].natural()->0 > 0 && items[1].natural()->0 > 0
                &&& items[2].natural()->0 > 0 && items[3].natural()->0 > 0
                &&& items[4].natural()->0 < items[5].natural()->0
            }
            &&& selection_of(value) matches Some(read) ==> {
                &&& items[0].natural() == Some(read.graph_instance)
                &&& items[1].natural() == Some(read.graph_generation)
                &&& items[2].natural() == Some(read.compute_sequence)
                &&& items[3].natural() == Some(read.output_generation)
                &&& items[4].natural() == Some(read.output_index)
                &&& items[5].natural() == Some(read.output_count)
            }
        },
        value is Object ==> {
            let exact = value.has_exact_fields(
                seq![
                    "graph_instance"@,
                    "graph_generation"@,
                    "compute_sequence"@,
                    "output_generation"@,
                    "output_index"@,
                    "output_count"@,
                ],
            );
            &&& selection_of(value) is Some <==> {
                &&& exact
                &&& value.natural_field("graph_instance"@) matches Some(n) && n > 0
                &&& value.natural_field("graph_generation"@) matches Some(n) && n > 0
                &&& value.natural_field("compute_sequence"@) matches Some(n) && n > 0
                &&& value.natural_field("output_generation"@) matches Some(n) && n > 0
                &&& value.natural_field("output_index"@) is Some
                &&& value.natural_field("output_count"@) is Some
                &&& value.natural_field("output_index"@)->0 < value.natural_field(
                    "output_count"@,
                )->0
            }
            &&& selection_of(value) matches Some(read) ==> {
                &&& value.natural_field("graph_instance"@) == Some(read.graph_instance)
                &&& value.natural_field("graph_generation"@) == Some(read.graph_generation)
                &&& value.natural_field("compute_sequence"@) == Some(read.compute_sequence)
                &&& value.natural_field("output_generation"@) == Some(read.output_generation)
                &&& value.natural_field("output_index"@) == Some(read.output_index)
                &&& value.natural_field("output_count"@) == Some(read.output_count)
            }
        },
        !(value is Object) && !(value is Array) ==> selection_of(value) is None,
{
    if let JsonView::Array(items) = value {
        if items.len() == 6 {
            assert((forall|i: int| 0 <= i < 6 ==> (#[trigger] items[i]).natural() is Some) <==> (
            items[0].natural() is Some && items[1].natural() is Some && items[2].natural() is Some
                && items[3].natural() is Some && items[4].natural() is Some
                && items[5].natural() is Some));
        }
    }
    assert(selection_names() =~= seq![
        "graph_instance"@,
        "graph_generation"@,
        "compute_sequence"@,
        "output_generation"@,
        "output_index"@,
        "output_count"@,
    ]);
}

/// The output that an event names stands in its field `compute`; two outputs are the
/// same exactly if their six numbers are, and belong to one compute exactly if the first
/// four are.
pub proof fn law_selection_identity(
    event: JsonView,
    left: ArtifactSelectionEvidenceRef,
    right: ArtifactSelectionEvidenceRef,
)
    ensures
        event.field("compute"@) is None ==> selection_in(event) is None,
        event.field("compute"@) matches Some(value) ==> selection_in(event) == selection_of(value),
        left.selection() == right.selection() <==> left == right,
        compute_of(left.selection()) == compute_of(right.selection()) <==> left.graph_instance
            == right.graph_instance && left.graph_generation == right.graph_generation
            && left.compute_sequence == right.compute_sequence && left.output_generation
            == right.output_generation,
{
}

/// A token line is accepted exactly if it has its six fields and no other, names a step
/// that had no token yet, a token number, an end mark of zero or one, and an output. It
/// adds the output of its step and changes nothing else.
pub proof fn law_token_line_is_accepted(
    state: TraceView,
    index: nat,
    event: JsonView,
    facts: TraceLineFacts,
    other: u64,
)
    requires
        event.text_field("schema"@) != Some("openasr.ggml-graph-lifecycle.v1"@),
        event.text_field("event"@) == Some("token"@),
    ensures
        ({
            let step = event.natural_field("step_index"@);
            let after = trace_line(state, index, event, facts);
            &&& after is Ok <==> {
                &&& event.has_exact_fields(
                    seq!["schema"@, "event"@, "step_index"@, "token_id"@, "is_eot"@, "compute"@],
                )
                &&& step is Some
                &&& event.natural_field("token_id"@) matches Some(id) && id < 0x1_0000_0000
                &&& event.natural_field("is_eot"@) matches Some(mark) && mark <= 1
                &&& selection_in(event) is Some
                &&& !state.tokens.contains_key(step->0)
            }
            &&& after matches Ok(next) ==> {
                &&& next.tokens.contains_key(step->0)
                &&& next.tokens[step->0] == selection_in(event)->0.selection()
                &&& other != step->0 ==> next.tokens.contains_key(other)
                    == state.tokens.contains_key(other) && next.tokens[other]
                    == state.tokens[other]
                &&& next.top_k == state.top_k && next.output_reads == state.output_reads
                &&& next.captures == state.captures && next.kinds == state.kinds
                &&& next.route == state.route && next.last_sequence == state.last_sequence
            }
        }),
{
    reveal_strlit("token");
    reveal_strlit("header");
    assert("token"@.len() != "header"@.len());
    assert(token_names() =~= seq![
        "schema"@,
        "event"@,
        "step_index"@,
        "token_id"@,
        "is_eot"@,
        "compute"@,
    ]);
}

/// An alternatives line is accepted exactly if it has its six fields and no other, names
/// a step that had no alternatives yet and an output, and lists at least two
/// alternatives, each with a token number and a finite score and nothing else, and a
/// finite margin that is not below zero. It adds the output of its step and changes
/// nothing else.
pub proof fn law_top_k_line_is_accepted(
    state: TraceView,
    index: nat,
    event: JsonView,
    facts: TraceLineFacts,
    other: u64,
)
    requires
        event.text_field("schema"@) != Some("openasr.ggml-graph-lifecycle.v1"@),
        event.text_field("event"@) == Some("top_k"@),
    ensures
        ({
            let step = event.natural_field("step_index"@);
            let after = trace_line(state, index, event, facts);
            &&& after is Ok <==> {
                &&& event.has_exact_fields(
                    seq![
                        "schema"@,
                        "event"@,
                        "step_index"@,
                        "items"@,
                        "top1_top2_margin"@,
                        "compute"@,
                    ],
                )
                &&& step is Some
                &&& event.field("items"@) matches Some(JsonView::Array(items)) && items.len() >= 2
                    && forall|i: int|
                    0 <= i < items.len() ==> {
                        &&& (#[trigger] items[i]).has_exact_fields(seq!["token_id"@, "value"@])
                        &&& items[i].natural_field("token_id"@) matches Some(id) && id
                            < 0x1_0000_0000
                        &&& items[i].field("value"@) matches Some(score) && score.finite_number()
                    }
                &&& event.field("top1_top2_margin"@) matches Some(margin)
                    && margin.finite_non_negative_number()
                &&& !state.top_k.contains_key(step->0)
                &&& selection_in(event) is Some
            }
            &&& after matches Ok(next) ==> {
                &&& next.top_k.contains_key(step->0)
                &&& next.top_k[step->0] == selection_in(event)->0.selection()
                &&& other != step->0 ==> next.top_k.contains_key(other)
                    == state.top_k.contains_key(other) && next.top_k[other] == state.top_k[other]
                &&& next.tokens == state.tokens && next.output_reads == state.output_reads
                &&& next.captures == state.captures && next.kinds == state.kinds
                &&& next.route == state.route && next.last_sequence == state.last_sequence
            }
        }),
{
    reveal_strlit("top_k");
    reveal_strlit("header");
    reveal_strlit("token");
    assert("top_k"@.len() != "header"@.len());
    assert("top_k"@[1] == 'o' && "top_k"@[2] == 'p');
    assert("token"@[2] == 'k');
    assert(top_k_names() =~= seq![
        "schema"@,
        "event"@,
        "step_index"@,
        "items"@,
        "top1_top2_margin"@,
        "compute"@,
    ]);
    assert(top_k_item_names() =~= seq!["token_id"@, "value"@]);
    assert forall|items: Seq<JsonView>| #[trigger] top_k_is_real(event, items) <==> (items.len()
        >= 2 && (forall|i: int|
        0 <= i < items.len() ==> {
            &&& (#[trigger] items[i]).has_exact_fields(seq!["token_id"@, "value"@])
            &&& items[i].natural_field("token_id"@) matches Some(id) && id < 0x1_0000_0000
            &&& items[i].field("value"@) matches Some(score) && score.finite_number()
        }) && (event.field("top1_top2_margin"@) matches Some(margin)
        && margin.finite_non_negative_number())) by {
        assert forall|i: int| 0 <= i < items.len() implies (top_k_item(#[trigger] items[i]) <==> {
            &&& items[i].has_exact_fields(seq!["token_id"@, "value"@])
            &&& items[i].natural_field("token_id"@) matches Some(id) && id < 0x1_0000_0000
            &&& items[i].field("value"@) matches Some(score) && score.finite_number()
        }) by {}
    }
}

/// A lifecycle line is accepted exactly if it is strict and valid, has a sequence number
/// above the last one, follows a header whose provider and device it repeats, fits the
/// capture state of its graph, and does not read an output a second time. It moves the
/// sequence on, marks its kind as seen, and a read adds its bytes to its compute.
pub proof fn law_lifecycle_line_is_accepted(
    state: TraceView,
    index: nat,
    event: JsonView,
    facts: TraceLineFacts,
)
    requires
        event.text_field("schema"@) == Some("openasr.ggml-graph-lifecycle.v1"@),
    ensures
        ({
            let after = trace_line(state, index, event, facts);
            &&& after is Ok <==> (facts.lifecycle matches LifecycleDecode::Event(told) && {
                let graph = (told.graph_instance, told.graph_generation);
                &&& told.sequence > state.last_sequence
                &&& state.route matches Some(route) && route.0 == told.provider@ && route.1
                    == told.device@
                &&& capture::capture_step(state.captures, graph, told.kind) is Ok
                &&& told.kind matches GgmlGraphLifecycleEventKind::OutputRead {
                    compute_sequence,
                    output_generation_consumed,
                    bytes,
                } ==> !state.output_reads.contains_key(
                    (
                        told.graph_instance,
                        told.graph_generation,
                        compute_sequence,
                        output_generation_consumed,
                    ),
                )
            })
            &&& after matches Ok(next) ==> (facts.lifecycle matches LifecycleDecode::Event(told) && {
                &&& next.last_sequence == told.sequence
                &&& next.route == state.route
                &&& next.tokens == state.tokens && next.top_k == state.top_k
                &&& capture::capture_step(
                    state.captures,
                    (told.graph_instance, told.graph_generation),
                    told.kind,
                ) == Ok::<Map<(u64, u64), CaptureView>, CaptureError>(next.captures)
                &&& next.kinds.created == (state.kinds.created || told.kind is Created)
                &&& next.kinds.existing_graph_observed == (state.kinds.existing_graph_observed
                    || told.kind is ExistingGraphObserved)
                &&& next.kinds.input_write == (state.kinds.input_write || told.kind is InputWrite)
                &&& next.kinds.compute_started == (state.kinds.compute_started
                    || told.kind is ComputeStarted)
                &&& next.kinds.compute_completed == (state.kinds.compute_completed
                    || told.kind is ComputeCompleted)
                &&& next.kinds.output_read == (state.kinds.output_read || told.kind is OutputRead)
                &&& !(told.kind is OutputRead) ==> next.output_reads == state.output_reads
                &&& told.kind matches GgmlGraphLifecycleEventKind::OutputRead {
                    compute_sequence,
                    output_generation_consumed,
                    bytes,
                } ==> next.output_reads == state.output_reads.insert(
                    (
                        told.graph_instance,
                        told.graph_generation,
                        compute_sequence,
                        output_generation_consumed,
                    ),
                    bytes,
                )
            })
        }),
{
}

/// A header is accepted exactly if it is the first line and the only header, has its
/// sixteen fields and no other, and each of them holds what it must: a run and a process
/// that are told apart by 32 lower-case hexadecimal digits, a process number of 32 bits,
/// a known mode and graph mode, the live identity of the device, and short texts of one
/// line. It gives the trace its provider and device.
pub proof fn law_header_is_accepted(
    state: TraceView,
    index: nat,
    event: JsonView,
    facts: TraceLineFacts,
)
    requires
        event.text_field("schema"@) != Some("openasr.ggml-graph-lifecycle.v1"@),
        event.text_field("event"@) == Some("header"@),
    ensures
        ({
            let after = trace_line(state, index, event, facts);
            let provider = event.text_field("provider"@);
            let device = event.text_field("device"@);
            &&& after is Ok <==> {
                &&& index == 0 && state.route is None
                &&& event.text_field("schema"@) == Some("openasr.gpu-correctness-trace.v1"@)
                &&& event.has_exact_fields(header_names())
                &&& provider matches Some(text) && header_text(text)
                &&& device matches Some(text) && header_text(text)
                &&& event.text_field("actual_provider"@) == provider
                &&& event.text_field("actual_stable_device_id"@) == device
                &&& facts.actual_device matches Some(actual) && Some(actual.name@) == device
                    && actual.device_type@.len() > 0 && actual.description@.len() > 0
                &&& event.text_field("run_id"@) matches Some(id) && lower_hex(id, 32)
                &&& event.text_field("process_nonce"@) matches Some(nonce) && lower_hex(nonce, 32)
                &&& event.natural_field("process_id"@) matches Some(id) && 0 < id < 0x1_0000_0000
                &&& event.text_field("mode"@) == Some("cold"@) || event.text_field("mode"@)
                    == Some("reuse"@)
                &&& event.text_field("graph_mode"@) == Some("fresh_graph"@) || event.text_field(
                    "graph_mode"@,
                ) == Some("reusable_graph"@)
                &&& event.text_field("device_target"@) matches Some(text) && header_text(text)
                &&& event.text_field("backend_id"@) matches Some(text) && header_text(text)
                &&& event.text_field("driver_version"@) matches Some(text) && header_text(text)
                &&& event.text_field("artifact_fingerprint"@) matches Some(text) && header_text(
                    text,
                )
            }
            &&& after matches Ok(next) ==> {
                &&& next.route == Some((provider->0, device->0))
                &&& next.tokens == state.tokens && next.top_k == state.top_k
                &&& next.output_reads == state.output_reads && next.captures == state.captures
                &&& next.kinds == state.kinds && next.last_sequence == state.last_sequence
            }
        }),
{
}

/// What a text of a header may be: one line of at most 256 bytes that is not empty; and
/// what a name of hexadecimal digits is.
pub proof fn law_header_texts(text: Seq<char>, count: nat)
    ensures
        header_text(text) <==> {
            &&& 0 < text.len()
            &&& vstd::utf8::encode_utf8(text).len() <= 256
            &&& forall|i: int|
                0 <= i < text.len() ==> #[trigger] text[i] != '\n' && text[i] != '\r'
        },
        lower_hex(text, count) <==> text.len() == count && forall|i: int|
            0 <= i < text.len() ==> ('0' <= #[trigger] text[i] && text[i] <= '9') || ('a' <= text[i]
                && text[i] <= 'f'),
{
    if forall|i: int| 0 <= i < text.len() ==> #[trigger] text[i] != '\n' && text[i] != '\r' {
        assert(!text.contains('\n'));
        assert(!text.contains('\r'));
    }
    if !text.contains('\n') && !text.contains('\r') {
        assert forall|i: int| 0 <= i < text.len() implies #[trigger] text[i] != '\n' && text[i]
            != '\r' by {
            assert(text.contains(text[i]));
        }
    }
    assert forall|i: int| 0 <= i < text.len() implies (lower_hex_digit(#[trigger] text[i]) <==> ('0'
        <= text[i] && text[i] <= '9') || ('a' <= text[i] && text[i] <= 'f')) by {}
}

/// The lines of a trace are read in turn: the trace is refused at the first line that is
/// refused, and each line goes on from what the lines before it said. An event of
/// another name refuses the trace.
pub proof fn law_lines_are_read_in_turn(
    events: Seq<Option<JsonView>>,
    facts: Seq<TraceLineFacts>,
    count: nat,
)
    requires
        count < events.len(),
    ensures
        trace_after(events, facts, 0) matches Ok(start) && start.tokens == Map::<
            u64,
            ArtifactSelectionIdentity,
        >::empty() && start.route is None && start.last_sequence == 0,
        trace_after(events, facts, count) is Err || events[count as int] is None ==> trace_after(
            events,
            facts,
            count + 1,
        ) is Err,
        trace_after(events, facts, count) is Ok && events[count as int] is Some ==> trace_after(
            events,
            facts,
            count + 1,
        ) == trace_line(
            trace_after(events, facts, count)->Ok_0,
            count,
            events[count as int]->0,
            facts[count as int],
        ),
        events[count as int] is Some && events[count as int]->0.text_field("schema"@) != Some(
            "openasr.ggml-graph-lifecycle.v1"@,
        ) && events[count as int]->0.text_field("event"@) != Some("header"@)
            && events[count as int]->0.text_field("event"@) != Some("token"@)
            && events[count as int]->0.text_field("event"@) != Some("top_k"@) ==> trace_after(
            events,
            facts,
            count + 1,
        ) is Err,
{
}

/// A trace whose lines were all read is accepted exactly if it has a header; if its
/// tokens and its alternatives name the same steps, from zero without a gap, at least one
/// and at most as many as allowed, each with one and the same output; if every one of
/// these outputs was read and no two are the same; if a graph was attached, written to,
/// computed to its end and read; if the graphs that ran show one capture mode where any
/// shows capture; and if an executable that was seen was also used.
pub proof fn law_a_whole_trace_is_accepted(
    events: Seq<Option<JsonView>>,
    facts: Seq<TraceLineFacts>,
    max_steps: nat,
)
    requires
        trace_after(events, facts, events.len()) is Ok,
    ensures
        ({
            let state = trace_after(events, facts, events.len())->Ok_0;
            strict_trace(events, facts, max_steps) is Ok <==> {
                &&& state.route is Some
                &&& exists|step: u64| #[trigger] state.tokens.contains_key(step)
                &&& state.tokens.dom().len() <= max_steps
                &&& forall|step: u64| #[trigger]
                    state.tokens.contains_key(step) <==> step < state.tokens.dom().len()
                &&& forall|step: u64| #[trigger]
                    state.tokens.contains_key(step) <==> state.top_k.contains_key(step)
                &&& forall|step: u64| #[trigger]
                    state.tokens.contains_key(step) ==> state.tokens[step] == state.top_k[step]
                        && state.output_reads.contains_key(compute_of(state.tokens[step]))
                &&& forall|a: u64, b: u64|
                    #![trigger state.tokens.contains_key(a), state.tokens.contains_key(b)]
                    state.tokens.contains_key(a) && state.tokens.contains_key(b) && a != b
                        ==> state.tokens[a] != state.tokens[b]
                &&& state.kinds.created || state.kinds.existing_graph_observed
                &&& state.kinds.input_write && state.kinds.compute_started
                &&& state.kinds.compute_completed && state.kinds.output_read
                &&& (exists|graph: (u64, u64)| #[trigger]
                    state.captures.contains_key(graph) && state.captures[graph].computed
                        && state.captures[graph].capture_supported is Some && (
                    state.captures[graph].capture_supported == Some(true)
                        || state.captures[graph].graph_tracked == Some(true)
                        || state.captures[graph].capture_enabled is Some)) ==> forall|
                    a: (u64, u64),
                    b: (u64, u64),
                |
                    #![trigger state.captures.contains_key(a), state.captures.contains_key(b)]
                    state.captures.contains_key(a) && state.captures.contains_key(b)
                        && state.captures[a].computed && state.captures[b].computed ==> {
                        &&& state.captures[a].capture_supported is Some
                        &&& state.captures[a].capture_supported
                            == state.captures[b].capture_supported
                        &&& state.captures[a].graph_tracked == state.captures[b].graph_tracked
                        &&& state.captures[a].capture_enabled == state.captures[b].capture_enabled
                    }
                &&& (exists|graph: (u64, u64)| #[trigger]
                    state.captures.contains_key(graph) && state.captures[graph].computed
                        && state.captures[graph].capture_enabled == Some(true)
                        && state.captures[graph].executable_present) ==> exists|graph: (u64, u64)|
                 #[trigger]
                    state.captures.contains_key(graph) && state.captures[graph].computed
                        && state.captures[graph].capture_generation_consumed
            }
        }),
{
    let state = trace_after(events, facts, events.len())->Ok_0;
    let captures = state.captures;
    assert((state.tokens.dom() == state.top_k.dom()) <==> (forall|step: u64| #[trigger]
        state.tokens.contains_key(step) <==> state.top_k.contains_key(step))) by {
        if forall|step: u64| #[trigger]
            state.tokens.contains_key(step) <==> state.top_k.contains_key(step) {
            assert(state.tokens.dom() =~= state.top_k.dom());
        }
        if state.tokens.dom() == state.top_k.dom() {
            assert forall|step: u64| #[trigger]
                state.tokens.contains_key(step) <==> state.top_k.contains_key(step) by {
                assert(state.tokens.dom().contains(step) <==> state.top_k.dom().contains(step));
            }
        }
    }
    assert((state.tokens.dom() == Set::<u64>::empty()) <==> !(exists|step: u64| #[trigger]
        state.tokens.contains_key(step))) by {
        if !(exists|step: u64| #[trigger] state.tokens.contains_key(step)) {
            assert(state.tokens.dom() =~= Set::empty());
        }
        if state.tokens.dom() == Set::<u64>::empty() {
            assert forall|step: u64| !(#[trigger] state.tokens.contains_key(step)) by {
                assert(!state.tokens.dom().contains(step));
            }
        }
    }
    if state.tokens.dom() == state.top_k.dom() {
        assert((state.tokens == state.top_k) <==> (forall|step: u64| #[trigger]
            state.tokens.contains_key(step) ==> state.tokens[step] == state.top_k[step])) by {
            if forall|step: u64| #[trigger]
                state.tokens.contains_key(step) ==> state.tokens[step] == state.top_k[step] {
                assert(state.tokens =~= state.top_k);
            }
        }
    }
    assert forall|graph: (u64, u64)| #[trigger] mode_is_native(captures, graph) <==> (
    captures.contains_key(graph) && captures[graph].computed
        && captures[graph].capture_supported is Some && (captures[graph].capture_supported == Some(
        true,
    ) || captures[graph].graph_tracked == Some(true) || captures[graph].capture_enabled is Some)) by {}
    if exists|graph: (u64, u64)| #[trigger]
        captures.contains_key(graph) && captures[graph].computed
            && captures[graph].capture_supported is Some && (captures[graph].capture_supported
            == Some(true) || captures[graph].graph_tracked == Some(true)
            || captures[graph].capture_enabled is Some) {
        let graph = choose|graph: (u64, u64)| #[trigger]
            captures.contains_key(graph) && captures[graph].computed
                && captures[graph].capture_supported is Some && (captures[graph].capture_supported
                == Some(true) || captures[graph].graph_tracked == Some(true)
                || captures[graph].capture_enabled is Some);
        assert(mode_is_native(captures, graph));
        if !capture_mode_is_inconsistent(captures) {
            assert forall|a: (u64, u64), b: (u64, u64)|
                #![trigger captures.contains_key(a), captures.contains_key(b)]
                captures.contains_key(a) && captures.contains_key(b) && captures[a].computed
                    && captures[b].computed implies {
                &&& captures[a].capture_supported is Some
                &&& captures[a].capture_supported == captures[b].capture_supported
                &&& captures[a].graph_tracked == captures[b].graph_tracked
                &&& captures[a].capture_enabled == captures[b].capture_enabled
            } by {
                assert(graph_computed(captures, a));
                assert(graph_computed(captures, b));
                assert(mode_observed(captures, a));
                assert(mode_observed(captures, b));
                assert(!modes_differ(captures, a, b));
            }
        }
    }
    if exists|graph: (u64, u64)| #[trigger]
        captures.contains_key(graph) && captures[graph].computed && captures[graph].capture_enabled
            == Some(true) && captures[graph].executable_present {
        let graph = choose|graph: (u64, u64)| #[trigger]
            captures.contains_key(graph) && captures[graph].computed
                && captures[graph].capture_enabled == Some(true)
                && captures[graph].executable_present;
        assert(executable_observed(captures, graph));
    }
    if exists|graph: (u64, u64)| #[trigger]
        captures.contains_key(graph) && captures[graph].computed
            && captures[graph].capture_generation_consumed {
        let graph = choose|graph: (u64, u64)| #[trigger]
            captures.contains_key(graph) && captures[graph].computed
                && captures[graph].capture_generation_consumed;
        assert(generation_consumed(captures, graph));
    }
    if exists|graph: (u64, u64)| generation_consumed(captures, graph) {
        let graph = choose|graph: (u64, u64)| generation_consumed(captures, graph);
        assert(captures.contains_key(graph));
    }
    if exists|graph: (u64, u64)| executable_observed(captures, graph) {
        let graph = choose|graph: (u64, u64)| executable_observed(captures, graph);
        assert(captures.contains_key(graph));
    }
}

} // verus!
