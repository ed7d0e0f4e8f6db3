//! The native capture lifecycle of the graphs named in a runtime trace.

use std::collections::BTreeSet;

use vstd::prelude::*;

use crate::table::Table;

verus! {

/// When a capture state was observed, relative to a compute.
#[derive(Clone, Copy, Debug, PartialEq, Eq, Structural)]
pub enum GgmlCaptureObservationPhase {
    BeforeCompute,
    AfterCompute,
}

/// What happened to a graph.
#[allow(inconsistent_fields)]
#[derive(Clone, Copy, Debug, PartialEq, Eq, Structural)]
pub enum GgmlGraphLifecycleEventKind {
    Created,
    ExistingGraphObserved,
    Prepared,
    InputWrite,
    ComputeStarted { compute_sequence: u64, capture_executable_generation: Option<u64> },
    ComputeCompleted { compute_sequence: u64 },
    OutputRead { compute_sequence: u64, output_generation_consumed: u64, bytes: u64 },
    KvWriteCommitted,
    Rebuilt,
    Poisoned,
    Dropped,
    CaptureStateObserved {
        phase: GgmlCaptureObservationPhase,
        capture_supported: bool,
        graph_tracked: bool,
        capture_enabled: Option<bool>,
        executable_present: bool,
    },
    CaptureExecutableObserved { capture_executable_generation: u64 },
    CaptureExecutableCreated { capture_executable_generation: u64 },
}

/// One event in the life of a graph, as a runtime trace records it.
#[derive(Debug)]
pub struct GgmlGraphLifecycleEvent {
    pub sequence: u64,
    pub provider: String,
    pub device: String,
    pub graph_instance: u64,
    pub graph_generation: u64,
    pub kind: GgmlGraphLifecycleEventKind,
}

/// What a trace has shown so far of the native capture of one graph.
pub struct ArtifactCaptureLifecycleState {
    pub capture_supported: Option<bool>,
    pub graph_tracked: Option<bool>,
    pub capture_enabled: Option<bool>,
    pub executable_present: bool,
    pub capture_generation: Option<u64>,
    pub capture_generation_consumed: bool,
    pub capture_before_pending: bool,
    pub capture_before_computes: BTreeSet<u64>,
    pub capture_after_computes: BTreeSet<u64>,
    pub last_capture_phase: Option<GgmlCaptureObservationPhase>,
    pub computed: bool,
    pub active_compute: Option<u64>,
}

/// The capture state of one graph, with the observed computes as sets.
#[verifier::ext_equal]
pub struct CaptureView {
    pub capture_supported: Option<bool>,
    pub graph_tracked: Option<bool>,
    pub capture_enabled: Option<bool>,
    pub executable_present: bool,
    pub capture_generation: Option<u64>,
    pub capture_generation_consumed: bool,
    pub capture_before_pending: bool,
    pub capture_before_computes: Set<u64>,
    pub capture_after_computes: Set<u64>,
    pub last_capture_phase: Option<GgmlCaptureObservationPhase>,
    pub computed: bool,
    pub active_compute: Option<u64>,
}

impl View for ArtifactCaptureLifecycleState {
    type V = CaptureView;

    open spec fn view(&self) -> CaptureView {
        CaptureView {
            capture_supported: self.capture_supported,
            graph_tracked: self.graph_tracked,
            capture_enabled: self.capture_enabled,
            executable_present: self.executable_present,
            capture_generation: self.capture_generation,
            capture_generation_consumed: self.capture_generation_consumed,
            capture_before_pending: self.capture_before_pending,
            capture_before_computes: self.capture_before_computes@,
            capture_after_computes: self.capture_after_computes@,
            last_capture_phase: self.last_capture_phase,
            computed: self.computed,
            active_compute: self.active_compute,
        }
    }
}

/// The capture state of a graph of which nothing was observed yet.
pub open spec fn fresh_capture() -> CaptureView {
    CaptureView {
        capture_supported: None,
        graph_tracked: None,
        capture_enabled: None,
        executable_present: false,
        capture_generation: None,
        capture_generation_consumed: false,
        capture_before_pending: false,
        capture_before_computes: Set::empty(),
        capture_after_computes: Set::empty(),
        last_capture_phase: None,
        computed: false,
        active_compute: None,
    }
}

impl Default for ArtifactCaptureLifecycleState {
    fn default() -> (state: Self)
        ensures
            state@ == fresh_capture(),
    {
        ArtifactCaptureLifecycleState {
            capture_supported: None,
            graph_tracked: None,
            capture_enabled: None,
            executable_present: false,
            capture_generation: None,
            capture_generation_consumed: false,
            capture_before_pending: false,
            capture_before_computes: BTreeSet::new(),
            capture_after_computes: BTreeSet::new(),
            last_capture_phase: None,
            computed: false,
            active_compute: None,
        }
    }
}

/// Why a lifecycle event does not fit the trace before it.
#[derive(Clone, Copy, Debug, PartialEq, Eq, Structural)]
pub enum CaptureError {
    AttachedTwice,
    NotAttached,
    InvalidCaptureState,
    DuplicateBeforeObservation,
    AfterObservationWithoutCompute,
    AfterObservationNotPaired,
    InvalidExecutableObservation,
    InvalidExecutableCreation,
    CaptureGenerationNotConsumed,
    UnmatchedCompletion,
    DroppedDuringCompute,
}

/// The message of a capture error.
pub open spec fn capture_message(error: CaptureError) -> Seq<char> {
    match error {
        CaptureError::AttachedTwice => "runtime trace attaches one graph generation more than once"@,
        CaptureError::NotAttached => "runtime lifecycle event precedes graph attachment"@,
        CaptureError::InvalidCaptureState =>
            "runtime trace contains invalid or drifting native capture state"@,
        CaptureError::DuplicateBeforeObservation =>
            "runtime trace contains a duplicate or in-compute capture-before observation"@,
        CaptureError::AfterObservationWithoutCompute =>
            "runtime capture-after observation has no active compute"@,
        CaptureError::AfterObservationNotPaired =>
            "runtime capture-after observation is not paired with the active compute"@,
        CaptureError::InvalidExecutableObservation =>
            "runtime trace contains an invalid pre-compute capture observation"@,
        CaptureError::InvalidExecutableCreation =>
            "runtime trace contains an invalid capture executable generation"@,
        CaptureError::CaptureGenerationNotConsumed =>
            "runtime compute did not consume a capture generation observed in this trace"@,
        CaptureError::UnmatchedCompletion =>
            "runtime trace contains an unmatched compute completion"@,
        CaptureError::DroppedDuringCompute =>
            "runtime trace drops a graph during an active compute"@,
    }
}

impl CaptureError {
    /// The message shown for the error.
    pub fn message(self) -> (text: String)
        ensures
            text@ == capture_message(self),
    {
        match self {
            CaptureError::AttachedTwice =>
                "runtime trace attaches one graph generation more than once".to_owned(),
            CaptureError::NotAttached =>
                "runtime lifecycle event precedes graph attachment".to_owned(),
            CaptureError::InvalidCaptureState =>
                "runtime trace contains invalid or drifting native capture state".to_owned(),
            CaptureError::DuplicateBeforeObservation =>
                "runtime trace contains a duplicate or in-compute capture-before observation".to_owned(),
            CaptureError::AfterObservationWithoutCompute =>
                "runtime capture-after observation has no active compute".to_owned(),
            CaptureError::AfterObservationNotPaired =>
                "runtime capture-after observation is not paired with the active compute".to_owned(),
            CaptureError::InvalidExecutableObservation =>
                "runtime trace contains an invalid pre-compute capture observation".to_owned(),
            CaptureError::InvalidExecutableCreation =>
                "runtime trace contains an invalid capture executable generation".to_owned(),
            CaptureError::CaptureGenerationNotConsumed =>
                "runtime compute did not consume a capture generation observed in this trace".to_owned(),
            CaptureError::UnmatchedCompletion =>
                "runtime trace contains an unmatched compute completion".to_owned(),
            CaptureError::DroppedDuringCompute =>
                "runtime trace drops a graph during an active compute".to_owned(),
        }
    }
}

/// Whether an observed capture state contradicts itself: a tracked graph needs
/// capture support and a known enablement, an untracked one has no enablement,
/// and an executable needs a tracked graph with capture enabled.
pub open spec fn observation_is_inconsistent(
    capture_supported: bool,
    graph_tracked: bool,
    capture_enabled: Option<bool>,
    executable_present: bool,
) -> bool {
    ||| graph_tracked && (!capture_supported || capture_enabled is None)
    ||| !graph_tracked && capture_enabled is Some
    ||| executable_present && (!graph_tracked || capture_enabled != Some(true))
}

/// Whether an observed capture state takes back what the trace showed before:
/// support may not change, a tracked graph stays tracked with the enablement it
/// had, and an executable stays.
pub open spec fn observation_drifts(
    state: CaptureView,
    capture_supported: bool,
    graph_tracked: bool,
    capture_enabled: Option<bool>,
    executable_present: bool,
) -> bool {
    ||| state.capture_supported is Some && state.capture_supported != Some(capture_supported)
    ||| state.graph_tracked == Some(true) && !graph_tracked
    ||| state.graph_tracked == Some(true) && graph_tracked && state.capture_enabled
        != capture_enabled
    ||| state.executable_present && !executable_present
}

/// Whether capture of the graph is on and an executable exists.
pub open spec fn executable_ready(state: CaptureView) -> bool {
    &&& state.capture_supported == Some(true)
    &&& state.graph_tracked == Some(true)
    &&& state.capture_enabled == Some(true)
    &&& state.executable_present
}

/// The state of an attached graph after an event, or why the event is refused.
pub open spec fn capture_transition(
    state: CaptureView,
    kind: GgmlGraphLifecycleEventKind,
) -> Result<CaptureView, CaptureError> {
    match kind {
        GgmlGraphLifecycleEventKind::CaptureStateObserved {
            phase,
            capture_supported,
            graph_tracked,
            capture_enabled,
            executable_present,
        } => {
            let seen = CaptureView {
                capture_supported: Some(capture_supported),
                graph_tracked: Some(graph_tracked),
                capture_enabled,
                executable_present,
                last_capture_phase: Some(phase),
                ..state
            };
            if observation_is_inconsistent(
                capture_supported,
                graph_tracked,
                capture_enabled,
                executable_present,
            ) || observation_drifts(
                state,
                capture_supported,
                graph_tracked,
                capture_enabled,
                executable_present,
            ) {
                Err(CaptureError::InvalidCaptureState)
            } else {
                match phase {
                    GgmlCaptureObservationPhase::BeforeCompute => if state.active_compute is Some
                        || state.capture_before_pending {
                        Err(CaptureError::DuplicateBeforeObservation)
                    } else {
                        Ok(CaptureView { capture_before_pending: true, ..seen })
                    },
                    GgmlCaptureObservationPhase::AfterCompute => match state.active_compute {
                        None => Err(CaptureError::AfterObservationWithoutCompute),
                        Some(compute) => if !state.capture_before_computes.contains(compute)
                            || state.capture_after_computes.contains(compute) {
                            Err(CaptureError::AfterObservationNotPaired)
                        } else {
                            Ok(
                                CaptureView {
                                    capture_after_computes: state.capture_after_computes.insert(
                                        compute,
                                    ),
                                    ..seen
                                },
                            )
                        },
                    },
                }
            }
        },
        GgmlGraphLifecycleEventKind::CaptureExecutableObserved {
            capture_executable_generation,
        } => if capture_executable_generation == 0 || state.capture_generation is Some
            || state.active_compute is Some || state.last_capture_phase != Some(
            GgmlCaptureObservationPhase::BeforeCompute,
        ) || !executable_ready(state) {
            Err(CaptureError::InvalidExecutableObservation)
        } else {
            Ok(
                CaptureView {
                    capture_generation: Some(capture_executable_generation),
                    ..state
                },
            )
        },
        GgmlGraphLifecycleEventKind::CaptureExecutableCreated {
            capture_executable_generation,
        } => if capture_executable_generation == 0 || (state.capture_generation matches Some(
            previous,
        ) && capture_executable_generation <= previous) || state.active_compute is None
            || state.last_capture_phase != Some(GgmlCaptureObservationPhase::AfterCompute)
            || !executable_ready(state) {
            Err(CaptureError::InvalidExecutableCreation)
        } else {
            Ok(
                CaptureView {
                    capture_generation: Some(capture_executable_generation),
                    ..state
                },
            )
        },
        GgmlGraphLifecycleEventKind::ComputeStarted {
            compute_sequence,
            capture_executable_generation,
        } => if compute_sequence == 0 || state.active_compute is Some || (
        state.capture_supported is Some && !state.capture_before_pending)
            || capture_executable_generation != state.capture_generation {
            Err(CaptureError::CaptureGenerationNotConsumed)
        } else {
            Ok(
                CaptureView {
                    capture_generation_consumed: state.capture_generation_consumed
                        || capture_executable_generation is Some,
                    capture_before_computes: if state.capture_before_pending {
                        state.capture_before_computes.insert(compute_sequence)
                    } else {
                        state.capture_before_computes
                    },
                    capture_before_pending: false,
                    computed: true,
                    active_compute: Some(compute_sequence),
                    ..state
                },
            )
        },
        GgmlGraphLifecycleEventKind::ComputeCompleted { compute_sequence } => if (
        state.active_compute != Some(compute_sequence)) || (state.capture_supported is Some
            && !state.capture_after_computes.contains(compute_sequence)) {
            Err(CaptureError::UnmatchedCompletion)
        } else {
            Ok(CaptureView { active_compute: None, ..state })
        },
        GgmlGraphLifecycleEventKind::Poisoned => Ok(CaptureView { active_compute: None, ..state }),
        GgmlGraphLifecycleEventKind::Dropped => if state.active_compute is Some {
            Err(CaptureError::DroppedDuringCompute)
        } else {
            Ok(state)
        },
        _ => Ok(state),
    }
}

/// Whether an event attaches its graph to the trace.
pub open spec fn attaches(kind: GgmlGraphLifecycleEventKind) -> bool {
    kind is Created || kind is ExistingGraphObserved
}

/// The capture states of all graphs after an event of one of them, or why the
/// event is refused.
pub open spec fn capture_step(
    states: Map<(u64, u64), CaptureView>,
    graph: (u64, u64),
    kind: GgmlGraphLifecycleEventKind,
) -> Result<Map<(u64, u64), CaptureView>, CaptureError> {
    if attaches(kind) {
        if states.contains_key(graph) {
            Err(CaptureError::AttachedTwice)
        } else {
            Ok(states.insert(graph, fresh_capture()))
        }
    } else if !states.contains_key(graph) {
        Err(CaptureError::NotAttached)
    } else {
        match capture_transition(states[graph], kind) {
            Ok(state) => Ok(states.insert(graph, state)),
            Err(error) => Err(error),
        }
    }
}

/// The capture states of the graphs that a table holds.
pub open spec fn captures(
    states: Table<(u64, u64), ArtifactCaptureLifecycleState>,
) -> Map<(u64, u64), CaptureView> {
    states.map().map_values(|state: ArtifactCaptureLifecycleState| state@)
}

/// Applies an observed capture state to an attached graph.
fn observe_capture_state(
    state: &mut ArtifactCaptureLifecycleState,
    phase: GgmlCaptureObservationPhase,
    capture_supported: bool,
    graph_tracked: bool,
    capture_enabled: Option<bool>,
    executable_present: bool,
) -> (result: Result<(), CaptureError>)
    ensures
        match result {
            Ok(_) => capture_transition(
                old(state)@,
                GgmlGraphLifecycleEventKind::CaptureStateObserved {
                    phase,
                    capture_supported,
                    graph_tracked,
                    capture_enabled,
                    executable_present,
                },
            ) == Ok::<CaptureView, CaptureError>(final(state)@),
            Err(error) => {
                &&& final(state)@ == old(state)@
                &&& capture_transition(
                    old(state)@,
                    GgmlGraphLifecycleEventKind::CaptureStateObserved {
                        phase,
                        capture_supported,
                        graph_tracked,
                        capture_enabled,
                        executable_present,
                    },
                ) == Err::<CaptureView, CaptureError>(error)
            },
        },
{
    let support_changed = match state.capture_supported {
        Some(previous) => previous != capture_supported,
        None => false,
    };
    let tracked_before = state.graph_tracked == Some(true);
    if (graph_tracked && (!capture_supported || capture_enabled.is_none())) || (!graph_tracked
        && capture_enabled.is_some()) || (executable_present && (!graph_tracked || capture_enabled
        != Some(true))) || support_changed || (tracked_before && !graph_tracked) || (
    tracked_before && graph_tracked && state.capture_enabled != capture_enabled) || (
    state.executable_present && !executable_present) {
        return Err(CaptureError::InvalidCaptureState);
    }
    match phase {
        GgmlCaptureObservationPhase::BeforeCompute => {
            if state.active_compute.is_some() || state.capture_before_pending {
                return Err(CaptureError::DuplicateBeforeObservation);
            }
            state.capture_before_pending = true;
        },
        GgmlCaptureObservationPhase::AfterCompute => {
            match state.active_compute {
                None => {
                    return Err(CaptureError::AfterObservationWithoutCompute);
                },
                Some(compute) => {
                    if !state.capture_before_computes.contains(&compute)
                        || state.capture_after_computes.contains(&compute) {
                        return Err(CaptureError::AfterObservationNotPaired);
                    }
                    state.capture_after_computes.insert(compute);
                },
            }
        },
    }
    state.capture_supported = Some(capture_supported);
    state.graph_tracked = Some(graph_tracked);
    state.capture_enabled = capture_enabled;
    state.executable_present = executable_present;
    state.last_capture_phase = Some(phase);
    Ok(())
}

/// Applies an event to an attached graph.
pub fn apply_capture_event(
    state: &mut ArtifactCaptureLifecycleState,
    kind: &GgmlGraphLifecycleEventKind,
) -> (result: Result<(), CaptureError>)
    ensures
        match result {
            Ok(_) => capture_transition(old(state)@, *kind) == Ok::<CaptureView, CaptureError>(
                final(state)@,
            ),
            Err(error) => {
                &&& final(state)@ == old(state)@
                &&& capture_transition(old(state)@, *kind) == Err::<CaptureView, CaptureError>(
                    error,
                )
            },
        },
{
    let ready = state.capture_supported == Some(true) && state.graph_tracked == Some(true)
        && state.capture_enabled == Some(true) && state.executable_present;
    match *kind {
        GgmlGraphLifecycleEventKind::CaptureStateObserved {
            phase,
            capture_supported,
            graph_tracked,
            capture_enabled,
            executable_present,
        } => observe_capture_state(
            state,
            phase,
            capture_supported,
            graph_tracked,
            capture_enabled,
            executable_present,
        ),
        GgmlGraphLifecycleEventKind::CaptureExecutableObserved {
            capture_executable_generation,
        } => {
            if capture_executable_generation == 0 || state.capture_generation.is_some()
                || state.active_compute.is_some() || state.last_capture_phase != Some(
                GgmlCaptureObservationPhase::BeforeCompute,
            ) || !ready {
                return Err(CaptureError::InvalidExecutableObservation);
            }
            state.capture_generation = Some(capture_executable_generation);
            Ok(())
        },
        GgmlGraphLifecycleEventKind::CaptureExecutableCreated { capture_executable_generation } => {
            let not_newer = match state.capture_generation {
                Some(previous) => capture_executable_generation <= previous,
                None => false,
            };
            if capture_executable_generation == 0 || not_newer || state.active_compute.is_none()
                || state.last_capture_phase != Some(GgmlCaptureObservationPhase::AfterCompute)
                || !ready {
                return Err(CaptureError::InvalidExecutableCreation);
            }
            state.capture_generation = Some(capture_executable_generation);
            Ok(())
        },
        GgmlGraphLifecycleEventKind::ComputeStarted {
            compute_sequence,
            capture_executable_generation,
        } => {
            if compute_sequence == 0 || state.active_compute.is_some() || (
            state.capture_supported.is_some() && !state.capture_before_pending)
                || capture_executable_generation != state.capture_generation {
                return Err(CaptureError::CaptureGenerationNotConsumed);
            }
            if capture_executable_generation.is_some() {
                state.capture_generation_consumed = true;
            }
            if state.capture_before_pending {
                state.capture_before_computes.insert(compute_sequence);
                state.capture_before_pending = false;
            }
            state.computed = true;
            state.active_compute = Some(compute_sequence);
            Ok(())
        },
        GgmlGraphLifecycleEventKind::ComputeCompleted { compute_sequence } => {
            if state.active_compute != Some(compute_sequence) || (state.capture_supported.is_some()
                && !state.capture_after_computes.contains(&compute_sequence)) {
                return Err(CaptureError::UnmatchedCompletion);
            }
            state.active_compute = None;
            Ok(())
        },
        GgmlGraphLifecycleEventKind::Poisoned => {
            state.active_compute = None;
            Ok(())
        },
        GgmlGraphLifecycleEventKind::Dropped => {
            if state.active_compute.is_some() {
                return Err(CaptureError::DroppedDuringCompute);
            }
            Ok(())
        },
        _ => Ok(()),
    }
}

/// Applies an event to the graph it names. A refused event leaves the table as
/// it was, except that attaching a graph a second time resets its state.
pub fn validate_artifact_capture_lifecycle(
    states: &mut Table<(u64, u64), ArtifactCaptureLifecycleState>,
    event: &GgmlGraphLifecycleEvent,
) -> (result: Result<(), CaptureError>)
    requires
        old(states).wf(),
    ensures
        final(states).wf(),
        match result {
            Ok(_) => capture_step(
                captures(*old(states)),
                (event.graph_instance, event.graph_generation),
                event.kind,
            ) == Ok::<Map<(u64, u64), CaptureView>, CaptureError>(captures(*final(states))),
            Err(error) => {
                &&& capture_step(
                    captures(*old(states)),
                    (event.graph_instance, event.graph_generation),
                    event.kind,
                ) == Err::<Map<(u64, u64), CaptureView>, CaptureError>(error)
                &&& captures(*final(states)) == if attaches(event.kind) {
                    captures(*old(states)).insert(
                        (event.graph_instance, event.graph_generation),
                        fresh_capture(),
                    )
                } else {
                    captures(*old(states))
                }
            },
        },
{
    let key = (event.graph_instance, event.graph_generation);
    let ghost before = captures(*states);
    let attaching = match event.kind {
        GgmlGraphLifecycleEventKind::Created => true,
        GgmlGraphLifecycleEventKind::ExistingGraphObserved => true,
        _ => false,
    };
    if attaching {
        let replaced = states.insert(key, ArtifactCaptureLifecycleState::default());
        assert(captures(*states) =~= before.insert(key, fresh_capture()));
        if replaced {
            return Err(CaptureError::AttachedTwice);
        }
        return Ok(());
    }
    match states.find(&key) {
        None => Err(CaptureError::NotAttached),
        Some(at) => {
            let ghost entries = states.entries@;
            let result = apply_capture_event(&mut states.entries[at].1, &event.kind);
            proof {
                let state = states.entries@[at as int].1;
                assert(states.entries@ =~= entries.update(at as int, (key, state)));
                crate::table::lemma_update(entries, at as int, state);
                assert(captures(*states) =~= before.insert(key, state@));
                if result is Err {
                    assert(before.insert(key, before[key]) =~= before);
                }
            }
            result
        },
    }
}

/// What holds of the capture state of every attached graph: the three
/// observations come together, an executable exists only where capture is
/// supported, tracked and enabled, a pending before-observation is the latest
/// one and no compute runs, and a running compute whose latest observation came
/// after it was observed itself.
pub open spec fn capture_invariant(state: CaptureView) -> bool {
    &&& state.capture_supported is Some <==> state.last_capture_phase is Some
    &&& state.graph_tracked is Some <==> state.last_capture_phase is Some
    &&& state.graph_tracked == Some(true) ==> state.capture_supported == Some(true)
        && state.capture_enabled is Some
    &&& state.executable_present ==> executable_ready(state)
    &&& state.capture_before_pending ==> state.last_capture_phase == Some(
        GgmlCaptureObservationPhase::BeforeCompute,
    ) && state.active_compute is None
    &&& state.active_compute matches Some(compute) ==> {
        &&& compute > 0
        &&& state.computed
        &&& state.last_capture_phase == Some(GgmlCaptureObservationPhase::AfterCompute)
            ==> state.capture_after_computes.contains(compute)
    }
    &&& state.capture_generation matches Some(generation) ==> generation > 0
    &&& state.capture_generation_consumed ==> state.capture_generation is Some && state.computed
    &&& state.capture_after_computes.subset_of(state.capture_before_computes)
}

/// Every graph starts in, and every accepted event keeps, the capture invariant.
pub proof fn law_capture_invariant(
    states: Map<(u64, u64), CaptureView>,
    graph: (u64, u64),
    kind: GgmlGraphLifecycleEventKind,
)
    requires
        forall|key: (u64, u64)| #[trigger]
            states.contains_key(key) ==> capture_invariant(states[key]),
    ensures
        capture_step(states, graph, kind) matches Ok(after) ==> forall|key: (u64, u64)| #[trigger]
            after.contains_key(key) ==> capture_invariant(after[key]),
{
    if states.contains_key(graph) {
        assert(capture_invariant(states[graph]));
    }
}

/// An accepted event touches the graph it names and no other.
pub proof fn law_capture_events_touch_one_graph(
    states: Map<(u64, u64), CaptureView>,
    graph: (u64, u64),
    kind: GgmlGraphLifecycleEventKind,
    other: (u64, u64),
)
    requires
        other != graph,
    ensures
        capture_step(states, graph, kind) matches Ok(after) ==> {
            &&& after.contains_key(other) == states.contains_key(other)
            &&& states.contains_key(other) ==> after[other] == states[other]
            &&& after.contains_key(graph)
        },
{
}

/// What a trace has shown of a graph's capture is never taken back: support
/// stays as it is, a tracked graph stays tracked with the same enablement, an
/// executable stays, a generation is only replaced by a newer one, and observed
/// computes stay observed.
pub proof fn law_capture_never_drifts(state: CaptureView, kind: GgmlGraphLifecycleEventKind)
    ensures
        capture_transition(state, kind) matches Ok(after) ==> {
            &&& state.capture_supported is Some ==> after.capture_supported
                == state.capture_supported
            &&& state.graph_tracked == Some(true) ==> after.graph_tracked == Some(true)
                && after.capture_enabled == state.capture_enabled
            &&& state.executable_present ==> after.executable_present
            &&& state.capture_generation matches Some(generation) ==> (
            after.capture_generation matches Some(newer) && newer >= generation)
            &&& state.capture_generation_consumed ==> after.capture_generation_consumed
            &&& state.capture_before_computes.subset_of(after.capture_before_computes)
            &&& state.capture_after_computes.subset_of(after.capture_after_computes)
            &&& state.computed ==> after.computed
        },
{
}

/// A capture executable is created only while a compute runs that was observed
/// both before and after, and its generation is newer than any before it.
pub proof fn law_executable_creation_needs_post_compute_observation(
    state: CaptureView,
    generation: u64,
)
    requires
        capture_invariant(state),
        capture_transition(
            state,
            GgmlGraphLifecycleEventKind::CaptureExecutableCreated {
                capture_executable_generation: generation,
            },
        ) is Ok,
    ensures
        state.active_compute is Some,
        state.capture_before_computes.contains(state.active_compute->Some_0),
        state.capture_after_computes.contains(state.active_compute->Some_0),
        state.capture_generation matches Some(previous) ==> previous < generation,
{
}

/// A compute of a graph with observed capture state completes only when it was
/// observed before it started and after it ran, and no compute completes twice
/// without starting again.
pub proof fn law_compute_completion_is_paired(state: CaptureView, compute: u64)
    requires
        capture_invariant(state),
    ensures
        capture_transition(
            state,
            GgmlGraphLifecycleEventKind::ComputeCompleted { compute_sequence: compute },
        ) matches Ok(after) ==> {
            &&& state.active_compute == Some(compute)
            &&& state.capture_supported is Some ==> state.capture_before_computes.contains(compute)
                && state.capture_after_computes.contains(compute)
            &&& capture_transition(
                after,
                GgmlGraphLifecycleEventKind::ComputeCompleted { compute_sequence: compute },
            ) is Err
        },
{
}

/// A graph is attached once, before anything else is told of it, and starts with
/// nothing observed; an event touches no graph but its own.
pub proof fn law_a_graph_is_attached_once(
    states: Map<(u64, u64), CaptureView>,
    graph: (u64, u64),
    kind: GgmlGraphLifecycleEventKind,
    other: (u64, u64),
)
    ensures
        kind is Created || kind is ExistingGraphObserved ==> {
            &&& capture_step(states, graph, kind) is Ok <==> !states.contains_key(graph)
            &&& capture_step(states, graph, kind) matches Ok(after) ==> {
                &&& after.contains_key(graph)
                &&& after[graph].capture_supported is None && after[graph].graph_tracked is None
                &&& after[graph].capture_enabled is None && !after[graph].executable_present
                &&& after[graph].capture_generation is None
                &&& !after[graph].capture_generation_consumed
                &&& !after[graph].capture_before_pending
                &&& after[graph].active_compute is None && !after[graph].computed
                &&& after[graph].last_capture_phase is None
                &&& forall|compute: u64|
                    !(#[trigger] after[graph].capture_before_computes.contains(compute))
                &&& forall|compute: u64|
                    !(#[trigger] after[graph].capture_after_computes.contains(compute))
            }
        },
        !(kind is Created) && !(kind is ExistingGraphObserved) && !states.contains_key(graph)
            ==> capture_step(states, graph, kind) == Err::<
            Map<(u64, u64), CaptureView>,
            CaptureError,
        >(CaptureError::NotAttached),
        other != graph ==> (capture_step(states, graph, kind) matches Ok(after) ==> {
            &&& after.contains_key(other) <==> states.contains_key(other)
            &&& after[other] == states[other]
        }),
{
}

/// A compute starts on an attached graph exactly if it has a number, no other compute
/// runs, an observation of this graph stands before it once there has been any, and it
/// consumes the capture generation that was last seen. It then runs, and the observation
/// before it is its own.
pub proof fn law_compute_starts(
    states: Map<(u64, u64), CaptureView>,
    graph: (u64, u64),
    compute: u64,
    generation: Option<u64>,
)
    requires
        states.contains_key(graph),
    ensures
        ({
            let before = states[graph];
            let after = capture_step(
                states,
                graph,
                GgmlGraphLifecycleEventKind::ComputeStarted {
                    compute_sequence: compute,
                    capture_executable_generation: generation,
                },
            );
            &&& after is Ok <==> {
                &&& compute > 0
                &&& before.active_compute is None
                &&& before.capture_supported is Some ==> before.capture_before_pending
                &&& generation == before.capture_generation
            }
            &&& after matches Ok(states) ==> {
                let now = states[graph];
                &&& now.active_compute == Some(compute) && now.computed
                &&& !now.capture_before_pending
                &&& now.capture_generation_consumed == (before.capture_generation_consumed
                    || generation is Some)
                &&& now.capture_before_computes.contains(compute) == (
                before.capture_before_computes.contains(compute) || before.capture_before_pending)
                &&& now.capture_after_computes == before.capture_after_computes
                &&& now.capture_generation == before.capture_generation
                &&& now.capture_supported == before.capture_supported
                &&& now.executable_present == before.executable_present
            }
        }),
{
}

/// A compute completes exactly if it is the one that runs and, once there has been any
/// observation of its graph, it was observed after it. Then none runs.
pub proof fn law_compute_completes(
    states: Map<(u64, u64), CaptureView>,
    graph: (u64, u64),
    compute: u64,
)
    requires
        states.contains_key(graph),
    ensures
        ({
            let before = states[graph];
            let after = capture_step(
                states,
                graph,
                GgmlGraphLifecycleEventKind::ComputeCompleted { compute_sequence: compute },
            );
            &&& after is Ok <==> {
                &&& before.active_compute == Some(compute)
                &&& before.capture_supported is Some ==> before.capture_after_computes.contains(
                    compute,
                )
            }
            &&& after matches Ok(states) ==> states[graph].active_compute is None
                && states[graph].computed == before.computed && states[graph].capture_generation
                == before.capture_generation
        }),
{
}

/// An observation is accepted exactly if it does not contradict itself, takes back
/// nothing that was seen before, and stands where it says: one before a compute while
/// none runs and none waits, one after it while a compute runs that was observed before
/// and not yet after. What was observed is then the state of the graph.
pub proof fn law_observation_is_accepted(
    states: Map<(u64, u64), CaptureView>,
    graph: (u64, u64),
    phase: GgmlCaptureObservationPhase,
    supported: bool,
    followed: bool,
    enabled: Option<bool>,
    present: bool,
)
    requires
        states.contains_key(graph),
    ensures
        ({
            let before = states[graph];
            let after = capture_step(
                states,
                graph,
                GgmlGraphLifecycleEventKind::CaptureStateObserved {
                    phase,
                    capture_supported: supported,
                    graph_tracked: followed,
                    capture_enabled: enabled,
                    executable_present: present,
                },
            );
            &&& after is Ok <==> {
                &&& followed ==> supported && enabled is Some
                &&& enabled is Some ==> followed
                &&& present ==> followed && enabled == Some(true)
                &&& before.capture_supported matches Some(was) ==> was == supported
                &&& before.graph_tracked == Some(true) ==> followed && before.capture_enabled
                    == enabled
                &&& before.executable_present ==> present
                &&& phase is BeforeCompute ==> before.active_compute is None
                    && !before.capture_before_pending
                &&& phase is AfterCompute ==> before.active_compute is Some
                    && before.capture_before_computes.contains(before.active_compute->Some_0)
                    && !before.capture_after_computes.contains(before.active_compute->Some_0)
            }
            &&& after matches Ok(states) ==> {
                let now = states[graph];
                &&& now.capture_supported == Some(supported)
                &&& now.graph_tracked == Some(followed)
                &&& now.capture_enabled == enabled
                &&& now.executable_present == present
                &&& now.last_capture_phase == Some(phase)
                &&& now.capture_before_pending == (phase is BeforeCompute
                    || before.capture_before_pending)
                &&& phase is AfterCompute ==> now.capture_after_computes.contains(
                    before.active_compute->Some_0,
                )
                &&& now.active_compute == before.active_compute
                &&& now.capture_generation == before.capture_generation
                &&& now.computed == before.computed
            }
        }),
{
}

/// An executable is observed exactly before the first compute that may use it, and
/// created exactly after a compute that was observed, with a generation above the last;
/// both only where capture is supported, the graph tracked, capture enabled and an
/// executable present.
pub proof fn law_executable_is_accepted(
    states: Map<(u64, u64), CaptureView>,
    graph: (u64, u64),
    generation: u64,
)
    requires
        states.contains_key(graph),
    ensures
        ({
            let before = states[graph];
            let ready = before.capture_supported == Some(true) && before.graph_tracked == Some(
                true,
            ) && before.capture_enabled == Some(true) && before.executable_present;
            let observed = capture_step(
                states,
                graph,
                GgmlGraphLifecycleEventKind::CaptureExecutableObserved {
                    capture_executable_generation: generation,
                },
            );
            let created = capture_step(
                states,
                graph,
                GgmlGraphLifecycleEventKind::CaptureExecutableCreated {
                    capture_executable_generation: generation,
                },
            );
            &&& observed is Ok <==> {
                &&& generation > 0 && ready
                &&& before.capture_generation is None
                &&& before.active_compute is None
                &&& before.last_capture_phase == Some(GgmlCaptureObservationPhase::BeforeCompute)
            }
            &&& created is Ok <==> {
                &&& generation > 0 && ready
                &&& before.capture_generation matches Some(last) ==> generation > last
                &&& before.active_compute is Some
                &&& before.last_capture_phase == Some(GgmlCaptureObservationPhase::AfterCompute)
            }
            &&& observed matches Ok(after) ==> after[graph].capture_generation == Some(generation)
                && after[graph].active_compute == before.active_compute
            &&& created matches Ok(after) ==> after[graph].capture_generation == Some(generation)
                && after[graph].active_compute == before.active_compute
        }),
{
}

/// A poisoned graph runs nothing; a graph is dropped only while it runs nothing; every
/// other event of an attached graph leaves its capture state as it was.
pub proof fn law_other_events_change_no_capture(
    states: Map<(u64, u64), CaptureView>,
    graph: (u64, u64),
    kind: GgmlGraphLifecycleEventKind,
)
    requires
        states.contains_key(graph),
    ensures
        kind is Poisoned ==> (capture_step(states, graph, kind) matches Ok(after)
            && after[graph].active_compute is None && after[graph].computed
            == states[graph].computed),
        kind is Dropped ==> (capture_step(states, graph, kind) is Ok <==> states[graph].active_compute is None),
        kind is Dropped || kind is Prepared || kind is InputWrite || kind is OutputRead
            || kind is KvWriteCommitted || kind is Rebuilt ==> (
        capture_step(states, graph, kind) matches Ok(after) ==> after[graph] == states[graph]),
        kind is Prepared || kind is InputWrite || kind is OutputRead || kind is KvWriteCommitted
            || kind is Rebuilt ==> capture_step(
            states,
            graph,
            kind,
        ) is Ok,
{
}

} // verus!
