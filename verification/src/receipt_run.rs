//! The course of a short-audio receipt: what is checked, run and written in which
//! order, from the request to the file.

use vstd::prelude::*;

use crate::backend::BackendKind;
use crate::receipt;
use crate::receipt::{
    check_native_pack, check_native_trace, check_outputs_are_new, check_receipt_request,
    check_single_slice, fixed_receipt_trace_and_logits_targets, normalize_device_label,
    parse_receipt_device, total_passes, validate_observed_accelerator_placement,
    NativeTraceSnapshot, PlacementError, ReceiptError, ShortAudioReceiptOptions,
};
use crate::text;

verus! {

/// What a receipt run does next, and at last how it ended.
#[derive(Clone, Copy, Debug, PartialEq, Eq, Structural)]
pub enum ReceiptStep {
    /// See whether the audio path names a file.
    CheckRequest,
    /// Make the directory of the receipt.
    MakeDirectory,
    /// Resolve the places of the receipt, the trace and the logits.
    FixTargets,
    /// See whether the trace or the logits are there already.
    CheckNew,
    /// Read the settings.
    LoadConfig,
    /// Choose the model and its pack.
    Prepare,
    /// Bind the bytes of the pack.
    BindPack,
    /// Hash the audio.
    HashAudio,
    /// Decode the audio.
    PrepareAudio,
    /// Find out the commit that was built.
    ResolveCommit,
    /// Transcribe the audio, so many passes after the first.
    Pass { at: usize },
    /// See on which backends the nodes ran.
    CheckPlacement,
    /// Project the decode diagnostics.
    Diagnose,
    /// Look at what the run recorded of its trace.
    CheckTrace,
    /// Write the logits.
    WriteLogits,
    /// Write the trace.
    WriteTrace,
    /// Put the receipt together.
    Construct,
    /// Write the receipt.
    WriteReceipt,
    /// The end of a run that hands its receipt back.
    Collected,
    /// The end of a run that wrote its receipt.
    Written,
}

/// What happened in the step that a run was at.
#[allow(inconsistent_fields)]
pub enum ReceiptEvent {
    /// The step was done.
    Done,
    /// The step failed.
    Failed,
    /// Whether the audio path names a file.
    Request { audio_is_file: bool },
    /// The places of the receipt, the trace and the logits.
    Targets { receipt: String, trace: String, logits: Option<String> },
    /// Whether the trace and the logits are there already.
    Existing { trace: bool, logits: bool },
    /// The model was chosen, with its pack if it has one.
    Prepared { has_pack: bool },
    /// A pass was made, in so many slices if it was cut.
    Passed { chunk_count: Option<usize> },
    /// How many nodes ran on each backend.
    Placed { nodes: Vec<(String, u64)> },
    /// What the last timed pass recorded of its trace, if it did.
    Recorded(Option<NativeTraceSnapshot>),
}

/// Why a receipt run stops.
pub enum ReceiptRunError {
    /// A check refused.
    Refused(ReceiptError),
    /// The nodes did not run where the receipt says.
    Misplaced(PlacementError),
    /// A step failed.
    Failed,
    /// The event does not belong to the step.
    OutOfStep,
}

/// Where a receipt run stands, or why it stopped: a refusal by its message, and a
/// misplacement by the nodes that ran elsewhere.
pub enum ReceiptOutcome {
    Go(ReceiptStep),
    Refused(Seq<char>),
    NoMetalNodes,
    Fallback(Seq<(Seq<char>, u64)>),
    Failed,
    OutOfStep,
}

/// Where a result says that a run stands.
pub open spec fn outcome_of(result: Result<ReceiptStep, ReceiptRunError>) -> ReceiptOutcome {
    match result {
        Ok(step) => ReceiptOutcome::Go(step),
        Err(ReceiptRunError::Refused(error)) => ReceiptOutcome::Refused(
            receipt::receipt_message(error),
        ),
        Err(ReceiptRunError::Misplaced(PlacementError::NoMetalNodes)) => {
            ReceiptOutcome::NoMetalNodes
        },
        Err(ReceiptRunError::Misplaced(PlacementError::Fallback(entries))) => {
            ReceiptOutcome::Fallback(receipt::counts_view(entries@))
        },
        Err(ReceiptRunError::Failed) => ReceiptOutcome::Failed,
        Err(ReceiptRunError::OutOfStep) => ReceiptOutcome::OutOfStep,
    }
}

/// The number of passes of a run.
pub open spec fn passes(options: ShortAudioReceiptOptions) -> nat {
    if options.warmup_runs + options.runs <= usize::MAX {
        (options.warmup_runs + options.runs) as nat
    } else {
        usize::MAX as nat
    }
}

/// What follows the passes: a native run is held to the backends it ran on.
pub open spec fn after_passes(options: ShortAudioReceiptOptions) -> ReceiptStep {
    if options.backend_kind == BackendKind::Native {
        ReceiptStep::CheckPlacement
    } else {
        ReceiptStep::Diagnose
    }
}

/// Where a run goes on if nothing refuses, and where it stops if something does.
pub open spec fn go_unless(refusal: Option<ReceiptError>, step: ReceiptStep) -> ReceiptOutcome {
    match refusal {
        Some(error) => ReceiptOutcome::Refused(receipt::receipt_message(error)),
        None => ReceiptOutcome::Go(step),
    }
}

/// Whether two of the places of a run are the same.
pub open spec fn target_fault(
    receipt_at: Seq<char>,
    trace_at: Seq<char>,
    logits_at: Option<Seq<char>>,
) -> Option<ReceiptError> {
    if receipt_at == trace_at {
        Some(ReceiptError::ReceiptAndTraceCollide)
    } else if logits_at == Some(receipt_at) || logits_at == Some(trace_at) {
        Some(ReceiptError::LogitsCollide)
    } else {
        None
    }
}

/// Where a run goes after its nodes were seen to run.
pub open spec fn placement_outcome(
    device: Seq<char>,
    counts: Seq<(Seq<char>, u64)>,
) -> ReceiptOutcome {
    if text::lowered(device) != text::lowered("metal"@) {
        ReceiptOutcome::Go(ReceiptStep::Diagnose)
    } else if !receipt::ran_on_metal(counts) {
        ReceiptOutcome::NoMetalNodes
    } else if receipt::outside_metal(counts, counts.len()).len() > 0 {
        ReceiptOutcome::Fallback(receipt::outside_metal(counts, counts.len()))
    } else {
        ReceiptOutcome::Go(ReceiptStep::Diagnose)
    }
}

/// Where a run goes after its trace was looked at: the logits are written before the
/// trace, and neither if there is nothing to publish or it may not be published.
pub open spec fn trace_outcome(
    snapshot: Option<NativeTraceSnapshot>,
    wants_logits: bool,
    max_steps: nat,
    max_vocab: nat,
) -> ReceiptOutcome {
    match snapshot {
        None => ReceiptOutcome::Go(ReceiptStep::Construct),
        Some(recorded) => match receipt::publication(recorded, wants_logits, max_steps, max_vocab) {
            Err(error) => ReceiptOutcome::Refused(receipt::receipt_message(error)),
            Ok(_) => ReceiptOutcome::Go(
                if wants_logits {
                    ReceiptStep::WriteLogits
                } else {
                    ReceiptStep::WriteTrace
                },
            ),
        },
    }
}

/// The step that follows one that has only to be done; none if the step asks for
/// more than that.
pub open spec fn plain_next(step: ReceiptStep, options: ShortAudioReceiptOptions) -> Option<
    ReceiptStep,
> {
    match step {
        ReceiptStep::MakeDirectory => Some(ReceiptStep::FixTargets),
        ReceiptStep::BindPack => Some(ReceiptStep::HashAudio),
        ReceiptStep::HashAudio => Some(ReceiptStep::PrepareAudio),
        ReceiptStep::PrepareAudio => Some(ReceiptStep::ResolveCommit),
        ReceiptStep::ResolveCommit => Some(ReceiptStep::Pass { at: 0 }),
        ReceiptStep::Diagnose => Some(
            if options.trace_out is Some {
                ReceiptStep::CheckTrace
            } else {
                ReceiptStep::Construct
            },
        ),
        ReceiptStep::WriteLogits => Some(ReceiptStep::WriteTrace),
        ReceiptStep::WriteTrace => Some(ReceiptStep::Construct),
        ReceiptStep::Construct => Some(
            if options.write_outputs {
                ReceiptStep::WriteReceipt
            } else {
                ReceiptStep::Collected
            },
        ),
        ReceiptStep::WriteReceipt => Some(ReceiptStep::Written),
        _ => None,
    }
}

/// Whether a run has ended.
pub open spec fn ended(step: ReceiptStep) -> bool {
    step == ReceiptStep::Collected || step == ReceiptStep::Written
}

/// Where a run stands after an event.
pub open spec fn next_receipt_step(
    step: ReceiptStep,
    event: ReceiptEvent,
    options: ShortAudioReceiptOptions,
    max_steps: nat,
    max_vocab: nat,
) -> ReceiptOutcome {
    let traces = options.trace_out is Some;
    match event {
        ReceiptEvent::Failed => if ended(step) {
            ReceiptOutcome::OutOfStep
        } else {
            ReceiptOutcome::Failed
        },
        ReceiptEvent::Done => if step == ReceiptStep::LoadConfig {
            match receipt::device_target(text::lowered(text::trimmed(options.device@))) {
                Some(_) => ReceiptOutcome::Go(ReceiptStep::Prepare),
                None => ReceiptOutcome::Refused(
                    receipt::unsupported_device(text::lowered(text::trimmed(options.device@))),
                ),
            }
        } else {
            match plain_next(step, options) {
                Some(next) => ReceiptOutcome::Go(next),
                None => ReceiptOutcome::OutOfStep,
            }
        },
        ReceiptEvent::Request { audio_is_file } => if step == ReceiptStep::CheckRequest {
            match receipt::request_fault(options, audio_is_file) {
                Some(message) => ReceiptOutcome::Refused(message),
                None => ReceiptOutcome::Go(
                    if traces {
                        ReceiptStep::MakeDirectory
                    } else {
                        ReceiptStep::LoadConfig
                    },
                ),
            }
        } else {
            ReceiptOutcome::OutOfStep
        },
        ReceiptEvent::Targets { receipt: receipt_at, trace: trace_at, logits: logits_at } => {
            if step == ReceiptStep::FixTargets {
                go_unless(
                    target_fault(receipt_at@, trace_at@, text::opt_string(logits_at)),
                    ReceiptStep::CheckNew,
                )
            } else {
                ReceiptOutcome::OutOfStep
            }
        },
        ReceiptEvent::Existing { trace, logits } => if step == ReceiptStep::CheckNew {
            go_unless(
                if trace {
                    Some(ReceiptError::TraceExists)
                } else if logits {
                    Some(ReceiptError::LogitsExist)
                } else {
                    None
                },
                ReceiptStep::LoadConfig,
            )
        } else {
            ReceiptOutcome::OutOfStep
        },
        ReceiptEvent::Prepared { has_pack } => if step == ReceiptStep::Prepare {
            go_unless(
                if options.backend_kind == BackendKind::Native && !has_pack {
                    Some(ReceiptError::NativeNeedsPack)
                } else {
                    None
                },
                ReceiptStep::BindPack,
            )
        } else {
            ReceiptOutcome::OutOfStep
        },
        ReceiptEvent::Passed { chunk_count } => match step {
            ReceiptStep::Pass { at } => go_unless(
                if traces && (chunk_count matches Some(count) && count > 1) {
                    Some(ReceiptError::TraceHasSlices)
                } else {
                    None
                },
                if at + 1 < passes(options) {
                    ReceiptStep::Pass { at: (at + 1) as usize }
                } else {
                    after_passes(options)
                },
            ),
            _ => ReceiptOutcome::OutOfStep,
        },
        ReceiptEvent::Placed { nodes } => if step == ReceiptStep::CheckPlacement {
            placement_outcome(
                text::lowered(text::trimmed(options.device@)),
                receipt::counts_view(nodes@),
            )
        } else {
            ReceiptOutcome::OutOfStep
        },
        ReceiptEvent::Recorded(snapshot) => if step == ReceiptStep::CheckTrace {
            trace_outcome(snapshot, options.logits_out is Some, max_steps, max_vocab)
        } else {
            ReceiptOutcome::OutOfStep
        },
    }
}

fn go_on(
    step: ReceiptStep,
    options: &ShortAudioReceiptOptions,
) -> (result: Result<ReceiptStep, ReceiptRunError>)
    ensures
        outcome_of(result) == (match plain_next(step, *options) {
            Some(next) => ReceiptOutcome::Go(next),
            None => ReceiptOutcome::OutOfStep,
        }),
{
    match step {
        ReceiptStep::MakeDirectory => Ok(ReceiptStep::FixTargets),
        ReceiptStep::BindPack => Ok(ReceiptStep::HashAudio),
        ReceiptStep::HashAudio => Ok(ReceiptStep::PrepareAudio),
        ReceiptStep::PrepareAudio => Ok(ReceiptStep::ResolveCommit),
        ReceiptStep::ResolveCommit => Ok(ReceiptStep::Pass { at: 0 }),
        ReceiptStep::Diagnose => if options.trace_out.is_some() {
            Ok(ReceiptStep::CheckTrace)
        } else {
            Ok(ReceiptStep::Construct)
        },
        ReceiptStep::WriteLogits => Ok(ReceiptStep::WriteTrace),
        ReceiptStep::WriteTrace => Ok(ReceiptStep::Construct),
        ReceiptStep::Construct => if options.write_outputs {
            Ok(ReceiptStep::WriteReceipt)
        } else {
            Ok(ReceiptStep::Collected)
        },
        ReceiptStep::WriteReceipt => Ok(ReceiptStep::Written),
        _ => Err(ReceiptRunError::OutOfStep),
    }
}

fn go_if(
    checked: Result<(), ReceiptError>,
    step: ReceiptStep,
) -> (result: Result<ReceiptStep, ReceiptRunError>)
    ensures
        outcome_of(result) == (match checked {
            Ok(_) => ReceiptOutcome::Go(step),
            Err(error) => ReceiptOutcome::Refused(receipt::receipt_message(error)),
        }),
{
    match checked {
        Ok(_) => Ok(step),
        Err(error) => Err(ReceiptRunError::Refused(error)),
    }
}

/// Decides where a receipt run goes after an event.
pub fn bench_receipt_short_audio(
    step: ReceiptStep,
    event: &ReceiptEvent,
    options: &ShortAudioReceiptOptions,
    max_steps: usize,
    max_vocab: usize,
) -> (result: Result<ReceiptStep, ReceiptRunError>)
    requires
        *event matches ReceiptEvent::Recorded(Some(snapshot)) ==> snapshot.line_facts@.len()
            == text::lines_of(snapshot.jsonl@).len(),
    ensures
        outcome_of(result) == next_receipt_step(
            step,
            *event,
            *options,
            max_steps as nat,
            max_vocab as nat,
        ),
{
    let traces = options.trace_out.is_some();
    match event {
        ReceiptEvent::Failed => if step == ReceiptStep::Collected || step == ReceiptStep::Written {
            Err(ReceiptRunError::OutOfStep)
        } else {
            Err(ReceiptRunError::Failed)
        },
        ReceiptEvent::Done => if step == ReceiptStep::LoadConfig {
            match parse_receipt_device(options.device.as_str()) {
                Ok(_) => Ok(ReceiptStep::Prepare),
                Err(error) => Err(ReceiptRunError::Refused(error)),
            }
        } else {
            go_on(step, options)
        },
        ReceiptEvent::Request { audio_is_file } => if step == ReceiptStep::CheckRequest {
            go_if(
                check_receipt_request(options, *audio_is_file),
                if traces {
                    ReceiptStep::MakeDirectory
                } else {
                    ReceiptStep::LoadConfig
                },
            )
        } else {
            Err(ReceiptRunError::OutOfStep)
        },
        ReceiptEvent::Targets { receipt: receipt_at, trace: trace_at, logits: logits_at } => {
            if step == ReceiptStep::FixTargets {
                let logits_at = match logits_at {
                    Some(place) => Some(place.as_str()),
                    None => None,
                };
                go_if(
                    fixed_receipt_trace_and_logits_targets(
                        receipt_at.as_str(),
                        trace_at.as_str(),
                        logits_at,
                    ),
                    ReceiptStep::CheckNew,
                )
            } else {
                Err(ReceiptRunError::OutOfStep)
            }
        },
        ReceiptEvent::Existing { trace, logits } => if step == ReceiptStep::CheckNew {
            go_if(check_outputs_are_new(*trace, *logits), ReceiptStep::LoadConfig)
        } else {
            Err(ReceiptRunError::OutOfStep)
        },
        ReceiptEvent::Prepared { has_pack } => if step == ReceiptStep::Prepare {
            go_if(check_native_pack(options.backend_kind, *has_pack), ReceiptStep::BindPack)
        } else {
            Err(ReceiptRunError::OutOfStep)
        },
        ReceiptEvent::Passed { chunk_count } => match step {
            ReceiptStep::Pass { at } => {
                let total: usize = total_passes(options.warmup_runs, options.runs);
                let next = if total > 0 && at < total - 1 {
                    ReceiptStep::Pass { at: at + 1 }
                } else if options.backend_kind == BackendKind::Native {
                    ReceiptStep::CheckPlacement
                } else {
                    ReceiptStep::Diagnose
                };
                go_if(check_single_slice(traces, *chunk_count), next)
            },
            _ => Err(ReceiptRunError::OutOfStep),
        },
        ReceiptEvent::Placed { nodes } => if step == ReceiptStep::CheckPlacement {
            let device = normalize_device_label(options.device.as_str());
            match validate_observed_accelerator_placement(device.as_str(), nodes) {
                Ok(_) => Ok(ReceiptStep::Diagnose),
                Err(error) => Err(ReceiptRunError::Misplaced(error)),
            }
        } else {
            Err(ReceiptRunError::OutOfStep)
        },
        ReceiptEvent::Recorded(snapshot) => if step == ReceiptStep::CheckTrace {
            match snapshot {
                None => Ok(ReceiptStep::Construct),
                Some(recorded) => {
                    let wants_logits = options.logits_out.is_some();
                    go_if(
                        check_native_trace(recorded, wants_logits, max_steps, max_vocab),
                        if wants_logits {
                            ReceiptStep::WriteLogits
                        } else {
                            ReceiptStep::WriteTrace
                        },
                    )
                },
            }
        } else {
            Err(ReceiptRunError::OutOfStep)
        },
    }
}

/// Where a run stands after its events, in order.
pub open spec fn run_after(
    events: Seq<ReceiptEvent>,
    options: ShortAudioReceiptOptions,
    max_steps: nat,
    max_vocab: nat,
) -> ReceiptOutcome
    decreases events.len(),
{
    if events.len() == 0 {
        ReceiptOutcome::Go(ReceiptStep::CheckRequest)
    } else {
        match run_after(events.drop_last(), options, max_steps, max_vocab) {
            ReceiptOutcome::Go(step) => next_receipt_step(
                step,
                events.last(),
                options,
                max_steps,
                max_vocab,
            ),
            stopped => stopped,
        }
    }
}

/// How many events a run can still take at most, from a step on.
pub open spec fn steps_left(step: ReceiptStep, options: ShortAudioReceiptOptions) -> nat {
    let total = passes(options);
    match step {
        ReceiptStep::Collected => 0,
        ReceiptStep::Written => 0,
        ReceiptStep::WriteReceipt => 1,
        ReceiptStep::Construct => 2,
        ReceiptStep::WriteTrace => 3,
        ReceiptStep::WriteLogits => 4,
        ReceiptStep::CheckTrace => 5,
        ReceiptStep::Diagnose => 6,
        ReceiptStep::CheckPlacement => 7,
        ReceiptStep::Pass { at } => if at < total {
            (8 + total - at) as nat
        } else {
            8
        },
        ReceiptStep::ResolveCommit => 9 + total,
        ReceiptStep::PrepareAudio => 10 + total,
        ReceiptStep::HashAudio => 11 + total,
        ReceiptStep::BindPack => 12 + total,
        ReceiptStep::Prepare => 13 + total,
        ReceiptStep::LoadConfig => 14 + total,
        ReceiptStep::CheckNew => 15 + total,
        ReceiptStep::FixTargets => 16 + total,
        ReceiptStep::MakeDirectory => 17 + total,
        ReceiptStep::CheckRequest => 18 + total,
    }
}

/// A receipt run comes to an end: it goes forward with every event, and takes at most
/// a fixed number of them beside its passes.
pub proof fn law_receipt_run_ends(
    events: Seq<ReceiptEvent>,
    options: ShortAudioReceiptOptions,
    max_steps: nat,
    max_vocab: nat,
)
    ensures
        run_after(events, options, max_steps, max_vocab) matches ReceiptOutcome::Go(step)
            ==> events.len() + steps_left(step, options) <= 18 + passes(options),
    decreases events.len(),
{
    if events.len() > 0 {
        law_receipt_run_ends(events.drop_last(), options, max_steps, max_vocab);
    }
}

/// Whether an event shows that a trace may be published.
pub open spec fn allows_publication(
    event: ReceiptEvent,
    options: ShortAudioReceiptOptions,
    max_steps: nat,
    max_vocab: nat,
) -> bool {
    event matches ReceiptEvent::Recorded(Some(snapshot)) && receipt::publication(
        snapshot,
        options.logits_out is Some,
        max_steps,
        max_vocab,
    ) is Ok
}

/// A trace and its logits are written only after the run's record of them was found
/// fit to publish.
pub proof fn law_traces_are_checked_before_they_are_written(
    events: Seq<ReceiptEvent>,
    options: ShortAudioReceiptOptions,
    max_steps: nat,
    max_vocab: nat,
)
    requires
        run_after(events, options, max_steps, max_vocab) == ReceiptOutcome::Go(
            ReceiptStep::WriteLogits,
        ) || run_after(events, options, max_steps, max_vocab) == ReceiptOutcome::Go(
            ReceiptStep::WriteTrace,
        ),
    ensures
        exists|i: int|
            0 <= i < events.len() && allows_publication(
                #[trigger] events[i],
                options,
                max_steps,
                max_vocab,
            ),
    decreases events.len(),
{
    let before = events.drop_last();
    if run_after(before, options, max_steps, max_vocab) == ReceiptOutcome::Go(
        ReceiptStep::WriteLogits,
    ) {
        law_traces_are_checked_before_they_are_written(before, options, max_steps, max_vocab);
        let i = choose|i: int|
            0 <= i < before.len() && allows_publication(
                #[trigger] before[i],
                options,
                max_steps,
                max_vocab,
            );
        assert(events[i] == before[i]);
    } else {
        assert(allows_publication(events[events.len() - 1], options, max_steps, max_vocab));
    }
}

/// A run with a trace gets to its settings, and to anything after them, only if neither
/// the trace nor the logits were there already.
pub proof fn law_traced_run_replaces_no_file(
    events: Seq<ReceiptEvent>,
    options: ShortAudioReceiptOptions,
    max_steps: nat,
    max_vocab: nat,
)
    requires
        options.trace_out is Some,
        run_after(events, options, max_steps, max_vocab) matches ReceiptOutcome::Go(step)
            && steps_left(step, options) <= 14 + passes(options),
    ensures
        events.contains(ReceiptEvent::Existing { trace: false, logits: false }),
    decreases events.len(),
{
    let before = events.drop_last();
    let looked = ReceiptEvent::Existing { trace: false, logits: false };
    assert(events.len() > 0);
    match run_after(before, options, max_steps, max_vocab) {
        ReceiptOutcome::Go(earlier) => {
            if steps_left(earlier, options) <= 14 + passes(options) {
                law_traced_run_replaces_no_file(before, options, max_steps, max_vocab);
                let i = choose|i: int| 0 <= i < before.len() && before[i] == looked;
                assert(events[i] == looked);
            } else {
                assert(events[events.len() - 1] == looked);
            }
        },
        _ => {},
    }
}

/// A request that is refused at the start runs nothing, whatever is reported after.
pub proof fn law_refused_request_runs_nothing(
    events: Seq<ReceiptEvent>,
    audio_is_file: bool,
    options: ShortAudioReceiptOptions,
    max_steps: nat,
    max_vocab: nat,
)
    requires
        events.len() > 0,
        events[0] == (ReceiptEvent::Request { audio_is_file }),
        receipt::request_fault(options, audio_is_file) is Some,
    ensures
        run_after(events, options, max_steps, max_vocab) == ReceiptOutcome::Refused(
            receipt::request_fault(options, audio_is_file)->0,
        ),
    decreases events.len(),
{
    if events.len() > 1 {
        law_refused_request_runs_nothing(
            events.drop_last(),
            audio_is_file,
            options,
            max_steps,
            max_vocab,
        );
    } else {
        assert(run_after(events.drop_last(), options, max_steps, max_vocab) == ReceiptOutcome::Go(
            ReceiptStep::CheckRequest,
        ));
    }
}

/// A run makes as many passes as there are warm-up runs and timed runs together, and then
/// a native one is held to where its nodes ran.
pub proof fn law_every_pass_is_made(
    options: ShortAudioReceiptOptions,
    at: usize,
    max_steps: nat,
    max_vocab: nat,
)
    requires
        options.warmup_runs + options.runs <= usize::MAX,
        at < options.warmup_runs + options.runs,
    ensures
        next_receipt_step(
            ReceiptStep::Pass { at },
            ReceiptEvent::Passed { chunk_count: None },
            options,
            max_steps,
            max_vocab,
        ) == ReceiptOutcome::Go(
            if at + 1 < options.warmup_runs + options.runs {
                ReceiptStep::Pass { at: (at + 1) as usize }
            } else if options.backend_kind == BackendKind::Native {
                ReceiptStep::CheckPlacement
            } else {
                ReceiptStep::Diagnose
            },
        ),
        passes(options) == options.warmup_runs + options.runs,
{
}

/// A run whose steps are all done goes through them in order: to its settings, its model
/// and its pack, the audio, the commit and the first pass; and after the last to the
/// diagnostics, the trace where one was asked for, and the receipt, which it writes or
/// hands back as it was asked.
pub proof fn law_run_goes_through_its_steps(
    options: ShortAudioReceiptOptions,
    max_steps: nat,
    max_vocab: nat,
)
    ensures
        ({
            let done = |step: ReceiptStep|
                next_receipt_step(step, ReceiptEvent::Done, options, max_steps, max_vocab);
            &&& done(ReceiptStep::MakeDirectory) == ReceiptOutcome::Go(ReceiptStep::FixTargets)
            &&& done(ReceiptStep::BindPack) == ReceiptOutcome::Go(ReceiptStep::HashAudio)
            &&& done(ReceiptStep::HashAudio) == ReceiptOutcome::Go(ReceiptStep::PrepareAudio)
            &&& done(ReceiptStep::PrepareAudio) == ReceiptOutcome::Go(ReceiptStep::ResolveCommit)
            &&& done(ReceiptStep::ResolveCommit) == ReceiptOutcome::Go(ReceiptStep::Pass { at: 0 })
            &&& options.trace_out is Some ==> done(ReceiptStep::Diagnose) == ReceiptOutcome::Go(
                ReceiptStep::CheckTrace,
            )
            &&& options.trace_out is None ==> done(ReceiptStep::Diagnose) == ReceiptOutcome::Go(
                ReceiptStep::Construct,
            )
            &&& done(ReceiptStep::WriteLogits) == ReceiptOutcome::Go(ReceiptStep::WriteTrace)
            &&& done(ReceiptStep::WriteTrace) == ReceiptOutcome::Go(ReceiptStep::Construct)
            &&& options.write_outputs ==> done(ReceiptStep::Construct) == ReceiptOutcome::Go(
                ReceiptStep::WriteReceipt,
            )
            &&& !options.write_outputs ==> done(ReceiptStep::Construct) == ReceiptOutcome::Go(
                ReceiptStep::Collected,
            )
            &&& done(ReceiptStep::WriteReceipt) == ReceiptOutcome::Go(ReceiptStep::Written)
            &&& receipt::device_target(text::lowered(text::trimmed(options.device@))) is Some
                ==> done(ReceiptStep::LoadConfig) == ReceiptOutcome::Go(ReceiptStep::Prepare)
            &&& receipt::device_target(text::lowered(text::trimmed(options.device@))) is None
                ==> done(ReceiptStep::LoadConfig) is Refused
        }),
{
}

/// A request that is accepted goes on, by way of the places of the trace where one was
/// asked for: these must be different and hold nothing yet. A native run must have a pack,
/// and a traced pass may not be cut.
pub proof fn law_run_is_checked_on_its_way(
    options: ShortAudioReceiptOptions,
    audio_is_file: bool,
    receipt_at: String,
    trace_at: String,
    logits_at: Option<String>,
    trace_is_there: bool,
    logits_are_there: bool,
    has_pack: bool,
    at: usize,
    slices: Option<usize>,
    max_steps: nat,
    max_vocab: nat,
)
    ensures
        ({
            let after = |step: ReceiptStep, event: ReceiptEvent|
                next_receipt_step(step, event, options, max_steps, max_vocab);
            &&& after(ReceiptStep::CheckRequest, ReceiptEvent::Request { audio_is_file }) is Go
                <==> receipt::request_fault(options, audio_is_file) is None
            &&& after(ReceiptStep::CheckRequest, ReceiptEvent::Request { audio_is_file }) is Go
                ==> after(ReceiptStep::CheckRequest, ReceiptEvent::Request { audio_is_file })
                == ReceiptOutcome::Go(
                if options.trace_out is Some {
                    ReceiptStep::MakeDirectory
                } else {
                    ReceiptStep::LoadConfig
                },
            )
            &&& after(
                ReceiptStep::FixTargets,
                ReceiptEvent::Targets { receipt: receipt_at, trace: trace_at, logits: logits_at },
            ) == ReceiptOutcome::Go(ReceiptStep::CheckNew) <==> receipt_at@ != trace_at@ && (
            logits_at is Some ==> logits_at->Some_0@ != receipt_at@ && logits_at->Some_0@
                != trace_at@)
            &&& after(
                ReceiptStep::CheckNew,
                ReceiptEvent::Existing { trace: trace_is_there, logits: logits_are_there },
            ) == ReceiptOutcome::Go(ReceiptStep::LoadConfig) <==> !trace_is_there
                && !logits_are_there
            &&& after(ReceiptStep::Prepare, ReceiptEvent::Prepared { has_pack })
                == ReceiptOutcome::Go(ReceiptStep::BindPack) <==> options.backend_kind
                != BackendKind::Native || has_pack
            &&& after(ReceiptStep::Pass { at }, ReceiptEvent::Passed { chunk_count: slices }) is Go
                <==> !(options.trace_out is Some && slices is Some && slices->Some_0 > 1)
        }),
{
}

/// What a run does with its trace: it publishes one that may be published, the logits
/// first where they are wanted, refuses one that may not, and goes on without one that
/// was not recorded.
pub proof fn law_recorded_trace_is_published(
    snapshot: NativeTraceSnapshot,
    options: ShortAudioReceiptOptions,
    max_steps: nat,
    max_vocab: nat,
)
    ensures
        ({
            let may = receipt::publication(
                snapshot,
                options.logits_out is Some,
                max_steps,
                max_vocab,
            );
            let after = next_receipt_step(
                ReceiptStep::CheckTrace,
                ReceiptEvent::Recorded(Some(snapshot)),
                options,
                max_steps,
                max_vocab,
            );
            &&& may is Ok && options.logits_out is Some ==> after == ReceiptOutcome::Go(
                ReceiptStep::WriteLogits,
            )
            &&& may is Ok && options.logits_out is None ==> after == ReceiptOutcome::Go(
                ReceiptStep::WriteTrace,
            )
            &&& may is Err ==> after == ReceiptOutcome::Refused(
                receipt::receipt_message(may->Err_0),
            )
        }),
        next_receipt_step(
            ReceiptStep::CheckTrace,
            ReceiptEvent::Recorded(None),
            options,
            max_steps,
            max_vocab,
        ) == ReceiptOutcome::Go(ReceiptStep::Construct),
{
}

/// A receipt for Metal is refused exactly if no node ran on Metal or one ran elsewhere;
/// any other device is not held to where its nodes ran.
pub proof fn law_metal_placement_is_held_to(
    device: Seq<char>,
    counts: Seq<(Seq<char>, u64)>,
)
    ensures
        text::lowered(device) != "metal"@ ==> placement_outcome(device, counts)
            == ReceiptOutcome::Go(ReceiptStep::Diagnose),
        text::lowered(device) == "metal"@ ==> {
            &&& placement_outcome(device, counts) is NoMetalNodes <==> !receipt::ran_on_metal(
                counts,
            )
            &&& placement_outcome(device, counts) == ReceiptOutcome::Go(ReceiptStep::Diagnose)
                <==> receipt::ran_on_metal(counts) && receipt::outside_metal(
                counts,
                counts.len(),
            ).len() == 0
        },
{
    reveal_strlit("metal");
    assert(text::lowered("metal"@) =~= "metal"@) by {
        assert("metal"@[0] == 'm' && "metal"@[1] == 'e' && "metal"@[2] == 't' && "metal"@[3] == 'a'
            && "metal"@[4] == 'l');
    }
}

/// A step that fails stops the run, unless it had ended; a run that stopped stays
/// stopped, and one that ended takes no further event.
pub proof fn law_failed_run_stops(
    step: ReceiptStep,
    options: ShortAudioReceiptOptions,
    max_steps: nat,
    max_vocab: nat,
)
    ensures
        step != ReceiptStep::Collected && step != ReceiptStep::Written ==> next_receipt_step(
            step,
            ReceiptEvent::Failed,
            options,
            max_steps,
            max_vocab,
        ) is Failed,
        step == ReceiptStep::Collected || step == ReceiptStep::Written ==> next_receipt_step(
            step,
            ReceiptEvent::Done,
            options,
            max_steps,
            max_vocab,
        ) is OutOfStep,
{
}

} // verus!
