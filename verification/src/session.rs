//! The course of a live session: what is done next while audio comes in, how the
//! session is brought to an end, and what is shown of its events.

use vstd::prelude::*;

use crate::flight;
use crate::live_options::LiveOutputFormat;
use crate::pipeline;
use crate::pipeline::LivePipeline;
use crate::text;

verus! {

/// How a capture ends.
#[derive(Clone, Copy, Debug, PartialEq, Eq, Structural)]
pub enum CaptureEnd {
    /// The session is shut down and what it heard is saved.
    Stopped,
    /// A step failed: the session is shut down without the final save, and the
    /// failure is what the capture returns.
    Failed,
    /// Audio came in faster than it was taken: that is reported, the session is
    /// shut down without the final save, and the capture returns an error.
    Overflowed,
    /// The audio could not be read: the capture returns the failure at once.
    Aborted,
}

/// What a capture does next.
#[derive(Clone, Copy, Debug, PartialEq, Eq, Structural)]
pub enum CaptureStep {
    /// Take the texts that have come back.
    Drain,
    /// Look at the flags, the clock and the number of utterances.
    Check,
    /// Wait for audio.
    Receive,
    /// Process a frame, with so many still to follow.
    Frame { left: usize },
    /// Take the texts that have come back, with so many frames still to follow.
    DrainFrame { left: usize },
    End(CaptureEnd),
}

/// What happened in the step that a capture was at.
#[derive(Clone, Copy, Debug, PartialEq, Eq, Structural)]
pub enum CaptureEvent {
    /// The step was done.
    Done,
    /// The step failed.
    Failed,
    /// What the flags and the clock say.
    Looked { overflowed: bool, stop_requested: bool, elapsed_ns: u128 },
    /// Audio came in, and was cut into so many frames.
    Audio { frames: usize },
    /// The audio that came in could not be read.
    BadAudio,
    /// No audio came in for a while.
    Timeout,
    /// No more audio will come in.
    Disconnected,
}

/// Whether a capture has lasted as long as it may.
pub open spec fn out_of_time(elapsed_ns: u128, max_seconds: Option<u64>) -> bool {
    match max_seconds {
        Some(limit) => elapsed_ns >= limit * 1_000_000_000,
        None => false,
    }
}

/// The step after a frame was processed: the next frame, unless the session has all
/// the utterances it may take.
pub open spec fn after_frame(left: usize, at_limit: bool) -> CaptureStep {
    if at_limit || left == 0 {
        CaptureStep::Drain
    } else {
        CaptureStep::Frame { left: (left - 1) as usize }
    }
}

/// What a capture does after an event; an event that does not belong to the step
/// changes nothing.
pub open spec fn next_step(
    step: CaptureStep,
    event: CaptureEvent,
    max_seconds: Option<u64>,
    at_limit: bool,
) -> CaptureStep {
    match step {
        CaptureStep::Drain => match event {
            CaptureEvent::Done => CaptureStep::Check,
            CaptureEvent::Failed => CaptureStep::End(CaptureEnd::Failed),
            _ => step,
        },
        CaptureStep::Check => match event {
            CaptureEvent::Looked { overflowed, stop_requested, elapsed_ns } => {
                if overflowed {
                    CaptureStep::End(CaptureEnd::Overflowed)
                } else if stop_requested || out_of_time(elapsed_ns, max_seconds) || at_limit {
                    CaptureStep::End(CaptureEnd::Stopped)
                } else {
                    CaptureStep::Receive
                }
            },
            _ => step,
        },
        CaptureStep::Receive => match event {
            CaptureEvent::Audio { frames } => if frames == 0 {
                CaptureStep::Drain
            } else {
                CaptureStep::Frame { left: (frames - 1) as usize }
            },
            CaptureEvent::BadAudio => CaptureStep::End(CaptureEnd::Aborted),
            CaptureEvent::Timeout => CaptureStep::Drain,
            CaptureEvent::Disconnected => CaptureStep::End(CaptureEnd::Stopped),
            _ => step,
        },
        CaptureStep::Frame { left } => match event {
            CaptureEvent::Done => CaptureStep::DrainFrame { left },
            CaptureEvent::Failed => CaptureStep::End(CaptureEnd::Failed),
            _ => step,
        },
        CaptureStep::DrainFrame { left } => match event {
            CaptureEvent::Done => after_frame(left, at_limit),
            CaptureEvent::Failed => CaptureStep::End(CaptureEnd::Failed),
            _ => step,
        },
        CaptureStep::End(_) => step,
    }
}

/// A capture and the limits it keeps.
pub struct LiveCaptureRun {
    pub max_seconds: Option<u64>,
    pub step: CaptureStep,
}

impl LiveCaptureRun {
    /// A capture that is about to begin.
    pub fn new(max_seconds: Option<u64>) -> (run: Self)
        ensures
            run.max_seconds == max_seconds,
            run.step == CaptureStep::Drain,
    {
        LiveCaptureRun { max_seconds, step: CaptureStep::Drain }
    }

    /// Goes on to the next step after an event.
    pub fn run(&mut self, event: CaptureEvent, pipeline: &LivePipeline) -> (step: CaptureStep)
        ensures
            final(self).max_seconds == old(self).max_seconds,
            final(self).step == next_step(
                old(self).step,
                event,
                old(self).max_seconds,
                pipeline::at_limit(pipeline@),
            ),
            step == final(self).step,
    {
        let step = self.step;
        self.step = match step {
            CaptureStep::Drain => match event {
                CaptureEvent::Done => CaptureStep::Check,
                CaptureEvent::Failed => CaptureStep::End(CaptureEnd::Failed),
                _ => step,
            },
            CaptureStep::Check => match event {
                CaptureEvent::Looked { overflowed, stop_requested, elapsed_ns } => {
                    let late = match self.max_seconds {
                        Some(limit) => elapsed_ns >= limit as u128 * 1_000_000_000,
                        None => false,
                    };
                    if overflowed {
                        CaptureStep::End(CaptureEnd::Overflowed)
                    } else if stop_requested || late || pipeline.has_reached_limit() {
                        CaptureStep::End(CaptureEnd::Stopped)
                    } else {
                        CaptureStep::Receive
                    }
                },
                _ => step,
            },
            CaptureStep::Receive => match event {
                CaptureEvent::Audio { frames } => if frames == 0 {
                    CaptureStep::Drain
                } else {
                    CaptureStep::Frame { left: frames - 1 }
                },
                CaptureEvent::BadAudio => CaptureStep::End(CaptureEnd::Aborted),
                CaptureEvent::Timeout => CaptureStep::Drain,
                CaptureEvent::Disconnected => CaptureStep::End(CaptureEnd::Stopped),
                _ => step,
            },
            CaptureStep::Frame { left } => match event {
                CaptureEvent::Done => CaptureStep::DrainFrame { left },
                CaptureEvent::Failed => CaptureStep::End(CaptureEnd::Failed),
                _ => step,
            },
            CaptureStep::DrainFrame { left } => match event {
                CaptureEvent::Done => if left == 0 || pipeline.has_reached_limit() {
                    CaptureStep::Drain
                } else {
                    CaptureStep::Frame { left: left - 1 }
                },
                CaptureEvent::Failed => CaptureStep::End(CaptureEnd::Failed),
                _ => step,
            },
            CaptureStep::End(_) => step,
        };
        self.step
    }
}

/// A capture whose queue has overflowed ends there, whatever else holds: audio is
/// never dropped in silence.
pub proof fn law_overflow_always_ends_the_capture(
    stop_requested: bool,
    elapsed_ns: u128,
    max_seconds: Option<u64>,
    at_limit: bool,
)
    ensures
        next_step(
            CaptureStep::Check,
            CaptureEvent::Looked { overflowed: true, stop_requested, elapsed_ns },
            max_seconds,
            at_limit,
        ) == CaptureStep::End(CaptureEnd::Overflowed),
{
}

/// Once a session has all the utterances it may take, no further frame of the audio
/// at hand is processed, and the next look ends the capture.
pub proof fn law_limit_ends_the_capture(
    left: usize,
    stop_requested: bool,
    elapsed_ns: u128,
    max_seconds: Option<u64>,
)
    ensures
        next_step(CaptureStep::DrainFrame { left }, CaptureEvent::Done, max_seconds, true)
            == CaptureStep::Drain,
        next_step(
            CaptureStep::Check,
            CaptureEvent::Looked { overflowed: false, stop_requested, elapsed_ns },
            max_seconds,
            true,
        ) == CaptureStep::End(CaptureEnd::Stopped),
{
}

/// A capture that saves what it heard ends because it was asked to stop, its time
/// was up, it had all its utterances or its audio ended: not after a failure.
pub proof fn law_capture_saves_only_when_stopped(
    step: CaptureStep,
    event: CaptureEvent,
    max_seconds: Option<u64>,
    at_limit: bool,
)
    requires
        !(step is End),
        next_step(step, event, max_seconds, at_limit) == CaptureStep::End(CaptureEnd::Stopped),
    ensures
        event == CaptureEvent::Disconnected || (event matches CaptureEvent::Looked {
            overflowed,
            stop_requested,
            elapsed_ns,
        } && !overflowed && (stop_requested || out_of_time(elapsed_ns, max_seconds) || at_limit)),
{
}

/// What follows the end of a capture.
#[derive(Clone, Copy, Debug, PartialEq, Eq, Structural)]
pub struct ClosePlan {
    /// Whether an overflow is reported before anything else.
    pub reports_overflow_first: bool,
    /// Whether the session is shut down.
    pub shuts_down: bool,
    /// Whether the shutdown may save to the session's own files.
    pub allow_final_save: bool,
}

/// What follows the end of a capture.
pub open spec fn plan_of(end: CaptureEnd) -> ClosePlan {
    ClosePlan {
        reports_overflow_first: end == CaptureEnd::Overflowed,
        shuts_down: end != CaptureEnd::Aborted,
        allow_final_save: end == CaptureEnd::Stopped,
    }
}

/// Decides what follows the end of a capture.
pub fn close_plan(end: CaptureEnd) -> (plan: ClosePlan)
    ensures
        plan == plan_of(end),
{
    ClosePlan {
        reports_overflow_first: end == CaptureEnd::Overflowed,
        shuts_down: end != CaptureEnd::Aborted,
        allow_final_save: end == CaptureEnd::Stopped,
    }
}

/// What is done next after a capture ended, and at last what it returns.
#[derive(Clone, Copy, Debug, PartialEq, Eq, Structural)]
pub enum CloseStep {
    /// Report the overflow.
    Report,
    /// Shut the session down.
    ShutDown,
    End(CloseEnd),
}

/// What a capture returns.
#[derive(Clone, Copy, Debug, PartialEq, Eq, Structural)]
pub enum CloseEnd {
    /// What the shutdown came to.
    ShutdownOutcome,
    /// The failure that ended the capture.
    CaptureFailure,
    /// That audio came in faster than it was taken.
    Overflowed,
    /// The failure to report that.
    ReportFailure,
}

/// What a capture returns once its session was shut down: the shutdown's own outcome
/// counts only where nothing went wrong before it.
pub open spec fn returned_after_shutdown(end: CaptureEnd) -> CloseEnd {
    match end {
        CaptureEnd::Stopped => CloseEnd::ShutdownOutcome,
        CaptureEnd::Overflowed => CloseEnd::Overflowed,
        _ => CloseEnd::CaptureFailure,
    }
}

/// What is done first after a capture ended.
pub open spec fn first_close_step(end: CaptureEnd) -> CloseStep {
    if plan_of(end).reports_overflow_first {
        CloseStep::Report
    } else if plan_of(end).shuts_down {
        CloseStep::ShutDown
    } else {
        CloseStep::End(CloseEnd::CaptureFailure)
    }
}

/// What is done after a step that succeeded or failed.
pub open spec fn next_close_step(end: CaptureEnd, step: CloseStep, ok: bool) -> CloseStep {
    match step {
        CloseStep::Report => if ok {
            CloseStep::ShutDown
        } else {
            CloseStep::End(CloseEnd::ReportFailure)
        },
        CloseStep::ShutDown => CloseStep::End(returned_after_shutdown(end)),
        CloseStep::End(_) => step,
    }
}

/// Decides what is done first after a capture ended.
pub fn begin_close(end: CaptureEnd) -> (step: CloseStep)
    ensures
        step == first_close_step(end),
{
    let plan = close_plan(end);
    if plan.reports_overflow_first {
        CloseStep::Report
    } else if plan.shuts_down {
        CloseStep::ShutDown
    } else {
        CloseStep::End(CloseEnd::CaptureFailure)
    }
}

/// Decides what is done after a step that succeeded or failed.
pub fn close_capture(end: CaptureEnd, step: CloseStep, ok: bool) -> (next: CloseStep)
    ensures
        next == next_close_step(end, step, ok),
{
    match step {
        CloseStep::Report => if ok {
            CloseStep::ShutDown
        } else {
            CloseStep::End(CloseEnd::ReportFailure)
        },
        CloseStep::ShutDown => CloseStep::End(
            match end {
                CaptureEnd::Stopped => CloseEnd::ShutdownOutcome,
                CaptureEnd::Overflowed => CloseEnd::Overflowed,
                _ => CloseEnd::CaptureFailure,
            },
        ),
        CloseStep::End(_) => step,
    }
}

/// What is done next with one frame of audio, and at last what came of it.
#[derive(Clone, Copy, Debug, PartialEq, Eq, Structural)]
pub enum FrameStep {
    /// Ask the speech detector what begins or ends with the frame.
    Detect,
    /// Announce what it found.
    Announce,
    /// Put the frame into the buffer.
    Buffer,
    /// Report that the buffer is full.
    ReportOverflow,
    /// Hand over a snapshot of what is being spoken; so many utterances are whole.
    Snapshot { utterances: usize },
    /// Hand over the next whole utterance; so many come after it.
    Utterance { left: usize },
    End(FrameEnd),
}

/// What came of a frame.
#[derive(Clone, Copy, Debug, PartialEq, Eq, Structural)]
pub enum FrameEnd {
    Done,
    Failed,
    Overflowed,
}

/// What happened at a step of a frame.
#[derive(Clone, Copy, Debug, PartialEq, Eq, Structural)]
pub enum FrameEvent {
    Done,
    Failed,
    /// The buffer took the frame, and so many utterances are whole with it.
    Buffered { utterances: usize },
    /// The buffer has no room for the frame.
    Full,
}

/// What is done when so many whole utterances are still to be handed over.
pub open spec fn next_utterance(left: usize) -> FrameStep {
    if left == 0 {
        FrameStep::End(FrameEnd::Done)
    } else {
        FrameStep::Utterance { left: (left - 1) as usize }
    }
}

/// What is done with a frame after what happened at a step.
pub open spec fn next_frame_step(step: FrameStep, event: FrameEvent) -> FrameStep {
    match step {
        FrameStep::Detect => match event {
            FrameEvent::Done => FrameStep::Announce,
            _ => FrameStep::End(FrameEnd::Failed),
        },
        FrameStep::Announce => match event {
            FrameEvent::Done => FrameStep::Buffer,
            _ => FrameStep::End(FrameEnd::Failed),
        },
        FrameStep::Buffer => match event {
            FrameEvent::Buffered { utterances } => FrameStep::Snapshot { utterances },
            FrameEvent::Full => FrameStep::ReportOverflow,
            _ => FrameStep::End(FrameEnd::Failed),
        },
        FrameStep::ReportOverflow => match event {
            FrameEvent::Done => FrameStep::End(FrameEnd::Overflowed),
            _ => FrameStep::End(FrameEnd::Failed),
        },
        FrameStep::Snapshot { utterances } => match event {
            FrameEvent::Done => next_utterance(utterances),
            _ => FrameStep::End(FrameEnd::Failed),
        },
        FrameStep::Utterance { left } => match event {
            FrameEvent::Done => next_utterance(left),
            _ => FrameStep::End(FrameEnd::Failed),
        },
        FrameStep::End(_) => step,
    }
}

/// Decides what is done when so many whole utterances are still to be handed over.
fn hand_over(left: usize) -> (next: FrameStep)
    ensures
        next == next_utterance(left),
{
    if left == 0 {
        FrameStep::End(FrameEnd::Done)
    } else {
        FrameStep::Utterance { left: left - 1 }
    }
}

/// Decides what is done with a frame after what happened at a step: what the
/// detector found is announced before the frame is buffered, and the snapshot goes
/// out before the utterances that the frame made whole.
pub fn process_frame(step: FrameStep, event: FrameEvent) -> (next: FrameStep)
    ensures
        next == next_frame_step(step, event),
{
    match step {
        FrameStep::Detect => match event {
            FrameEvent::Done => FrameStep::Announce,
            _ => FrameStep::End(FrameEnd::Failed),
        },
        FrameStep::Announce => match event {
            FrameEvent::Done => FrameStep::Buffer,
            _ => FrameStep::End(FrameEnd::Failed),
        },
        FrameStep::Buffer => match event {
            FrameEvent::Buffered { utterances } => FrameStep::Snapshot { utterances },
            FrameEvent::Full => FrameStep::ReportOverflow,
            _ => FrameStep::End(FrameEnd::Failed),
        },
        FrameStep::ReportOverflow => match event {
            FrameEvent::Done => FrameStep::End(FrameEnd::Overflowed),
            _ => FrameStep::End(FrameEnd::Failed),
        },
        FrameStep::Snapshot { utterances } => match event {
            FrameEvent::Done => hand_over(utterances),
            _ => FrameStep::End(FrameEnd::Failed),
        },
        FrameStep::Utterance { left } => match event {
            FrameEvent::Done => hand_over(left),
            _ => FrameStep::End(FrameEnd::Failed),
        },
        FrameStep::End(_) => step,
    }
}

/// Where a frame stands after what happened at its first steps.
pub open spec fn frame_after(events: Seq<FrameEvent>) -> FrameStep
    decreases events.len(),
{
    if events.len() == 0 {
        FrameStep::Detect
    } else {
        next_frame_step(frame_after(events.drop_last()), events.last())
    }
}

/// A frame that made so many utterances whole is done after all of them and the
/// snapshot were handed over, and not before.
pub proof fn law_frame_hands_over_every_utterance(utterances: usize, steps: Seq<FrameEvent>)
    requires
        steps.len() <= utterances + 1,
        forall|i: int| 0 <= i < steps.len() ==> #[trigger] steps[i] == FrameEvent::Done,
    ensures
        (frame_after(
            seq![FrameEvent::Done, FrameEvent::Done, FrameEvent::Buffered { utterances }] + steps,
        ) == FrameStep::End(FrameEnd::Done)) == (steps.len() == utterances + 1),
{
    lemma_frame_progress(utterances, steps);
}

proof fn lemma_frame_progress(utterances: usize, steps: Seq<FrameEvent>)
    requires
        steps.len() <= utterances + 1,
        forall|i: int| 0 <= i < steps.len() ==> #[trigger] steps[i] == FrameEvent::Done,
    ensures
        frame_after(
            seq![FrameEvent::Done, FrameEvent::Done, FrameEvent::Buffered { utterances }] + steps,
        ) == if steps.len() == 0 {
            FrameStep::Snapshot { utterances }
        } else {
            next_utterance((utterances - (steps.len() - 1)) as usize)
        },
    decreases steps.len(),
{
    let start = seq![FrameEvent::Done, FrameEvent::Done, FrameEvent::Buffered { utterances }];
    if steps.len() == 0 {
        assert(start + steps =~= start);
        reveal_with_fuel(frame_after, 4);
        assert(start.drop_last() =~= seq![FrameEvent::Done, FrameEvent::Done]);
        assert(start.drop_last().drop_last() =~= seq![FrameEvent::Done]);
        assert(start.drop_last().drop_last().drop_last() =~= Seq::<FrameEvent>::empty());
    } else {
        lemma_frame_progress(utterances, steps.drop_last());
        assert((start + steps).drop_last() =~= start + steps.drop_last());
        assert((start + steps).last() == steps.last());
        assert(steps[steps.len() - 1] == FrameEvent::Done);
    }
}

/// A frame that the buffer has no room for is never done: the overflow is reported
/// and the frame fails, whatever comes of the report.
pub proof fn law_full_buffer_fails_the_frame(event: FrameEvent)
    ensures
        next_frame_step(FrameStep::Buffer, FrameEvent::Full) == FrameStep::ReportOverflow,
        next_frame_step(FrameStep::ReportOverflow, event) == FrameStep::End(FrameEnd::Overflowed)
            || next_frame_step(FrameStep::ReportOverflow, event) == FrameStep::End(
            FrameEnd::Failed,
        ),
{
}

/// What a shutdown does next, and at last what it came to.
#[derive(Clone, Copy, Debug, PartialEq, Eq, Structural)]
pub enum ShutdownStep {
    /// Hand over the utterance that was being spoken, if there is one.
    QueueFlushed,
    /// Wait for the worker to finish.
    FinishWorker,
    /// Report that the worker failed.
    ReportWorkerFailure,
    /// End the session's events after the worker failed.
    EndAfterWorkerFailure,
    /// Take the texts that came back.
    ApplyResults,
    /// End the session's events; whether a text failed before.
    EndSession { result_failed: bool },
    /// Save the transcript beside its file.
    SavePartialHistory(ShutdownEnd),
    /// Save the note beside its file.
    SavePartialNote(ShutdownEnd),
    /// Save the transcript.
    SaveHistory,
    /// Save the transcript beside its file, since it could not be saved.
    SaveHistoryBeside,
    /// Save the note all the same.
    SaveNoteAnyway,
    /// Save the note.
    SaveNote,
    End(ShutdownEnd),
}

/// What a shutdown came to.
#[derive(Clone, Copy, Debug, PartialEq, Eq, Structural)]
pub enum ShutdownEnd {
    Done,
    QueueFailed,
    ReportFailed,
    WorkerFailed,
    ResultFailed,
    EndFailed,
    SaveFailed,
    NoteFailed,
}

/// What a shutdown does after a step that succeeded or failed.
pub open spec fn next_shutdown(step: ShutdownStep, ok: bool, allow_final_save: bool) -> ShutdownStep {
    match step {
        ShutdownStep::QueueFlushed => if ok {
            ShutdownStep::FinishWorker
        } else {
            ShutdownStep::End(ShutdownEnd::QueueFailed)
        },
        ShutdownStep::FinishWorker => if ok {
            ShutdownStep::ApplyResults
        } else {
            ShutdownStep::ReportWorkerFailure
        },
        ShutdownStep::ReportWorkerFailure => if ok {
            ShutdownStep::EndAfterWorkerFailure
        } else {
            ShutdownStep::End(ShutdownEnd::ReportFailed)
        },
        ShutdownStep::EndAfterWorkerFailure => ShutdownStep::SavePartialHistory(
            ShutdownEnd::WorkerFailed,
        ),
        ShutdownStep::ApplyResults => ShutdownStep::EndSession { result_failed: !ok },
        ShutdownStep::EndSession { result_failed } => if !ok {
            ShutdownStep::End(ShutdownEnd::EndFailed)
        } else if result_failed {
            ShutdownStep::SavePartialHistory(ShutdownEnd::ResultFailed)
        } else if !allow_final_save {
            ShutdownStep::SavePartialHistory(ShutdownEnd::Done)
        } else {
            ShutdownStep::SaveHistory
        },
        ShutdownStep::SavePartialHistory(end) => ShutdownStep::SavePartialNote(end),
        ShutdownStep::SavePartialNote(end) => ShutdownStep::End(end),
        ShutdownStep::SaveHistory => if ok {
            ShutdownStep::SaveNote
        } else {
            ShutdownStep::SaveHistoryBeside
        },
        ShutdownStep::SaveHistoryBeside => ShutdownStep::SaveNoteAnyway,
        ShutdownStep::SaveNoteAnyway => ShutdownStep::End(ShutdownEnd::SaveFailed),
        ShutdownStep::SaveNote => if ok {
            ShutdownStep::End(ShutdownEnd::Done)
        } else {
            ShutdownStep::End(ShutdownEnd::NoteFailed)
        },
        ShutdownStep::End(end) => step,
    }
}

/// Decides what a shutdown does after a step that succeeded or failed.
pub fn shutdown(step: ShutdownStep, ok: bool, allow_final_save: bool) -> (next: ShutdownStep)
    ensures
        next == next_shutdown(step, ok, allow_final_save),
{
    match step {
        ShutdownStep::QueueFlushed => if ok {
            ShutdownStep::FinishWorker
        } else {
            ShutdownStep::End(ShutdownEnd::QueueFailed)
        },
        ShutdownStep::FinishWorker => if ok {
            ShutdownStep::ApplyResults
        } else {
            ShutdownStep::ReportWorkerFailure
        },
        ShutdownStep::ReportWorkerFailure => if ok {
            ShutdownStep::EndAfterWorkerFailure
        } else {
            ShutdownStep::End(ShutdownEnd::ReportFailed)
        },
        ShutdownStep::EndAfterWorkerFailure => ShutdownStep::SavePartialHistory(
            ShutdownEnd::WorkerFailed,
        ),
        ShutdownStep::ApplyResults => ShutdownStep::EndSession { result_failed: !ok },
        ShutdownStep::EndSession { result_failed } => if !ok {
            ShutdownStep::End(ShutdownEnd::EndFailed)
        } else if result_failed {
            ShutdownStep::SavePartialHistory(ShutdownEnd::ResultFailed)
        } else if !allow_final_save {
            ShutdownStep::SavePartialHistory(ShutdownEnd::Done)
        } else {
            ShutdownStep::SaveHistory
        },
        ShutdownStep::SavePartialHistory(end) => ShutdownStep::SavePartialNote(end),
        ShutdownStep::SavePartialNote(end) => ShutdownStep::End(end),
        ShutdownStep::SaveHistory => if ok {
            ShutdownStep::SaveNote
        } else {
            ShutdownStep::SaveHistoryBeside
        },
        ShutdownStep::SaveHistoryBeside => ShutdownStep::SaveNoteAnyway,
        ShutdownStep::SaveNoteAnyway => ShutdownStep::End(ShutdownEnd::SaveFailed),
        ShutdownStep::SaveNote => if ok {
            ShutdownStep::End(ShutdownEnd::Done)
        } else {
            ShutdownStep::End(ShutdownEnd::NoteFailed)
        },
        ShutdownStep::End(_) => step,
    }
}

/// Where a shutdown stands after so many steps, if each succeeded as told.
pub open spec fn shutdown_after(outcomes: spec_fn(int) -> bool, steps: nat, allow: bool) -> ShutdownStep
    decreases steps,
{
    if steps == 0 {
        ShutdownStep::QueueFlushed
    } else {
        next_shutdown(
            shutdown_after(outcomes, (steps - 1) as nat, allow),
            outcomes(steps - 1),
            allow,
        )
    }
}

/// Every shutdown comes to an end, whatever fails on the way.
pub proof fn law_shutdown_ends(outcomes: spec_fn(int) -> bool, allow: bool)
    ensures
        shutdown_after(outcomes, 7, allow) is End,
{
    reveal_with_fuel(shutdown_after, 8);
}

/// A shutdown that may not save for good never writes the transcript or the note to
/// its own file.
pub proof fn law_failed_session_spares_the_files(outcomes: spec_fn(int) -> bool, steps: nat)
    ensures
        ({
            let step = shutdown_after(outcomes, steps, false);
            step != ShutdownStep::SaveHistory && step != ShutdownStep::SaveHistoryBeside && step
                != ShutdownStep::SaveNoteAnyway && step != ShutdownStep::SaveNote
        }),
    decreases steps,
{
    if steps > 0 {
        law_failed_session_spares_the_files(outcomes, (steps - 1) as nat);
    }
}

/// A shutdown that may save for good succeeds only if the transcript and the note
/// were both saved, and the session's events were ended before that.
pub proof fn law_success_means_saved(outcomes: spec_fn(int) -> bool, steps: nat)
    requires
        shutdown_after(outcomes, steps, true) == ShutdownStep::End(ShutdownEnd::Done),
    ensures
        exists|at: nat|
            at < steps && #[trigger] shutdown_after(outcomes, at, true) == ShutdownStep::SaveNote
                && outcomes(at as int),
        exists|at: nat|
            at < steps && #[trigger] shutdown_after(outcomes, at, true)
                == ShutdownStep::SaveHistory && outcomes(at as int),
        exists|at: nat|
            at < steps && #[trigger] shutdown_after(outcomes, at, true)
                == (ShutdownStep::EndSession { result_failed: false }) && outcomes(at as int),
    decreases steps,
{
    let before = (steps - 1) as nat;
    if shutdown_after(outcomes, before, true) == ShutdownStep::End(ShutdownEnd::Done) {
        law_success_means_saved(outcomes, before);
    } else {
        lemma_no_quiet_end(outcomes, before);
        assert(shutdown_after(outcomes, before, true) == ShutdownStep::SaveNote);
        lemma_note_follows_history(outcomes, before);
    }
}

proof fn lemma_no_quiet_end(outcomes: spec_fn(int) -> bool, steps: nat)
    ensures
        shutdown_after(outcomes, steps, true) != ShutdownStep::SavePartialHistory(
            ShutdownEnd::Done,
        ),
        shutdown_after(outcomes, steps, true) != ShutdownStep::SavePartialNote(ShutdownEnd::Done),
    decreases steps,
{
    if steps > 0 {
        lemma_no_quiet_end(outcomes, (steps - 1) as nat);
    }
}

proof fn lemma_note_follows_history(outcomes: spec_fn(int) -> bool, steps: nat)
    requires
        shutdown_after(outcomes, steps, true) == ShutdownStep::SaveNote,
    ensures
        exists|at: nat|
            at < steps && #[trigger] shutdown_after(outcomes, at, true)
                == ShutdownStep::SaveHistory && outcomes(at as int),
        exists|at: nat|
            at < steps && #[trigger] shutdown_after(outcomes, at, true)
                == (ShutdownStep::EndSession { result_failed: false }) && outcomes(at as int),
{
    let before = (steps - 1) as nat;
    assert(shutdown_after(outcomes, before, true) == ShutdownStep::SaveHistory);
    let earlier = (before - 1) as nat;
    assert(shutdown_after(outcomes, earlier, true) == (ShutdownStep::EndSession {
        result_failed: false,
    }));
}

/// Whether a transcript is saved beside its file, and why not if it is refused.
#[derive(Clone, Copy, Debug, PartialEq, Eq, Structural)]
pub enum SidecarPlan {
    Nothing,
    Refuse,
    Write,
}

/// Decides whether a transcript is saved beside its file: not if nothing is to be
/// saved, and never over a file that is there.
pub fn partial_history_plan(has_save: bool, history_is_empty: bool, sidecar_exists: bool) -> (plan:
    SidecarPlan)
    ensures
        plan == (if !has_save || history_is_empty {
            SidecarPlan::Nothing
        } else if sidecar_exists {
            SidecarPlan::Refuse
        } else {
            SidecarPlan::Write
        }),
{
    if !has_save || history_is_empty {
        SidecarPlan::Nothing
    } else if sidecar_exists {
        SidecarPlan::Refuse
    } else {
        SidecarPlan::Write
    }
}

/// Decides whether a note is saved beside its file: never over a file that is there.
pub fn partial_note_plan(has_note: bool, sidecar_exists: bool) -> (plan: SidecarPlan)
    ensures
        plan == (if !has_note {
            SidecarPlan::Nothing
        } else if sidecar_exists {
            SidecarPlan::Refuse
        } else {
            SidecarPlan::Write
        }),
{
    if !has_note {
        SidecarPlan::Nothing
    } else if sidecar_exists {
        SidecarPlan::Refuse
    } else {
        SidecarPlan::Write
    }
}

/// The message for a transcript that is not saved over a file that is there.
pub open spec fn history_refusal_text(sidecar: Seq<char>) -> Seq<char> {
    "Refusing to overwrite implicit partial live transcript sidecar at "@ + sidecar
        + ". Remove it or choose a different --save path."@
}

/// The message for a transcript that is not saved over a file that is there.
pub fn history_refusal(sidecar: &str) -> (message: String)
    ensures
        message@ == history_refusal_text(sidecar@),
{
    let mut message = "Refusing to overwrite implicit partial live transcript sidecar at ".to_owned();
    message.append(sidecar);
    message.append(". Remove it or choose a different --save path.");
    message
}

/// The message for a note that is not saved over a file that is there.
pub open spec fn note_refusal_text(sidecar: Seq<char>) -> Seq<char> {
    "Refusing to overwrite implicit partial Markdown note sidecar at "@ + sidecar
        + ". Remove it or choose a different --markdown-note path."@
}

/// The message for a note that is not saved over a file that is there.
pub fn note_refusal(sidecar: &str) -> (message: String)
    ensures
        message@ == note_refusal_text(sidecar@),
{
    let mut message = "Refusing to overwrite implicit partial Markdown note sidecar at ".to_owned();
    message.append(sidecar);
    message.append(". Remove it or choose a different --markdown-note path.");
    message
}

/// Where a session stands.
#[derive(Clone, Copy, Debug, PartialEq, Eq, Structural)]
pub enum RealtimeSessionState {
    Running,
    Closed,
    Cancelled,
    Other,
}

/// Whether the end of the audio is still to be told.
pub fn stops_audio(audio_running: bool, state: RealtimeSessionState) -> (yes: bool)
    ensures
        yes == (audio_running && state == RealtimeSessionState::Running),
{
    audio_running && state == RealtimeSessionState::Running
}

/// Whether the end of the session is still to be told.
pub fn closes_session(state: RealtimeSessionState) -> (yes: bool)
    ensures
        yes == (state != RealtimeSessionState::Closed && state != RealtimeSessionState::Cancelled),
{
    state != RealtimeSessionState::Closed && state != RealtimeSessionState::Cancelled
}

/// What is told next at the end of a session.
#[derive(Clone, Copy, Debug, PartialEq, Eq, Structural)]
pub enum TerminalStep {
    Begin,
    /// Tell that the audio has ended.
    StopAudio,
    /// Tell that the session is closed.
    Close,
    /// All was told, or a step failed.
    End { ok: bool },
}

/// Whether the session is still to be closed, or all was told.
pub open spec fn close_or_end(state: RealtimeSessionState) -> TerminalStep {
    if state != RealtimeSessionState::Closed && state != RealtimeSessionState::Cancelled {
        TerminalStep::Close
    } else {
        TerminalStep::End { ok: true }
    }
}

/// What is told after a step that succeeded or failed: that the audio has ended, if it
/// runs, and only after that that the session is closed.
pub open spec fn next_terminal(
    step: TerminalStep,
    ok: bool,
    audio_running: bool,
    state: RealtimeSessionState,
) -> TerminalStep {
    match step {
        TerminalStep::Begin => if audio_running && state == RealtimeSessionState::Running {
            TerminalStep::StopAudio
        } else {
            close_or_end(state)
        },
        TerminalStep::StopAudio => if ok {
            close_or_end(state)
        } else {
            TerminalStep::End { ok: false }
        },
        TerminalStep::Close => TerminalStep::End { ok },
        TerminalStep::End { .. } => step,
    }
}

/// Decides what is told after a step that succeeded or failed. Audio whose end was told
/// no longer runs.
pub fn emit_terminal_events(
    step: TerminalStep,
    ok: bool,
    audio_running: &mut bool,
    state: RealtimeSessionState,
) -> (next: TerminalStep)
    ensures
        next == next_terminal(step, ok, *old(audio_running), state),
        *final(audio_running) == (*old(audio_running) && !(step == TerminalStep::StopAudio && ok)),
{
    match step {
        TerminalStep::Begin => if stops_audio(*audio_running, state) {
            TerminalStep::StopAudio
        } else if closes_session(state) {
            TerminalStep::Close
        } else {
            TerminalStep::End { ok: true }
        },
        TerminalStep::StopAudio => if !ok {
            TerminalStep::End { ok: false }
        } else {
            *audio_running = false;
            if closes_session(state) {
                TerminalStep::Close
            } else {
                TerminalStep::End { ok: true }
            }
        },
        TerminalStep::Close => TerminalStep::End { ok },
        TerminalStep::End { .. } => step,
    }
}

/// A session whose audio runs tells first that the audio has ended and then that it is
/// closed; it is never closed over a failure to tell the first.
pub proof fn law_audio_stops_before_the_session_closes(state: RealtimeSessionState, ok: bool)
    ensures
        next_terminal(TerminalStep::Begin, ok, true, RealtimeSessionState::Running)
            == TerminalStep::StopAudio,
        next_terminal(TerminalStep::StopAudio, true, true, state) == close_or_end(state),
        next_terminal(TerminalStep::StopAudio, false, true, state) == (TerminalStep::End {
            ok: false,
        }),
        next_terminal(TerminalStep::Close, ok, false, state) == (TerminalStep::End { ok }),
{
}

/// An overflow of the queue ends the capture before more audio is received. It is
/// reported, as a fault that the session does not recover from, before the session is
/// shut down; the shutdown ends the audio and then closes the session, and saves nothing
/// to the session's own files; and the capture returns the overflow, whatever the
/// shutdown comes to.
pub proof fn law_overflow_is_told_before_the_session_is_closed(
    stop_requested: bool,
    elapsed_ns: u128,
    max_seconds: Option<u64>,
    at_limit: bool,
    state: RealtimeSessionState,
    outcomes: spec_fn(int) -> bool,
    steps: nat,
    ok: bool,
)
    requires
        state != RealtimeSessionState::Closed,
        state != RealtimeSessionState::Cancelled,
    ensures
        next_step(
            CaptureStep::Check,
            CaptureEvent::Looked { overflowed: true, stop_requested, elapsed_ns },
            max_seconds,
            at_limit,
        ) == CaptureStep::End(CaptureEnd::Overflowed),
        first_close_step(CaptureEnd::Overflowed) == CloseStep::Report,
        next_close_step(CaptureEnd::Overflowed, CloseStep::Report, true) == CloseStep::ShutDown,
        next_close_step(CaptureEnd::Overflowed, CloseStep::Report, false) == CloseStep::End(
            CloseEnd::ReportFailure,
        ),
        next_close_step(CaptureEnd::Overflowed, CloseStep::ShutDown, ok) == CloseStep::End(
            CloseEnd::Overflowed,
        ),
        !plan_of(CaptureEnd::Overflowed).allow_final_save,
        ({
            let step = shutdown_after(
                outcomes,
                steps,
                plan_of(CaptureEnd::Overflowed).allow_final_save,
            );
            step != ShutdownStep::SaveHistory && step != ShutdownStep::SaveNote && step
                != ShutdownStep::SaveNoteAnyway
        }),
        outcomes(0) && outcomes(1) ==> (shutdown_after(outcomes, 3, false) matches
            ShutdownStep::EndSession { result_failed } && result_failed == !outcomes(2)),
        next_terminal(TerminalStep::Begin, ok, true, RealtimeSessionState::Running)
            == TerminalStep::StopAudio,
        next_terminal(TerminalStep::StopAudio, true, true, state) == TerminalStep::Close,
        fault_code(SessionFault::QueueOverflow) == RealtimeErrorCode::BackpressureTimeout,
        !fault_recovers(SessionFault::QueueOverflow),
{
    law_failed_session_spares_the_files(outcomes, steps);
    reveal_with_fuel(shutdown_after, 4);
}

/// What was heard is saved to the session's own files only if the capture stopped as it
/// was meant to.
pub proof fn law_only_a_stopped_capture_saves(end: CaptureEnd, outcomes: spec_fn(int) -> bool, steps: nat)
    requires
        end != CaptureEnd::Stopped,
    ensures
        ({
            let step = shutdown_after(outcomes, steps, plan_of(end).allow_final_save);
            step != ShutdownStep::SaveHistory && step != ShutdownStep::SaveHistoryBeside && step
                != ShutdownStep::SaveNoteAnyway && step != ShutdownStep::SaveNote
        }),
{
    law_failed_session_spares_the_files(outcomes, steps);
}

/// A boundary in the speech that is heard.
pub enum SpeechBoundary {
    Started { utterance_id: String, start_ms: u64 },
    Stopped { utterance_id: String, start_ms: u64, end_ms: u64 },
    MaxUtterance { utterance_id: String, start_ms: u64, end_ms: u64 },
    NoSpeechTimeout { timeout_ms: u64 },
}

/// What is told of a boundary.
#[allow(inconsistent_fields)]
pub enum BoundaryNotice {
    Started { utterance_id: String, start_ms: u64 },
    Stopped { utterance_id: String, start_ms: u64, end_ms: u64 },
    Fault(SessionFault),
}

/// Decides what is told of a boundary: an utterance that reached its longest is
/// told as one that stopped.
pub fn boundary_notice(boundary: SpeechBoundary) -> (notice: BoundaryNotice)
    ensures
        notice == (match boundary {
            SpeechBoundary::Started { utterance_id, start_ms } => BoundaryNotice::Started {
                utterance_id,
                start_ms,
            },
            SpeechBoundary::Stopped { utterance_id, start_ms, end_ms } => BoundaryNotice::Stopped {
                utterance_id,
                start_ms,
                end_ms,
            },
            SpeechBoundary::MaxUtterance { utterance_id, start_ms, end_ms } => {
                BoundaryNotice::Stopped { utterance_id, start_ms, end_ms }
            },
            SpeechBoundary::NoSpeechTimeout { timeout_ms } => BoundaryNotice::Fault(
                SessionFault::NoSpeech { timeout_ms },
            ),
        }),
{
    match boundary {
        SpeechBoundary::Started { utterance_id, start_ms } => BoundaryNotice::Started {
            utterance_id,
            start_ms,
        },
        SpeechBoundary::Stopped { utterance_id, start_ms, end_ms } => BoundaryNotice::Stopped {
            utterance_id,
            start_ms,
            end_ms,
        },
        SpeechBoundary::MaxUtterance { utterance_id, start_ms, end_ms } => {
            BoundaryNotice::Stopped { utterance_id, start_ms, end_ms }
        },
        SpeechBoundary::NoSpeechTimeout { timeout_ms } => BoundaryNotice::Fault(
            SessionFault::NoSpeech { timeout_ms },
        ),
    }
}

/// What went wrong in a session.
pub enum SessionFault {
    /// Audio came in faster than it was taken.
    QueueOverflow,
    /// The buffer took no more audio.
    BufferOverflow(String),
    /// A text could not be had.
    BackendFailed(String),
    /// Nobody spoke for so long.
    NoSpeech { timeout_ms: u64 },
}

/// The code of an error event.
#[derive(Clone, Copy, Debug, PartialEq, Eq, Structural)]
pub enum RealtimeErrorCode {
    BackpressureTimeout,
    AudioBufferOverflow,
    BackendCrashed,
    NoSpeechTimeout,
}

/// An error event, as it is told.
pub struct ErrorNotice {
    pub code: RealtimeErrorCode,
    pub message: String,
    pub recoverable: bool,
}

/// The code under which a fault is told.
pub open spec fn fault_code(fault: SessionFault) -> RealtimeErrorCode {
    match fault {
        SessionFault::QueueOverflow => RealtimeErrorCode::BackpressureTimeout,
        SessionFault::BufferOverflow(_) => RealtimeErrorCode::AudioBufferOverflow,
        SessionFault::BackendFailed(_) => RealtimeErrorCode::BackendCrashed,
        SessionFault::NoSpeech { .. } => RealtimeErrorCode::NoSpeechTimeout,
    }
}

/// What is told of a fault.
pub open spec fn fault_text(fault: SessionFault) -> Seq<char> {
    match fault {
        SessionFault::QueueOverflow => "Microphone capture queue overflowed; OpenASR stopped instead of silently dropping audio."@,
        SessionFault::BufferOverflow(error) => error@,
        SessionFault::BackendFailed(error) => error@,
        SessionFault::NoSpeech { timeout_ms } => "No speech detected within "@ + text::decimal(
            timeout_ms as nat,
        ) + " ms."@,
    }
}

/// Whether a session goes on after a fault.
pub open spec fn fault_recovers(fault: SessionFault) -> bool {
    fault is NoSpeech
}

/// Decides how a fault is told: a session recovers from silence, and from nothing
/// else.
pub fn error_notice(fault: &SessionFault) -> (notice: ErrorNotice)
    ensures
        notice.code == fault_code(*fault),
        notice.message@ == fault_text(*fault),
        notice.recoverable == fault_recovers(*fault),
{
    match fault {
        SessionFault::QueueOverflow => ErrorNotice {
            code: RealtimeErrorCode::BackpressureTimeout,
            message: "Microphone capture queue overflowed; OpenASR stopped instead of silently dropping audio.".to_owned(),
            recoverable: false,
        },
        SessionFault::BufferOverflow(error) => ErrorNotice {
            code: RealtimeErrorCode::AudioBufferOverflow,
            message: error.as_str().to_owned(),
            recoverable: false,
        },
        SessionFault::BackendFailed(error) => ErrorNotice {
            code: RealtimeErrorCode::BackendCrashed,
            message: error.as_str().to_owned(),
            recoverable: false,
        },
        SessionFault::NoSpeech { timeout_ms } => {
            let mut message = "No speech detected within ".to_owned();
            message.append(text::decimal_text(*timeout_ms).as_str());
            message.append(" ms.");
            ErrorNotice { code: RealtimeErrorCode::NoSpeechTimeout, message, recoverable: true }
        },
    }
}

/// The error with which a capture ends whose queue overflowed.
pub fn overflow_error() -> (text: &'static str)
    ensures
        text@
            == "Microphone capture queue overflowed; stopped instead of silently dropping audio."@,
{
    "Microphone capture queue overflowed; stopped instead of silently dropping audio."
}

/// An event of a session, as far as it is shown.
#[allow(inconsistent_fields)]
pub enum LiveEvent {
    Partial,
    Final { speaker: Option<String>, text: String },
    Revision { speaker: Option<String>, text: String },
    Error { code: String, message: String },
    Other,
}

/// What is shown of an event.
pub enum LiveLine {
    /// The event itself, as a line of JSON.
    Json,
    /// A line of the transcript.
    Transcript(String),
    /// A line among the diagnostics.
    Diagnostic(String),
    Nothing,
}

/// A line of the transcript, with its speaker if one is known.
pub open spec fn spoken_line(speaker: Option<Seq<char>>, line: Seq<char>) -> Seq<char> {
    match speaker {
        Some(name) => name + ": "@ + line,
        None => line,
    }
}

fn spoken(speaker: &Option<String>, line: &str) -> (out: String)
    ensures
        out@ == spoken_line(text::opt_string(*speaker), line@),
{
    match speaker {
        Some(name) => {
            let mut out = name.as_str().to_owned();
            out.append(": ");
            out.append(line);
            out
        },
        None => line.to_owned(),
    }
}

/// Decides what is shown of an event: everything as JSON, or the final lines and
/// the errors as text.
pub fn event_line(format: LiveOutputFormat, event: &LiveEvent) -> (line: LiveLine)
    ensures
        match format {
            LiveOutputFormat::Jsonl => line is Json,
            LiveOutputFormat::Text => match *event {
                LiveEvent::Final { speaker, text } => line matches LiveLine::Transcript(shown)
                    && shown@ == spoken_line(text::opt_string(speaker), text@),
                LiveEvent::Revision { speaker, text } => line matches LiveLine::Transcript(shown)
                    && shown@ == spoken_line(text::opt_string(speaker), text@),
                LiveEvent::Error { code, message } => line matches LiveLine::Diagnostic(shown)
                    && shown@ == "OpenASR live error ("@ + code@ + "): "@ + message@,
                LiveEvent::Partial => line is Nothing,
                LiveEvent::Other => line is Nothing,
            },
        },
{
    match format {
        LiveOutputFormat::Jsonl => LiveLine::Json,
        LiveOutputFormat::Text => match event {
            LiveEvent::Final { speaker, text: line } => LiveLine::Transcript(
                spoken(speaker, line.as_str()),
            ),
            LiveEvent::Revision { speaker, text: line } => LiveLine::Transcript(
                spoken(speaker, line.as_str()),
            ),
            LiveEvent::Error { code, message } => {
                let mut out = "OpenASR live error (".to_owned();
                out.append(code.as_str());
                out.append("): ");
                out.append(message.as_str());
                LiveLine::Diagnostic(out)
            },
            LiveEvent::Partial => LiveLine::Nothing,
            LiveEvent::Other => LiveLine::Nothing,
        },
    }
}

/// Whether the text that a broadcast shows changes with an event: with a final line
/// or the revision of one, and with nothing else.
pub fn refreshes_obs(event: &LiveEvent) -> (yes: bool)
    ensures
        yes == (*event is Final || *event is Revision),
{
    match event {
        LiveEvent::Final { .. } => true,
        LiveEvent::Revision { .. } => true,
        _ => false,
    }
}

/// A latency, or that there is none.
pub open spec fn latency_text(latency: Option<u64>) -> Seq<char> {
    match latency {
        Some(value) => text::decimal(value as nat),
        None => "n/a"@,
    }
}

fn show_latency(latency: Option<u64>) -> (out: String)
    ensures
        out@ == latency_text(latency),
{
    match latency {
        Some(value) => text::decimal_text(value),
        None => "n/a".to_owned(),
    }
}

/// The line that sums up a session; the rate of partial texts that were revised is
/// given.
pub open spec fn metrics_text(state: pipeline::PipelineView, rate: Seq<char>) -> Seq<char> {
    "OpenASR live metrics: firstPartialLatencyMs="@ + latency_text(state.first_partial_latency_ms)
        + ", firstFinalLatencyMs="@ + latency_text(state.first_final_latency_ms)
        + ", partialCount="@ + text::decimal(state.partial_emitted_count as nat)
        + ", finalCount="@ + text::decimal(state.final_emitted_count as nat)
        + ", partialRevisionRate="@ + rate + ", suppressedDuplicatePartials="@ + text::decimal(
        state.partial_suppressed_count as nat,
    ) + ", suppressedRollbackPartials="@ + text::decimal(
        state.partial_rollback_suppressed_count as nat,
    )
}

/// Renders the line that sums up a session.
pub fn streaming_metrics_summary(session: &LivePipeline, rate: &str) -> (out: String)
    ensures
        out@ == metrics_text(session@, rate@),
{
    let mut out = "OpenASR live metrics: firstPartialLatencyMs=".to_owned();
    out.append(show_latency(session.first_partial_latency_ms).as_str());
    out.append(", firstFinalLatencyMs=");
    out.append(show_latency(session.first_final_latency_ms).as_str());
    out.append(", partialCount=");
    out.append(text::decimal_text(session.partial_emitted_count as u64).as_str());
    out.append(", finalCount=");
    out.append(text::decimal_text(session.final_emitted_count as u64).as_str());
    out.append(", partialRevisionRate=");
    out.append(rate);
    out.append(", suppressedDuplicatePartials=");
    out.append(text::decimal_text(session.partial_suppressed_count as u64).as_str());
    out.append(", suppressedRollbackPartials=");
    out.append(text::decimal_text(session.partial_rollback_suppressed_count as u64).as_str());
    out
}

/// The partial texts that a final one did not settle, out of how many there were:
/// the two numbers whose quotient is the rate of revision.
pub fn partial_revisions(session: &LivePipeline) -> (rate: (usize, usize))
    ensures
        rate.0 == (if session.partial_emitted_count >= session.final_emitted_count {
            session.partial_emitted_count - session.final_emitted_count
        } else {
            0int
        }),
        rate.1 == session.partial_emitted_count,
{
    (
        session.partial_emitted_count.saturating_sub(session.final_emitted_count),
        session.partial_emitted_count,
    )
}

/// A frame of audio.
pub struct AudioFrame {
    pub seq: u64,
    pub start_ms: u64,
    pub samples: Vec<i16>,
}

/// The number of frames that samples fill, the last one perhaps not wholly.
pub open spec fn frame_count(total: nat, per_frame: nat) -> nat {
    ((total + per_frame - 1) / per_frame as int) as nat
}

/// The samples of one frame.
pub open spec fn frame_samples(samples: Seq<i16>, per_frame: nat, at: nat) -> Seq<i16> {
    let from = (at * per_frame) as int;
    let to = from + per_frame;
    samples.subrange(
        from,
        if to < samples.len() {
            to
        } else {
            samples.len() as int
        },
    )
}

/// Whether frames hold samples in order, so many in each, at their times.
pub open spec fn cuts_up(
    samples: Seq<i16>,
    per_frame: nat,
    frame_duration_ms: nat,
    frames: Seq<AudioFrame>,
) -> bool {
    &&& frames.len() == frame_count(samples.len(), per_frame)
    &&& forall|i: int|
        0 <= i < frames.len() ==> {
            &&& (#[trigger] frames[i]).seq == i
            &&& frames[i].start_ms == i * frame_duration_ms
            &&& frames[i].samples@ == frame_samples(samples, per_frame, i as nat)
        }
}

proof fn lemma_frame_at(total: nat, per_frame: nat, at: nat)
    requires
        per_frame > 0,
    ensures
        at < frame_count(total, per_frame) <==> at * per_frame < total,
{
    let count = (total + per_frame - 1) / (per_frame as int);
    vstd::arithmetic::div_mod::lemma_fundamental_div_mod(total + per_frame - 1, per_frame as int);
    vstd::arithmetic::div_mod::lemma_mod_bound(total + per_frame - 1, per_frame as int);
    if total > 0 || per_frame > 1 {
        assert(count >= 0) by (nonlinear_arith)
            requires
                count == (total + per_frame - 1) / (per_frame as int),
                per_frame > 0,
                total + per_frame - 1 >= 0,
        ;
    }
    let rest = (total + per_frame - 1) % (per_frame as int);
    if at < count {
        assert(at * per_frame <= (count - 1) * per_frame) by (nonlinear_arith)
            requires
                at <= count - 1,
                per_frame > 0,
        ;
        assert((count - 1) * per_frame == per_frame * count - per_frame) by (nonlinear_arith);
    } else {
        assert(at * per_frame >= count * per_frame) by (nonlinear_arith)
            requires
                at >= count,
                per_frame > 0,
        ;
        assert(count * per_frame == per_frame * count) by (nonlinear_arith);
    }
}

/// Cuts samples into frames of so many each, with the time at which each starts.
pub fn input_file_frames(
    samples: &[i16],
    frame_sample_count: usize,
    frame_duration_ms: u32,
) -> (frames: Vec<AudioFrame>)
    requires
        frame_sample_count > 0,
        samples@.len() + frame_sample_count <= usize::MAX,
        frame_count(samples@.len(), frame_sample_count as nat) * frame_duration_ms <= u64::MAX,
    ensures
        cuts_up(samples@, frame_sample_count as nat, frame_duration_ms as nat, frames@),
{
    let mut frames: Vec<AudioFrame> = Vec::new();
    let mut from: usize = 0;
    let mut seq: u64 = 0;
    let mut start_ms: u64 = 0;
    let total: usize = samples.len();
    while from < total
        invariant
            total == samples@.len(),
            frame_sample_count > 0,
            total + frame_sample_count <= usize::MAX,
            frame_count(samples@.len(), frame_sample_count as nat) * frame_duration_ms <= u64::MAX,
            seq == frames@.len(),
            seq <= from,
            from < total + frame_sample_count,
            from == frames@.len() * frame_sample_count,
            start_ms == frames@.len() * frame_duration_ms,
            forall|i: int|
                0 <= i < frames@.len() ==> {
                    &&& (#[trigger] frames@[i]).seq == i
                    &&& frames@[i].start_ms == i * frame_duration_ms
                    &&& frames@[i].samples@ == frame_samples(
                        samples@,
                        frame_sample_count as nat,
                        i as nat,
                    )
                },
        decreases total + frame_sample_count - from,
    {
        let next: usize = from + frame_sample_count;
        let to: usize = if next < total {
            next
        } else {
            total
        };
        let mut chunk: Vec<i16> = Vec::new();
        let mut k: usize = from;
        while k < to
            invariant
                from <= k <= to <= samples@.len(),
                chunk@ == samples@.subrange(from as int, k as int),
            decreases to - k,
        {
            chunk.push(samples[k]);
            assert(samples@.subrange(from as int, k + 1) =~= samples@.subrange(
                from as int,
                k as int,
            ).push(samples@[k as int]));
            k += 1;
        }
        let ghost at = frames@.len();
        proof {
            lemma_frame_at(total as nat, frame_sample_count as nat, at);
            let count = frame_count(samples@.len(), frame_sample_count as nat);
            assert((at + 1) * frame_sample_count == at * frame_sample_count + frame_sample_count
                && (at + 1) * frame_duration_ms == at * frame_duration_ms + frame_duration_ms)
                by (nonlinear_arith);
            assert((at + 1) * frame_duration_ms <= count * frame_duration_ms) by (nonlinear_arith)
                requires
                    at + 1 <= count,
            ;
        }
        frames.push(AudioFrame { seq, start_ms, samples: chunk });
        from = next;
        seq = seq + 1;
        start_ms = start_ms + frame_duration_ms as u64;
    }
    proof {
        lemma_frame_at(total as nat, frame_sample_count as nat, frames@.len());
        if frames@.len() > 0 {
            let last = (frames@.len() - 1) as nat;
            lemma_frame_at(total as nat, frame_sample_count as nat, last);
            assert(last * frame_sample_count == frames@.len() * frame_sample_count
                - frame_sample_count) by (nonlinear_arith)
                requires
                    last == frames@.len() - 1,
            ;
        }
    }
    frames
}

/// The samples of frames, by frame.
pub open spec fn samples_by_frame(frames: Seq<AudioFrame>) -> Seq<Seq<i16>> {
    frames.map_values(|frame: AudioFrame| frame.samples@)
}

proof fn lemma_frames_join(
    samples: Seq<i16>,
    per_frame: nat,
    frame_duration_ms: nat,
    frames: Seq<AudioFrame>,
    count: nat,
)
    requires
        per_frame > 0,
        cuts_up(samples, per_frame, frame_duration_ms, frames),
        count <= frames.len(),
    ensures
        flight::joined_samples(samples_by_frame(frames).take(count as int)) == samples.take(
            if count * per_frame < samples.len() {
                (count * per_frame) as int
            } else {
                samples.len() as int
            },
        ),
    decreases count,
{
    let parts = samples_by_frame(frames);
    if count == 0 {
        assert(parts.take(0) =~= seq![]);
        assert(samples.take(0) =~= seq![]);
        assert(0 * per_frame == 0);
    } else {
        let before = (count - 1) as nat;
        lemma_frames_join(samples, per_frame, frame_duration_ms, frames, before);
        lemma_frame_at(samples.len(), per_frame, before);
        assert(count * per_frame == before * per_frame + per_frame) by (nonlinear_arith)
            requires
                count == before + 1,
        ;
        assert(parts.take(count as int).drop_last() =~= parts.take(before as int));
        assert(parts.take(count as int).last() == frames[before as int].samples@);
        let to = if count * per_frame < samples.len() {
            (count * per_frame) as int
        } else {
            samples.len() as int
        };
        assert(samples.take((before * per_frame) as int) + samples.subrange(
            (before * per_frame) as int,
            to,
        ) =~= samples.take(to));
    }
}

/// The frames of a file hold its samples: all of them, once, in order.
pub proof fn law_frames_hold_every_sample(
    samples: Seq<i16>,
    per_frame: nat,
    frame_duration_ms: nat,
    frames: Seq<AudioFrame>,
)
    requires
        per_frame > 0,
        cuts_up(samples, per_frame, frame_duration_ms, frames),
    ensures
        flight::joined_samples(samples_by_frame(frames)) == samples,
{
    lemma_frames_join(samples, per_frame, frame_duration_ms, frames, frames.len());
    lemma_frame_at(samples.len(), per_frame, frames.len());
    assert(samples_by_frame(frames).take(frames.len() as int) =~= samples_by_frame(frames));
    assert(samples.take(samples.len() as int) =~= samples);
}

/// Where a capture stands after events.
pub open spec fn capture_after(
    step: CaptureStep,
    events: Seq<CaptureEvent>,
    max_seconds: Option<u64>,
    at_limit: bool,
) -> CaptureStep
    decreases events.len(),
{
    if events.len() == 0 {
        step
    } else {
        next_step(
            capture_after(step, events.drop_last(), max_seconds, at_limit),
            events.last(),
            max_seconds,
            at_limit,
        )
    }
}

/// Of audio that comes in, each frame is processed in turn, with the texts that came back
/// taken after each: after so many frames the next one is due, and after the last of them
/// the capture looks around again.
pub proof fn law_every_frame_of_audio_is_processed(
    frames: usize,
    processed: nat,
    max_seconds: Option<u64>,
)
    requires
        processed <= frames,
    ensures
        capture_after(
            CaptureStep::Receive,
            seq![CaptureEvent::Audio { frames }] + Seq::new(
                2 * processed,
                |i: int| CaptureEvent::Done,
            ),
            max_seconds,
            false,
        ) == if processed < frames {
            CaptureStep::Frame { left: (frames - 1 - processed) as usize }
        } else {
            CaptureStep::Drain
        },
    decreases processed,
{
    let first = seq![CaptureEvent::Audio { frames }];
    let dones = |n: nat| Seq::new(n, |i: int| CaptureEvent::Done);
    let events = first + dones(2 * processed);
    if processed == 0 {
        assert(events =~= first);
        assert(first.drop_last() =~= seq![]);
        reveal_with_fuel(capture_after, 2);
    } else {
        law_every_frame_of_audio_is_processed(frames, (processed - 1) as nat, max_seconds);
        assert(events.drop_last() =~= first + dones((2 * processed - 1) as nat));
        assert(events.drop_last().drop_last() =~= first + dones((2 * (processed - 1)) as nat));
        assert(events.last() == CaptureEvent::Done);
        assert(events.drop_last().last() == CaptureEvent::Done);
        reveal_with_fuel(capture_after, 3);
    }
}

/// A capture that looks around goes on exactly while nothing overflowed, nobody asked it
/// to stop, its time is not up and it may take more; its time is up once as many whole
/// seconds have passed as it was given.
pub proof fn law_capture_goes_on(
    overflowed: bool,
    stop_requested: bool,
    elapsed_ns: u128,
    max_seconds: Option<u64>,
    at_limit: bool,
)
    ensures
        ({
            let next = next_step(
                CaptureStep::Check,
                CaptureEvent::Looked { overflowed, stop_requested, elapsed_ns },
                max_seconds,
                at_limit,
            );
            let time_is_up = max_seconds is Some && elapsed_ns / 1_000_000_000
                >= max_seconds->Some_0;
            &&& next == CaptureStep::Receive <==> !overflowed && !stop_requested && !time_is_up
                && !at_limit
            &&& next == CaptureStep::End(CaptureEnd::Stopped) <==> !overflowed && (stop_requested
                || time_is_up || at_limit)
        }),
        next_step(CaptureStep::Drain, CaptureEvent::Done, max_seconds, at_limit)
            == CaptureStep::Check,
        next_step(CaptureStep::Receive, CaptureEvent::Timeout, max_seconds, at_limit)
            == CaptureStep::Drain,
        next_step(CaptureStep::Receive, CaptureEvent::Disconnected, max_seconds, at_limit)
            == CaptureStep::End(CaptureEnd::Stopped),
        next_step(CaptureStep::Receive, CaptureEvent::BadAudio, max_seconds, at_limit)
            == CaptureStep::End(CaptureEnd::Aborted),
{
    if let Some(limit) = max_seconds {
        let passed = elapsed_ns / 1_000_000_000;
        assert(elapsed_ns >= limit * 1_000_000_000 <==> passed >= limit);
    }
}

/// A failure while texts are taken or a frame is processed ends the capture as failed,
/// and an ended capture stays ended as it is.
pub proof fn law_failed_capture_ends(
    step: CaptureStep,
    event: CaptureEvent,
    max_seconds: Option<u64>,
    at_limit: bool,
)
    ensures
        step is Drain || step is Frame || step is DrainFrame ==> next_step(
            step,
            CaptureEvent::Failed,
            max_seconds,
            at_limit,
        ) == CaptureStep::End(CaptureEnd::Failed),
        step is End ==> next_step(step, event, max_seconds, at_limit) == step,
{
}

/// What a capture returns once it was closed: the outcome of the shutdown if it stopped,
/// the overflow if it overflowed and could report it, and otherwise its own failure; a
/// capture whose audio was bad is not shut down.
pub proof fn law_capture_returns_what_it_came_to(end: CaptureEnd, ok: bool)
    ensures
        end == CaptureEnd::Stopped ==> first_close_step(end) == CloseStep::ShutDown
            && next_close_step(end, CloseStep::ShutDown, ok) == CloseStep::End(
            CloseEnd::ShutdownOutcome,
        ),
        end == CaptureEnd::Failed ==> first_close_step(end) == CloseStep::ShutDown
            && next_close_step(end, CloseStep::ShutDown, ok) == CloseStep::End(
            CloseEnd::CaptureFailure,
        ),
        end == CaptureEnd::Overflowed ==> first_close_step(end) == CloseStep::Report
            && next_close_step(end, CloseStep::Report, ok) == if ok {
            CloseStep::ShutDown
        } else {
            CloseStep::End(CloseEnd::ReportFailure)
        },
        end == CaptureEnd::Aborted ==> first_close_step(end) == CloseStep::End(
            CloseEnd::CaptureFailure,
        ),
        plan_of(end).reports_overflow_first == (first_close_step(end) == CloseStep::Report),
        plan_of(end).shuts_down == (end == CaptureEnd::Stopped || end == CaptureEnd::Failed || end
            == CaptureEnd::Overflowed),
        plan_of(CaptureEnd::Stopped).allow_final_save,
{
}

/// A shutdown in which nothing fails hands over the utterance that was being spoken,
/// waits for the worker, takes the texts, ends the session's events, and saves the
/// transcript and the note: for good if it may, and else beside their files.
pub proof fn law_shutdown_does_everything_in_order(allow: bool)
    ensures
        ({
            let at = |steps: nat| shutdown_after(|i: int| true, steps, allow);
            &&& at(0) == ShutdownStep::QueueFlushed
            &&& at(1) == ShutdownStep::FinishWorker
            &&& at(2) == ShutdownStep::ApplyResults
            &&& at(3) == ShutdownStep::EndSession { result_failed: false }
            &&& allow ==> at(4) == ShutdownStep::SaveHistory && at(5) == ShutdownStep::SaveNote
            &&& !allow ==> at(4) == ShutdownStep::SavePartialHistory(ShutdownEnd::Done) && at(5)
                == ShutdownStep::SavePartialNote(ShutdownEnd::Done)
            &&& at(6) == ShutdownStep::End(ShutdownEnd::Done)
        }),
{
    reveal_with_fuel(shutdown_after, 7);
}

/// Whatever fails first in a shutdown is what it comes to. What was heard is saved beside
/// its file after a worker or a text failed and the events could be ended, and a
/// transcript that could not be saved is saved beside its file, with the note all the
/// same.
pub proof fn law_shutdown_comes_to_its_first_failure(
    outcomes: spec_fn(int) -> bool,
    allow: bool,
)
    ensures
        ({
            let at = |steps: nat| shutdown_after(outcomes, steps, allow);
            &&& !outcomes(0) ==> at(1) == ShutdownStep::End(ShutdownEnd::QueueFailed)
            &&& outcomes(0) && !outcomes(1) && !outcomes(2) ==> at(2)
                == ShutdownStep::ReportWorkerFailure && at(3) == ShutdownStep::End(
                ShutdownEnd::ReportFailed,
            )
            &&& outcomes(0) && !outcomes(1) && outcomes(2) ==> at(3)
                == ShutdownStep::EndAfterWorkerFailure && at(4)
                == ShutdownStep::SavePartialHistory(ShutdownEnd::WorkerFailed) && at(5)
                == ShutdownStep::SavePartialNote(ShutdownEnd::WorkerFailed) && at(6)
                == ShutdownStep::End(ShutdownEnd::WorkerFailed)
            &&& outcomes(0) && outcomes(1) && !outcomes(2) && outcomes(3) ==> at(3)
                == ShutdownStep::EndSession { result_failed: true } && at(4)
                == ShutdownStep::SavePartialHistory(ShutdownEnd::ResultFailed) && at(6)
                == ShutdownStep::End(ShutdownEnd::ResultFailed)
            &&& outcomes(0) && outcomes(1) && !outcomes(3) ==> at(4) == ShutdownStep::End(
                ShutdownEnd::EndFailed,
            )
            &&& allow && outcomes(0) && outcomes(1) && outcomes(2) && outcomes(3) && !outcomes(4)
                ==> at(5) == ShutdownStep::SaveHistoryBeside && at(6)
                == ShutdownStep::SaveNoteAnyway && at(7) == ShutdownStep::End(
                ShutdownEnd::SaveFailed,
            )
            &&& allow && outcomes(0) && outcomes(1) && outcomes(2) && outcomes(3) && outcomes(4)
                && !outcomes(5) ==> at(6) == ShutdownStep::End(ShutdownEnd::NoteFailed)
        }),
{
    reveal_with_fuel(shutdown_after, 8);
}

/// A frame goes through its steps in order, and a failure at any of them fails it.
pub proof fn law_frame_goes_through_its_steps(step: FrameStep, utterances: usize)
    ensures
        next_frame_step(FrameStep::Detect, FrameEvent::Done) == FrameStep::Announce,
        next_frame_step(FrameStep::Announce, FrameEvent::Done) == FrameStep::Buffer,
        next_frame_step(FrameStep::Buffer, FrameEvent::Buffered { utterances })
            == (FrameStep::Snapshot { utterances }),
        !(step is End) ==> next_frame_step(step, FrameEvent::Failed) == FrameStep::End(
            FrameEnd::Failed,
        ),
        next_frame_step(FrameStep::ReportOverflow, FrameEvent::Done) == FrameStep::End(
            FrameEnd::Overflowed,
        ),
{
}

/// What is told at the end of a session: what is already closed or cancelled is not
/// closed again, and a session is closed whatever became of its audio before.
pub proof fn law_open_session_is_closed(audio_running: bool, state: RealtimeSessionState, ok: bool)
    ensures
        ({
            let open = state == RealtimeSessionState::Running || state
                == RealtimeSessionState::Other;
            &&& !(audio_running && state == RealtimeSessionState::Running) ==> next_terminal(
                TerminalStep::Begin,
                ok,
                audio_running,
                state,
            ) == if open {
                TerminalStep::Close
            } else {
                TerminalStep::End { ok: true }
            }
            &&& next_terminal(TerminalStep::StopAudio, true, audio_running, state) == if open {
                TerminalStep::Close
            } else {
                TerminalStep::End { ok: true }
            }
            &&& next_terminal(TerminalStep::Close, ok, audio_running, state) == TerminalStep::End {
                ok,
            }
        }),
{
}

/// How faults are told: each under its own code, with what the buffer or the backend said
/// of it; a session goes on after silence alone.
pub proof fn law_faults_are_told_as_they_are(message: String, timeout_ms: u64)
    ensures
        fault_code(SessionFault::QueueOverflow) == RealtimeErrorCode::BackpressureTimeout,
        fault_code(SessionFault::BufferOverflow(message)) == RealtimeErrorCode::AudioBufferOverflow,
        fault_code(SessionFault::BackendFailed(message)) == RealtimeErrorCode::BackendCrashed,
        fault_code(SessionFault::NoSpeech { timeout_ms }) == RealtimeErrorCode::NoSpeechTimeout,
        fault_text(SessionFault::BufferOverflow(message)) == message@,
        fault_text(SessionFault::BackendFailed(message)) == message@,
        fault_text(SessionFault::NoSpeech { timeout_ms }) == "No speech detected within "@
            + text::decimal(timeout_ms as nat) + " ms."@,
        forall|fault: SessionFault| #[trigger] fault_recovers(fault) <==> fault is NoSpeech,
{
}

/// A line names its speaker before what was said, where one is known.
pub proof fn law_spoken_line_keeps_the_words(speaker: Seq<char>, line: Seq<char>)
    ensures
        spoken_line(None, line) == line,
        spoken_line(Some(speaker), line).take(speaker.len() as int) == speaker,
        spoken_line(Some(speaker), line).skip(speaker.len() as int + 2) == line,
        spoken_line(Some(speaker), line)[speaker.len() as int] == ':',
        spoken_line(Some(speaker), line)[speaker.len() as int + 1] == ' ',
{
    reveal_strlit(": ");
    let whole = spoken_line(Some(speaker), line);
    assert(whole.take(speaker.len() as int) =~= speaker);
    assert(whole.skip(speaker.len() as int + 2) =~= line);
}

/// The line that sums up a session gives each number under its own name.
pub proof fn law_metrics_name_their_numbers(state: pipeline::PipelineView, rate: Seq<char>)
    ensures
        metrics_text(state, rate) == "OpenASR live metrics: firstPartialLatencyMs="@ + (
        if state.first_partial_latency_ms is Some {
            text::decimal(state.first_partial_latency_ms->Some_0 as nat)
        } else {
            "n/a"@
        }) + ", firstFinalLatencyMs="@ + (if state.first_final_latency_ms is Some {
            text::decimal(state.first_final_latency_ms->Some_0 as nat)
        } else {
            "n/a"@
        }) + ", partialCount="@ + text::decimal(state.partial_emitted_count as nat)
            + ", finalCount="@ + text::decimal(state.final_emitted_count as nat)
            + ", partialRevisionRate="@ + rate + ", suppressedDuplicatePartials="@ + text::decimal(
            state.partial_suppressed_count as nat,
        ) + ", suppressedRollbackPartials="@ + text::decimal(
            state.partial_rollback_suppressed_count as nat,
        ),
{
}

/// Every frame of a file but the last has as many samples as a frame holds, and the last
/// has some; the frames are numbered from zero, and each starts when the ones before it
/// end. Without samples there is no frame.
pub proof fn law_frames_are_full_and_on_time(
    samples: Seq<i16>,
    per_frame: nat,
    frame_duration_ms: nat,
    frames: Seq<AudioFrame>,
    at: int,
)
    requires
        per_frame > 0,
        cuts_up(samples, per_frame, frame_duration_ms, frames),
    ensures
        samples.len() == 0 <==> frames.len() == 0,
        0 <= at < frames.len() ==> {
            &&& frames[at].seq == at
            &&& frames[at].start_ms == at * frame_duration_ms
            &&& 0 < frames[at].samples@.len() <= per_frame
            &&& at < frames.len() - 1 ==> frames[at].samples@.len() == per_frame
            &&& forall|k: int|
                0 <= k < frames[at].samples@.len() ==> #[trigger] frames[at].samples@[k]
                    == samples[at * per_frame + k]
        },
{
    lemma_frame_at(samples.len(), per_frame, 0);
    assert(0 * per_frame == 0);
    if 0 <= at < frames.len() {
        lemma_frame_at(samples.len(), per_frame, at as nat);
        lemma_frame_at(samples.len(), per_frame, (at + 1) as nat);
        assert((at + 1) * per_frame == at * per_frame + per_frame) by (nonlinear_arith);
        assert(at * per_frame >= 0) by (nonlinear_arith)
            requires
                at >= 0,
                per_frame >= 0,
        ;
        assert(frames[at].samples@ == frame_samples(samples, per_frame, at as nat));
    }
}

} // verus!
