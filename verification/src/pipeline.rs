//! The bookkeeping of a live session: which snapshot or utterance is transcribed
//! next, and what becomes of each text that comes back.

use vstd::prelude::*;

use crate::flight;
use crate::flight::{BufferedUtterance, FlightView, PartialFlights, UtteranceView,
    PARTIAL_ROLLBACK_SUPPRESS_MIN_DELTA_CHARS};
use crate::text;

verus! {

/// The number of bytes that a character takes in UTF-8.
pub open spec fn byte_width(c: char) -> nat {
    if c <= '\u{7f}' {
        1
    } else if c <= '\u{7ff}' {
        2
    } else if c <= '\u{ffff}' {
        3
    } else {
        4
    }
}

/// The number of bytes that a text takes in UTF-8.
pub open spec fn byte_length(chars: Seq<char>) -> nat
    decreases chars.len(),
{
    if chars.len() == 0 {
        0
    } else {
        byte_length(chars.drop_last()) + byte_width(chars.last())
    }
}

/// Counts the bytes of a text.
pub fn count_bytes(chars: &str) -> (total: u128)
    ensures
        total == byte_length(chars@),
{
    let list = text::chars_of(chars);
    let count: usize = list.len();
    let mut total: u128 = 0;
    let mut i: usize = 0;
    assert(list@.take(0) =~= seq![]);
    while i < count
        invariant
            count == list@.len(),
            i <= count,
            total == byte_length(list@.take(i as int)),
            total <= 4 * i,
        decreases list@.len() - i,
    {
        let c: char = list[i];
        let width: u128 = if c <= '\u{7f}' {
            1
        } else if c <= '\u{7ff}' {
            2
        } else if c <= '\u{ffff}' {
            3
        } else {
            4
        };
        assert(list@.take(i + 1).drop_last() =~= list@.take(i as int));
        assert(list@.take(i + 1).last() == c);
        total = total + width;
        i += 1;
    }
    assert(list@.take(i as int) =~= list@);
    total
}

/// Whether a partial text only takes back what the one before it had said: a
/// beginning of it that is shorter by a margin.
pub open spec fn rolls_back(previous: Seq<char>, next: Seq<char>) -> bool {
    let before = text::trimmed(previous);
    let after = text::trimmed(next);
    &&& before.len() > 0
    &&& after.len() > 0
    &&& text::begins(before, after)
    &&& byte_length(before) >= byte_length(after) + PARTIAL_ROLLBACK_SUPPRESS_MIN_DELTA_CHARS
}

/// Whether a partial text is held back because it only takes back what the one
/// before it had said.
pub fn should_suppress_partial_rollback(previous: &str, next: &str) -> (held_back: bool)
    ensures
        held_back == rolls_back(previous@, next@),
{
    let before = text::trim_text(previous);
    let after = text::trim_text(next);
    let before_length: u128 = count_bytes(before.as_str());
    let after_length: u128 = count_bytes(after.as_str());
    proof {
        lemma_byte_length(before@);
        lemma_byte_length(after@);
    }
    if before_length == 0 || after_length == 0 {
        return false;
    }
    if after_length >= before_length {
        return false;
    }
    if !text::begins_with(before.as_str(), after.as_str()) {
        return false;
    }
    before_length - after_length >= PARTIAL_ROLLBACK_SUPPRESS_MIN_DELTA_CHARS as u128
}

proof fn lemma_byte_length(chars: Seq<char>)
    ensures
        chars.len() == 0 <==> byte_length(chars) == 0,
{
}

/// What one transcription is to transcribe, and how its result is told apart.
pub struct LiveTranscriptionJob {
    pub utterance_id: String,
    pub start_ms: u64,
    pub end_ms: u64,
    pub segment_id: String,
    pub display_name: String,
    pub partial: bool,
    pub revision: u32,
    pub generation: u64,
}

/// A job as plain values.
#[verifier::ext_equal]
pub struct JobView {
    pub utterance_id: Seq<char>,
    pub start_ms: u64,
    pub end_ms: u64,
    pub segment_id: Seq<char>,
    pub display_name: Seq<char>,
    pub partial: bool,
    pub revision: u32,
    pub generation: u64,
}

impl View for LiveTranscriptionJob {
    type V = JobView;

    open spec fn view(&self) -> JobView {
        JobView {
            utterance_id: self.utterance_id@,
            start_ms: self.start_ms,
            end_ms: self.end_ms,
            segment_id: self.segment_id@,
            display_name: self.display_name@,
            partial: self.partial,
            revision: self.revision,
            generation: self.generation,
        }
    }
}

/// The job for an utterance or a snapshot of it.
pub open spec fn job_for(
    utterance: UtteranceView,
    partial: bool,
    revision: u32,
    generation: u64,
) -> JobView {
    JobView {
        utterance_id: utterance.utterance_id,
        start_ms: utterance.start_ms,
        end_ms: utterance.end_ms,
        segment_id: utterance.utterance_id + "_seg_000001"@,
        display_name: utterance.utterance_id + if partial {
            ".partial.wav"@
        } else {
            ".wav"@
        },
        partial,
        revision,
        generation,
    }
}

/// The view of an optional job.
pub open spec fn opt_job(item: Option<LiveTranscriptionJob>) -> Option<JobView> {
    match item {
        Some(job) => Some(job@),
        None => None,
    }
}

fn make_job(
    utterance: &BufferedUtterance,
    partial: bool,
    revision: u32,
    generation: u64,
) -> (job: LiveTranscriptionJob)
    ensures
        job@ == job_for(utterance@, partial, revision, generation),
{
    let mut segment_id = utterance.utterance_id.as_str().to_owned();
    segment_id.append("_seg_000001");
    let mut display_name = utterance.utterance_id.as_str().to_owned();
    display_name.append(
        if partial {
            ".partial.wav"
        } else {
            ".wav"
        },
    );
    LiveTranscriptionJob {
        utterance_id: utterance.utterance_id.as_str().to_owned(),
        start_ms: utterance.start_ms,
        end_ms: utterance.end_ms,
        segment_id,
        display_name,
        partial,
        revision,
        generation,
    }
}

/// The text that a transcription gave.
pub struct LiveTranscriptionSuccess {
    pub utterance_id: String,
    pub start_ms: u64,
    pub end_ms: u64,
    pub segment_id: String,
    pub text: String,
    pub partial: bool,
    pub revision: u32,
    pub generation: u64,
}

/// The text that a transcription gave, as plain values.
#[verifier::ext_equal]
pub struct SuccessView {
    pub utterance_id: Seq<char>,
    pub start_ms: u64,
    pub end_ms: u64,
    pub segment_id: Seq<char>,
    pub text: Seq<char>,
    pub partial: bool,
    pub revision: u32,
    pub generation: u64,
}

impl View for LiveTranscriptionSuccess {
    type V = SuccessView;

    open spec fn view(&self) -> SuccessView {
        SuccessView {
            utterance_id: self.utterance_id@,
            start_ms: self.start_ms,
            end_ms: self.end_ms,
            segment_id: self.segment_id@,
            text: self.text@,
            partial: self.partial,
            revision: self.revision,
            generation: self.generation,
        }
    }
}

/// What became of a transcription.
pub enum LiveTranscriptionResult {
    Final(LiveTranscriptionSuccess),
    Error(String),
}

/// What became of a transcription, as plain values.
pub enum ResultView {
    Final(SuccessView),
    Error(Seq<char>),
}

impl View for LiveTranscriptionResult {
    type V = ResultView;

    open spec fn view(&self) -> ResultView {
        match self {
            LiveTranscriptionResult::Final(success) => ResultView::Final(success@),
            LiveTranscriptionResult::Error(message) => ResultView::Error(message@),
        }
    }
}

/// What a text says of a segment of the transcript.
pub struct TranscriptUpdate {
    pub utterance_id: String,
    pub segment_id: String,
    pub revision: u64,
    pub text: String,
    pub start_ms: u64,
    pub end_ms: u64,
}

/// What a text says of a segment of the transcript, as plain values.
#[verifier::ext_equal]
pub struct UpdateView {
    pub utterance_id: Seq<char>,
    pub segment_id: Seq<char>,
    pub revision: u64,
    pub text: Seq<char>,
    pub start_ms: u64,
    pub end_ms: u64,
}

impl View for TranscriptUpdate {
    type V = UpdateView;

    open spec fn view(&self) -> UpdateView {
        UpdateView {
            utterance_id: self.utterance_id@,
            segment_id: self.segment_id@,
            revision: self.revision,
            text: self.text@,
            start_ms: self.start_ms,
            end_ms: self.end_ms,
        }
    }
}

/// The update that a text brings.
pub open spec fn update_for(success: SuccessView) -> UpdateView {
    UpdateView {
        utterance_id: success.utterance_id,
        segment_id: success.segment_id,
        revision: success.revision as u64,
        text: success.text,
        start_ms: success.start_ms,
        end_ms: success.end_ms,
    }
}

/// What follows from a transcription.
pub enum ResultAction {
    /// The backend failed: the error is reported, and the session ends with it.
    Fail(String),
    /// The text came too late to count.
    Stale,
    /// The text repeats the one before it; a waiting snapshot may go next.
    Repeated,
    /// The text only takes back what the one before it had said; a waiting
    /// snapshot may go next.
    RolledBack,
    /// A partial text enters the transcript; a waiting snapshot may go next.
    Partial(TranscriptUpdate),
    /// The final text enters the transcript.
    Final(TranscriptUpdate),
}

/// What follows from a transcription, as plain values.
pub enum ActionView {
    Fail(Seq<char>),
    Stale,
    Repeated,
    RolledBack,
    Partial(UpdateView),
    Final(UpdateView),
}

impl View for ResultAction {
    type V = ActionView;

    open spec fn view(&self) -> ActionView {
        match self {
            ResultAction::Fail(message) => ActionView::Fail(message@),
            ResultAction::Stale => ActionView::Stale,
            ResultAction::Repeated => ActionView::Repeated,
            ResultAction::RolledBack => ActionView::RolledBack,
            ResultAction::Partial(update) => ActionView::Partial(update@),
            ResultAction::Final(update) => ActionView::Final(update@),
        }
    }
}

/// The state of a live session.
pub struct LivePipeline {
    pub partial_flights: PartialFlights,
    pub max_utterances: Option<usize>,
    pub accepted_utterances: usize,
    pub completed_utterances: usize,
    pub partial_emitted_count: usize,
    pub partial_suppressed_count: usize,
    pub partial_rollback_suppressed_count: usize,
    pub final_emitted_count: usize,
    pub first_partial_latency_ms: Option<u64>,
    pub first_final_latency_ms: Option<u64>,
    pub partial_interval_ms: u64,
}

/// The state of a live session, as plain values.
#[verifier::ext_equal]
pub struct PipelineView {
    pub flights: Map<Seq<char>, FlightView>,
    pub max_utterances: Option<usize>,
    pub accepted_utterances: usize,
    pub completed_utterances: usize,
    pub partial_emitted_count: usize,
    pub partial_suppressed_count: usize,
    pub partial_rollback_suppressed_count: usize,
    pub final_emitted_count: usize,
    pub first_partial_latency_ms: Option<u64>,
    pub first_final_latency_ms: Option<u64>,
    pub partial_interval_ms: u64,
}

impl View for LivePipeline {
    type V = PipelineView;

    open spec fn view(&self) -> PipelineView {
        PipelineView {
            flights: self.partial_flights.map(),
            max_utterances: self.max_utterances,
            accepted_utterances: self.accepted_utterances,
            completed_utterances: self.completed_utterances,
            partial_emitted_count: self.partial_emitted_count,
            partial_suppressed_count: self.partial_suppressed_count,
            partial_rollback_suppressed_count: self.partial_rollback_suppressed_count,
            final_emitted_count: self.final_emitted_count,
            first_partial_latency_ms: self.first_partial_latency_ms,
            first_final_latency_ms: self.first_final_latency_ms,
            partial_interval_ms: self.partial_interval_ms,
        }
    }
}

/// A session with one flight changed.
pub open spec fn with_flight(state: PipelineView, id: Seq<char>, flight: FlightView) -> PipelineView {
    PipelineView { flights: state.flights.insert(id, flight), ..state }
}

/// Whether the counters can still count.
pub open spec fn has_room(state: PipelineView) -> bool {
    &&& state.accepted_utterances < usize::MAX
    &&& state.completed_utterances < usize::MAX
    &&& state.partial_emitted_count < usize::MAX
    &&& state.partial_suppressed_count < usize::MAX
    &&& state.partial_rollback_suppressed_count < usize::MAX
    &&& state.final_emitted_count < usize::MAX
}

/// Whether a session has as many utterances as it may take.
pub open spec fn at_limit(state: PipelineView) -> bool {
    match state.max_utterances {
        Some(limit) => state.accepted_utterances >= limit,
        None => false,
    }
}

/// Whether enough time has passed since the last snapshot of a flight was sent.
pub open spec fn snapshot_is_due(flight: FlightView, now_ms: u64, interval_ms: u64) -> bool {
    if now_ms >= flight.last_emit_ms {
        now_ms - flight.last_emit_ms >= interval_ms
    } else {
        interval_ms == 0
    }
}

/// A session that was offered a snapshot of the utterance being spoken: the
/// snapshot replaces the one that was waiting, if it is due and the utterance is
/// not final.
pub open spec fn snapshot_offered(
    state: PipelineView,
    now_ms: u64,
    snapshot: Option<UtteranceView>,
) -> PipelineView {
    match snapshot {
        None => state,
        Some(snapshot) => {
            let id = snapshot.utterance_id;
            let current = flight::flight_of(state.flights, id);
            if current.finalized || !snapshot_is_due(current, now_ms, state.partial_interval_ms) {
                with_flight(state, id, current)
            } else {
                with_flight(
                    state,
                    id,
                    FlightView { pending_latest: Some(snapshot), ..current },
                )
            }
        },
    }
}

/// Whether a snapshot that was offered is to be sent right away.
pub open spec fn snapshot_goes_out(
    state: PipelineView,
    now_ms: u64,
    snapshot: Option<UtteranceView>,
) -> bool {
    match snapshot {
        None => false,
        Some(snapshot) => {
            let current = flight::flight_of(state.flights, snapshot.utterance_id);
            !current.finalized && snapshot_is_due(current, now_ms, state.partial_interval_ms)
                && !current.in_flight
        },
    }
}

/// The snapshot of an utterance that may be sent now.
pub open spec fn snapshot_to_send(state: PipelineView, id: Seq<char>) -> Option<UtteranceView> {
    if state.flights.contains_key(id) && !state.flights[id].finalized
        && !state.flights[id].in_flight {
        state.flights[id].pending_latest
    } else {
        None
    }
}

/// The job of the snapshot that may be sent now.
pub open spec fn partial_job(state: PipelineView, id: Seq<char>) -> Option<JobView> {
    match snapshot_to_send(state, id) {
        None => None,
        Some(snapshot) => Some(
            job_for(
                snapshot,
                true,
                flight::following_revision(state.flights[id].next_revision),
                state.flights[id].generation,
            ),
        ),
    }
}

/// A session whose waiting snapshot was handed to the worker: on its way if the
/// worker took it, and still waiting if not.
pub open spec fn partial_sent(
    state: PipelineView,
    id: Seq<char>,
    now_ms: u64,
    taken: bool,
) -> PipelineView {
    match snapshot_to_send(state, id) {
        None => state,
        Some(snapshot) => with_flight(
            state,
            id,
            FlightView {
                pending_latest: if taken {
                    None
                } else {
                    Some(snapshot)
                },
                in_flight: taken,
                last_emit_ms: now_ms,
                ..flight::counted_flight(state.flights[id])
            },
        ),
    }
}

/// The job of a finished utterance: none if it was abandoned or the session has
/// all it may take.
pub open spec fn final_job(state: PipelineView, utterance: UtteranceView) -> Option<JobView> {
    if utterance.cancelled || at_limit(state) {
        None
    } else {
        let current = flight::flight_of(state.flights, utterance.utterance_id);
        Some(
            job_for(
                utterance,
                false,
                flight::following_revision(current.next_revision),
                current.generation,
            ),
        )
    }
}

/// A session whose finished utterance was handed to the worker: if the worker took
/// it, the partial texts of the utterance no longer count.
pub open spec fn final_sent(
    state: PipelineView,
    utterance: UtteranceView,
    taken: bool,
) -> PipelineView {
    if final_job(state, utterance) is None {
        state
    } else {
        let id = utterance.utterance_id;
        let counted = flight::counted_flight(flight::flight_of(state.flights, id));
        if taken {
            PipelineView {
                accepted_utterances: (state.accepted_utterances + 1) as usize,
                ..with_flight(state, id, flight::closed_flight(counted))
            }
        } else {
            with_flight(state, id, counted)
        }
    }
}

/// A flight whose text has come back.
pub open spec fn landed(current: FlightView) -> FlightView {
    FlightView { in_flight: false, ..current }
}

/// Whether a partial text of a flight no longer counts.
pub open spec fn is_stale(current: FlightView, generation: u64) -> bool {
    current.finalized || generation != current.generation
}

/// What follows from a text that has come back.
pub open spec fn action_for(state: PipelineView, success: SuccessView) -> ActionView {
    if success.partial {
        let current = flight::flight_of(state.flights, success.utterance_id);
        if is_stale(current, success.generation) {
            ActionView::Stale
        } else if current.last_text == Some(success.text) {
            ActionView::Repeated
        } else if current.last_text is Some && rolls_back(
            current.last_text->Some_0,
            success.text,
        ) {
            ActionView::RolledBack
        } else {
            ActionView::Partial(update_for(success))
        }
    } else {
        ActionView::Final(update_for(success))
    }
}

/// The first of two latencies: the one known before, if there is one.
pub open spec fn first_latency(known: Option<u64>, now: u64) -> Option<u64> {
    if known is Some {
        known
    } else {
        Some(now)
    }
}

/// A session after a partial text has come back.
pub open spec fn partial_returned(
    state: PipelineView,
    success: SuccessView,
    elapsed_ms: u64,
) -> PipelineView {
    let id = success.utterance_id;
    let current = landed(flight::flight_of(state.flights, id));
    match action_for(state, success) {
        ActionView::Repeated => PipelineView {
            partial_suppressed_count: (state.partial_suppressed_count + 1) as usize,
            ..with_flight(state, id, current)
        },
        ActionView::RolledBack => PipelineView {
            partial_rollback_suppressed_count: (state.partial_rollback_suppressed_count
                + 1) as usize,
            ..with_flight(state, id, current)
        },
        ActionView::Partial(_) => PipelineView {
            partial_emitted_count: (state.partial_emitted_count + 1) as usize,
            first_partial_latency_ms: first_latency(state.first_partial_latency_ms, elapsed_ms),
            ..with_flight(state, id, FlightView { last_text: Some(success.text), ..current })
        },
        _ => with_flight(state, id, current),
    }
}

/// A session after a final text has come back.
pub open spec fn final_returned(
    state: PipelineView,
    success: SuccessView,
    elapsed_ms: u64,
) -> PipelineView {
    let id = success.utterance_id;
    let settled = if !state.flights.contains_key(id) {
        state
    } else if state.flights[id].finalized {
        with_flight(state, id, FlightView { pending_latest: None, ..landed(state.flights[id]) })
    } else {
        with_flight(state, id, flight::closed_flight(state.flights[id]))
    };
    PipelineView {
        final_emitted_count: (state.final_emitted_count + 1) as usize,
        first_final_latency_ms: first_latency(state.first_final_latency_ms, elapsed_ms),
        ..settled
    }
}

/// A session after a transcription has come back.
pub open spec fn result_returned(
    state: PipelineView,
    result: ResultView,
    elapsed_ms: u64,
) -> PipelineView {
    match result {
        ResultView::Error(_) => state,
        ResultView::Final(success) => if success.partial {
            partial_returned(state, success, elapsed_ms)
        } else {
            final_returned(state, success, elapsed_ms)
        },
    }
}

/// What follows from a transcription that has come back.
pub open spec fn result_action(state: PipelineView, result: ResultView) -> ActionView {
    match result {
        ResultView::Error(message) => ActionView::Fail(message),
        ResultView::Final(success) => action_for(state, success),
    }
}

impl LivePipeline {
    /// Whether each utterance has at most one flight.
    pub open spec fn wf(&self) -> bool {
        self.partial_flights.wf()
    }

    /// A session in which nothing has happened yet.
    pub fn new(max_utterances: Option<usize>, partial_interval_ms: u64) -> (pipeline: Self)
        ensures
            pipeline.wf(),
            pipeline@ == (PipelineView {
                flights: Map::empty(),
                max_utterances,
                accepted_utterances: 0,
                completed_utterances: 0,
                partial_emitted_count: 0,
                partial_suppressed_count: 0,
                partial_rollback_suppressed_count: 0,
                final_emitted_count: 0,
                first_partial_latency_ms: None,
                first_final_latency_ms: None,
                partial_interval_ms,
            }),
    {
        LivePipeline {
            partial_flights: PartialFlights::new(),
            max_utterances,
            accepted_utterances: 0,
            completed_utterances: 0,
            partial_emitted_count: 0,
            partial_suppressed_count: 0,
            partial_rollback_suppressed_count: 0,
            final_emitted_count: 0,
            first_partial_latency_ms: None,
            first_final_latency_ms: None,
            partial_interval_ms,
        }
    }

    /// Whether the session has as many utterances as it may take.
    pub fn has_reached_limit(&self) -> (yes: bool)
        ensures
            yes == at_limit(self@),
    {
        match self.max_utterances {
            Some(limit) => self.accepted_utterances >= limit,
            None => false,
        }
    }

    /// Takes a snapshot of the utterance being spoken, and says whether it is to be
    /// sent right away.
    pub fn maybe_queue_partial_snapshot(
        &mut self,
        now_ms: u64,
        snapshot: Option<BufferedUtterance>,
    ) -> (dispatch: bool)
        requires
            old(self).wf(),
        ensures
            final(self).wf(),
            final(self)@ == snapshot_offered(old(self)@, now_ms, flight::opt_utterance(snapshot)),
            dispatch == snapshot_goes_out(old(self)@, now_ms, flight::opt_utterance(snapshot)),
    {
        let snapshot = match snapshot {
            Some(snapshot) => snapshot,
            None => {
                return false;
            },
        };
        let ghost start = self@;
        let at: usize = self.partial_flights.entry(snapshot.utterance_id.as_str());
        let ghost entered = self.partial_flights.entries@;
        if self.partial_flights.entries[at].1.finalized {
            return false;
        }
        let last_emit_ms: u64 = self.partial_flights.entries[at].1.last_emit_ms;
        if now_ms.saturating_sub(last_emit_ms) < self.partial_interval_ms {
            return false;
        }
        let dispatch = !self.partial_flights.entries[at].1.in_flight;
        let ghost id = snapshot.utterance_id@;
        self.partial_flights.entries[at].1.pending_latest = Some(snapshot);
        proof {
            flight::lemma_flight_changed(entered, self.partial_flights.entries@, at as int);
            assert(self@.flights =~= snapshot_offered(start, now_ms, Some(snapshot@)).flights);
        }
        dispatch
    }

    /// The snapshot of an utterance that may be sent now.
    pub fn pending_snapshot(&self, id: &str) -> (snapshot: Option<&BufferedUtterance>)
        requires
            self.wf(),
        ensures
            match snapshot {
                Some(snapshot) => snapshot_to_send(self@, id@) == Some(snapshot@),
                None => snapshot_to_send(self@, id@) is None,
            },
    {
        match self.partial_flights.get(id) {
            Some(flight) => if flight.finalized || flight.in_flight {
                None
            } else {
                flight.pending_latest.as_ref()
            },
            None => None,
        }
    }

    /// The job of the snapshot that may be sent now.
    pub fn next_partial_job(&self, id: &str) -> (job: Option<LiveTranscriptionJob>)
        requires
            self.wf(),
        ensures
            opt_job(job) == partial_job(self@, id@),
    {
        match self.partial_flights.get(id) {
            Some(flight) => {
                if flight.finalized || flight.in_flight {
                    return None;
                }
                match &flight.pending_latest {
                    Some(snapshot) => Some(
                        make_job(
                            snapshot,
                            true,
                            flight.next_revision.saturating_add(1),
                            flight.generation,
                        ),
                    ),
                    None => None,
                }
            },
            None => None,
        }
    }

    /// Records that the waiting snapshot was handed to the worker, and whether the
    /// worker took it.
    pub fn queue_next_partial(&mut self, id: &str, now_ms: u64, taken: bool)
        requires
            old(self).wf(),
        ensures
            final(self).wf(),
            final(self)@ == partial_sent(old(self)@, id@, now_ms, taken),
    {
        let at: usize = match self.partial_flights.find(id) {
            Some(at) => at,
            None => {
                return ;
            },
        };
        if self.partial_flights.entries[at].1.finalized
            || self.partial_flights.entries[at].1.in_flight
            || self.partial_flights.entries[at].1.pending_latest.is_none() {
            return ;
        }
        let ghost start = self@;
        let ghost before = self.partial_flights.entries@;
        let _ = self.partial_flights.entries[at].1.next_partial_revision();
        self.partial_flights.entries[at].1.last_emit_ms = now_ms;
        self.partial_flights.entries[at].1.in_flight = taken;
        if taken {
            self.partial_flights.entries[at].1.pending_latest = None;
        }
        proof {
            flight::lemma_flight_changed(before, self.partial_flights.entries@, at as int);
            assert(self@.flights =~= partial_sent(start, id@, now_ms, taken).flights);
        }
    }

    /// The job of a finished utterance.
    pub fn next_final_job(&self, utterance: &BufferedUtterance) -> (job: Option<
        LiveTranscriptionJob,
    >)
        requires
            self.wf(),
        ensures
            opt_job(job) == final_job(self@, utterance@),
    {
        if utterance.cancelled || self.has_reached_limit() {
            return None;
        }
        match self.partial_flights.get(utterance.utterance_id.as_str()) {
            Some(flight) => Some(
                make_job(
                    utterance,
                    false,
                    flight.next_revision.saturating_add(1),
                    flight.generation,
                ),
            ),
            None => Some(make_job(utterance, false, 1, 0)),
        }
    }

    /// Records that a finished utterance was handed to the worker, and whether the
    /// worker took it.
    pub fn queue_utterance(&mut self, utterance: &BufferedUtterance, taken: bool)
        requires
            old(self).wf(),
            has_room(old(self)@),
        ensures
            final(self).wf(),
            final(self)@ == final_sent(old(self)@, utterance@, taken),
    {
        if utterance.cancelled || self.has_reached_limit() {
            return ;
        }
        let ghost start = self@;
        let at: usize = self.partial_flights.entry(utterance.utterance_id.as_str());
        let ghost before = self.partial_flights.entries@;
        let _ = self.partial_flights.entries[at].1.next_final_revision();
        if taken {
            self.partial_flights.entries[at].1.invalidate_partials_for_final();
            self.accepted_utterances = self.accepted_utterances + 1;
        }
        proof {
            flight::lemma_flight_changed(before, self.partial_flights.entries@, at as int);
            assert(self@.flights =~= final_sent(start, utterance@, taken).flights);
        }
    }

    /// Takes a transcription that has come back, and says what follows from it.
    pub fn apply_transcription_result(
        &mut self,
        result: LiveTranscriptionResult,
        elapsed_ms: u64,
    ) -> (action: ResultAction)
        requires
            old(self).wf(),
            has_room(old(self)@),
        ensures
            final(self).wf(),
            final(self)@ == result_returned(old(self)@, result@, elapsed_ms),
            action@ == result_action(old(self)@, result@),
    {
        match result {
            LiveTranscriptionResult::Error(message) => ResultAction::Fail(message),
            LiveTranscriptionResult::Final(success) => if success.partial {
                self.apply_partial_text(success, elapsed_ms)
            } else {
                self.apply_final_text(success, elapsed_ms)
            },
        }
    }

    fn apply_partial_text(
        &mut self,
        success: LiveTranscriptionSuccess,
        elapsed_ms: u64,
    ) -> (action: ResultAction)
        requires
            old(self).wf(),
            has_room(old(self)@),
            success@.partial,
        ensures
            final(self).wf(),
            final(self)@ == partial_returned(old(self)@, success@, elapsed_ms),
            action@ == action_for(old(self)@, success@),
    {
        let ghost start = self@;
        let ghost id = success.utterance_id@;
        let at: usize = self.partial_flights.entry(success.utterance_id.as_str());
        let ghost before = self.partial_flights.entries@;
        self.partial_flights.entries[at].1.in_flight = false;
        let ghost landed_entries = self.partial_flights.entries@;
        proof {
            flight::lemma_flight_changed(before, landed_entries, at as int);
            assert(self@.flights =~= start.flights.insert(
                id,
                landed(flight::flight_of(start.flights, id)),
            ));
        }
        if self.partial_flights.entries[at].1.finalized || success.generation
            != self.partial_flights.entries[at].1.generation {
            return ResultAction::Stale;
        }
        if let Some(previous) = &self.partial_flights.entries[at].1.last_text {
            if text::same_text(previous.as_str(), success.text.as_str()) {
                self.partial_suppressed_count = self.partial_suppressed_count + 1;
                return ResultAction::Repeated;
            }
            if should_suppress_partial_rollback(previous.as_str(), success.text.as_str()) {
                self.partial_rollback_suppressed_count = self.partial_rollback_suppressed_count + 1;
                return ResultAction::RolledBack;
            }
        }
        self.partial_flights.entries[at].1.last_text = Some(success.text.as_str().to_owned());
        proof {
            flight::lemma_flight_changed(
                landed_entries,
                self.partial_flights.entries@,
                at as int,
            );
            assert(self@.flights =~= partial_returned(start, success@, elapsed_ms).flights);
        }
        self.partial_emitted_count = self.partial_emitted_count + 1;
        if self.first_partial_latency_ms.is_none() {
            self.first_partial_latency_ms = Some(elapsed_ms);
        }
        ResultAction::Partial(
            TranscriptUpdate {
                utterance_id: success.utterance_id,
                segment_id: success.segment_id,
                revision: success.revision as u64,
                text: success.text,
                start_ms: success.start_ms,
                end_ms: success.end_ms,
            },
        )
    }

    fn apply_final_text(
        &mut self,
        success: LiveTranscriptionSuccess,
        elapsed_ms: u64,
    ) -> (action: ResultAction)
        requires
            old(self).wf(),
            has_room(old(self)@),
            !success@.partial,
        ensures
            final(self).wf(),
            final(self)@ == final_returned(old(self)@, success@, elapsed_ms),
            action@ == action_for(old(self)@, success@),
    {
        let ghost start = self@;
        match self.partial_flights.find(success.utterance_id.as_str()) {
            Some(at) => {
                let ghost before = self.partial_flights.entries@;
                if self.partial_flights.entries[at].1.finalized {
                    self.partial_flights.entries[at].1.pending_latest = None;
                    self.partial_flights.entries[at].1.in_flight = false;
                } else {
                    self.partial_flights.entries[at].1.invalidate_partials_for_final();
                }
                proof {
                    flight::lemma_flight_changed(
                        before,
                        self.partial_flights.entries@,
                        at as int,
                    );
                    assert(self@.flights =~= final_returned(start, success@, elapsed_ms).flights);
                }
            },
            None => {},
        }
        self.final_emitted_count = self.final_emitted_count + 1;
        if self.first_final_latency_ms.is_none() {
            self.first_final_latency_ms = Some(elapsed_ms);
        }
        ResultAction::Final(
            TranscriptUpdate {
                utterance_id: success.utterance_id,
                segment_id: success.segment_id,
                revision: success.revision as u64,
                text: success.text,
                start_ms: success.start_ms,
                end_ms: success.end_ms,
            },
        )
    }

    /// Counts an utterance whose final text was entered in the transcript.
    pub fn count_completed(&mut self)
        requires
            old(self).wf(),
            has_room(old(self)@),
        ensures
            final(self).wf(),
            final(self)@ == (PipelineView {
                completed_utterances: (old(self)@.completed_utterances + 1) as usize,
                ..old(self)@
            }),
    {
        self.completed_utterances = self.completed_utterances + 1;
    }

    /// Whether a waiting snapshot is to be sent after a partial text has come back.
    pub fn queue_pending_partial_after_result(&self, id: &str, has_worker: bool) -> (send: bool)
        requires
            self.wf(),
        ensures
            send == (has_worker && self@.flights.contains_key(id@) && !self@.flights[id@].finalized
                && self@.flights[id@].pending_latest is Some),
    {
        match self.partial_flights.get(id) {
            Some(flight) => has_worker && !flight.finalized && flight.pending_latest.is_some(),
            None => false,
        }
    }
}

/// What holds of every session: the partial texts of a final utterance are set
/// aside, and no more utterances were taken than allowed.
pub open spec fn in_order(state: PipelineView) -> bool {
    &&& forall|id: Seq<char>| #[trigger]
        state.flights.contains_key(id) && state.flights[id].finalized
            ==> !state.flights[id].in_flight && state.flights[id].pending_latest is None
    &&& state.max_utterances is Some ==> state.accepted_utterances <= state.max_utterances->Some_0
}

/// What a session can go through.
pub enum PipelineEvent {
    Snapshot { now_ms: u64, snapshot: Option<UtteranceView> },
    PartialSent { id: Seq<char>, now_ms: u64, taken: bool },
    FinalSent { utterance: UtteranceView, taken: bool },
    Returned { result: ResultView, elapsed_ms: u64 },
}

/// A session after an event.
pub open spec fn after_event(state: PipelineView, event: PipelineEvent) -> PipelineView {
    match event {
        PipelineEvent::Snapshot { now_ms, snapshot } => snapshot_offered(state, now_ms, snapshot),
        PipelineEvent::PartialSent { id, now_ms, taken } => partial_sent(state, id, now_ms, taken),
        PipelineEvent::FinalSent { utterance, taken } => final_sent(state, utterance, taken),
        PipelineEvent::Returned { result, elapsed_ms } => result_returned(
            state,
            result,
            elapsed_ms,
        ),
    }
}

/// A session after events.
pub open spec fn after_events(state: PipelineView, events: Seq<PipelineEvent>) -> PipelineView
    decreases events.len(),
{
    if events.len() == 0 {
        state
    } else {
        after_event(after_events(state, events.drop_last()), events.last())
    }
}

/// A session starts in order and stays so: the partial texts of a final utterance
/// are set aside, and no more utterances are taken than allowed.
pub proof fn law_session_stays_in_order(state: PipelineView, events: Seq<PipelineEvent>)
    requires
        in_order(state),
        state.accepted_utterances + events.len() <= usize::MAX,
    ensures
        in_order(after_events(state, events)),
        after_events(state, events).accepted_utterances <= state.accepted_utterances
            + events.len(),
        after_events(state, events).max_utterances == state.max_utterances,
    decreases events.len(),
{
    if events.len() > 0 {
        let before = after_events(state, events.drop_last());
        law_session_stays_in_order(state, events.drop_last());
        let after = after_event(before, events.last());
        assert forall|id: Seq<char>| #[trigger]
            after.flights.contains_key(id) && after.flights[id].finalized implies !after.flights[id].in_flight
            && after.flights[id].pending_latest is None by {
            if before.flights.contains_key(id) {
                assert(before.flights[id].finalized ==> !before.flights[id].in_flight);
            }
        }
    }
}

/// Once an utterance is final it stays final, and its last partial text stays what
/// it was, whatever comes back later.
pub proof fn law_final_utterance_stays_final(
    state: PipelineView,
    events: Seq<PipelineEvent>,
    id: Seq<char>,
)
    requires
        state.flights.contains_key(id),
        state.flights[id].finalized,
    ensures
        after_events(state, events).flights.contains_key(id),
        after_events(state, events).flights[id].finalized,
        after_events(state, events).flights[id].last_text == state.flights[id].last_text,
    decreases events.len(),
{
    if events.len() > 0 {
        law_final_utterance_stays_final(state, events.drop_last(), id);
    }
}

/// A partial text of a final utterance, or of an earlier generation, changes
/// neither the transcript nor a counter.
pub proof fn law_late_partial_never_overrides(
    state: PipelineView,
    success: SuccessView,
    elapsed_ms: u64,
)
    requires
        success.partial,
        state.flights.contains_key(success.utterance_id),
        state.flights[success.utterance_id].finalized || success.generation
            != state.flights[success.utterance_id].generation,
    ensures
        action_for(state, success) is Stale,
        result_returned(state, ResultView::Final(success), elapsed_ms) == with_flight(
            state,
            success.utterance_id,
            landed(state.flights[success.utterance_id]),
        ),
{
}

/// A final text enters the transcript whatever came before it, and leaves no
/// snapshot of its utterance waiting or on its way.
pub proof fn law_final_text_always_enters(
    state: PipelineView,
    success: SuccessView,
    elapsed_ms: u64,
)
    requires
        !success.partial,
    ensures
        action_for(state, success) == ActionView::Final(update_for(success)),
        ({
            let after = result_returned(state, ResultView::Final(success), elapsed_ms);
            after.flights.contains_key(success.utterance_id) ==> {
                &&& after.flights[success.utterance_id].finalized
                &&& !after.flights[success.utterance_id].in_flight
                &&& after.flights[success.utterance_id].pending_latest is None
            }
        }),
{
}

/// A snapshot is only sent while none of its utterance is on its way; the one that
/// is taken then is, and until its text is back no other is sent.
pub proof fn law_one_snapshot_on_its_way(
    state: PipelineView,
    id: Seq<char>,
    now_ms: u64,
    later_ms: u64,
    offered: UtteranceView,
)
    requires
        partial_job(state, id) is Some,
        offered.utterance_id == id,
    ensures
        !state.flights[id].in_flight,
        ({
            let sent = partial_sent(state, id, now_ms, true);
            &&& sent.flights[id].in_flight
            &&& partial_job(sent, id) is None
            &&& partial_job(snapshot_offered(sent, later_ms, Some(offered)), id) is None
            &&& !snapshot_goes_out(sent, later_ms, Some(offered))
        }),
{
}

/// Of the snapshots that come in while one is on its way, the latest that was due
/// is the one that waits.
pub proof fn law_latest_snapshot_waits(
    state: PipelineView,
    now_ms: u64,
    snapshot: UtteranceView,
)
    requires
        !flight::flight_of(state.flights, snapshot.utterance_id).finalized,
        snapshot_is_due(
            flight::flight_of(state.flights, snapshot.utterance_id),
            now_ms,
            state.partial_interval_ms,
        ),
    ensures
        snapshot_offered(
            state,
            now_ms,
            Some(snapshot),
        ).flights[snapshot.utterance_id].pending_latest == Some(snapshot),
{
}

/// A snapshot that the worker did not take waits as before, and can be sent again.
pub proof fn law_refused_snapshot_waits(state: PipelineView, id: Seq<char>, now_ms: u64)
    requires
        partial_job(state, id) is Some,
    ensures
        snapshot_to_send(partial_sent(state, id, now_ms, false), id) == snapshot_to_send(state, id),
{
}

/// An utterance that the worker did not take is not made final, so its partial
/// texts still count.
pub proof fn law_refused_utterance_stays_open(state: PipelineView, utterance: UtteranceView)
    ensures
        final_sent(state, utterance, false).accepted_utterances == state.accepted_utterances,
        flight::flight_of(
            final_sent(state, utterance, false).flights,
            utterance.utterance_id,
        ).finalized == flight::flight_of(state.flights, utterance.utterance_id).finalized,
{
}

/// The revisions that an utterance's jobs are given never fall, and each is above
/// the last one given until they can no longer be counted.
pub proof fn law_revisions_rise(state: PipelineView, events: Seq<PipelineEvent>, id: Seq<char>)
    ensures
        flight::flight_of(state.flights, id).next_revision <= flight::flight_of(
            after_events(state, events).flights,
            id,
        ).next_revision,
        partial_job(after_events(state, events), id) is Some && flight::flight_of(
            state.flights,
            id,
        ).next_revision < u32::MAX ==> partial_job(after_events(state, events), id)->Some_0.revision
            > flight::flight_of(state.flights, id).next_revision,
    decreases events.len(),
{
    if events.len() > 0 {
        law_revisions_rise(state, events.drop_last(), id);
    }
}

/// A partial text enters the transcript only if it differs from the one before it
/// and does not merely take it back.
pub proof fn law_partial_text_moves_on(state: PipelineView, success: SuccessView)
    requires
        action_for(state, success) is Partial,
    ensures
        ({
            let last = flight::flight_of(state.flights, success.utterance_id).last_text;
            last is Some ==> last->Some_0 != success.text && !rolls_back(
                last->Some_0,
                success.text,
            )
        }),
{
}

/// A text that enters the transcript, as a partial or as the final one, enters it as it
/// came back: with its own words, and under the utterance, the segment, the revision
/// and the times that it came back with.
pub proof fn law_entered_text_is_the_returned_one(state: PipelineView, success: SuccessView)
    ensures
        ({
            let action = result_action(state, ResultView::Final(success));
            let entered = match action {
                ActionView::Partial(update) => Some(update),
                ActionView::Final(update) => Some(update),
                _ => None,
            };
            &&& action is Final <==> !success.partial
            &&& action is Partial ==> success.partial
            &&& !(action is Fail)
            &&& entered matches Some(update) ==> {
                &&& update.text == success.text
                &&& update.utterance_id == success.utterance_id
                &&& update.segment_id == success.segment_id
                &&& update.revision == success.revision
                &&& update.start_ms == success.start_ms
                &&& update.end_ms == success.end_ms
            }
        }),
{
}

/// A partial text of an utterance that is not final, of the utterance's generation,
/// enters the transcript unless it repeats the partial text before it, or is a beginning
/// of it that is at least eight bytes shorter. The first partial text always enters.
pub proof fn law_fresh_partial_text_enters(state: PipelineView, success: SuccessView)
    requires
        success.partial,
        state.flights.contains_key(success.utterance_id),
        !state.flights[success.utterance_id].finalized,
        state.flights[success.utterance_id].generation == success.generation,
    ensures
        ({
            let action = result_action(state, ResultView::Final(success));
            match state.flights[success.utterance_id].last_text {
                None => action is Partial,
                Some(last) => {
                    let before = text::trimmed(last);
                    let now = text::trimmed(success.text);
                    &&& action is Repeated <==> last == success.text
                    &&& action is RolledBack <==> {
                        &&& last != success.text
                        &&& 0 < now.len() <= before.len()
                        &&& before.take(now.len() as int) == now
                        &&& byte_length(before) - byte_length(now) >= 8
                    }
                    &&& action is Partial <==> !(action is Repeated) && !(action is RolledBack)
                },
            }
        }),
{
    if let Some(last) = state.flights[success.utterance_id].last_text {
        let before = text::trimmed(last);
        let now = text::trimmed(success.text);
        if now.len() <= before.len() {
            assert(before.subrange(0, now.len() as int) =~= before.take(now.len() as int));
        }
    }
}

/// What a session counts: each partial text that enters, each that is held back and
/// each final text counts once, under its own heading, and the latency of the first of
/// its kind is kept. Nothing else is counted, and an error changes nothing.
pub proof fn law_each_text_counts_once(state: PipelineView, result: ResultView, elapsed_ms: u64)
    requires
        has_room(state),
    ensures
        ({
            let after = result_returned(state, result, elapsed_ms);
            let action = result_action(state, result);
            &&& action is Fail <==> result is Error
            &&& action is Fail ==> action->Fail_0 == result->Error_0 && after == state
            &&& after.partial_emitted_count == state.partial_emitted_count + if action is Partial {
                1int
            } else {
                0
            }
            &&& after.partial_suppressed_count == state.partial_suppressed_count
                + if action is Repeated {
                1int
            } else {
                0
            }
            &&& after.partial_rollback_suppressed_count == state.partial_rollback_suppressed_count
                + if action is RolledBack {
                1int
            } else {
                0
            }
            &&& after.final_emitted_count == state.final_emitted_count + if action is Final {
                1int
            } else {
                0
            }
            &&& after.first_partial_latency_ms == if action is Partial
                && state.first_partial_latency_ms is None {
                Some(elapsed_ms)
            } else {
                state.first_partial_latency_ms
            }
            &&& after.first_final_latency_ms == if action is Final
                && state.first_final_latency_ms is None {
                Some(elapsed_ms)
            } else {
                state.first_final_latency_ms
            }
            &&& after.accepted_utterances == state.accepted_utterances
            &&& after.completed_utterances == state.completed_utterances
            &&& after.max_utterances == state.max_utterances
            &&& after.partial_interval_ms == state.partial_interval_ms
        }),
{
}

/// A text that comes back touches no utterance but its own. A partial text leaves its
/// utterance with nothing on its way; what it says is remembered exactly if it entered.
pub proof fn law_a_text_touches_its_own_utterance(
    state: PipelineView,
    success: SuccessView,
    elapsed_ms: u64,
    id: Seq<char>,
)
    ensures
        ({
            let after = result_returned(state, ResultView::Final(success), elapsed_ms);
            let own = success.utterance_id;
            &&& id != own ==> (after.flights.contains_key(id) <==> state.flights.contains_key(id))
                && after.flights[id] == state.flights[id]
            &&& success.partial ==> after.flights.contains_key(own)
                && !after.flights[own].in_flight
            &&& success.partial && state.flights.contains_key(own) ==> {
                &&& after.flights[own].last_text == if result_action(
                    state,
                    ResultView::Final(success),
                ) is Partial {
                    Some(success.text)
                } else {
                    state.flights[own].last_text
                }
                &&& after.flights[own].finalized == state.flights[own].finalized
                &&& after.flights[own].generation == state.flights[own].generation
                &&& after.flights[own].pending_latest == state.flights[own].pending_latest
            }
        }),
{
}

/// A session sends nothing of an utterance that it never saw, nothing partial of one
/// that is final or has a snapshot on its way, and otherwise the waiting snapshot, with
/// its own times, the next revision and the utterance's generation.
pub proof fn law_partial_job_is_the_waiting_snapshot(state: PipelineView, id: Seq<char>)
    ensures
        match partial_job(state, id) {
            Some(job) => {
                &&& state.flights.contains_key(id)
                &&& !state.flights[id].finalized && !state.flights[id].in_flight
                &&& state.flights[id].pending_latest matches Some(waiting)
                &&& job.partial
                &&& job.utterance_id == waiting.utterance_id
                &&& job.start_ms == waiting.start_ms && job.end_ms == waiting.end_ms
                &&& job.segment_id == waiting.utterance_id + "_seg_000001"@
                &&& job.display_name == waiting.utterance_id + ".partial.wav"@
                &&& state.flights[id].next_revision < u32::MAX ==> job.revision
                    == state.flights[id].next_revision + 1
                &&& job.generation == state.flights[id].generation
            },
            None => !state.flights.contains_key(id) || state.flights[id].finalized
                || state.flights[id].in_flight || state.flights[id].pending_latest is None,
        },
{
}

/// Every finished utterance that was not abandoned is sent while the session may take
/// more, with its own times and the next revision; its first revision is one.
pub proof fn law_finished_utterance_is_sent(state: PipelineView, utterance: UtteranceView)
    ensures
        match final_job(state, utterance) {
            Some(job) => {
                &&& !utterance.cancelled
                &&& state.max_utterances matches Some(limit) ==> state.accepted_utterances < limit
                &&& !job.partial
                &&& job.utterance_id == utterance.utterance_id
                &&& job.start_ms == utterance.start_ms && job.end_ms == utterance.end_ms
                &&& job.segment_id == utterance.utterance_id + "_seg_000001"@
                &&& job.display_name == utterance.utterance_id + ".wav"@
                &&& !state.flights.contains_key(utterance.utterance_id) ==> job.revision == 1
                    && job.generation == 0
                &&& state.flights.contains_key(utterance.utterance_id) ==> {
                    let current = state.flights[utterance.utterance_id];
                    &&& current.next_revision < u32::MAX ==> job.revision == current.next_revision
                        + 1
                    &&& job.generation == current.generation
                }
            },
            None => utterance.cancelled || (state.max_utterances matches Some(limit)
                && state.accepted_utterances >= limit),
        },
{
}

/// An utterance that the worker took is counted and final: nothing of it waits or is on
/// its way, and its generation moves on, so that a partial text sent before it comes
/// back stale. Other utterances stay as they were.
pub proof fn law_taken_utterance_is_final(
    state: PipelineView,
    utterance: UtteranceView,
    success: SuccessView,
    id: Seq<char>,
)
    requires
        final_job(state, utterance) is Some,
        state.accepted_utterances < usize::MAX,
        success.partial,
        success.utterance_id == utterance.utterance_id,
        id != utterance.utterance_id,
    ensures
        ({
            let after = final_sent(state, utterance, true);
            let own = utterance.utterance_id;
            &&& after.accepted_utterances == state.accepted_utterances + 1
            &&& after.flights.contains_key(own)
            &&& after.flights[own].finalized && !after.flights[own].in_flight
            &&& after.flights[own].pending_latest is None
            &&& state.flights.contains_key(own) && state.flights[own].generation < u64::MAX
                ==> after.flights[own].generation == state.flights[own].generation + 1
            &&& result_action(after, ResultView::Final(success)) is Stale
            &&& after.flights.contains_key(id) == state.flights.contains_key(id)
            &&& after.flights[id] == state.flights[id]
        }),
{
}

/// A snapshot waits exactly if its utterance is not final and the interval has passed
/// since the last one was sent; one that is not due replaces nothing. No counter moves,
/// and no other utterance changes.
pub proof fn law_snapshot_waits_when_it_is_due(
    state: PipelineView,
    now_ms: u64,
    snapshot: UtteranceView,
    id: Seq<char>,
)
    requires
        state.flights.contains_key(snapshot.utterance_id),
        now_ms >= state.flights[snapshot.utterance_id].last_emit_ms,
    ensures
        ({
            let own = snapshot.utterance_id;
            let before = state.flights[own];
            let after = snapshot_offered(state, now_ms, Some(snapshot));
            let due = !before.finalized && now_ms - before.last_emit_ms >= state.partial_interval_ms;
            &&& after.flights[own].pending_latest == if due {
                Some(snapshot)
            } else {
                before.pending_latest
            }
            &&& after.flights[own].in_flight == before.in_flight
            &&& after.flights[own].finalized == before.finalized
            &&& after.flights[own].last_text == before.last_text
            &&& after.flights[own].next_revision == before.next_revision
            &&& after.flights[own].last_emit_ms == before.last_emit_ms
            &&& snapshot_goes_out(state, now_ms, Some(snapshot)) <==> due && !before.in_flight
            &&& id != own ==> after.flights[id] == state.flights[id]
                && after.flights.contains_key(id) == state.flights.contains_key(id)
            &&& after.accepted_utterances == state.accepted_utterances
            &&& after.partial_emitted_count == state.partial_emitted_count
        }),
        snapshot_offered(state, now_ms, None) == state,
        !snapshot_goes_out(state, now_ms, None),
{
}

/// A snapshot that the worker took is on its way and no longer waits, the time of its
/// sending is kept, and the next revision is the one that it was given.
pub proof fn law_sent_snapshot_is_on_its_way(state: PipelineView, id: Seq<char>, now_ms: u64)
    requires
        partial_job(state, id) is Some,
    ensures
        ({
            let after = partial_sent(state, id, now_ms, true);
            &&& after.flights[id].in_flight
            &&& after.flights[id].pending_latest is None
            &&& after.flights[id].last_emit_ms == now_ms
            &&& after.flights[id].next_revision == partial_job(state, id)->Some_0.revision
            &&& after.flights[id].generation == state.flights[id].generation
            &&& after.flights[id].last_text == state.flights[id].last_text
            &&& !after.flights[id].finalized
        }),
{
}

/// A text is as many bytes long as its parts are together, and a character takes one
/// byte in ASCII, and two, three or four beyond it.
pub proof fn law_byte_length_adds_up(left: Seq<char>, right: Seq<char>, c: char)
    ensures
        byte_length(left + right) == byte_length(left) + byte_length(right),
        byte_length(seq![c]) == if c as u32 <= 0x7f {
            1nat
        } else if c as u32 <= 0x7ff {
            2
        } else if c as u32 <= 0xffff {
            3
        } else {
            4
        },
    decreases right.len(),
{
    assert(seq![c].drop_last() =~= seq![]);
    reveal_with_fuel(byte_length, 2);
    if right.len() == 0 {
        assert(left + right =~= left);
    } else {
        law_byte_length_adds_up(left, right.drop_last(), c);
        assert((left + right).drop_last() =~= left + right.drop_last());
    }
}

} // verus!
