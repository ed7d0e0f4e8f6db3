//! Live utterances on their way through transcription: the snapshots that are
//! transcribed while an utterance lasts, and the final text that replaces them.

use vstd::prelude::*;

use crate::table;
use crate::text;
use crate::wav;

verus! {

/// How many bytes shorter a partial text must be before it counts as a step back.
pub const PARTIAL_ROLLBACK_SUPPRESS_MIN_DELTA_CHARS: usize = 8;

/// The audio of an utterance.
pub struct BufferedUtterance {
    pub utterance_id: String,
    pub start_ms: u64,
    pub end_ms: u64,
    pub frames: Vec<Vec<i16>>,
    /// Whether the utterance was abandoned rather than ended.
    pub cancelled: bool,
}

/// The audio of an utterance, as plain sequences.
#[verifier::ext_equal]
pub struct UtteranceView {
    pub utterance_id: Seq<char>,
    pub start_ms: u64,
    pub end_ms: u64,
    pub frames: Seq<Seq<i16>>,
    pub cancelled: bool,
}

impl View for BufferedUtterance {
    type V = UtteranceView;

    open spec fn view(&self) -> UtteranceView {
        UtteranceView {
            utterance_id: self.utterance_id@,
            start_ms: self.start_ms,
            end_ms: self.end_ms,
            frames: self.frames@.map_values(|frame: Vec<i16>| frame@),
            cancelled: self.cancelled,
        }
    }
}

/// The samples of frames, one frame after the other.
pub open spec fn joined_samples(frames: Seq<Seq<i16>>) -> Seq<i16>
    decreases frames.len(),
{
    if frames.len() == 0 {
        seq![]
    } else {
        joined_samples(frames.drop_last()) + frames.last()
    }
}

impl BufferedUtterance {
    /// The samples of the utterance, in order.
    pub fn samples(&self) -> (out: Vec<i16>)
        ensures
            out@ == joined_samples(self@.frames),
    {
        let mut out: Vec<i16> = Vec::new();
        let mut i: usize = 0;
        assert(joined_samples(self@.frames.take(0)) =~= seq![]);
        while i < self.frames.len()
            invariant
                i <= self.frames@.len(),
                out@ == joined_samples(self@.frames.take(i as int)),
            decreases self.frames@.len() - i,
        {
            let frame = &self.frames[i];
            let mut j: usize = 0;
            let ghost before = out@;
            while j < frame.len()
                invariant
                    j <= frame@.len(),
                    out@ == before + frame@.take(j as int),
                decreases frame@.len() - j,
            {
                out.push(frame[j]);
                assert(frame@.take(j + 1) =~= frame@.take(j as int).push(frame@[j as int]));
                j += 1;
            }
            proof {
                let taken = self@.frames.take(i + 1);
                assert(frame@.take(j as int) =~= frame@);
                assert(taken.drop_last() =~= self@.frames.take(i as int));
                assert(taken.last() == frame@);
            }
            i += 1;
        }
        assert(self@.frames.take(i as int) =~= self@.frames);
        out
    }

    /// The utterance as a WAV file.
    pub fn wav(&self) -> (out: Vec<u8>)
        requires
            joined_samples(self@.frames).len() * 2 <= usize::MAX,
            36 + wav::data_length(joined_samples(self@.frames).len()) <= u32::MAX,
        ensures
            out@ == wav::wav_file(joined_samples(self@.frames)),
    {
        let samples = self.samples();
        wav::write_pcm16_mono_16khz_wav(samples.as_slice())
    }
}

/// Where the transcription of one utterance stands.
pub struct PartialFlight {
    pub in_flight: bool,
    pub pending_latest: Option<BufferedUtterance>,
    pub finalized: bool,
    pub generation: u64,
    pub last_emit_ms: u64,
    pub next_revision: u32,
    pub last_text: Option<String>,
}

/// Where the transcription of one utterance stands, as plain values.
#[verifier::ext_equal]
pub struct FlightView {
    pub in_flight: bool,
    pub pending_latest: Option<UtteranceView>,
    pub finalized: bool,
    pub generation: u64,
    pub last_emit_ms: u64,
    pub next_revision: u32,
    pub last_text: Option<Seq<char>>,
}

/// The view of an optional utterance.
pub open spec fn opt_utterance(item: Option<BufferedUtterance>) -> Option<UtteranceView> {
    match item {
        Some(utterance) => Some(utterance@),
        None => None,
    }
}

impl View for PartialFlight {
    type V = FlightView;

    open spec fn view(&self) -> FlightView {
        FlightView {
            in_flight: self.in_flight,
            pending_latest: opt_utterance(self.pending_latest),
            finalized: self.finalized,
            generation: self.generation,
            last_emit_ms: self.last_emit_ms,
            next_revision: self.next_revision,
            last_text: text::opt_string(self.last_text),
        }
    }
}

/// A flight that has seen nothing yet.
pub open spec fn fresh_flight() -> FlightView {
    FlightView {
        in_flight: false,
        pending_latest: None,
        finalized: false,
        generation: 0,
        last_emit_ms: 0,
        next_revision: 0,
        last_text: None,
    }
}

/// The revision that follows, or the last that can be counted.
pub open spec fn following_revision(revision: u32) -> u32 {
    if revision == u32::MAX {
        u32::MAX
    } else {
        (revision + 1) as u32
    }
}

/// The generation that follows, or the last that can be counted.
pub open spec fn following_generation(generation: u64) -> u64 {
    if generation == u64::MAX {
        u64::MAX
    } else {
        (generation + 1) as u64
    }
}

/// A flight whose partial texts no longer count.
pub open spec fn closed_flight(flight: FlightView) -> FlightView {
    FlightView {
        finalized: true,
        pending_latest: None,
        in_flight: false,
        generation: following_generation(flight.generation),
        ..flight
    }
}

/// A flight that has given out its next revision.
pub open spec fn counted_flight(flight: FlightView) -> FlightView {
    FlightView { next_revision: following_revision(flight.next_revision), ..flight }
}

impl PartialFlight {
    /// A flight that has seen nothing yet.
    pub fn new() -> (flight: PartialFlight)
        ensures
            flight@ == fresh_flight(),
    {
        PartialFlight {
            in_flight: false,
            pending_latest: None,
            finalized: false,
            generation: 0,
            last_emit_ms: 0,
            next_revision: 0,
            last_text: None,
        }
    }

    fn next_counted_revision(&mut self) -> (revision: u32)
        ensures
            final(self)@ == counted_flight(old(self)@),
            revision == final(self)@.next_revision,
    {
        let counted: u32 = self.next_revision.saturating_add(1);
        self.next_revision = if counted < 1 {
            1
        } else {
            counted
        };
        self.next_revision
    }

    /// Gives out the revision of the next partial text.
    pub fn next_partial_revision(&mut self) -> (revision: u32)
        ensures
            final(self)@ == counted_flight(old(self)@),
            revision == final(self)@.next_revision,
    {
        self.next_counted_revision()
    }

    /// Gives out the revision of the final text.
    pub fn next_final_revision(&mut self) -> (revision: u32)
        ensures
            final(self)@ == counted_flight(old(self)@),
            revision == final(self)@.next_revision,
    {
        self.next_counted_revision()
    }

    /// Sets the partial texts aside in favour of the final one.
    pub fn invalidate_partials_for_final(&mut self)
        ensures
            final(self)@ == closed_flight(old(self)@),
    {
        self.finalized = true;
        self.pending_latest = None;
        self.in_flight = false;
        self.generation = self.generation.saturating_add(1);
    }
}

/// The flights of a session, by utterance.
pub struct PartialFlights {
    pub entries: Vec<(String, PartialFlight)>,
}

/// Entries with their keys and flights as plain values.
pub open spec fn plain_entries(entries: Seq<(String, PartialFlight)>) -> Seq<
    (Seq<char>, FlightView),
> {
    entries.map_values(|entry: (String, PartialFlight)| (entry.0@, entry.1@))
}

/// The flight of an utterance, or a fresh one.
pub open spec fn flight_of(flights: Map<Seq<char>, FlightView>, id: Seq<char>) -> FlightView {
    if flights.contains_key(id) {
        flights[id]
    } else {
        fresh_flight()
    }
}

/// Changing one flight changes the mapping at its utterance alone.
pub proof fn lemma_flight_changed(
    before: Seq<(String, PartialFlight)>,
    after: Seq<(String, PartialFlight)>,
    at: int,
)
    requires
        table::distinct_keys(plain_entries(before)),
        0 <= at < before.len(),
        after.len() == before.len(),
        after[at].0@ == before[at].0@,
        forall|k: int| 0 <= k < before.len() && k != at ==> after[k] == before[k],
    ensures
        table::distinct_keys(plain_entries(after)),
        table::mapping(plain_entries(after)) == table::mapping(plain_entries(before)).insert(
            before[at].0@,
            after[at].1@,
        ),
{
    let plain = plain_entries(before);
    table::lemma_update(plain, at, after[at].1@);
    assert(plain_entries(after) =~= plain.update(at, (plain[at].0, after[at].1@)));
}

impl PartialFlights {
    /// The flights by utterance.
    pub open spec fn map(&self) -> Map<Seq<char>, FlightView> {
        table::mapping(plain_entries(self.entries@))
    }

    /// Whether each utterance has at most one flight.
    pub open spec fn wf(&self) -> bool {
        table::distinct_keys(plain_entries(self.entries@))
    }

    /// No flights.
    pub fn new() -> (flights: Self)
        ensures
            flights.wf(),
            flights.map() == Map::<Seq<char>, FlightView>::empty(),
    {
        let flights = PartialFlights { entries: Vec::new() };
        assert(flights.map() =~= Map::<Seq<char>, FlightView>::empty());
        flights
    }

    /// Where the flight of an utterance stands.
    pub fn find(&self, id: &str) -> (at: Option<usize>)
        requires
            self.wf(),
        ensures
            match at {
                Some(at) => {
                    &&& at < self.entries@.len()
                    &&& self.entries@[at as int].0@ == id@
                    &&& self.map().contains_key(id@)
                    &&& self.map()[id@] == self.entries@[at as int].1@
                },
                None => !self.map().contains_key(id@),
            },
    {
        let mut i: usize = 0;
        while i < self.entries.len()
            invariant
                self.wf(),
                i <= self.entries@.len(),
                forall|k: int| 0 <= k < i ==> (#[trigger] self.entries@[k]).0@ != id@,
            decreases self.entries@.len() - i,
        {
            if text::same_text(self.entries[i].0.as_str(), id) {
                proof {
                    table::lemma_entry(plain_entries(self.entries@), i as int);
                }
                return Some(i);
            }
            i += 1;
        }
        proof {
            let plain = plain_entries(self.entries@);
            if table::has_key(plain, id@) {
                let k = choose|k: int| 0 <= k < plain.len() && (#[trigger] plain[k]).0 == id@;
                assert(self.entries@[k].0@ == id@);
            }
        }
        None
    }

    /// The flight of an utterance.
    pub fn get(&self, id: &str) -> (flight: Option<&PartialFlight>)
        requires
            self.wf(),
        ensures
            match flight {
                Some(flight) => self.map().contains_key(id@) && flight@ == self.map()[id@],
                None => !self.map().contains_key(id@),
            },
    {
        match self.find(id) {
            Some(at) => Some(&self.entries[at].1),
            None => None,
        }
    }

    /// Where the flight of an utterance stands, after a fresh one was entered if
    /// there was none.
    pub fn entry(&mut self, id: &str) -> (at: usize)
        requires
            old(self).wf(),
        ensures
            final(self).wf(),
            at < final(self).entries@.len(),
            final(self).entries@[at as int].0@ == id@,
            final(self).entries@[at as int].1@ == flight_of(old(self).map(), id@),
            final(self).map() == old(self).map().insert(id@, flight_of(old(self).map(), id@)),
    {
        match self.find(id) {
            Some(at) => {
                assert(self.map() =~= self.map().insert(id@, flight_of(self.map(), id@)));
                at
            },
            None => {
                let at: usize = self.entries.len();
                let key = id.to_owned();
                let flight = PartialFlight::new();
                proof {
                    let plain = plain_entries(self.entries@);
                    table::lemma_push(plain, id@, fresh_flight());
                    assert(plain_entries(self.entries@.push((key, flight))) =~= plain.push(
                        (id@, fresh_flight()),
                    ));
                }
                self.entries.push((key, flight));
                at
            },
        }
    }
}

/// The samples of frames stand one after the other: those of two lists are those of the
/// first and then those of the second, and one frame has its own.
pub proof fn law_samples_are_joined_in_order(
    left: Seq<Seq<i16>>,
    right: Seq<Seq<i16>>,
    frame: Seq<i16>,
)
    ensures
        joined_samples(left + right) == joined_samples(left) + joined_samples(right),
        joined_samples(seq![frame]) == frame,
        joined_samples(seq![]).len() == 0,
    decreases right.len(),
{
    assert(seq![frame].drop_last() =~= seq![]);
    reveal_with_fuel(joined_samples, 2);
    assert(joined_samples(seq![frame]) =~= frame);
    if right.len() == 0 {
        assert(left + right =~= left);
        assert(joined_samples(left) + joined_samples(right) =~= joined_samples(left));
    } else {
        law_samples_are_joined_in_order(left, right.drop_last(), frame);
        assert((left + right).drop_last() =~= left + right.drop_last());
        assert(joined_samples(left + right) =~= joined_samples(left) + joined_samples(right));
    }
}

/// A flight starts with nothing seen; closing one makes it final and moves its generation
/// on, counting one gives out the next revision, and both leave the rest alone.
pub proof fn law_flight_is_closed_and_counted(flight: FlightView)
    ensures
        !fresh_flight().in_flight && !fresh_flight().finalized,
        fresh_flight().pending_latest is None && fresh_flight().last_text is None,
        fresh_flight().generation == 0 && fresh_flight().next_revision == 0,
        fresh_flight().last_emit_ms == 0,
        closed_flight(flight).finalized && !closed_flight(flight).in_flight,
        closed_flight(flight).pending_latest is None,
        flight.generation < u64::MAX ==> closed_flight(flight).generation == flight.generation + 1,
        flight.generation == u64::MAX ==> closed_flight(flight).generation == u64::MAX,
        closed_flight(flight).next_revision == flight.next_revision,
        closed_flight(flight).last_text == flight.last_text,
        closed_flight(flight).last_emit_ms == flight.last_emit_ms,
        flight.next_revision < u32::MAX ==> counted_flight(flight).next_revision
            == flight.next_revision + 1,
        flight.next_revision == u32::MAX ==> counted_flight(flight).next_revision == u32::MAX,
        counted_flight(flight).finalized == flight.finalized,
        counted_flight(flight).in_flight == flight.in_flight,
        counted_flight(flight).pending_latest == flight.pending_latest,
        counted_flight(flight).generation == flight.generation,
        counted_flight(flight).last_text == flight.last_text,
{
}

/// An utterance has the flight that was kept for it, and a fresh one where none was.
pub proof fn law_an_utterance_has_its_flight(flights: Map<Seq<char>, FlightView>, id: Seq<char>)
    ensures
        flights.contains_key(id) ==> flight_of(flights, id) == flights[id],
        !flights.contains_key(id) ==> flight_of(flights, id) == fresh_flight(),
{
}

} // verus!
