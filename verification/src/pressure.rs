//! The memory-pressure helper: how much memory it may commit to push a candidate
//! past its admission threshold, and when it must stop.

use vstd::prelude::*;

use crate::text;

verus! {

/// The schema of helper events.
pub const PRESSURE_HELPER_SCHEMA: &'static str = "openasr.windows-memory-pressure-helper.v1";

/// The lowest absolute floor that a caller may ask for.
pub const MIN_ABSOLUTE_FLOOR_BYTES: u64 = 0x8000_0000;

/// The lowest proportional floor that a caller may ask for.
pub const MIN_PROPORTIONAL_FLOOR_BASIS_POINTS: u16 = 2_000;

/// The highest proportional floor that a caller may ask for.
pub const MAX_PROPORTIONAL_FLOOR_BASIS_POINTS: u16 = 9_000;

/// The shortest lifetime that a caller may ask for.
pub const MIN_TIMEOUT_SECONDS: u64 = 5;

/// The longest lifetime that a caller may ask for.
pub const MAX_TIMEOUT_SECONDS: u64 = 120;

/// How far below the candidate's request available memory is pushed.
pub const CROSSING_MARGIN_BYTES: u64 = 0x0400_0000;

/// How far above the safety floor the plan stays.
pub const FLOOR_GUARD_BYTES: u64 = 0x1000_0000;

/// The most that one step commits.
pub const ALLOCATION_CHUNK_BYTES: u64 = 0x0400_0000;

/// What the helper was asked for.
#[derive(Clone, Copy, Debug, PartialEq, Eq, Structural)]
pub struct PressureHelperOptions {
    pub parent_pid: u32,
    pub candidate_required_bytes: u64,
    pub absolute_floor_bytes: u64,
    pub proportional_floor_basis_points: u16,
    pub timeout_seconds: u64,
}

/// The bounds that the helper keeps to.
#[derive(Clone, Copy, Debug, PartialEq, Eq, Structural)]
pub struct PressurePlan {
    pub total_memory_bytes: u64,
    pub initial_available_bytes: u64,
    pub safety_floor_bytes: u64,
    pub target_available_bytes: u64,
    pub maximum_committed_bytes: u64,
}

/// Why the helper stops.
#[derive(Clone, Copy, Debug, PartialEq, Eq, Structural)]
pub enum PressureError {
    ParentNotDistinct,
    AbsoluteFloorTooLow,
    ProportionalFloorOutOfRange,
    TimeoutOutOfRange,
    MemoryUnknown,
    BaselineInadmissible,
    FloorOverflows,
    BaselineInsideFloor,
    CandidateTooSmall,
    CrossingViolatesFloor,
    CrossingExceedsBudget,
    AllocationTooLarge,
    FloorCrossed,
    ThresholdNotCrossed,
    ControlFailed,
    InvalidRelease,
    ControlClosed,
    ParentExited,
    TimedOut,
    NotRecovered,
}

/// The message of a helper error.
pub open spec fn pressure_message(error: PressureError) -> Seq<char> {
    match error {
        PressureError::ParentNotDistinct => "parent_pid must identify a distinct live parent process"@,
        PressureError::AbsoluteFloorTooLow => "absolute_floor_bytes must be at least "@ + text::decimal(MIN_ABSOLUTE_FLOOR_BYTES as nat),
        PressureError::ProportionalFloorOutOfRange => "proportional_floor_basis_points must be between "@ + text::decimal(MIN_PROPORTIONAL_FLOOR_BASIS_POINTS as nat) + " and "@ + text::decimal(MAX_PROPORTIONAL_FLOOR_BASIS_POINTS as nat),
        PressureError::TimeoutOutOfRange => "timeout_seconds must be between "@ + text::decimal(MIN_TIMEOUT_SECONDS as nat) + " and "@ + text::decimal(MAX_TIMEOUT_SECONDS as nat),
        PressureError::MemoryUnknown => "native host memory observation is unavailable"@,
        PressureError::BaselineInadmissible => "baseline is already inadmissible for the candidate"@,
        PressureError::FloorOverflows => "configured safety floor overflows"@,
        PressureError::BaselineInsideFloor => "baseline available memory is already inside the guarded safety floor"@,
        PressureError::CandidateTooSmall => "candidate request is smaller than the required crossing margin"@,
        PressureError::CrossingViolatesFloor => "the candidate rejection threshold cannot be crossed without violating safety floors"@,
        PressureError::CrossingExceedsBudget => "the candidate rejection threshold cannot be reached inside the bounded allocation budget"@,
        PressureError::AllocationTooLarge => "pressure allocation does not fit this process address space"@,
        PressureError::FloorCrossed => "native available memory crossed the configured safety floor"@,
        PressureError::ThresholdNotCrossed => "bounded pressure did not cross the candidate rejection threshold"@,
        PressureError::ControlFailed => "pressure-helper control channel failed"@,
        PressureError::InvalidRelease => "pressure-helper received an invalid release command"@,
        PressureError::ControlClosed => "pressure-helper control channel closed without release"@,
        PressureError::ParentExited => "qualification parent exited while pressure was active"@,
        PressureError::TimedOut => "pressure-helper hard timeout expired"@,
        PressureError::NotRecovered => "available memory did not recover after releasing pressure"@,
    }
}

impl PressureError {
    /// The message shown for the error.
    pub fn message(self) -> (text: String)
        ensures
            text@ == pressure_message(self),
    {
        match self {
            PressureError::ParentNotDistinct => "parent_pid must identify a distinct live parent process".to_owned(),
            PressureError::AbsoluteFloorTooLow => {
                let mut out = "absolute_floor_bytes must be at least ".to_owned();
                out.append(text::decimal_text(MIN_ABSOLUTE_FLOOR_BYTES).as_str());
                out
            },
            PressureError::ProportionalFloorOutOfRange => {
                let mut out = "proportional_floor_basis_points must be between ".to_owned();
                out.append(text::decimal_text(MIN_PROPORTIONAL_FLOOR_BASIS_POINTS as u64).as_str());
                out.append(" and ");
                out.append(text::decimal_text(MAX_PROPORTIONAL_FLOOR_BASIS_POINTS as u64).as_str());
                out
            },
            PressureError::TimeoutOutOfRange => {
                let mut out = "timeout_seconds must be between ".to_owned();
                out.append(text::decimal_text(MIN_TIMEOUT_SECONDS).as_str());
                out.append(" and ");
                out.append(text::decimal_text(MAX_TIMEOUT_SECONDS).as_str());
                out
            },
            PressureError::MemoryUnknown => "native host memory observation is unavailable".to_owned(),
            PressureError::BaselineInadmissible => "baseline is already inadmissible for the candidate".to_owned(),
            PressureError::FloorOverflows => "configured safety floor overflows".to_owned(),
            PressureError::BaselineInsideFloor => "baseline available memory is already inside the guarded safety floor".to_owned(),
            PressureError::CandidateTooSmall => "candidate request is smaller than the required crossing margin".to_owned(),
            PressureError::CrossingViolatesFloor => "the candidate rejection threshold cannot be crossed without violating safety floors".to_owned(),
            PressureError::CrossingExceedsBudget => "the candidate rejection threshold cannot be reached inside the bounded allocation budget".to_owned(),
            PressureError::AllocationTooLarge => "pressure allocation does not fit this process address space".to_owned(),
            PressureError::FloorCrossed => "native available memory crossed the configured safety floor".to_owned(),
            PressureError::ThresholdNotCrossed => "bounded pressure did not cross the candidate rejection threshold".to_owned(),
            PressureError::ControlFailed => "pressure-helper control channel failed".to_owned(),
            PressureError::InvalidRelease => "pressure-helper received an invalid release command".to_owned(),
            PressureError::ControlClosed => "pressure-helper control channel closed without release".to_owned(),
            PressureError::ParentExited => "qualification parent exited while pressure was active".to_owned(),
            PressureError::TimedOut => "pressure-helper hard timeout expired".to_owned(),
            PressureError::NotRecovered => "available memory did not recover after releasing pressure".to_owned(),
        }
    }
}

/// The smaller of two numbers.
pub open spec fn min_of(a: int, b: int) -> int {
    if a <= b {
        a
    } else {
        b
    }
}

/// The larger of two numbers.
pub open spec fn max_of(a: int, b: int) -> int {
    if a >= b {
        a
    } else {
        b
    }
}

/// The share of the memory that must stay available; the product is cut off at
/// the largest 64-bit number.
pub open spec fn proportional_floor(options: PressureHelperOptions, total: u64) -> int {
    min_of(total * options.proportional_floor_basis_points, u64::MAX as int) / 10_000
}

/// The memory that must stay available.
pub open spec fn safety_floor(options: PressureHelperOptions, total: u64) -> int {
    max_of(options.absolute_floor_bytes as int, proportional_floor(options, total))
}

/// The memory that the plan leaves available at the least.
pub open spec fn guarded_floor(options: PressureHelperOptions, total: u64) -> int {
    safety_floor(options, total) + FLOOR_GUARD_BYTES
}

/// The most that the plan commits: what lies above the guarded floor, at most
/// half of the memory.
pub open spec fn commit_limit(options: PressureHelperOptions, total: u64, available: u64) -> int {
    min_of(available - guarded_floor(options, total), total as int / 2)
}

/// Why no plan is made, in the order in which the reasons are looked for.
pub open spec fn plan_fault(
    options: PressureHelperOptions,
    own_pid: u32,
    total: u64,
    available: u64,
) -> Option<PressureError> {
    let candidate = options.candidate_required_bytes;
    let basis_points = options.proportional_floor_basis_points;
    if options.parent_pid == 0 || options.parent_pid == own_pid {
        Some(PressureError::ParentNotDistinct)
    } else if options.absolute_floor_bytes < MIN_ABSOLUTE_FLOOR_BYTES {
        Some(PressureError::AbsoluteFloorTooLow)
    } else if !(MIN_PROPORTIONAL_FLOOR_BASIS_POINTS <= basis_points
        <= MAX_PROPORTIONAL_FLOOR_BASIS_POINTS) {
        Some(PressureError::ProportionalFloorOutOfRange)
    } else if !(MIN_TIMEOUT_SECONDS <= options.timeout_seconds <= MAX_TIMEOUT_SECONDS) {
        Some(PressureError::TimeoutOutOfRange)
    } else if total == 0 || available == 0 {
        Some(PressureError::MemoryUnknown)
    } else if available <= candidate {
        Some(PressureError::BaselineInadmissible)
    } else if guarded_floor(options, total) > u64::MAX {
        Some(PressureError::FloorOverflows)
    } else if available <= guarded_floor(options, total) {
        Some(PressureError::BaselineInsideFloor)
    } else if candidate < CROSSING_MARGIN_BYTES {
        Some(PressureError::CandidateTooSmall)
    } else if candidate - CROSSING_MARGIN_BYTES <= guarded_floor(options, total) {
        Some(PressureError::CrossingViolatesFloor)
    } else if available - (candidate - CROSSING_MARGIN_BYTES) > commit_limit(
        options,
        total,
        available,
    ) {
        Some(PressureError::CrossingExceedsBudget)
    } else {
        None
    }
}

impl PressurePlan {
    /// Plans how far memory may be pushed. `own_pid` is the helper's own process.
    pub fn build(
        options: PressureHelperOptions,
        own_pid: u32,
        total_memory_bytes: u64,
        initial_available_bytes: u64,
    ) -> (plan: Result<Self, PressureError>)
        ensures
            match plan_fault(options, own_pid, total_memory_bytes, initial_available_bytes) {
                Some(error) => plan == Err::<Self, PressureError>(error),
                None => plan matches Ok(plan) && {
                    &&& plan.total_memory_bytes == total_memory_bytes
                    &&& plan.initial_available_bytes == initial_available_bytes
                    &&& plan.safety_floor_bytes == safety_floor(options, total_memory_bytes)
                    &&& plan.target_available_bytes == options.candidate_required_bytes
                        - CROSSING_MARGIN_BYTES
                    &&& plan.maximum_committed_bytes == commit_limit(
                        options,
                        total_memory_bytes,
                        initial_available_bytes,
                    )
                },
            },
    {
        if options.parent_pid == 0 || options.parent_pid == own_pid {
            return Err(PressureError::ParentNotDistinct);
        }
        if options.absolute_floor_bytes < MIN_ABSOLUTE_FLOOR_BYTES {
            return Err(PressureError::AbsoluteFloorTooLow);
        }
        if !(MIN_PROPORTIONAL_FLOOR_BASIS_POINTS <= options.proportional_floor_basis_points
            && options.proportional_floor_basis_points <= MAX_PROPORTIONAL_FLOOR_BASIS_POINTS) {
            return Err(PressureError::ProportionalFloorOutOfRange);
        }
        if !(MIN_TIMEOUT_SECONDS <= options.timeout_seconds && options.timeout_seconds
            <= MAX_TIMEOUT_SECONDS) {
            return Err(PressureError::TimeoutOutOfRange);
        }
        if total_memory_bytes == 0 || initial_available_bytes == 0 {
            return Err(PressureError::MemoryUnknown);
        }
        if initial_available_bytes <= options.candidate_required_bytes {
            return Err(PressureError::BaselineInadmissible);
        }
        let scaled: u64 = match total_memory_bytes.checked_mul(
            options.proportional_floor_basis_points as u64,
        ) {
            Some(scaled) => scaled,
            None => u64::MAX,
        };
        let proportional: u64 = scaled / 10_000;
        let safety_floor_bytes: u64 = if options.absolute_floor_bytes >= proportional {
            options.absolute_floor_bytes
        } else {
            proportional
        };
        let guarded: u64 = match safety_floor_bytes.checked_add(FLOOR_GUARD_BYTES) {
            Some(guarded) => guarded,
            None => {
                return Err(PressureError::FloorOverflows);
            },
        };
        if initial_available_bytes <= guarded {
            return Err(PressureError::BaselineInsideFloor);
        }
        if options.candidate_required_bytes < CROSSING_MARGIN_BYTES {
            return Err(PressureError::CandidateTooSmall);
        }
        let target_available_bytes: u64 = options.candidate_required_bytes - CROSSING_MARGIN_BYTES;
        if target_available_bytes <= guarded {
            return Err(PressureError::CrossingViolatesFloor);
        }
        let by_floor: u64 = initial_available_bytes - guarded;
        let by_share: u64 = total_memory_bytes / 2;
        let maximum_committed_bytes: u64 = if by_floor <= by_share {
            by_floor
        } else {
            by_share
        };
        if initial_available_bytes - target_available_bytes > maximum_committed_bytes {
            return Err(PressureError::CrossingExceedsBudget);
        }
        Ok(
            PressurePlan {
                total_memory_bytes,
                initial_available_bytes,
                safety_floor_bytes,
                target_available_bytes,
                maximum_committed_bytes,
            },
        )
    }

    /// Whether the bounds of a plan fit together: the target lies above the
    /// guarded floor and below what is available, the most that is committed
    /// reaches the target and leaves the guarded floor.
    pub open spec fn wf(self) -> bool {
        &&& self.safety_floor_bytes + FLOOR_GUARD_BYTES < self.target_available_bytes
            < self.initial_available_bytes
        &&& self.initial_available_bytes - self.target_available_bytes
            <= self.maximum_committed_bytes
        &&& self.maximum_committed_bytes + self.safety_floor_bytes + FLOOR_GUARD_BYTES
            <= self.initial_available_bytes
        &&& self.maximum_committed_bytes <= self.total_memory_bytes / 2
    }
}

/// A plan never weakens the guardrails: its floor is at least both floors that
/// were asked for and never below the absolute minimum, all that it may commit
/// still leaves the floor and its guard, it commits at most half of the memory,
/// and its target lies below the candidate's request.
pub proof fn law_plan_keeps_the_guardrails(
    options: PressureHelperOptions,
    own_pid: u32,
    total: u64,
    available: u64,
    plan: PressurePlan,
)
    requires
        plan_fault(options, own_pid, total, available) is None,
        plan.total_memory_bytes == total,
        plan.initial_available_bytes == available,
        plan.safety_floor_bytes == safety_floor(options, total),
        plan.target_available_bytes == options.candidate_required_bytes - CROSSING_MARGIN_BYTES,
        plan.maximum_committed_bytes == commit_limit(options, total, available),
    ensures
        plan.wf(),
        plan.safety_floor_bytes >= MIN_ABSOLUTE_FLOOR_BYTES,
        plan.safety_floor_bytes >= options.absolute_floor_bytes,
        plan.safety_floor_bytes >= proportional_floor(options, total),
        plan.initial_available_bytes - plan.maximum_committed_bytes >= plan.safety_floor_bytes
            + FLOOR_GUARD_BYTES,
        plan.maximum_committed_bytes <= total / 2,
        plan.target_available_bytes < options.candidate_required_bytes
            < plan.initial_available_bytes,
{
}

/// The largest multiple of `alignment` that is not above `value`, where it fits
/// the address space.
pub fn align_down(value: u64, alignment: usize) -> (aligned: Result<usize, PressureError>)
    requires
        alignment > 0,
    ensures
        ({
            let multiple = value as int / alignment as int * alignment as int;
            if multiple <= usize::MAX {
                aligned matches Ok(aligned) && aligned == multiple
            } else {
                aligned == Err::<usize, PressureError>(PressureError::AllocationTooLarge)
            }
        }),
{
    let unit: u64 = alignment as u64;
    proof {
        vstd::arithmetic::div_mod::lemma_fundamental_div_mod(value as int, unit as int);
        vstd::arithmetic::mul::lemma_mul_is_commutative(unit as int, value as int / unit as int);
        vstd::arithmetic::div_mod::lemma_mod_bound(value as int, unit as int);
        assert(0 <= value as int / unit as int * unit as int) by (nonlinear_arith)
            requires
                value >= 0,
                unit > 0,
        ;
    }
    let aligned: u64 = value / unit * unit;
    if aligned <= usize::MAX as u64 {
        Ok(aligned as usize)
    } else {
        Err(PressureError::AllocationTooLarge)
    }
}

/// Rounding down to a multiple loses less than the alignment, and rounding
/// again changes nothing.
pub proof fn law_align_down_is_tight(value: nat, alignment: nat)
    requires
        alignment > 0,
    ensures
        value / alignment * alignment <= value < value / alignment * alignment + alignment,
        (value / alignment * alignment) % alignment == 0,
        (value / alignment * alignment) / alignment * alignment == value / alignment * alignment,
{
    let v = value as int;
    let a = alignment as int;
    vstd::arithmetic::div_mod::lemma_fundamental_div_mod(v, a);
    vstd::arithmetic::mul::lemma_mul_is_commutative(a, v / a);
    vstd::arithmetic::div_mod::lemma_mod_bound(v, a);
    vstd::arithmetic::div_mod::lemma_mod_multiples_basic(v / a, a);
    vstd::arithmetic::div_mod::lemma_div_multiples_vanish(v / a, a);
    vstd::arithmetic::mul::lemma_mul_is_commutative(v / a, a);
}

/// The state of a run: what was committed and what was observed.
#[derive(Clone, Copy, Debug, PartialEq, Eq, Structural)]
pub struct PressureRun {
    pub plan: PressurePlan,
    pub candidate_required_bytes: u64,
    pub committed_bytes: u64,
    pub touched_bytes: u64,
    pub observed_available_bytes: u64,
    pub lowest_available_bytes: u64,
}

impl PressureRun {
    /// What holds of every run: no more is committed than planned, all of it is
    /// touched, and the lowest observation is one that did not cross the floor.
    pub open spec fn wf(self) -> bool {
        &&& self.plan.wf()
        &&& self.committed_bytes <= self.plan.maximum_committed_bytes
        &&& self.touched_bytes == self.committed_bytes
        &&& self.plan.safety_floor_bytes <= self.lowest_available_bytes
            <= self.observed_available_bytes
    }

    /// The state before anything is committed.
    pub fn start(plan: PressurePlan, candidate_required_bytes: u64) -> (run: Self)
        requires
            plan.wf(),
        ensures
            run.wf(),
            run == (PressureRun {
                plan,
                candidate_required_bytes,
                committed_bytes: 0,
                touched_bytes: 0,
                observed_available_bytes: plan.initial_available_bytes,
                lowest_available_bytes: plan.initial_available_bytes,
            }),
    {
        PressureRun {
            plan,
            candidate_required_bytes,
            committed_bytes: 0,
            touched_bytes: 0,
            observed_available_bytes: plan.initial_available_bytes,
            lowest_available_bytes: plan.initial_available_bytes,
        }
    }

    /// What the next step would commit before it is rounded to pages.
    pub open spec fn desired_commit(self) -> int {
        min_of(
            min_of(
                self.observed_available_bytes - self.plan.target_available_bytes,
                ALLOCATION_CHUNK_BYTES as int,
            ),
            self.plan.maximum_committed_bytes - self.committed_bytes,
        )
    }

    /// Whether the run still commits memory.
    pub open spec fn is_ramping(self) -> bool {
        self.observed_available_bytes > self.plan.target_available_bytes && self.committed_bytes
            < self.plan.maximum_committed_bytes
    }

    /// What the next step commits: nothing once the target is reached, the
    /// budget is spent or less than a page is left to commit.
    pub fn next_commit(&self, page_size: usize) -> (chunk: Result<Option<usize>, PressureError>)
        requires
            self.wf(),
            page_size > 0,
        ensures
            ({
                let rounded = self.desired_commit() / page_size as int * page_size as int;
                if !self.is_ramping() {
                    chunk == Ok::<Option<usize>, PressureError>(None)
                } else if rounded > usize::MAX {
                    chunk == Err::<Option<usize>, PressureError>(PressureError::AllocationTooLarge)
                } else if rounded == 0 {
                    chunk == Ok::<Option<usize>, PressureError>(None)
                } else {
                    chunk matches Ok(Some(chunk)) && chunk == rounded && self.committed_bytes
                        + chunk <= self.plan.maximum_committed_bytes && chunk
                        <= self.observed_available_bytes - self.plan.target_available_bytes
                }
            }),
    {
        if !(self.observed_available_bytes > self.plan.target_available_bytes
            && self.committed_bytes < self.plan.maximum_committed_bytes) {
            return Ok(None);
        }
        let budget: u64 = self.plan.maximum_committed_bytes - self.committed_bytes;
        let gap: u64 = self.observed_available_bytes - self.plan.target_available_bytes;
        let step: u64 = if gap <= ALLOCATION_CHUNK_BYTES {
            gap
        } else {
            ALLOCATION_CHUNK_BYTES
        };
        let desired: u64 = if step <= budget {
            step
        } else {
            budget
        };
        proof {
            law_align_down_is_tight(desired as nat, page_size as nat);
        }
        match align_down(desired, page_size) {
            Ok(chunk) => {
                if chunk == 0 {
                    Ok(None)
                } else {
                    Ok(Some(chunk))
                }
            },
            Err(error) => Err(error),
        }
    }

    /// The state after an observation of available memory.
    pub open spec fn observed(self, available: u64) -> Self {
        PressureRun {
            observed_available_bytes: available,
            lowest_available_bytes: if available < self.lowest_available_bytes {
                available
            } else {
                self.lowest_available_bytes
            },
            ..self
        }
    }

    /// The state after a chunk was committed and touched.
    pub open spec fn committed(self, chunk: u64) -> Self {
        PressureRun {
            committed_bytes: (self.committed_bytes + chunk) as u64,
            touched_bytes: (self.touched_bytes + chunk) as u64,
            ..self
        }
    }

    /// Records an observation of available memory. One below the safety floor is
    /// recorded too, and ends the run.
    pub fn observe(&mut self, available: u64) -> (result: Result<(), PressureError>)
        requires
            old(self).wf(),
        ensures
            *final(self) == old(self).observed(available),
            if available < old(self).plan.safety_floor_bytes {
                result == Err::<(), PressureError>(PressureError::FloorCrossed)
            } else {
                result is Ok && final(self).wf()
            },
    {
        self.observed_available_bytes = available;
        if available < self.lowest_available_bytes {
            self.lowest_available_bytes = available;
        }
        if available < self.plan.safety_floor_bytes {
            return Err(PressureError::FloorCrossed);
        }
        Ok(())
    }

    /// Records that a chunk was committed and touched, and what was available
    /// after it.
    pub fn record_commit(&mut self, chunk: usize, available: u64) -> (result: Result<
        (),
        PressureError,
    >)
        requires
            old(self).wf(),
            old(self).committed_bytes + chunk <= old(self).plan.maximum_committed_bytes,
        ensures
            *final(self) == old(self).committed(chunk as u64).observed(available),
            if available < old(self).plan.safety_floor_bytes {
                result == Err::<(), PressureError>(PressureError::FloorCrossed)
            } else {
                result is Ok && final(self).wf()
            },
    {
        self.committed_bytes = self.committed_bytes + chunk as u64;
        self.touched_bytes = self.touched_bytes + chunk as u64;
        self.observe(available)
    }

    /// Checks, once nothing more is committed, that the candidate no longer
    /// fits.
    pub fn check_crossed(&self) -> (result: Result<(), PressureError>)
        ensures
            if self.observed_available_bytes >= self.candidate_required_bytes {
                result == Err::<(), PressureError>(PressureError::ThresholdNotCrossed)
            } else {
                result is Ok
            },
    {
        if self.observed_available_bytes >= self.candidate_required_bytes {
            return Err(PressureError::ThresholdNotCrossed);
        }
        Ok(())
    }
}

/// A run that reached its target has pushed the candidate past its threshold
/// without ever observing less than the safety floor, and committed at most half
/// of the memory.
pub proof fn law_reached_target_crosses_safely(run: PressureRun)
    requires
        run.wf(),
        run.plan.target_available_bytes < run.candidate_required_bytes,
        run.observed_available_bytes <= run.plan.target_available_bytes,
    ensures
        run.observed_available_bytes < run.candidate_required_bytes,
        run.lowest_available_bytes >= run.plan.safety_floor_bytes,
        run.committed_bytes <= run.plan.total_memory_bytes / 2,
{
}

/// What came in on the control channel.
#[derive(Clone, Copy, Debug, PartialEq, Eq, Structural)]
pub enum ControlInput {
    Nothing,
    Newline,
    OtherByte,
    Closed,
    Failed,
}

/// What the helper does while it holds the pressure.
#[derive(Clone, Copy, Debug, PartialEq, Eq, Structural)]
pub enum HoldStep {
    Release,
    Observe,
}

/// Decides what the helper does while it holds the pressure: the control channel
/// comes first, then the parent, then the deadline.
pub fn hold_step(control: ControlInput, parent_exited: bool, deadline_passed: bool) -> (step:
    Result<HoldStep, PressureError>)
    ensures
        step == (match control {
            ControlInput::Newline => Ok(HoldStep::Release),
            ControlInput::OtherByte => Err(PressureError::InvalidRelease),
            ControlInput::Closed => Err(PressureError::ControlClosed),
            ControlInput::Failed => Err(PressureError::ControlFailed),
            ControlInput::Nothing => if parent_exited {
                Err(PressureError::ParentExited)
            } else if deadline_passed {
                Err(PressureError::TimedOut)
            } else {
                Ok(HoldStep::Observe)
            },
        }),
{
    match control {
        ControlInput::Newline => Ok(HoldStep::Release),
        ControlInput::OtherByte => Err(PressureError::InvalidRelease),
        ControlInput::Closed => Err(PressureError::ControlClosed),
        ControlInput::Failed => Err(PressureError::ControlFailed),
        ControlInput::Nothing => {
            if parent_exited {
                Err(PressureError::ParentExited)
            } else if deadline_passed {
                Err(PressureError::TimedOut)
            } else {
                Ok(HoldStep::Observe)
            }
        },
    }
}

/// What the helper does after it released the pressure.
#[derive(Clone, Copy, Debug, PartialEq, Eq, Structural)]
pub enum RecoveryStep {
    Recovered,
    Wait,
}

/// Decides whether memory has recovered after the release: the candidate must
/// fit again before the deadline.
pub fn recovery_step(available: u64, candidate_required_bytes: u64, deadline_passed: bool) -> (step:
    Result<RecoveryStep, PressureError>)
    ensures
        step == if available >= candidate_required_bytes {
            Ok(RecoveryStep::Recovered)
        } else if deadline_passed {
            Err(PressureError::NotRecovered)
        } else {
            Ok(RecoveryStep::Wait)
        },
{
    if available >= candidate_required_bytes {
        Ok(RecoveryStep::Recovered)
    } else if deadline_passed {
        Err(PressureError::NotRecovered)
    } else {
        Ok(RecoveryStep::Wait)
    }
}

/// Which event the helper reports.
#[derive(Clone, Copy, Debug, PartialEq, Eq, Structural)]
pub enum PressureEventKind {
    Ready,
    Released,
    Terminal,
}

/// The name and the result of an event.
pub open spec fn event_texts(kind: PressureEventKind) -> (Seq<char>, Seq<char>) {
    match kind {
        PressureEventKind::Ready => ("ready"@, "holding"@),
        PressureEventKind::Released => ("released"@, "pass"@),
        PressureEventKind::Terminal => ("terminal"@, "fail"@),
    }
}

impl PressureEventKind {
    /// The name and the result of the event.
    pub fn texts(self) -> (texts: (&'static str, &'static str))
        ensures
            (texts.0@, texts.1@) == event_texts(self),
    {
        match self {
            PressureEventKind::Ready => ("ready", "holding"),
            PressureEventKind::Released => ("released", "pass"),
            PressureEventKind::Terminal => ("terminal", "fail"),
        }
    }
}

/// An event that the helper reports.
#[derive(Debug)]
pub struct PressureEvent {
    pub kind: PressureEventKind,
    pub helper_pid: u32,
    pub parent_pid: u32,
    pub reason: Option<String>,
    pub total_memory_bytes: Option<u64>,
    pub initial_available_bytes: Option<u64>,
    pub observed_available_bytes: Option<u64>,
    pub lowest_available_bytes: Option<u64>,
    pub safety_floor_bytes: Option<u64>,
    pub candidate_required_bytes: Option<u64>,
    pub committed_bytes: u64,
    pub touched_bytes: u64,
    pub timeout_seconds: u64,
    pub job_kill_on_close: bool,
    pub parent_death_cleanup: bool,
    pub page_locking: bool,
}

/// The event for a run that holds or has released its pressure.
pub fn progress_event(
    kind: PressureEventKind,
    run: &PressureRun,
    options: &PressureHelperOptions,
    helper_pid: u32,
) -> (event: PressureEvent)
    ensures
        event.kind == kind,
        event.helper_pid == helper_pid,
        event.parent_pid == options.parent_pid,
        event.reason is None,
        event.total_memory_bytes == Some(run.plan.total_memory_bytes),
        event.initial_available_bytes == Some(run.plan.initial_available_bytes),
        event.observed_available_bytes == Some(run.observed_available_bytes),
        event.lowest_available_bytes == Some(run.lowest_available_bytes),
        event.safety_floor_bytes == Some(run.plan.safety_floor_bytes),
        event.candidate_required_bytes == Some(options.candidate_required_bytes),
        event.committed_bytes == run.committed_bytes,
        event.touched_bytes == run.touched_bytes,
        event.timeout_seconds == options.timeout_seconds,
        event.job_kill_on_close,
        event.parent_death_cleanup,
        !event.page_locking,
{
    PressureEvent {
        kind,
        helper_pid,
        parent_pid: options.parent_pid,
        reason: None,
        total_memory_bytes: Some(run.plan.total_memory_bytes),
        initial_available_bytes: Some(run.plan.initial_available_bytes),
        observed_available_bytes: Some(run.observed_available_bytes),
        lowest_available_bytes: Some(run.lowest_available_bytes),
        safety_floor_bytes: Some(run.plan.safety_floor_bytes),
        candidate_required_bytes: Some(options.candidate_required_bytes),
        committed_bytes: run.committed_bytes,
        touched_bytes: run.touched_bytes,
        timeout_seconds: options.timeout_seconds,
        job_kill_on_close: true,
        parent_death_cleanup: true,
        page_locking: false,
    }
}

/// The event for a run that failed. It claims nothing of memory that it did not
/// hold to the end.
pub fn terminal_failure(options: &PressureHelperOptions, helper_pid: u32, reason: &str) -> (event:
    PressureEvent)
    ensures
        event.kind == PressureEventKind::Terminal,
        event.helper_pid == helper_pid,
        event.parent_pid == options.parent_pid,
        text::opt_string(event.reason) == Some(reason@),
        event.total_memory_bytes is None,
        event.initial_available_bytes is None,
        event.observed_available_bytes is None,
        event.lowest_available_bytes is None,
        event.safety_floor_bytes is None,
        event.candidate_required_bytes == Some(options.candidate_required_bytes),
        event.committed_bytes == 0,
        event.touched_bytes == 0,
        event.timeout_seconds == options.timeout_seconds,
        !event.job_kill_on_close,
        !event.parent_death_cleanup,
        !event.page_locking,
{
    PressureEvent {
        kind: PressureEventKind::Terminal,
        helper_pid,
        parent_pid: options.parent_pid,
        reason: Some(reason.to_owned()),
        total_memory_bytes: None,
        initial_available_bytes: None,
        observed_available_bytes: None,
        lowest_available_bytes: None,
        safety_floor_bytes: None,
        candidate_required_bytes: Some(options.candidate_required_bytes),
        committed_bytes: 0,
        touched_bytes: 0,
        timeout_seconds: options.timeout_seconds,
        job_kill_on_close: false,
        parent_death_cleanup: false,
        page_locking: false,
    }
}

/// A plan is made exactly if the parent is another process, the floors and the lifetime
/// that were asked for are in their ranges, the memory is known and holds the candidate,
/// and there is room between what is available and the guarded floor to push it below the
/// candidate's request within the budget.
pub proof fn law_plan_is_made(
    options: PressureHelperOptions,
    own_pid: u32,
    total: u64,
    available: u64,
)
    ensures
        ({
            let share = total * options.proportional_floor_basis_points;
            let capped = if share > 0xffff_ffff_ffff_ffff {
                0xffff_ffff_ffff_ffffint
            } else {
                share
            };
            let floor = if options.absolute_floor_bytes >= capped / 10_000 {
                options.absolute_floor_bytes as int
            } else {
                capped / 10_000
            };
            let guarded = floor + 0x1000_0000;
            let target = options.candidate_required_bytes - 0x0400_0000;
            &&& plan_fault(options, own_pid, total, available) is None <==> {
                &&& options.parent_pid != 0 && options.parent_pid != own_pid
                &&& options.absolute_floor_bytes >= 0x8000_0000
                &&& 2_000 <= options.proportional_floor_basis_points <= 9_000
                &&& 5 <= options.timeout_seconds <= 120
                &&& total > 0
                &&& available > options.candidate_required_bytes
                &&& guarded <= 0xffff_ffff_ffff_ffff
                &&& guarded < target
                &&& available - target <= available - guarded
                &&& available - target <= total / 2
            }
            &&& safety_floor(options, total) == floor
            &&& guarded_floor(options, total) == guarded
            &&& commit_limit(options, total, available) == if available - guarded <= total / 2 {
                available - guarded
            } else {
                total as int / 2
            }
        }),
{
}

/// A run commits exactly while more than the target is available and its budget is not
/// spent. A step commits no more than is between what is available and the target, than
/// one step may, or than the budget leaves, and one of these three in full.
pub proof fn law_a_step_commits_what_is_left(run: PressureRun)
    ensures
        run.is_ramping() <==> run.observed_available_bytes > run.plan.target_available_bytes
            && run.committed_bytes < run.plan.maximum_committed_bytes,
        ({
            let gap = run.observed_available_bytes - run.plan.target_available_bytes;
            let budget = run.plan.maximum_committed_bytes - run.committed_bytes;
            let desired = run.desired_commit();
            &&& desired <= gap && desired <= budget && desired <= 0x0400_0000
            &&& desired == gap || desired == budget || desired == 0x0400_0000
        }),
{
}

/// An observation is kept as the last one, and as the lowest if it is; a commit adds to
/// what is committed and touched; neither changes anything else.
pub proof fn law_a_run_keeps_what_it_saw(run: PressureRun, available: u64, chunk: u64)
    requires
        run.committed_bytes + chunk <= u64::MAX,
        run.touched_bytes + chunk <= u64::MAX,
    ensures
        ({
            let after = run.observed(available);
            &&& after.observed_available_bytes == available
            &&& after.lowest_available_bytes <= available
            &&& after.lowest_available_bytes <= run.lowest_available_bytes
            &&& after.lowest_available_bytes == available || after.lowest_available_bytes
                == run.lowest_available_bytes
            &&& after.committed_bytes == run.committed_bytes && after.touched_bytes
                == run.touched_bytes
            &&& after.plan == run.plan && after.candidate_required_bytes
                == run.candidate_required_bytes
        }),
        ({
            let after = run.committed(chunk);
            &&& after.committed_bytes == run.committed_bytes + chunk
            &&& after.touched_bytes == run.touched_bytes + chunk
            &&& after.observed_available_bytes == run.observed_available_bytes
            &&& after.lowest_available_bytes == run.lowest_available_bytes
            &&& after.plan == run.plan && after.candidate_required_bytes
                == run.candidate_required_bytes
        }),
{
}

/// The events of a helper have these names and results.
pub proof fn law_events_have_these_names()
    ensures
        event_texts(PressureEventKind::Ready) == ("ready"@, "holding"@),
        event_texts(PressureEventKind::Released) == ("released"@, "pass"@),
        event_texts(PressureEventKind::Terminal) == ("terminal"@, "fail"@),
{
}

} // verus!
