use openasr_cli::pressure::{
    align_down, hold_step, progress_event, recovery_step, terminal_failure, ControlInput, HoldStep,
    PressureError, PressureEventKind, PressureHelperOptions, PressurePlan, PressureRun,
    RecoveryStep, ALLOCATION_CHUNK_BYTES,
};

const GIB: u64 = 1024 * 1024 * 1024;
const OWN_PID: u32 = 7;

fn options(candidate_required_bytes: u64) -> PressureHelperOptions {
    PressureHelperOptions {
        parent_pid: u32::MAX,
        candidate_required_bytes,
        absolute_floor_bytes: 2 * GIB,
        proportional_floor_basis_points: 2_000,
        timeout_seconds: 60,
    }
}

#[test]
fn plan_requires_an_admissible_baseline_and_crossable_safe_threshold() {
    let plan = PressurePlan::build(options(5 * GIB), OWN_PID, 16 * GIB, 7 * GIB).unwrap();
    assert_eq!(plan.safety_floor_bytes, 3 * GIB + GIB / 5);
    assert!(plan.target_available_bytes < 5 * GIB);
    assert!(plan.maximum_committed_bytes >= 2 * GIB);
}

#[test]
fn plan_rejects_a_baseline_that_already_fails() {
    let error = PressurePlan::build(options(5 * GIB), OWN_PID, 16 * GIB, 4 * GIB).unwrap_err();
    assert!(error.message().contains("baseline is already inadmissible"));
}

#[test]
fn plan_rejects_crossing_that_would_enter_the_safety_floor() {
    let error = PressurePlan::build(options(3 * GIB), OWN_PID, 16 * GIB, 7 * GIB).unwrap_err();
    assert!(error.message().contains("cannot be crossed without violating"));
}

#[test]
fn plan_rejects_weakened_or_unbounded_guardrails() {
    let mut invalid = options(5 * GIB);
    invalid.absolute_floor_bytes = GIB;
    assert!(PressurePlan::build(invalid, OWN_PID, 16 * GIB, 7 * GIB).is_err());

    invalid = options(5 * GIB);
    invalid.proportional_floor_basis_points = 1_999;
    assert!(PressurePlan::build(invalid, OWN_PID, 16 * GIB, 7 * GIB).is_err());

    invalid = options(5 * GIB);
    invalid.timeout_seconds = 121;
    assert!(PressurePlan::build(invalid, OWN_PID, 16 * GIB, 7 * GIB).is_err());
}

#[test]
fn each_refused_plan_is_named() {
    let mut asked = options(5 * GIB);
    asked.parent_pid = OWN_PID;
    assert_eq!(
        PressurePlan::build(asked, OWN_PID, 16 * GIB, 7 * GIB),
        Err(PressureError::ParentNotDistinct)
    );
    assert_eq!(
        PressurePlan::build(options(5 * GIB), OWN_PID, 0, 0),
        Err(PressureError::MemoryUnknown)
    );
    assert_eq!(
        PressurePlan::build(options(GIB), OWN_PID, 16 * GIB, 3 * GIB),
        Err(PressureError::BaselineInsideFloor)
    );
    let mut low = options(5 * GIB);
    low.timeout_seconds = 4;
    assert_eq!(
        PressurePlan::build(low, OWN_PID, 16 * GIB, 7 * GIB),
        Err(PressureError::TimeoutOutOfRange)
    );
}

#[test]
fn sizes_are_rounded_down_to_the_page() {
    assert_eq!(align_down(8191, 4096), Ok(4096));
    assert_eq!(align_down(4095, 4096), Ok(0));
}

#[test]
fn a_run_commits_until_the_candidate_no_longer_fits() {
    let plan = PressurePlan::build(options(5 * GIB), OWN_PID, 16 * GIB, 7 * GIB).unwrap();
    let mut run = PressureRun::start(plan, 5 * GIB);
    let mut available = 7 * GIB;
    let mut commits = 0u64;
    while let Some(chunk) = run.next_commit(4096).unwrap() {
        assert!(chunk as u64 <= ALLOCATION_CHUNK_BYTES);
        available -= chunk as u64;
        run.record_commit(chunk, available).unwrap();
        commits += 1;
        assert!(commits < 1_000);
    }
    assert!(run.check_crossed().is_ok());
    assert!(run.observed_available_bytes < 5 * GIB);
    assert_eq!(run.committed_bytes, 7 * GIB - available);
    assert!(available >= plan.safety_floor_bytes);
}

#[test]
fn a_run_that_nears_the_floor_stops() {
    let plan = PressurePlan::build(options(5 * GIB), OWN_PID, 16 * GIB, 7 * GIB).unwrap();
    let mut run = PressureRun::start(plan, 5 * GIB);
    assert_eq!(run.observe(GIB), Err(PressureError::FloorCrossed));
    assert_eq!((run.observed_available_bytes, run.lowest_available_bytes), (GIB, GIB));
    let mut run = PressureRun::start(plan, 5 * GIB);
    assert_eq!(run.record_commit(4_096, GIB), Err(PressureError::FloorCrossed));
    assert_eq!((run.committed_bytes, run.touched_bytes), (4_096, 4_096));
    assert_eq!(run.lowest_available_bytes, GIB);
    assert_eq!(
        PressureRun::start(plan, 5 * GIB).check_crossed(),
        Err(PressureError::ThresholdNotCrossed)
    );
}

#[test]
fn holding_ends_with_a_newline_and_fails_otherwise() {
    assert_eq!(hold_step(ControlInput::Newline, false, false), Ok(HoldStep::Release));
    assert_eq!(hold_step(ControlInput::Nothing, false, false), Ok(HoldStep::Observe));
    assert_eq!(
        hold_step(ControlInput::OtherByte, false, false),
        Err(PressureError::InvalidRelease)
    );
    assert_eq!(hold_step(ControlInput::Closed, false, false), Err(PressureError::ControlClosed));
    assert_eq!(hold_step(ControlInput::Failed, false, false), Err(PressureError::ControlFailed));
    assert_eq!(hold_step(ControlInput::Nothing, true, false), Err(PressureError::ParentExited));
    assert_eq!(hold_step(ControlInput::Nothing, false, true), Err(PressureError::TimedOut));
}

#[test]
fn recovery_waits_for_room() {
    assert_eq!(recovery_step(10, 10, false), Ok(RecoveryStep::Recovered));
    assert_eq!(recovery_step(9, 10, false), Ok(RecoveryStep::Wait));
    assert_eq!(recovery_step(9, 10, true), Err(PressureError::NotRecovered));
}

#[test]
fn events_tell_what_was_held() {
    let asked = options(5 * GIB);
    let plan = PressurePlan::build(asked, OWN_PID, 16 * GIB, 7 * GIB).unwrap();
    let run = PressureRun::start(plan, 5 * GIB);
    let ready = progress_event(PressureEventKind::Ready, &run, &asked, OWN_PID);
    assert_eq!(ready.candidate_required_bytes, Some(5 * GIB));
    assert_eq!(ready.safety_floor_bytes, Some(plan.safety_floor_bytes));
    assert!(!ready.page_locking);
    assert_eq!(PressureEventKind::Ready.texts(), ("ready", "holding"));
    let failed = terminal_failure(&asked, OWN_PID, "why");
    assert_eq!(failed.reason, Some("why".to_string()));
    assert_eq!(failed.committed_bytes, 0);
}
