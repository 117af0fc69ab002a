use batch_orchestrator::context::ExecutionContext;
use batch_orchestrator::error::StepError;
use batch_orchestrator::events::{ConfirmPhase, EngineEvent};
use batch_orchestrator::resources::EngineHandles;
use batch_orchestrator::steps::shell::Platform;
use batch_orchestrator::scenario::{ConfirmDefault, Step, StepConfirmConfig, StepKind};
use batch_orchestrator::steps::{
    backoff, execute_step_kind, has_gate, run_result, run_single_step, AttemptEnd, Outcome, RunnerAction,
    RunnerInput, RunnerState, StepRunResult,
};

fn step_runner_test_step(retry: u8, timeout: u64, confirm: Option<StepConfirmConfig>) -> Step {
    Step {
        id: "s1".to_string(),
        name: "Step One".to_string(),
        kind: StepKind::Sql { sql: "select 1".to_string(), target_db: None },
        depends_on: Vec::new(),
        allow_parallel: false,
        retry,
        timeout_sec: timeout,
        confirm,
    }
}

fn step_runner_test_gates(before: bool, after: bool, default_answer: ConfirmDefault) -> Option<StepConfirmConfig> {
    Some(StepConfirmConfig { before, after, message_before: None, message_after: None, default_answer })
}

fn step_runner_test_lines(events: &[EngineEvent]) -> Vec<String> {
    events
        .iter()
        .map(|e| match e {
            EngineEvent::StepLog { step_id, line } => format!("{step_id}|{line}"),
            _ => "other".to_string(),
        })
        .collect()
}

fn step_runner_test_reason(result: &Option<StepRunResult>) -> String {
    match result {
        Some(StepRunResult::Success) => "success".to_string(),
        Some(StepRunResult::Failed(reason)) => reason.clone(),
        None => "none".to_string(),
    }
}

#[test]
fn backoff_doubles_and_saturates() {
    assert_eq!(backoff(0), 1);
    assert_eq!(backoff(1), 2);
    assert_eq!(backoff(2), 4);
    assert_eq!(backoff(10), 1024);
    assert_eq!(backoff(63), 1u64 << 63);
    assert_eq!(backoff(64), u64::MAX);
    assert_eq!(backoff(255), u64::MAX);
}

#[test]
fn step_that_always_times_out_is_attempted_retry_plus_one_times() {
    let step = step_runner_test_step(2, 30, None);
    let mut state = RunnerState::Idle;
    let mut input = RunnerInput::Start;
    let mut attempts = 0;
    let mut sleeps: Vec<u64> = Vec::new();
    let mut lines: Vec<String> = Vec::new();
    let result;
    loop {
        let t = run_single_step(&step, state, input, "", false);
        lines.extend(step_runner_test_lines(&t.events));
        state = t.next;
        match t.action {
            RunnerAction::Execute { timeout_secs, attempt } => {
                assert_eq!(timeout_secs, 30);
                assert_eq!(attempt, attempts);
                attempts += 1;
                input = RunnerInput::Attempted { end: AttemptEnd::TimedOut };
            }
            RunnerAction::Sleep { secs } => {
                sleeps.push(secs);
                input = RunnerInput::Woke;
            }
            RunnerAction::Finish { outcome } => {
                assert_eq!(outcome, Outcome::TimedOut);
                result = t.result;
                break;
            }
            other => panic!("unexpected action {:?}", other),
        }
    }
    assert_eq!(attempts, 3);
    assert_eq!(sleeps, vec![1, 2]);
    assert_eq!(step_runner_test_reason(&result), "timeout");
    assert_eq!(state, RunnerState::Done);
    assert_eq!(
        lines,
        vec![
            "s1|[Step One] attempt 1",
            "s1|timed out, retrying in 1s",
            "s1|[Step One] attempt 2",
            "s1|timed out, retrying in 2s",
            "s1|[Step One] attempt 3",
        ]
    );
}

#[test]
fn failing_step_reports_the_last_error() {
    let step = step_runner_test_step(1, 5, None);
    let t = run_single_step(&step, RunnerState::Idle, RunnerInput::Start, "", false);
    assert_eq!(t.action, RunnerAction::Execute { timeout_secs: 5, attempt: 0 });
    let t = run_single_step(&step, t.next, RunnerInput::Attempted { end: AttemptEnd::Failed }, "first", false);
    assert_eq!(t.action, RunnerAction::Sleep { secs: 1 });
    assert_eq!(t.next, RunnerState::Backoff { next: 1 });
    assert_eq!(step_runner_test_lines(&t.events), vec!["s1|error: first, retrying in 1s"]);
    assert!(t.result.is_none());
    let t = run_single_step(&step, t.next, RunnerInput::Woke, "", false);
    assert_eq!(t.action, RunnerAction::Execute { timeout_secs: 5, attempt: 1 });
    let t = run_single_step(&step, t.next, RunnerInput::Attempted { end: AttemptEnd::Failed }, "second", false);
    assert_eq!(t.action, RunnerAction::Finish { outcome: Outcome::Errored });
    assert_eq!(step_runner_test_reason(&t.result), "second");
    assert!(t.events.is_empty());
}

#[test]
fn success_without_gates() {
    let step = step_runner_test_step(3, 0, None);
    let t = run_single_step(&step, RunnerState::Idle, RunnerInput::Start, "", false);
    // A time limit of zero counts as one second.
    assert_eq!(t.action, RunnerAction::Execute { timeout_secs: 1, attempt: 0 });
    assert_eq!(t.next, RunnerState::Attempting { attempt: 0 });
    let t = run_single_step(&step, t.next, RunnerInput::Attempted { end: AttemptEnd::Succeeded }, "", false);
    assert_eq!(t.action, RunnerAction::Finish { outcome: Outcome::Success });
    assert_eq!(step_runner_test_reason(&t.result), "success");
    assert_eq!(t.next, RunnerState::Done);
}

#[test]
fn declined_before_gate_ends_the_step_without_an_attempt() {
    let step = step_runner_test_step(5, 10, step_runner_test_gates(true, false, ConfirmDefault::No));
    assert!(has_gate(&step, ConfirmPhase::Before));
    assert!(!has_gate(&step, ConfirmPhase::After));
    let t = run_single_step(&step, RunnerState::Idle, RunnerInput::Start, "", false);
    assert_eq!(t.action, RunnerAction::Confirm { phase: ConfirmPhase::Before });
    assert_eq!(t.next, RunnerState::BeforeGate);
    assert!(t.events.is_empty());
    let t = run_single_step(&step, t.next, RunnerInput::Confirmed { accepted: false }, "", false);
    assert_eq!(t.action, RunnerAction::Finish { outcome: Outcome::DeclinedBefore });
    assert_eq!(t.next, RunnerState::Done);
    assert!(t.events.is_empty());
    assert_eq!(step_runner_test_reason(&t.result), "step 'Step One' was declined before it ran");
}

#[test]
fn accepted_before_gate_goes_on_to_the_first_attempt() {
    let step = step_runner_test_step(0, 10, step_runner_test_gates(true, false, ConfirmDefault::No));
    let t = run_single_step(&step, RunnerState::BeforeGate, RunnerInput::Confirmed { accepted: true }, "", false);
    assert_eq!(t.action, RunnerAction::Execute { timeout_secs: 10, attempt: 0 });
}

#[test]
fn declined_after_gate_fails_the_step_though_the_work_was_done() {
    let step = step_runner_test_step(0, 10, step_runner_test_gates(false, true, ConfirmDefault::Yes));
    let t = run_single_step(&step, RunnerState::Idle, RunnerInput::Start, "", false);
    assert_eq!(t.action, RunnerAction::Execute { timeout_secs: 10, attempt: 0 });
    let t = run_single_step(&step, t.next, RunnerInput::Attempted { end: AttemptEnd::Succeeded }, "", false);
    assert_eq!(t.action, RunnerAction::Confirm { phase: ConfirmPhase::After });
    assert_eq!(t.next, RunnerState::AfterGate);
    let declined = run_single_step(&step, t.next, RunnerInput::Confirmed { accepted: false }, "", false);
    assert_eq!(declined.action, RunnerAction::Finish { outcome: Outcome::DeclinedAfter });
    assert_eq!(step_runner_test_reason(&declined.result), "step 'Step One' was declined after it ran");
    let accepted = run_single_step(&step, t.next, RunnerInput::Confirmed { accepted: true }, "", false);
    assert_eq!(accepted.action, RunnerAction::Finish { outcome: Outcome::Success });
}

#[test]
fn cancellation_counts_at_the_start_of_an_attempt() {
    let step = step_runner_test_step(3, 10, None);
    let t = run_single_step(&step, RunnerState::Idle, RunnerInput::Start, "", true);
    assert_eq!(t.action, RunnerAction::Finish { outcome: Outcome::Cancelled });
    assert_eq!(step_runner_test_reason(&t.result), "cancelled");
    assert!(t.events.is_empty());
    let t = run_single_step(&step, RunnerState::Backoff { next: 2 }, RunnerInput::Woke, "", true);
    assert_eq!(t.action, RunnerAction::Finish { outcome: Outcome::Cancelled });
    // Within an attempt it does not count.
    let t = run_single_step(
        &step,
        RunnerState::Attempting { attempt: 0 },
        RunnerInput::Attempted { end: AttemptEnd::Failed },
        "e",
        true,
    );
    assert_eq!(t.action, RunnerAction::Sleep { secs: 1 });
}

#[test]
fn input_that_does_not_fit_is_rejected() {
    let step = step_runner_test_step(3, 10, None);
    for (state, input) in [
        (RunnerState::Idle, RunnerInput::Woke),
        (RunnerState::Done, RunnerInput::Start),
        (RunnerState::Attempting { attempt: 1 }, RunnerInput::Start),
        (RunnerState::BeforeGate, RunnerInput::Woke),
        (RunnerState::AfterGate, RunnerInput::Attempted { end: AttemptEnd::Succeeded }),
        (RunnerState::Backoff { next: 1 }, RunnerInput::Confirmed { accepted: true }),
    ] {
        let t = run_single_step(&step, state, input, "", false);
        assert_eq!(t.action, RunnerAction::Rejected);
        assert_eq!(t.next, state);
        assert!(t.events.is_empty());
        assert!(t.result.is_none());
    }
}

#[test]
fn results_of_outcomes() {
    let step = step_runner_test_step(0, 1, None);
    assert!(matches!(run_result(&step, Outcome::Success, "x"), StepRunResult::Success));
    assert_eq!(step_runner_test_reason(&Some(run_result(&step, Outcome::Cancelled, "x"))), "cancelled");
    assert_eq!(step_runner_test_reason(&Some(run_result(&step, Outcome::TimedOut, "x"))), "timeout");
    assert_eq!(step_runner_test_reason(&Some(run_result(&step, Outcome::Errored, "x"))), "x");
}

/// Drives a step whose work is prepared by the library and would be done
/// by `work`; counts the attempts, the waits and the calls of `work`.
fn step_runner_test_drive(
    step: &Step,
    handles: &EngineHandles<u8>,
    ctx: &ExecutionContext,
) -> (u32, Vec<u64>, u32, Option<StepRunResult>, Vec<String>) {
    let mut state = RunnerState::Idle;
    let mut input = RunnerInput::Start;
    let mut error = String::new();
    let mut attempts = 0;
    let mut executed = 0;
    let mut sleeps = Vec::new();
    let mut lines = Vec::new();
    loop {
        let t = run_single_step(step, state, input, &error, false);
        lines.extend(step_runner_test_lines(&t.events));
        state = t.next;
        match t.action {
            RunnerAction::Execute { .. } => {
                attempts += 1;
                let start = execute_step_kind(step, &step.id, handles, ctx, Platform::Unix);
                lines.extend(step_runner_test_lines(&start.events));
                let end = match start.plan {
                    Ok(_) => {
                        executed += 1;
                        AttemptEnd::Succeeded
                    }
                    Err(err) => {
                        error = err.message();
                        err.attempt_end()
                    }
                };
                input = RunnerInput::Attempted { end };
            }
            RunnerAction::Sleep { secs } => {
                sleeps.push(secs);
                input = RunnerInput::Woke;
            }
            RunnerAction::Finish { .. } => return (attempts, sleeps, executed, t.result, lines),
            other => panic!("unexpected action {:?}", other),
        }
        assert!(attempts < 20);
    }
}

#[test]
fn unresolved_placeholder_is_not_retried() {
    let mut step = step_runner_test_step(2, 60, None);
    step.kind = StepKind::Sql { sql: "select ${MISSING}".to_string(), target_db: None };
    let handles = EngineHandles::new(0u8);
    let ctx = ExecutionContext::new();
    let (attempts, sleeps, executed, result, lines) = step_runner_test_drive(&step, &handles, &ctx);
    assert_eq!(attempts, 1);
    assert!(sleeps.is_empty());
    assert_eq!(executed, 0);
    assert_eq!(
        step_runner_test_reason(&result),
        "sql: unresolved placeholder in select ${MISSING}"
    );
    assert_eq!(lines, vec!["s1|[Step One] attempt 1", "s1|SQL execution started"]);
}

#[test]
fn undefined_target_is_not_retried() {
    let mut step = step_runner_test_step(5, 60, None);
    step.kind = StepKind::Sql { sql: "select 1".to_string(), target_db: Some("nowhere".to_string()) };
    let handles = EngineHandles::new(0u8);
    let ctx = ExecutionContext::new();
    let (attempts, sleeps, executed, result, _) = step_runner_test_drive(&step, &handles, &ctx);
    assert_eq!(attempts, 1);
    assert!(sleeps.is_empty());
    assert_eq!(executed, 0);
    assert_eq!(step_runner_test_reason(&result), "undefined DB target: nowhere");
}

#[test]
fn misconfigured_attempt_ends_the_run_whatever_retries_are_left() {
    for retry in [0u8, 1, 2, 255] {
        let step = step_runner_test_step(retry, 10, step_runner_test_gates(false, true, ConfirmDefault::Yes));
        for attempt in [0u32, 1, 7] {
            for cancelled in [false, true] {
                let t = run_single_step(
                    &step,
                    RunnerState::Attempting { attempt },
                    RunnerInput::Attempted { end: AttemptEnd::Misconfigured },
                    "bad configuration",
                    cancelled,
                );
                assert_eq!(t.action, RunnerAction::Finish { outcome: Outcome::Errored });
                assert_eq!(t.next, RunnerState::Done);
                assert!(t.events.is_empty());
                assert_eq!(step_runner_test_reason(&t.result), "bad configuration");
            }
        }
    }
}

#[test]
fn errors_of_the_configuration_are_told_from_the_others() {
    let text = |s: &str| s.to_string();
    let ctx = ExecutionContext::new();
    let unresolved = ctx.expand_required("${X}", "sql").unwrap_err();
    let configuration = vec![
        StepError::Expansion(unresolved),
        StepError::UndefinedDbTarget { name: text("dw") },
        StepError::MissingConnectionValue { field: text("dsn") },
        StepError::MissingLoaderConnection,
        StepError::UnresolvedLoopDependency { step: text("b"), dependency: text("a") },
    ];
    for error in configuration {
        assert_eq!(error.attempt_end(), AttemptEnd::Misconfigured, "{:?}", error);
    }
    let others = vec![
        StepError::MissingLine { path: text("f"), line: 1 },
        StepError::InvalidPattern { pattern: text("(") },
        StepError::NoMatch { subject: text("s") },
        StepError::MissingGroup { group: 1 },
        StepError::RunAsUnsupported,
        StepError::UnknownUser { user: text("u") },
        StepError::InvalidAccountId { text: text("x") },
        StepError::CommandFailed { status: text("1") },
        StepError::RetriesExhausted { status: text("1") },
        StepError::LoopStalled,
        StepError::LoopCancelled,
        StepError::ChildFailed { step: text("c"), reason: text("r") },
        StepError::External { detail: text("d") },
    ];
    for error in others {
        assert_eq!(error.attempt_end(), AttemptEnd::Failed, "{:?}", error);
    }
}
