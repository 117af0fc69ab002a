//! The execution of single steps: the retry and confirmation machinery
//! around a step, and the work of each kind of step.
//!
//! The machinery is a state machine. The driver feeds it what happened (a
//! confirmation was answered, an attempt ended, a wait is over) and is told
//! what to do next: ask for a confirmation, make an attempt under a time
//! limit, wait, or stop with a result.

pub mod confirm;
pub mod extract;
pub mod loops;
pub mod shell;
pub mod sql;
pub mod sqlldr;
pub mod utils;

use crate::context::ExecutionContext;
use crate::error::{expanded_or_reported, StepError};
use crate::events::{event_views, log_event, log_step, ConfirmPhase, EngineEvent, EventView};
use crate::resources::EngineHandles;
use crate::scenario::{Step, StepKind};
use crate::steps::shell::{run_shell_command, shell_outcome, Platform, ShellPlan};
use crate::steps::sql::{execute_sql, sql_file_path, sql_outcome};
use crate::steps::sqlldr::{loader_outcome, run_sqlldr, CommandPlan};
use crate::text::{decimal_text, push_decimal};
use vstd::arithmetic::power2::{lemma2_to64, lemma_pow2_unfold, pow2};
use vstd::prelude::*;
use vstd::string::StringExecFns;

verus! {

/// How the run of one step ended.
#[derive(Debug, Clone)]
pub enum StepRunResult {
    /// The step succeeded.
    Success,
    /// The step failed, for the reason given.
    Failed(String),
}

/// How the run of one step ended, with the reason as a sequence of characters.
pub enum RunResultView {
    Success,
    Failed(Seq<char>),
}

impl View for StepRunResult {
    type V = RunResultView;

    open spec fn view(&self) -> RunResultView {
        match *self {
            StepRunResult::Success => RunResultView::Success,
            StepRunResult::Failed(reason) => RunResultView::Failed(reason@),
        }
    }
}

/// Where the run of one step stands.
#[derive(Debug, Clone, Copy, PartialEq, Eq, Structural)]
pub enum RunnerState {
    /// Nothing has happened yet.
    Idle,
    /// The confirmation before the step is awaited.
    BeforeGate,
    /// The attempt numbered `attempt`, counted from 0, is under way.
    Attempting { attempt: u32 },
    /// The wait before the attempt numbered `next` is under way.
    Backoff { next: u32 },
    /// The confirmation after the step is awaited.
    AfterGate,
    /// The run has ended.
    Done,
}

/// How one attempt at a step's work ended.
#[derive(Debug, Clone, Copy, PartialEq, Eq, Structural)]
pub enum AttemptEnd {
    /// The work was done.
    Succeeded,
    /// The work failed in a way that another attempt may mend.
    Failed,
    /// The time limit ran out.
    TimedOut,
    /// The step's configuration is at fault: a placeholder that cannot be
    /// resolved, a database target that is not registered, a connection that
    /// is not named, a dependency that is not there. Another attempt would
    /// fail in the same way, and none is made.
    Misconfigured,
}

/// What happened, as the driver reports it.
#[derive(Debug, Clone, Copy, PartialEq, Eq, Structural)]
pub enum RunnerInput {
    /// The step is to run.
    Start,
    /// The confirmation that was asked for was accepted or declined.
    Confirmed { accepted: bool },
    /// The attempt that was under way has ended.
    Attempted { end: AttemptEnd },
    /// The wait is over.
    Woke,
}

/// Why a run ended.
#[derive(Debug, Clone, Copy, PartialEq, Eq, Structural)]
pub enum Outcome {
    /// The work was done and, where asked, confirmed.
    Success,
    /// The confirmation before the step was declined.
    DeclinedBefore,
    /// The confirmation after the step was declined.
    DeclinedAfter,
    /// The run was cancelled.
    Cancelled,
    /// The last attempt ran out of time.
    TimedOut,
    /// The last attempt failed, or the step's configuration is at fault.
    Errored,
}

/// What the driver is to do next.
#[derive(Debug, Clone, Copy, PartialEq, Eq, Structural)]
pub enum RunnerAction {
    /// Ask for the confirmation of `phase` and report the answer.
    Confirm { phase: ConfirmPhase },
    /// Do the step's work under a time limit and report how it ended.
    Execute { timeout_secs: u64, attempt: u32 },
    /// Wait, then report that the wait is over.
    Sleep { secs: u64 },
    /// Stop: the run has ended.
    Finish { outcome: Outcome },
    /// The input does not fit the state; nothing has changed.
    Rejected,
}

/// Whether the step asks for a confirmation at `phase`.
pub open spec fn gate_enabled(step: Step, phase: ConfirmPhase) -> bool {
    match step.confirm {
        Some(confirm) => match phase {
            ConfirmPhase::Before => confirm.before,
            ConfirmPhase::After => confirm.after,
        },
        None => false,
    }
}

/// The time limit of one attempt, in seconds: the step's, and at least one.
pub open spec fn time_limit(step: Step) -> u64 {
    if step.timeout_sec < 1 {
        1
    } else {
        step.timeout_sec
    }
}

/// The wait after the attempt numbered `attempt`, in seconds: two to the
/// power of `attempt`, and where that is more than the largest number of
/// seconds that can be counted, that largest number.
pub open spec fn backoff_secs(attempt: nat) -> nat {
    if pow2(attempt) > u64::MAX {
        u64::MAX as nat
    } else {
        pow2(attempt)
    }
}

/// What the start of the attempt numbered `attempt` leads to: a cancelled
/// run ends, any other makes the attempt.
pub open spec fn attempt_start(step: Step, attempt: u32, cancelled: bool) -> (
    RunnerState,
    RunnerAction,
) {
    if cancelled {
        (RunnerState::Done, RunnerAction::Finish { outcome: Outcome::Cancelled })
    } else {
        (
            RunnerState::Attempting { attempt },
            RunnerAction::Execute { timeout_secs: time_limit(step), attempt },
        )
    }
}

/// What an attempt that failed, or ran out of time, leads to where another
/// attempt may mend it: a wait and another attempt while the step's retries
/// last, and else the end of the run.
pub open spec fn after_failure(step: Step, attempt: u32, outcome: Outcome) -> (
    RunnerState,
    RunnerAction,
) {
    if attempt >= step.retry {
        (RunnerState::Done, RunnerAction::Finish { outcome })
    } else {
        (
            RunnerState::Backoff { next: (attempt + 1) as u32 },
            RunnerAction::Sleep { secs: backoff_secs(attempt as nat) as u64 },
        )
    }
}

/// The state that follows `state` on `input`, and what the driver is to do.
/// `cancelled` says whether the run's cancellation was asked for; it counts
/// at the start of each attempt and nowhere else. An attempt that fails, or
/// runs out of time, is repeated while the step's retries last; an attempt
/// that fails over the step's configuration ends the run at once, whatever
/// retries are left.
pub open spec fn runner_next(step: Step, state: RunnerState, input: RunnerInput, cancelled: bool) -> (
    RunnerState,
    RunnerAction,
) {
    match (state, input) {
        (RunnerState::Idle, RunnerInput::Start) => if gate_enabled(step, ConfirmPhase::Before) {
            (RunnerState::BeforeGate, RunnerAction::Confirm { phase: ConfirmPhase::Before })
        } else {
            attempt_start(step, 0, cancelled)
        },
        (RunnerState::BeforeGate, RunnerInput::Confirmed { accepted }) => if accepted {
            attempt_start(step, 0, cancelled)
        } else {
            (RunnerState::Done, RunnerAction::Finish { outcome: Outcome::DeclinedBefore })
        },
        (RunnerState::Attempting { attempt }, RunnerInput::Attempted { end }) => match end {
            AttemptEnd::Succeeded => if gate_enabled(step, ConfirmPhase::After) {
                (RunnerState::AfterGate, RunnerAction::Confirm { phase: ConfirmPhase::After })
            } else {
                (RunnerState::Done, RunnerAction::Finish { outcome: Outcome::Success })
            },
            AttemptEnd::Failed => after_failure(step, attempt, Outcome::Errored),
            AttemptEnd::TimedOut => after_failure(step, attempt, Outcome::TimedOut),
            AttemptEnd::Misconfigured => (
                RunnerState::Done,
                RunnerAction::Finish { outcome: Outcome::Errored },
            ),
        },
        (RunnerState::Backoff { next }, RunnerInput::Woke) => attempt_start(step, next, cancelled),
        (RunnerState::AfterGate, RunnerInput::Confirmed { accepted }) => if accepted {
            (RunnerState::Done, RunnerAction::Finish { outcome: Outcome::Success })
        } else {
            (RunnerState::Done, RunnerAction::Finish { outcome: Outcome::DeclinedAfter })
        },
        _ => (state, RunnerAction::Rejected),
    }
}

/// The result that an outcome stands for. `error` is the message of the
/// failed attempt, where the run ended with one.
pub open spec fn result_of(step: Step, outcome: Outcome, error: Seq<char>) -> RunResultView {
    match outcome {
        Outcome::Success => RunResultView::Success,
        Outcome::DeclinedBefore => RunResultView::Failed(
            "step '"@ + step.name@ + "' was declined before it ran"@,
        ),
        Outcome::DeclinedAfter => RunResultView::Failed(
            "step '"@ + step.name@ + "' was declined after it ran"@,
        ),
        Outcome::Cancelled => RunResultView::Failed("cancelled"@),
        Outcome::TimedOut => RunResultView::Failed("timeout"@),
        Outcome::Errored => RunResultView::Failed(error),
    }
}

/// The log lines that go with what the driver is told: every attempt is
/// announced before it is made, and every wait says why another attempt
/// follows.
pub open spec fn runner_log(
    step: Step,
    state: RunnerState,
    input: RunnerInput,
    action: RunnerAction,
    error: Seq<char>,
) -> Seq<EventView> {
    match action {
        RunnerAction::Execute { attempt, .. } => seq![
            log_event(
                step.id@,
                "["@ + step.name@ + "] attempt "@ + decimal_text(attempt as nat + 1),
            ),
        ],
        RunnerAction::Sleep { secs } => if input == (RunnerInput::Attempted {
            end: AttemptEnd::TimedOut,
        }) {
            seq![
                log_event(
                    step.id@,
                    "timed out, retrying in "@ + decimal_text(secs as nat) + "s"@,
                ),
            ]
        } else {
            seq![
                log_event(
                    step.id@,
                    "error: "@ + error + ", retrying in "@ + decimal_text(secs as nat) + "s"@,
                ),
            ]
        },
        _ => Seq::empty(),
    }
}

/// One move of the run of a step.
#[derive(Debug)]
pub struct Transition {
    /// The state that follows.
    pub next: RunnerState,
    /// What the driver is to do.
    pub action: RunnerAction,
    /// The events to hand to the observer first.
    pub events: Vec<EngineEvent>,
    /// The result of the run, where the run has ended.
    pub result: Option<StepRunResult>,
}

/// The wait after the attempt numbered `attempt`, in seconds.
pub fn backoff(attempt: u32) -> (secs: u64)
    ensures
        secs == backoff_secs(attempt as nat),
{
    let mut secs: u64 = 1;
    let mut k: u32 = 0;
    proof {
        lemma2_to64();
    }
    while k < attempt
        invariant
            k <= attempt,
            secs == backoff_secs(k as nat),
            secs >= 1,
        decreases attempt - k,
    {
        proof {
            lemma_pow2_unfold((k + 1) as nat);
        }
        if secs > u64::MAX / 2 {
            secs = u64::MAX;
        } else {
            secs = secs * 2;
        }
        k += 1;
    }
    secs
}

/// Whether the step asks for a confirmation at `phase`.
pub fn has_gate(step: &Step, phase: ConfirmPhase) -> (yes: bool)
    ensures
        yes == gate_enabled(*step, phase),
{
    match &step.confirm {
        Some(confirm) => match phase {
            ConfirmPhase::Before => confirm.before,
            ConfirmPhase::After => confirm.after,
        },
        None => false,
    }
}

/// The result that `outcome` stands for.
pub fn run_result(step: &Step, outcome: Outcome, error: &str) -> (result: StepRunResult)
    ensures
        result@ == result_of(*step, outcome, error@),
{
    match outcome {
        Outcome::Success => StepRunResult::Success,
        Outcome::DeclinedBefore => {
            let mut reason = String::from_str("step '");
            reason.append(step.name.as_str());
            reason.append("' was declined before it ran");
            StepRunResult::Failed(reason)
        },
        Outcome::DeclinedAfter => {
            let mut reason = String::from_str("step '");
            reason.append(step.name.as_str());
            reason.append("' was declined after it ran");
            StepRunResult::Failed(reason)
        },
        Outcome::Cancelled => StepRunResult::Failed(String::from_str("cancelled")),
        Outcome::TimedOut => StepRunResult::Failed(String::from_str("timeout")),
        Outcome::Errored => StepRunResult::Failed(String::from_str(error)),
    }
}

/// What the start of the attempt numbered `attempt` leads to.
fn start_attempt(step: &Step, attempt: u32, cancelled: bool) -> (r: (RunnerState, RunnerAction))
    ensures
        r == attempt_start(*step, attempt, cancelled),
{
    if cancelled {
        (RunnerState::Done, RunnerAction::Finish { outcome: Outcome::Cancelled })
    } else {
        let timeout_secs = if step.timeout_sec < 1 {
            1
        } else {
            step.timeout_sec
        };
        (RunnerState::Attempting { attempt }, RunnerAction::Execute { timeout_secs, attempt })
    }
}

/// What a failed or timed-out attempt leads to.
fn fail_attempt(step: &Step, attempt: u32, outcome: Outcome) -> (r: (RunnerState, RunnerAction))
    ensures
        r == after_failure(*step, attempt, outcome),
{
    if attempt >= step.retry as u32 {
        (RunnerState::Done, RunnerAction::Finish { outcome })
    } else {
        (RunnerState::Backoff { next: attempt + 1 }, RunnerAction::Sleep { secs: backoff(attempt) })
    }
}

/// Moves the run of `step` from `state` on `input`: says which state
/// follows, what the driver is to do, which log lines go out first, and,
/// where the run ends, with which result. `error` is the message of the
/// attempt that failed, where `input` reports one. `cancelled` says whether
/// cancellation was asked for.
pub fn run_single_step(
    step: &Step,
    state: RunnerState,
    input: RunnerInput,
    error: &str,
    cancelled: bool,
) -> (t: Transition)
    ensures
        (t.next, t.action) == runner_next(*step, state, input, cancelled),
        event_views(t.events@) == runner_log(*step, state, input, t.action, error@),
        match t.action {
            RunnerAction::Finish { outcome } => t.result matches Some(result) && result@
                == result_of(*step, outcome, error@),
            _ => t.result is None,
        },
{
    let (next, action) = match (state, input) {
        (RunnerState::Idle, RunnerInput::Start) => if has_gate(step, ConfirmPhase::Before) {
            (RunnerState::BeforeGate, RunnerAction::Confirm { phase: ConfirmPhase::Before })
        } else {
            start_attempt(step, 0, cancelled)
        },
        (RunnerState::BeforeGate, RunnerInput::Confirmed { accepted }) => if accepted {
            start_attempt(step, 0, cancelled)
        } else {
            (RunnerState::Done, RunnerAction::Finish { outcome: Outcome::DeclinedBefore })
        },
        (RunnerState::Attempting { attempt }, RunnerInput::Attempted { end }) => match end {
            AttemptEnd::Succeeded => if has_gate(step, ConfirmPhase::After) {
                (RunnerState::AfterGate, RunnerAction::Confirm { phase: ConfirmPhase::After })
            } else {
                (RunnerState::Done, RunnerAction::Finish { outcome: Outcome::Success })
            },
            AttemptEnd::Failed => fail_attempt(step, attempt, Outcome::Errored),
            AttemptEnd::TimedOut => fail_attempt(step, attempt, Outcome::TimedOut),
            AttemptEnd::Misconfigured => (
                RunnerState::Done,
                RunnerAction::Finish { outcome: Outcome::Errored },
            ),
        },
        (RunnerState::Backoff { next }, RunnerInput::Woke) => start_attempt(step, next, cancelled),
        (RunnerState::AfterGate, RunnerInput::Confirmed { accepted }) => if accepted {
            (RunnerState::Done, RunnerAction::Finish { outcome: Outcome::Success })
        } else {
            (RunnerState::Done, RunnerAction::Finish { outcome: Outcome::DeclinedAfter })
        },
        _ => (state, RunnerAction::Rejected),
    };
    let mut events: Vec<EngineEvent> = Vec::new();
    let mut result: Option<StepRunResult> = None;
    match action {
        RunnerAction::Execute { attempt, .. } => {
            let mut line = String::from_str("[");
            line.append(step.name.as_str());
            line.append("] attempt ");
            push_decimal(&mut line, attempt as u64 + 1);
            events.push(log_step(step.id.as_str(), line.as_str()));
        },
        RunnerAction::Sleep { secs } => {
            let timed_out = match input {
                RunnerInput::Attempted { end: AttemptEnd::TimedOut } => true,
                _ => false,
            };
            let mut line = if timed_out {
                String::from_str("timed out, retrying in ")
            } else {
                let mut line = String::from_str("error: ");
                line.append(error);
                line.append(", retrying in ");
                line
            };
            push_decimal(&mut line, secs);
            line.append("s");
            events.push(log_step(step.id.as_str(), line.as_str()));
        },
        RunnerAction::Finish { outcome } => {
            result = Some(run_result(step, outcome, error));
        },
        _ => {},
    }
    proof {
        assert(event_views(events@) =~= runner_log(*step, state, input, action, error@));
    }
    Transition { next, action, events, result }
}

/// How many retries are left when the attempt numbered `attempt` is under
/// way.
pub open spec fn attempts_left(step: Step, attempt: u32) -> nat {
    if attempt >= step.retry {
        0
    } else {
        (step.retry - attempt) as nat
    }
}

/// The run of a step whose every attempt ends as `end` says, without
/// success, and that is never cancelled, from the attempt numbered `attempt`
/// on: how many attempts are made from there, and why the run ends.
pub open spec fn run_always_ending(step: Step, attempt: u32, end: AttemptEnd) -> (nat, Outcome)
    decreases attempts_left(step, attempt),
{
    let after = runner_next(
        step,
        RunnerState::Attempting { attempt },
        RunnerInput::Attempted { end },
        false,
    );
    match after.1 {
        RunnerAction::Finish { outcome } => (1, outcome),
        RunnerAction::Sleep { .. } => match runner_next(step, after.0, RunnerInput::Woke, false).0 {
            RunnerState::Attempting { attempt: next } => if attempts_left(step, next)
                < attempts_left(step, attempt) {
                let rest = run_always_ending(step, next, end);
                (1 + rest.0, rest.1)
            } else {
                (1, Outcome::Errored)
            },
            _ => (1, Outcome::Errored),
        },
        _ => (1, Outcome::Errored),
    }
}

/// A step whose every attempt runs out of time is attempted exactly once more
/// than it has retries, and then fails with the reason `timeout`. A step
/// whose every attempt fails in a way that may be mended is attempted as
/// often, and fails with the last attempt's message.
pub proof fn lemma_attempts_when_always_failing(step: Step, end: AttemptEnd, error: Seq<char>)
    requires
        end == AttemptEnd::Failed || end == AttemptEnd::TimedOut,
    ensures
        run_always_ending(step, 0, end).0 == step.retry + 1,
        end == AttemptEnd::TimedOut ==> run_always_ending(step, 0, end).1 == Outcome::TimedOut
            && result_of(step, Outcome::TimedOut, error) == RunResultView::Failed("timeout"@),
        end == AttemptEnd::Failed ==> run_always_ending(step, 0, end).1 == Outcome::Errored
            && result_of(step, Outcome::Errored, error) == RunResultView::Failed(error),
{
    lemma_attempts_from(step, 0, end);
}

/// A fault of the step's configuration is not retried: an attempt that ends
/// over one ends the run, whatever retries the step has left and whether or
/// not cancellation was asked for, with no wait and no log line; the step
/// fails with the error's text. A step whose first attempt ends so is
/// attempted exactly once.
pub proof fn lemma_misconfigured_step_is_attempted_once(
    step: Step,
    attempt: u32,
    cancelled: bool,
    error: Seq<char>,
)
    ensures
        runner_next(
            step,
            RunnerState::Attempting { attempt },
            RunnerInput::Attempted { end: AttemptEnd::Misconfigured },
            cancelled,
        ) == (RunnerState::Done, RunnerAction::Finish { outcome: Outcome::Errored }),
        runner_log(
            step,
            RunnerState::Attempting { attempt },
            RunnerInput::Attempted { end: AttemptEnd::Misconfigured },
            RunnerAction::Finish { outcome: Outcome::Errored },
            error,
        ).len() == 0,
        run_always_ending(step, 0, AttemptEnd::Misconfigured) == (1nat, Outcome::Errored),
        result_of(step, Outcome::Errored, error) == RunResultView::Failed(error),
{
}

/// From the attempt numbered `attempt` on, as many attempts are made as
/// there are retries left, and one more.
proof fn lemma_attempts_from(step: Step, attempt: u32, end: AttemptEnd)
    requires
        end == AttemptEnd::Failed || end == AttemptEnd::TimedOut,
        attempt <= step.retry,
    ensures
        run_always_ending(step, attempt, end).0 == step.retry - attempt + 1,
        run_always_ending(step, attempt, end).1 == if end == AttemptEnd::TimedOut {
            Outcome::TimedOut
        } else {
            Outcome::Errored
        },
    decreases attempts_left(step, attempt),
{
    if attempt < step.retry {
        lemma_attempts_from(step, (attempt + 1) as u32, end);
    }
}

/// What the driver is to do first for the work of a step.
#[derive(Debug)]
#[allow(inconsistent_fields)]
pub enum StepPlan<'a, E> {
    /// Run the statement on the executor.
    Sql { executor: &'a E, statement: String },
    /// Read the SQL file at `path`; its contents go on through
    /// `execute_sql_file`.
    ReadSqlFile { path: String },
    /// Start the bulk loader.
    Loader { command: CommandPlan },
    /// Start the shell command.
    Shell { command: ShellPlan },
    /// Read the file at `path`; its contents go on through
    /// `execute_extract_step`.
    ReadExtractFile { path: String },
    /// Find the paths that match `pattern`; they go on through the loop.
    Glob { pattern: String },
}

/// The first move of a step's work.
#[derive(Debug)]
pub struct KindStart<'a, E> {
    /// The events to hand to the observer first.
    pub events: Vec<EngineEvent>,
    /// What the driver is to do, or why the attempt fails.
    pub plan: Result<StepPlan<'a, E>, StepError>,
}

/// The log line that announces the run of a statement.
pub open spec fn sql_start_line() -> Seq<char> {
    "SQL execution started"@
}

/// Starts the work of a step, as its kind asks: a SQL step is announced by
/// a log line under `log_step_id`, its statement is expanded and its target
/// looked up; a SQL-file step, an extraction step and a loop step have their
/// path or pattern expanded; a loader step and a shell step have their
/// command worked out. What cannot be worked out ends the attempt with an
/// error; `StepError::attempt_end` says whether the step may be tried again.
pub fn execute_step_kind<'a, E>(
    step: &Step,
    log_step_id: &str,
    handles: &'a EngineHandles<E>,
    ctx: &ExecutionContext,
    platform: Platform,
) -> (start: KindStart<'a, E>)
    ensures
        match step.kind {
            StepKind::Sql { sql, target_db } => {
                &&& event_views(start.events@) == seq![log_event(log_step_id@, sql_start_line())]
                &&& match start.plan {
                    Ok(StepPlan::Sql { executor, statement }) => sql_outcome(
                        Ok((executor, statement)),
                        sql@,
                        target_db,
                        handles.targets(),
                        ctx.bindings(),
                    ),
                    Ok(_) => false,
                    Err(e) => sql_outcome::<E>(
                        Err(e),
                        sql@,
                        target_db,
                        handles.targets(),
                        ctx.bindings(),
                    ),
                }
            },
            StepKind::SqlFile { path, .. } => {
                &&& start.events@.len() == 0
                &&& match start.plan {
                    Ok(StepPlan::ReadSqlFile { path: actual }) => expanded_or_reported(
                        Ok(actual),
                        path@,
                        "sql_file"@,
                        ctx.bindings(),
                    ),
                    Ok(_) => false,
                    Err(e) => expanded_or_reported(Err(e), path@, "sql_file"@, ctx.bindings()),
                }
            },
            StepKind::SqlLoaderPar { config } => {
                &&& start.events@.len() == 0
                &&& match start.plan {
                    Ok(StepPlan::Loader { command }) => loader_outcome(
                        Ok(command),
                        config,
                        ctx.bindings(),
                    ),
                    Ok(_) => false,
                    Err(e) => loader_outcome(Err(e), config, ctx.bindings()),
                }
            },
            StepKind::Shell { config } => {
                &&& start.events@.len() == 0
                &&& match start.plan {
                    Ok(StepPlan::Shell { command }) => shell_outcome(
                        Ok(command),
                        config,
                        ctx.bindings(),
                        platform,
                    ),
                    Ok(_) => false,
                    Err(e) => shell_outcome(Err(e), config, ctx.bindings(), platform),
                }
            },
            StepKind::ExtractVarFromFile { config } => {
                &&& start.events@.len() == 0
                &&& match start.plan {
                    Ok(StepPlan::ReadExtractFile { path }) => expanded_or_reported(
                        Ok(path),
                        config.file_path@,
                        "extract.file_path"@,
                        ctx.bindings(),
                    ),
                    Ok(_) => false,
                    Err(e) => expanded_or_reported(
                        Err(e),
                        config.file_path@,
                        "extract.file_path"@,
                        ctx.bindings(),
                    ),
                }
            },
            StepKind::Loop { config } => {
                &&& start.events@.len() == 0
                &&& match start.plan {
                    Ok(StepPlan::Glob { pattern }) => expanded_or_reported(
                        Ok(pattern),
                        config.for_each_glob@,
                        "loop.pattern"@,
                        ctx.bindings(),
                    ),
                    Ok(_) => false,
                    Err(e) => expanded_or_reported(
                        Err(e),
                        config.for_each_glob@,
                        "loop.pattern"@,
                        ctx.bindings(),
                    ),
                }
            },
        },
{
    let mut events: Vec<EngineEvent> = Vec::new();
    let plan = match &step.kind {
        StepKind::Sql { sql, target_db } => {
            events.push(log_step(log_step_id, "SQL execution started"));
            proof {
                assert(event_views(events@) =~= seq![log_event(log_step_id@, sql_start_line())]);
            }
            match execute_sql(sql.as_str(), target_db, handles, ctx) {
                Ok((executor, statement)) => Ok(StepPlan::Sql { executor, statement }),
                Err(e) => Err(e),
            }
        },
        StepKind::SqlFile { path, .. } => match sql_file_path(path.as_str(), ctx) {
            Ok(path) => Ok(StepPlan::ReadSqlFile { path }),
            Err(e) => Err(e),
        },
        StepKind::SqlLoaderPar { config } => match run_sqlldr(config, ctx) {
            Ok(command) => Ok(StepPlan::Loader { command }),
            Err(e) => Err(e),
        },
        StepKind::Shell { config } => match run_shell_command(config, ctx, platform) {
            Ok(command) => Ok(StepPlan::Shell { command }),
            Err(e) => Err(e),
        },
        StepKind::ExtractVarFromFile { config } => match extract::extract_file_path(config, ctx) {
            Ok(path) => Ok(StepPlan::ReadExtractFile { path }),
            Err(e) => Err(e),
        },
        StepKind::Loop { config } => match loops::loop_pattern(config, ctx) {
            Ok(pattern) => Ok(StepPlan::Glob { pattern }),
            Err(e) => Err(e),
        },
    };
    KindStart { events, plan }
}

} // verus!
