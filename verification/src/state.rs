//! The observable state of a run: one record per step.

use crate::scenario::{Scenario, Step};
use vstd::prelude::*;

verus! {

/// Where a step stands.
#[derive(Debug, Clone)]
pub enum StepStatus {
    /// Not started yet.
    Pending,
    /// Started and not yet ended.
    Running,
    /// Ended successfully.
    Success,
    /// Ended in failure, or skipped; with the reason.
    Failed(String),
}

/// Where a step stands, with the reason as a sequence of characters.
pub enum StatusView {
    Pending,
    Running,
    Success,
    Failed(Seq<char>),
}

impl View for StepStatus {
    type V = StatusView;

    open spec fn view(&self) -> StatusView {
        match *self {
            StepStatus::Pending => StatusView::Pending,
            StepStatus::Running => StatusView::Running,
            StepStatus::Success => StatusView::Success,
            StepStatus::Failed(reason) => StatusView::Failed(reason@),
        }
    }
}

/// The most log lines a step's record keeps.
pub const MAX_LOG_LINES: usize = 500;

/// The record of one step: its status, when it started and ended, and its
/// latest log lines.
#[derive(Debug, Clone)]
pub struct StepRuntimeState {
    /// Where the step stands.
    pub status: StepStatus,
    /// When the step started, in milliseconds on the observer's clock.
    pub started_at: Option<u64>,
    /// When the step ended, on the same clock.
    pub finished_at: Option<u64>,
    /// The latest log lines, oldest first.
    pub logs: Vec<String>,
}

/// The last `MAX_LOG_LINES` lines of `lines`.
pub open spec fn latest_lines(lines: Seq<String>) -> Seq<String> {
    if lines.len() <= MAX_LOG_LINES {
        lines
    } else {
        lines.subrange(lines.len() - MAX_LOG_LINES, lines.len() as int)
    }
}

impl StepRuntimeState {
    /// The record of a step that has not started.
    pub fn new() -> (state: Self)
        ensures
            state.status@ == StatusView::Pending,
            state.started_at is None,
            state.finished_at is None,
            state.logs@.len() == 0,
    {
        StepRuntimeState {
            status: StepStatus::Pending,
            started_at: None,
            finished_at: None,
            logs: Vec::new(),
        }
    }

    /// Appends a log line. The record keeps the latest `MAX_LOG_LINES` lines
    /// and drops the oldest beyond that.
    pub fn push_log(&mut self, line: String)
        ensures
            final(self).logs@ == latest_lines(old(self).logs@.push(line)),
            final(self).status == old(self).status,
            final(self).started_at == old(self).started_at,
            final(self).finished_at == old(self).finished_at,
    {
        self.logs.push(line);
        let ghost all = self.logs@;
        while self.logs.len() > MAX_LOG_LINES
            invariant
                self.logs@.len() <= all.len(),
                self.logs@.len() == all.len() || self.logs@.len() >= MAX_LOG_LINES,
                all == old(self).logs@.push(line),
                self.logs@ == all.subrange(all.len() - self.logs@.len(), all.len() as int),
                self.status == old(self).status,
                self.started_at == old(self).started_at,
                self.finished_at == old(self).finished_at,
            decreases self.logs@.len(),
        {
            let ghost before = self.logs@;
            self.logs.remove(0);
            proof {
                assert(self.logs@ =~= all.subrange(
                    all.len() - self.logs@.len(),
                    all.len() as int,
                ));
            }
        }
        proof {
            assert(all.subrange(0, all.len() as int) =~= all);
        }
    }
}

impl Default for StepRuntimeState {
    fn default() -> (state: Self)
        ensures
            state.status@ == StatusView::Pending,
            state.started_at is None,
            state.finished_at is None,
            state.logs@.len() == 0,
    {
        StepRuntimeState::new()
    }
}

/// A scenario together with the records of its steps, one per step and in
/// the order of the steps.
#[derive(Debug)]
pub struct ScenarioRuntime {
    /// The scenario that runs.
    pub scenario: Scenario,
    /// The record of each step, at the step's position.
    pub steps_state: Vec<StepRuntimeState>,
}

impl ScenarioRuntime {
    /// The state before anything has run: every step is pending.
    pub fn new(scenario: Scenario) -> (runtime: Self)
        ensures
            runtime.scenario == scenario,
            runtime.steps_state@.len() == scenario.steps@.len(),
            forall|i: int|
                0 <= i < runtime.steps_state@.len() ==> {
                    &&& (#[trigger] runtime.steps_state@[i]).status@ == StatusView::Pending
                    &&& runtime.steps_state@[i].started_at is None
                    &&& runtime.steps_state@[i].finished_at is None
                    &&& runtime.steps_state@[i].logs@.len() == 0
                },
    {
        let n = scenario.steps.len();
        let mut steps_state: Vec<StepRuntimeState> = Vec::new();
        let mut i: usize = 0;
        while i < n
            invariant
                i <= n,
                steps_state@.len() == i,
                forall|k: int|
                    0 <= k < steps_state@.len() ==> {
                        &&& (#[trigger] steps_state@[k]).status@ == StatusView::Pending
                        &&& steps_state@[k].started_at is None
                        &&& steps_state@[k].finished_at is None
                        &&& steps_state@[k].logs@.len() == 0
                    },
            decreases n - i,
        {
            steps_state.push(StepRuntimeState::new());
            i += 1;
        }
        ScenarioRuntime { scenario, steps_state }
    }
}

} // verus!
