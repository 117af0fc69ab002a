//! The events the engine hands to its observer, in the order they occur.

use crate::scenario::ConfirmDefault;
use crate::text::opt_text;
use vstd::prelude::*;
use vstd::string::StringExecFns;

verus! {

/// The moment of a step's run at which a confirmation is asked for.
#[derive(Debug, Clone, Copy, PartialEq, Eq, Structural)]
pub enum ConfirmPhase {
    /// Before the step runs.
    Before,
    /// After the step ran successfully.
    After,
}

/// One event of a run.
#[derive(Debug, Clone)]
pub enum EngineEvent {
    /// A step has started.
    StepStarted { step_id: String },
    /// A step has written a log line.
    StepLog { step_id: String, line: String },
    /// A step has ended.
    StepFinished { step_id: String, success: bool },
    /// A step waits for a confirmation.
    RequestConfirm {
        /// Identifies the request in the answer.
        request_id: u64,
        /// The step that asks.
        step_id: String,
        /// The step's name.
        step_name: String,
        /// A label of the step's kind.
        step_kind: String,
        /// A short description of what the step does.
        summary: Option<String>,
        /// The question to show.
        message: Option<String>,
        /// The answer taken when nobody answers.
        default_answer: ConfirmDefault,
        /// Whether the step is about to run or has run.
        phase: ConfirmPhase,
    },
    /// A confirmation request has been answered.
    ConfirmResponse { request_id: u64, step_id: String, accepted: bool },
    /// The run is over. Nothing follows this event.
    ScenarioFinished,
}

/// What an event says, with its texts as sequences of characters.
pub enum EventView {
    StepStarted { step_id: Seq<char> },
    StepLog { step_id: Seq<char>, line: Seq<char> },
    StepFinished { step_id: Seq<char>, success: bool },
    RequestConfirm {
        request_id: u64,
        step_id: Seq<char>,
        step_name: Seq<char>,
        step_kind: Seq<char>,
        summary: Option<Seq<char>>,
        message: Option<Seq<char>>,
        default_answer: ConfirmDefault,
        phase: ConfirmPhase,
    },
    ConfirmResponse { request_id: u64, step_id: Seq<char>, accepted: bool },
    ScenarioFinished,
}

impl View for EngineEvent {
    type V = EventView;

    open spec fn view(&self) -> EventView {
        match *self {
            EngineEvent::StepStarted { step_id } => EventView::StepStarted { step_id: step_id@ },
            EngineEvent::StepLog { step_id, line } => EventView::StepLog {
                step_id: step_id@,
                line: line@,
            },
            EngineEvent::StepFinished { step_id, success } => EventView::StepFinished {
                step_id: step_id@,
                success,
            },
            EngineEvent::RequestConfirm {
                request_id,
                step_id,
                step_name,
                step_kind,
                summary,
                message,
                default_answer,
                phase,
            } => EventView::RequestConfirm {
                request_id,
                step_id: step_id@,
                step_name: step_name@,
                step_kind: step_kind@,
                summary: opt_text(summary),
                message: opt_text(message),
                default_answer,
                phase,
            },
            EngineEvent::ConfirmResponse { request_id, step_id, accepted } => {
                EventView::ConfirmResponse { request_id, step_id: step_id@, accepted }
            },
            EngineEvent::ScenarioFinished => EventView::ScenarioFinished,
        }
    }
}

/// What a list of events says.
pub open spec fn event_views(events: Seq<EngineEvent>) -> Seq<EventView> {
    Seq::new(events.len(), |i: int| events[i]@)
}

/// The event that step `step_id` has logged `line`.
pub open spec fn log_event(step_id: Seq<char>, line: Seq<char>) -> EventView {
    EventView::StepLog { step_id, line }
}

/// The event that step `step_id` logs `line`.
pub fn log_step(step_id: &str, line: &str) -> (event: EngineEvent)
    ensures
        event@ == log_event(step_id@, line@),
{
    EngineEvent::StepLog { step_id: String::from_str(step_id), line: String::from_str(line) }
}

} // verus!
