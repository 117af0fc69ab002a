//! Confirmation gates: the question a step puts before or after its work,
//! and what follows from the answer.

use crate::confirm_bridge::ConfirmBridge;
use crate::context::ExecutionContext;
use crate::events::{event_views, ConfirmPhase, EngineEvent, EventView};
use crate::scenario::{Step, StepConfirmConfig, StepKind};
use crate::text::{decimal_text, lines_of, opt_text, push_decimal, split_lines, text_list};
use vstd::prelude::*;
use vstd::string::StringExecFns;

verus! {

/// `s` in upper case, as the Unicode standard maps it.
pub uninterp spec fn uppercased(s: Seq<char>) -> Seq<char>;

/// `str::to_uppercase` of the standard library: the text with every
/// character replaced by its upper-case mapping. The mapping is Unicode's
/// and is not spelled out here.
#[verifier::external_body]
fn to_uppercase(s: &str) -> (upper: String)
    ensures
        upper@ == uppercased(s@),
{
    s.to_uppercase()
}

/// The context variable that records the answer given for the step `id`.
pub open spec fn confirm_key(id: Seq<char>) -> Seq<char> {
    "CONFIRM_"@ + uppercased(id)
}

/// The text an answer is recorded as.
pub open spec fn answer_text(accepted: bool) -> Seq<char> {
    if accepted {
        "Yes"@
    } else {
        "No"@
    }
}

/// A label of the kind of a step.
pub open spec fn kind_label(kind: StepKind) -> Seq<char> {
    match kind {
        StepKind::Sql { .. } => "sql"@,
        StepKind::SqlFile { .. } => "sql_file"@,
        StepKind::SqlLoaderPar { .. } => "sql_loader_par"@,
        StepKind::Shell { .. } => "shell"@,
        StepKind::ExtractVarFromFile { .. } => "extract"@,
        StepKind::Loop { .. } => "loop"@,
    }
}

/// A label of the kind of a step.
pub fn step_kind_label(kind: &StepKind) -> (label: String)
    ensures
        label@ == kind_label(*kind),
{
    match kind {
        StepKind::Sql { .. } => String::from_str("sql"),
        StepKind::SqlFile { .. } => String::from_str("sql_file"),
        StepKind::SqlLoaderPar { .. } => String::from_str("sql_loader_par"),
        StepKind::Shell { .. } => String::from_str("shell"),
        StepKind::ExtractVarFromFile { .. } => String::from_str("extract"),
        StepKind::Loop { .. } => String::from_str("loop"),
    }
}

/// The texts of `lines`, each but the last followed by a line feed.
pub open spec fn joined(lines: Seq<Seq<char>>) -> Seq<char>
    decreases lines.len(),
{
    if lines.len() == 0 {
        Seq::empty()
    } else if lines.len() == 1 {
        lines[0]
    } else {
        joined(lines.drop_last()) + seq!['\n'] + lines.last()
    }
}

/// The first `max_lines` lines of `text`, and a line of three dots where
/// `text` has more.
pub open spec fn trimmed(text: Seq<char>, max_lines: nat) -> Seq<char> {
    let lines = lines_of(text);
    if lines.len() > max_lines {
        joined(lines.take(max_lines as int).push("..."@))
    } else {
        joined(lines)
    }
}

/// Cuts a text of several lines down to its first `max_lines` lines; three
/// dots stand for what was cut.
pub fn trim_lines(text: &str, max_lines: usize) -> (short: String)
    ensures
        short@ == trimmed(text@, max_lines as nat),
{
    let lines = split_lines(text);
    let keep = if lines.len() > max_lines {
        max_lines
    } else {
        lines.len()
    };
    let mut short = String::new();
    let mut i: usize = 0;
    while i < keep
        invariant
            keep <= lines.len(),
            i <= keep,
            text_list(lines@) == lines_of(text@),
            short@ == joined(lines_of(text@).take(i as int)),
        decreases keep - i,
    {
        proof {
            let longer = lines_of(text@).take(i + 1);
            assert(longer.drop_last() =~= lines_of(text@).take(i as int));
            assert(longer.last() == lines@[i as int]@);
        }
        if i > 0 {
            short.push('\n');
        }
        short.append(lines[i].as_str());
        proof {
            if i == 0 {
                assert(Seq::<char>::empty() + lines@[i as int]@ =~= lines@[i as int]@);
            } else {
                assert(joined(lines_of(text@).take(i as int)).push('\n') =~= joined(
                    lines_of(text@).take(i as int),
                ) + seq!['\n']);
            }
        }
        i += 1;
    }
    if lines.len() > max_lines {
        proof {
            let kept = lines_of(text@).take(max_lines as int);
            let all = kept.push("..."@);
            assert(all.drop_last() =~= kept);
            assert(all.last() == "..."@);
            if max_lines == 0 {
                assert(Seq::<char>::empty() + "..."@ =~= "..."@);
            } else {
                assert(short@.push('\n') =~= short@ + seq!['\n']);
            }
        }
        if max_lines > 0 {
            short.push('\n');
        }
        short.append("...");
    } else {
        proof {
            assert(lines_of(text@).take(lines@.len() as int) =~= lines_of(text@));
        }
    }
    short
}

/// How many lines of a statement or a script a summary shows.
pub const SUMMARY_LINES: usize = 4;

/// A short description of what a step does.
pub open spec fn summary_of(step: Step) -> Seq<char> {
    match step.kind {
        StepKind::Sql { sql, .. } => trimmed(sql@, SUMMARY_LINES as nat),
        StepKind::SqlFile { path, .. } => "file: "@ + path@,
        StepKind::SqlLoaderPar { config } => "control: "@ + config.control_file@,
        StepKind::Shell { config } => trimmed(config.script@, SUMMARY_LINES as nat),
        StepKind::ExtractVarFromFile { config } => "file: "@ + config.file_path@ + " / group: "@
            + decimal_text(config.group as nat) + " / variable: "@ + config.var_name@,
        StepKind::Loop { config } => "loop "@ + config.for_each_glob@ + " -> "@ + config.as_var@
            + " ("@ + decimal_text(config.steps@.len()) + " steps)"@,
    }
}

/// Describes in a few words what a step does: the first lines of its
/// statement or script, or the files and names it works on.
pub fn summarize_step(step: &Step) -> (summary: Option<String>)
    ensures
        opt_text(summary) == Some(summary_of(*step)),
{
    match &step.kind {
        StepKind::Sql { sql, .. } => Some(trim_lines(sql.as_str(), SUMMARY_LINES)),
        StepKind::SqlFile { path, .. } => {
            let mut text = String::from_str("file: ");
            text.append(path.as_str());
            Some(text)
        },
        StepKind::SqlLoaderPar { config } => {
            let mut text = String::from_str("control: ");
            text.append(config.control_file.as_str());
            Some(text)
        },
        StepKind::Shell { config } => Some(trim_lines(config.script.as_str(), SUMMARY_LINES)),
        StepKind::ExtractVarFromFile { config } => {
            let mut text = String::from_str("file: ");
            text.append(config.file_path.as_str());
            text.append(" / group: ");
            push_decimal(&mut text, config.group as u64);
            text.append(" / variable: ");
            text.append(config.var_name.as_str());
            Some(text)
        },
        StepKind::Loop { config } => {
            let mut text = String::from_str("loop ");
            text.append(config.for_each_glob.as_str());
            text.append(" -> ");
            text.append(config.as_var.as_str());
            text.append(" (");
            push_decimal(&mut text, config.steps.len() as u64);
            text.append(" steps)");
            Some(text)
        },
    }
}

/// Whether `confirm` asks at `phase`.
pub open spec fn asks_at(confirm: StepConfirmConfig, phase: ConfirmPhase) -> bool {
    match phase {
        ConfirmPhase::Before => confirm.before,
        ConfirmPhase::After => confirm.after,
    }
}

/// The question `confirm` puts at `phase`.
pub open spec fn question_at(confirm: StepConfirmConfig, phase: ConfirmPhase) -> Option<Seq<char>> {
    match phase {
        ConfirmPhase::Before => opt_text(confirm.message_before),
        ConfirmPhase::After => opt_text(confirm.message_after),
    }
}

/// Whether `confirm` asks at `phase`.
fn gate_is_on(confirm: &StepConfirmConfig, phase: ConfirmPhase) -> (yes: bool)
    ensures
        yes == asks_at(*confirm, phase),
{
    match phase {
        ConfirmPhase::Before => confirm.before,
        ConfirmPhase::After => confirm.after,
    }
}

/// Records the answer given for `step` in the context, as `Yes` or `No`
/// under the name `CONFIRM_` followed by the step's identifier in upper case,
/// so that later steps can refer to it.
pub fn record_confirm(step: &Step, accepted: bool, ctx: &mut ExecutionContext)
    ensures
        final(ctx).vars() == old(ctx).vars().insert(confirm_key(step.id@), answer_text(accepted)),
        final(ctx).env() == old(ctx).env(),
{
    let mut key = String::from_str("CONFIRM_");
    let upper = to_uppercase(step.id.as_str());
    key.append(upper.as_str());
    ctx.set_var(
        key.as_str(),
        if accepted {
            "Yes"
        } else {
            "No"
        },
    );
}

/// Evaluates a confirmation gate where nobody can be asked. A gate that is
/// off accepts, and records nothing. A gate that is on takes its default
/// answer and records it in the context.
pub fn evaluate_confirm(
    step: &Step,
    confirm: &StepConfirmConfig,
    phase: ConfirmPhase,
    ctx: &mut ExecutionContext,
) -> (accepted: bool)
    ensures
        !asks_at(*confirm, phase) ==> accepted && final(ctx).vars() == old(ctx).vars(),
        asks_at(*confirm, phase) ==> accepted == confirm.default_answer.accepts()
            && final(ctx).vars() == old(ctx).vars().insert(
            confirm_key(step.id@),
            answer_text(accepted),
        ),
        final(ctx).env() == old(ctx).env(),
{
    if !gate_is_on(confirm, phase) {
        return true;
    }
    let accepted = confirm.default_answer.is_yes();
    record_confirm(step, accepted, ctx);
    accepted
}

/// The request for a confirmation of `step` at `phase`, under the number
/// `request_id`.
pub open spec fn confirm_request(
    step: Step,
    confirm: StepConfirmConfig,
    phase: ConfirmPhase,
    request_id: u64,
) -> EventView {
    EventView::RequestConfirm {
        request_id,
        step_id: step.id@,
        step_name: step.name@,
        step_kind: kind_label(step.kind),
        summary: Some(summary_of(step)),
        message: question_at(confirm, phase),
        default_answer: confirm.default_answer,
        phase,
    }
}

/// Opens a confirmation gate where somebody can be asked. A gate that is off
/// opens nothing: the step goes on. A gate that is on registers a request
/// with the bridge and returns its number and the event that carries the
/// question to the observer; the answer is then awaited.
pub fn request_confirm(
    step: &Step,
    confirm: &StepConfirmConfig,
    phase: ConfirmPhase,
    bridge: &mut ConfirmBridge,
) -> (asked: Option<(u64, EngineEvent)>)
    ensures
        match asked {
            None => !asks_at(*confirm, phase) && final(bridge).slots() == old(bridge).slots()
                && final(bridge).next_id() == old(bridge).next_id(),
            Some((request_id, event)) => {
                &&& asks_at(*confirm, phase)
                &&& request_id == old(bridge).next_id()
                &&& final(bridge).next_id() == if request_id == u64::MAX {
                    0
                } else {
                    (request_id + 1) as u64
                }
                &&& final(bridge).slots() == old(bridge).slots().insert(
                    request_id,
                    crate::confirm_bridge::Slot::Waiting,
                )
                &&& event@ == confirm_request(*step, *confirm, phase, request_id)
            },
        },
        old(bridge).numbers_unused() && old(bridge).next_id() < u64::MAX
            ==> final(bridge).numbers_unused(),
{
    if !gate_is_on(confirm, phase) {
        return None;
    }
    let request_id = bridge.register();
    let message = match phase {
        ConfirmPhase::Before => match &confirm.message_before {
            Some(text) => Some(text.clone()),
            None => None,
        },
        ConfirmPhase::After => match &confirm.message_after {
            Some(text) => Some(text.clone()),
            None => None,
        },
    };
    let event = EngineEvent::RequestConfirm {
        request_id,
        step_id: step.id.clone(),
        step_name: step.name.clone(),
        step_kind: step_kind_label(&step.kind),
        summary: summarize_step(step),
        message,
        default_answer: confirm.default_answer,
        phase,
    };
    Some((request_id, event))
}

/// Closes a confirmation gate that was opened under the number
/// `request_id`. `answer` holds what was answered, or nothing where the wait
/// ended without an answer. An answer decides, and the observer is told of
/// it. With no answer the step's default answer decides, and the bridge forgets the
/// number. Either way the decision is recorded in the context.
pub fn resolve_confirm(
    step: &Step,
    confirm: &StepConfirmConfig,
    request_id: u64,
    answer: Option<bool>,
    ctx: &mut ExecutionContext,
    bridge: &mut ConfirmBridge,
) -> (r: (bool, Vec<EngineEvent>))
    ensures
        r.0 == match answer {
            Some(accepted) => accepted,
            None => confirm.default_answer.accepts(),
        },
        event_views(r.1@) == match answer {
            Some(accepted) => seq![
                EventView::ConfirmResponse { request_id, step_id: step.id@, accepted },
            ],
            None => Seq::empty(),
        },
        final(bridge).slots() == match answer {
            Some(_) => old(bridge).slots(),
            None => old(bridge).slots().remove(request_id),
        },
        final(bridge).next_id() == old(bridge).next_id(),
        final(ctx).vars() == old(ctx).vars().insert(confirm_key(step.id@), answer_text(r.0)),
        final(ctx).env() == old(ctx).env(),
{
    let mut events: Vec<EngineEvent> = Vec::new();
    let accepted = match answer {
        Some(accepted) => {
            events.push(
                EngineEvent::ConfirmResponse { request_id, step_id: step.id.clone(), accepted },
            );
            proof {
                assert(event_views(events@) =~= seq![
                    EventView::ConfirmResponse { request_id, step_id: step.id@, accepted },
                ]);
            }
            accepted
        },
        None => {
            bridge.cancel(request_id);
            proof {
                assert(event_views(events@) =~= Seq::<EventView>::empty());
            }
            confirm.default_answer.is_yes()
        },
    };
    record_confirm(step, accepted, ctx);
    (accepted, events)
}

} // verus!
