//! SQL steps: the statement to run and the executor to run it on.

use crate::context::{expansion, lemma_expansion_idempotent, reports, ExecutionContext};
use crate::events::{event_views, log_event, log_step, EngineEvent, EventView};
use crate::error::{expanded_or_reported, StepError};
use crate::resources::{default_target, EngineHandles};
use vstd::prelude::*;
use vstd::string::StringExecFns;

verus! {

/// The target a step names, or the default target where it names none.
pub open spec fn target_of(target_db: Option<String>) -> Seq<char> {
    match target_db {
        Some(name) => name@,
        None => default_target(),
    }
}

/// `res` is what preparing the statement `sql` for the target `target_db`
/// gives: the executor registered for the target and the expanded statement;
/// or the report that the statement does not expand; or, for a statement that
/// expands, the report that the target is not registered.
pub open spec fn sql_outcome<E>(
    res: Result<(&E, String), StepError>,
    sql: Seq<char>,
    target_db: Option<String>,
    targets: Map<Seq<char>, E>,
    b: Map<Seq<char>, Seq<char>>,
) -> bool {
    match res {
        Ok((executor, statement)) => {
            &&& expansion(sql, b) == Some(statement@)
            &&& targets.contains_key(target_of(target_db))
            &&& *executor == targets[target_of(target_db)]
        },
        Err(StepError::Expansion(e)) => reports(e, sql, "sql"@, b),
        Err(StepError::UndefinedDbTarget { name }) => {
            &&& expansion(sql, b) is Some
            &&& !targets.contains_key(target_of(target_db))
            &&& name@ == target_of(target_db)
        },
        Err(_) => false,
    }
}

/// Prepares the run of a SQL statement: expands the statement through the
/// context and looks its target up in the registry. Returns the executor and
/// the expanded statement. A statement that does not expand fails before the
/// target is looked at.
pub fn execute_sql<'a, E>(
    sql: &str,
    target_db: &Option<String>,
    handles: &'a EngineHandles<E>,
    ctx: &ExecutionContext,
) -> (res: Result<(&'a E, String), StepError>)
    ensures
        sql_outcome(res, sql@, *target_db, handles.targets(), ctx.bindings()),
{
    let statement = match ctx.expand_required(sql, "sql") {
        Ok(text) => text,
        Err(e) => {
            return Err(StepError::Expansion(e));
        },
    };
    let executor = match target_db {
        Some(name) => handles.get_db_executor(name.as_str()),
        None => handles.get_db_executor("default"),
    };
    match executor {
        Ok(executor) => Ok((executor, statement)),
        Err(e) => Err(e),
    }
}

/// The path of the file of a SQL-file step, expanded through the context.
pub fn sql_file_path(path: &str, ctx: &ExecutionContext) -> (res: Result<String, StepError>)
    ensures
        expanded_or_reported(res, path@, "sql_file"@, ctx.bindings()),
{
    match ctx.expand_required(path, "sql_file") {
        Ok(text) => Ok(text),
        Err(e) => Err(StepError::Expansion(e)),
    }
}

/// The statement of a SQL-file step: the contents of the file, expanded
/// through the context, for the file itself may hold placeholders.
pub fn load_sql_file(content: &str, ctx: &ExecutionContext) -> (res: Result<String, StepError>)
    ensures
        expanded_or_reported(res, content@, "sql_file_content"@, ctx.bindings()),
{
    match ctx.expand_required(content, "sql_file_content") {
        Ok(text) => Ok(text),
        Err(e) => Err(StepError::Expansion(e)),
    }
}

/// The log line that announces the run of the SQL file at `path`.
pub open spec fn sql_file_line(path: Seq<char>) -> Seq<char> {
    "running SQL file "@ + path
}

/// The run of a SQL file, as far as it is prepared.
#[derive(Debug)]
pub struct SqlFileStart<'a, E> {
    /// The events to hand to the observer first.
    pub events: Vec<EngineEvent>,
    /// The executor and the statement to run on it, or why the attempt
    /// fails.
    pub plan: Result<(&'a E, String), StepError>,
}

/// Prepares the run of a SQL file from its contents: expands the contents
/// through the context, announces the run by a log line that names the file
/// as the step does, and looks the target up. Contents that do not expand
/// fail before anything is announced. `path` is the path as the step gives
/// it; `log_step_id` is the step that the log line belongs to.
pub fn execute_sql_file<'a, E>(
    path: &str,
    content: &str,
    target_db: &Option<String>,
    handles: &'a EngineHandles<E>,
    ctx: &ExecutionContext,
    log_step_id: &str,
) -> (start: SqlFileStart<'a, E>)
    ensures
        match expansion(content@, ctx.bindings()) {
            None => {
                &&& start.events@.len() == 0
                &&& (start.plan matches Err(StepError::Expansion(e)) && reports(
                    e,
                    content@,
                    "sql_file_content"@,
                    ctx.bindings(),
                ))
            },
            Some(statement) => {
                &&& event_views(start.events@) == seq![
                    log_event(log_step_id@, sql_file_line(path@)),
                ]
                &&& sql_outcome(
                    start.plan,
                    statement,
                    *target_db,
                    handles.targets(),
                    ctx.bindings(),
                )
            },
        },
{
    let mut events: Vec<EngineEvent> = Vec::new();
    let statement = match load_sql_file(content, ctx) {
        Ok(text) => text,
        Err(e) => {
            return SqlFileStart { events, plan: Err(e) };
        },
    };
    let mut line = String::from_str("running SQL file ");
    line.append(path);
    events.push(log_step(log_step_id, line.as_str()));
    proof {
        assert(event_views(events@) =~= seq![log_event(log_step_id@, sql_file_line(path@))]);
        lemma_expansion_idempotent(content@, ctx.bindings());
    }
    let plan = execute_sql(statement.as_str(), target_db, handles, ctx);
    SqlFileStart { events, plan }
}

} // verus!
