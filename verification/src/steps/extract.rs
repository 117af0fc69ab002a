//! Extraction steps: one line of a file, matched against a regular
//! expression, yields the text of a capture group, which becomes a variable
//! of the context.

use crate::context::{expansion, is_name, lemma_bound_name_round_trip, has_placeholder};
use crate::context::{placeholder_text, reports, substitute, ExecutionContext};
use crate::error::{expanded_or_reported, StepError};
use crate::events::{log_event, log_step, EngineEvent};
use crate::scenario::ExtractVarFromFileConfig;
use crate::text::{lines_of, split_lines, text_list};
use vstd::prelude::*;
use vstd::string::StringExecFns;

verus! {

/// Whether `pattern` is a regular expression that the `regex` crate
/// compiles.
pub uninterp spec fn pattern_compiles(pattern: Seq<char>) -> bool;

/// The capture groups of the leftmost match of `pattern` in `subject`, or
/// nothing where `pattern` does not match. The entry at index `i` is the text
/// that group `i` matched, or nothing where the group took no part in the
/// match; group 0 is the whole match.
pub uninterp spec fn captured_groups(pattern: Seq<char>, subject: Seq<char>) -> Option<
    Seq<Option<Seq<char>>>,
>;

/// What matching a pattern against a text and picking one group gives.
#[derive(Debug, Clone)]
pub enum Capture {
    /// The pattern is no valid regular expression.
    BadPattern,
    /// The pattern does not match.
    NoMatch,
    /// The pattern matches, but the group does not exist or took no part.
    NoGroup,
    /// The text the group matched.
    Text(String),
}

/// Calls the `regex` crate: `Regex::new` compiles the pattern,
/// `Regex::captures` finds the leftmost match in the subject, and
/// `Captures::get` picks the group, which is absent where the index names no
/// group or the group took no part in the match. The contract names what
/// these return and says no more about them.
#[verifier::external_body]
fn capture_group(pattern: &str, subject: &str, group: usize) -> (capture: Capture)
    ensures
        !pattern_compiles(pattern@) ==> capture is BadPattern,
        pattern_compiles(pattern@) ==> match captured_groups(pattern@, subject@) {
            None => capture is NoMatch,
            Some(groups) => if group < groups.len() && groups[group as int] is Some {
                capture matches Capture::Text(text) && text@ == groups[group as int].unwrap()
            } else {
                capture is NoGroup
            },
        },
{
    match regex::Regex::new(pattern) {
        Err(_) => Capture::BadPattern,
        Ok(re) => match re.captures(subject) {
            None => Capture::NoMatch,
            Some(groups) => match groups.get(group) {
                None => Capture::NoGroup,
                Some(found) => Capture::Text(found.as_str().to_string()),
            },
        },
    }
}

/// The line numbered `line`, counted from 1, of `content`.
pub open spec fn line_at(content: Seq<char>, line: nat) -> Option<Seq<char>> {
    if 1 <= line <= lines_of(content).len() {
        Some(lines_of(content)[line - 1])
    } else {
        None
    }
}

/// The line numbered `line`, counted from 1, of `content`, if there is one.
pub fn nth_line(content: &str, line: usize) -> (found: Option<String>)
    ensures
        match found {
            Some(text) => line_at(content@, line as nat) == Some(text@),
            None => line_at(content@, line as nat) is None,
        },
{
    let lines = split_lines(content);
    if line >= 1 && line <= lines.len() {
        proof {
            assert(text_list(lines@)[line - 1] == lines@[line - 1]@);
        }
        Some(lines[line - 1].clone())
    } else {
        None
    }
}

/// Turns the outcome of a match into the extracted text, or into the error
/// that says what is missing: a valid pattern, a match, or the group.
pub fn interpret_capture(capture: Capture, config: &ExtractVarFromFileConfig, subject: &str) -> (res:
    Result<String, StepError>)
    ensures
        match capture {
            Capture::Text(text) => res matches Ok(value) && value@ == text@,
            Capture::BadPattern => res matches Err(StepError::InvalidPattern { pattern })
                && pattern@ == config.pattern@,
            Capture::NoMatch => res matches Err(StepError::NoMatch { subject: found }) && found@
                == subject@,
            Capture::NoGroup => res matches Err(StepError::MissingGroup { group }) && group
                == config.group,
        },
{
    match capture {
        Capture::Text(text) => Ok(text),
        Capture::BadPattern => Err(StepError::InvalidPattern { pattern: config.pattern.clone() }),
        Capture::NoMatch => Err(StepError::NoMatch { subject: String::from_str(subject) }),
        Capture::NoGroup => Err(StepError::MissingGroup { group: config.group }),
    }
}

/// The path of the file of an extraction step, expanded through the context.
pub fn extract_file_path(config: &ExtractVarFromFileConfig, ctx: &ExecutionContext) -> (res:
    Result<String, StepError>)
    ensures
        expanded_or_reported(res, config.file_path@, "extract.file_path"@, ctx.bindings()),
{
    match ctx.expand_required(config.file_path.as_str(), "extract.file_path") {
        Ok(text) => Ok(text),
        Err(e) => Err(StepError::Expansion(e)),
    }
}

/// What the extraction yields from the contents of the file: the text of the
/// group, where the line exists, the pattern compiles and matches, and the
/// group took part.
pub open spec fn extracted(config: ExtractVarFromFileConfig, content: Seq<char>) -> Option<
    Seq<char>,
> {
    match line_at(content, config.line as nat) {
        None => None,
        Some(subject) => if !pattern_compiles(config.pattern@) {
            None
        } else {
            match captured_groups(config.pattern@, subject) {
                None => None,
                Some(groups) => if config.group < groups.len() {
                    groups[config.group as int]
                } else {
                    None
                },
            }
        },
    }
}

/// `e` says why the extraction yields nothing.
pub open spec fn extraction_failure(
    e: StepError,
    config: ExtractVarFromFileConfig,
    path: Seq<char>,
    content: Seq<char>,
) -> bool {
    match line_at(content, config.line as nat) {
        None => e matches StepError::MissingLine { path: named, line } && named@ == path && line
            == config.line,
        Some(subject) => if !pattern_compiles(config.pattern@) {
            e matches StepError::InvalidPattern { pattern } && pattern@ == config.pattern@
        } else {
            match captured_groups(config.pattern@, subject) {
                None => e matches StepError::NoMatch { subject: found } && found@ == subject,
                Some(_) => e matches StepError::MissingGroup { group } && group == config.group,
            }
        },
    }
}

/// The log line that reports an extracted variable.
pub open spec fn extract_line(name: Seq<char>, value: Seq<char>) -> Seq<char> {
    "variable "@ + name + " = "@ + value
}

/// Runs an extraction step on the contents of its file: takes the line the
/// step names, counted from 1, matches the step's pattern against it, and
/// binds the text of the step's capture group to the step's variable. A
/// missing line, an invalid pattern, a line that does not match and a
/// missing group each fail the step and leave the context as it was. `path`
/// is the file's path, for the error; `step_id` is the step the log line
/// belongs to.
pub fn execute_extract_step(
    config: &ExtractVarFromFileConfig,
    path: &str,
    content: &str,
    ctx: &mut ExecutionContext,
    step_id: &str,
) -> (res: Result<EngineEvent, StepError>)
    ensures
        match res {
            Ok(event) => {
                &&& extracted(*config, content@) matches Some(value)
                &&& final(ctx).vars() == old(ctx).vars().insert(config.var_name@, value)
                &&& event@ == log_event(step_id@, extract_line(config.var_name@, value))
            },
            Err(e) => {
                &&& extracted(*config, content@) is None
                &&& extraction_failure(e, *config, path@, content@)
                &&& final(ctx).vars() == old(ctx).vars()
            },
        },
        final(ctx).env() == old(ctx).env(),
{
    let subject = match nth_line(content, config.line) {
        Some(text) => text,
        None => {
            return Err(StepError::MissingLine { path: String::from_str(path), line: config.line });
        },
    };
    let capture = capture_group(config.pattern.as_str(), subject.as_str(), config.group);
    let value = match interpret_capture(capture, config, subject.as_str()) {
        Ok(value) => value,
        Err(e) => {
            return Err(e);
        },
    };
    ctx.set_var(config.var_name.as_str(), value.as_str());
    let mut line = String::from_str("variable ");
    line.append(config.var_name.as_str());
    line.append(" = ");
    line.append(value.as_str());
    Ok(log_step(step_id, line.as_str()))
}

/// What an extraction step has written, a later step reads back: once the
/// step has bound its variable, the variable's placeholder is replaced by
/// the extracted text, and expands to exactly that text where the text holds
/// no placeholder itself. This holds of variables whose name is made of the
/// characters that a placeholder's name may hold.
pub proof fn lemma_extracted_value_is_read_back(
    vars: Map<Seq<char>, Seq<char>>,
    env: Map<Seq<char>, Seq<char>>,
    config: ExtractVarFromFileConfig,
    content: Seq<char>,
)
    requires
        is_name(config.var_name@),
        extracted(config, content) is Some,
    ensures
        ({
            let value = extracted(config, content).unwrap();
            let after = env.union_prefer_right(vars.insert(config.var_name@, value));
            &&& substitute(placeholder_text(config.var_name@), after) == value
            &&& !has_placeholder(value) ==> expansion(placeholder_text(config.var_name@), after)
                == Some(value)
        }),
{
    lemma_bound_name_round_trip(vars, env, config.var_name@, extracted(config, content).unwrap());
}

} // verus!
