//! Why a step's own work failed.

use crate::context::{expansion, reports, ExpansionError};
use crate::steps::AttemptEnd;
use crate::text::{decimal_text, push_decimal};
use vstd::prelude::*;
use vstd::string::StringExecFns;

verus! {

/// A failure of one attempt at a step's work.
#[derive(Debug, Clone)]
#[allow(inconsistent_fields)]
pub enum StepError {
    /// A template of the step's configuration holds a placeholder that
    /// cannot be resolved.
    Expansion(ExpansionError),
    /// The step targets a database that was never registered.
    UndefinedDbTarget { name: String },
    /// A database connection lacks a value it needs.
    MissingConnectionValue { field: String },
    /// Neither the step nor the context names a connection for the loader.
    MissingLoaderConnection,
    /// The file has fewer lines than the one asked for.
    MissingLine { path: String, line: usize },
    /// The pattern is not a valid regular expression.
    InvalidPattern { pattern: String },
    /// The pattern does not match the line.
    NoMatch { subject: String },
    /// The match has no capture group of that number.
    MissingGroup { group: usize },
    /// The platform cannot run a command as another user.
    RunAsUnsupported,
    /// The account database does not know the user.
    UnknownUser { user: String },
    /// A user or group number in the account database is not a number.
    InvalidAccountId { text: String },
    /// The command ended with a failure status.
    CommandFailed { status: String },
    /// The command still failed after the last retry the policy allows.
    RetriesExhausted { status: String },
    /// A child step of a loop depends on a step that is not its sibling.
    UnresolvedLoopDependency { step: String, dependency: String },
    /// The child steps of a loop wait for each other.
    LoopStalled,
    /// The run was cancelled between two iterations of a loop.
    LoopCancelled,
    /// A child step of a loop failed.
    ChildFailed { step: String, reason: String },
    /// Work done outside the engine failed: a file could not be read, a
    /// process could not be started, a driver reported an error.
    External { detail: String },
}

impl StepError {
    /// Whether the error lies in the step's configuration, so that another
    /// attempt would fail in the same way: a placeholder that cannot be
    /// resolved, a database target that is not registered, a connection
    /// value or a loader connection that is missing, a loop dependency that
    /// is not among the siblings.
    pub open spec fn is_configuration(self) -> bool {
        match self {
            StepError::Expansion(_) => true,
            StepError::UndefinedDbTarget { .. } => true,
            StepError::MissingConnectionValue { .. } => true,
            StepError::MissingLoaderConnection => true,
            StepError::UnresolvedLoopDependency { .. } => true,
            _ => false,
        }
    }

    /// How an attempt ends that fails with this error: over the step's
    /// configuration, which is not retried, or in a way that may be retried.
    pub fn attempt_end(&self) -> (end: AttemptEnd)
        ensures
            end == if self.is_configuration() {
                AttemptEnd::Misconfigured
            } else {
                AttemptEnd::Failed
            },
    {
        match self {
            StepError::Expansion(_) => AttemptEnd::Misconfigured,
            StepError::UndefinedDbTarget { .. } => AttemptEnd::Misconfigured,
            StepError::MissingConnectionValue { .. } => AttemptEnd::Misconfigured,
            StepError::MissingLoaderConnection => AttemptEnd::Misconfigured,
            StepError::UnresolvedLoopDependency { .. } => AttemptEnd::Misconfigured,
            _ => AttemptEnd::Failed,
        }
    }

    /// The text of `message`.
    pub open spec fn message_text(self) -> Seq<char> {
        match self {
            StepError::Expansion(e) => e.message_text(),
            StepError::UndefinedDbTarget { name } => "undefined DB target: "@ + name@,
            StepError::MissingConnectionValue { field } => field@ + " is missing"@,
            StepError::MissingLoaderConnection => "SQLLDR_CONN is not set"@,
            StepError::MissingLine { path, line } => path@ + " has no line "@ + decimal_text(
                line as nat,
            ),
            StepError::InvalidPattern { pattern } => "invalid pattern: "@ + pattern@,
            StepError::NoMatch { subject } => "pattern did not match: "@ + subject@,
            StepError::MissingGroup { group } => "no capture group "@ + decimal_text(group as nat),
            StepError::RunAsUnsupported => "run_as is not supported on this platform"@,
            StepError::UnknownUser { user } => "unknown user: "@ + user@,
            StepError::InvalidAccountId { text } => "invalid account number: "@ + text@,
            StepError::CommandFailed { status } => "command failed: "@ + status@,
            StepError::RetriesExhausted { status } => "retry limit exceeded: "@ + status@,
            StepError::UnresolvedLoopDependency { step, dependency } => "loop step "@ + step@
                + " depends on unknown step "@ + dependency@,
            StepError::LoopStalled => "loop steps wait for each other"@,
            StepError::LoopCancelled => "loop cancelled"@,
            StepError::ChildFailed { step, reason } => "loop step "@ + step@ + " failed: "@
                + reason@,
            StepError::External { detail } => detail@,
        }
    }

    /// A one-line description of the failure.
    pub fn message(&self) -> (text: String)
        ensures
            text@ == self.message_text(),
    {
        match self {
            StepError::Expansion(e) => e.message(),
            StepError::UndefinedDbTarget { name } => labelled("undefined DB target: ", name),
            StepError::MissingConnectionValue { field } => {
                let mut text = field.clone();
                text.append(" is missing");
                text
            },
            StepError::MissingLoaderConnection => String::from_str("SQLLDR_CONN is not set"),
            StepError::MissingLine { path, line } => {
                let mut text = path.clone();
                text.append(" has no line ");
                push_decimal(&mut text, *line as u64);
                text
            },
            StepError::InvalidPattern { pattern } => labelled("invalid pattern: ", pattern),
            StepError::NoMatch { subject } => labelled("pattern did not match: ", subject),
            StepError::MissingGroup { group } => {
                let mut text = String::from_str("no capture group ");
                push_decimal(&mut text, *group as u64);
                text
            },
            StepError::RunAsUnsupported => String::from_str(
                "run_as is not supported on this platform",
            ),
            StepError::UnknownUser { user } => labelled("unknown user: ", user),
            StepError::InvalidAccountId { text } => labelled("invalid account number: ", text),
            StepError::CommandFailed { status } => labelled("command failed: ", status),
            StepError::RetriesExhausted { status } => labelled("retry limit exceeded: ", status),
            StepError::UnresolvedLoopDependency { step, dependency } => {
                let mut text = labelled("loop step ", step);
                text.append(" depends on unknown step ");
                text.append(dependency.as_str());
                text
            },
            StepError::LoopStalled => String::from_str("loop steps wait for each other"),
            StepError::LoopCancelled => String::from_str("loop cancelled"),
            StepError::ChildFailed { step, reason } => {
                let mut text = labelled("loop step ", step);
                text.append(" failed: ");
                text.append(reason.as_str());
                text
            },
            StepError::External { detail } => detail.clone(),
        }
    }
}

/// `label` followed by `value`.
pub fn labelled(label: &str, value: &String) -> (text: String)
    ensures
        text@ == label@ + value@,
{
    let mut text = String::from_str(label);
    text.append(value.as_str());
    text
}

/// `res` is what expanding `template`, which stands in `field`, gives under
/// `b`: the expanded text, or the report of the failure.
pub open spec fn expanded_or_reported(
    res: Result<String, StepError>,
    template: Seq<char>,
    field: Seq<char>,
    b: Map<Seq<char>, Seq<char>>,
) -> bool {
    match res {
        Ok(text) => expansion(template, b) == Some(text@),
        Err(StepError::Expansion(e)) => reports(e, template, field, b),
        Err(_) => false,
    }
}

} // verus!
