//! The scenario data model: a named list of steps with dependencies, the
//! database connections they may target, and the per-step policies.

use vstd::hash_map::StringHashMap;
use vstd::prelude::*;
use vstd::string::StringExecFns;

verus! {

/// The kind of database a connection reaches.
#[derive(Debug, Clone, Copy, PartialEq, Eq, Structural)]
pub enum DbKind {
    /// An executor that accepts every statement and does nothing.
    Dummy,
    /// A pooled PostgreSQL connection.
    Postgres,
    /// An Oracle connection driven through the command-line client.
    Oracle,
}

/// One database connection a scenario declares.
#[derive(Debug, Clone)]
pub struct DbConnectionConfig {
    /// The kind of database.
    pub kind: DbKind,
    /// The connection string; may hold placeholders.
    pub dsn: Option<String>,
    /// The user name; may hold placeholders.
    pub user: Option<String>,
    /// The password; may hold placeholders.
    pub password: Option<String>,
}

/// A declared connection together with the target name steps refer to it by.
#[derive(Debug, Clone)]
pub struct DbConnection {
    /// The logical target name.
    pub name: String,
    /// How to reach the database.
    pub config: DbConnectionConfig,
}

/// Configuration of a bulk-loader step.
#[derive(Debug, Clone)]
pub struct SqlLoaderParConfig {
    /// Path of the control file.
    pub control_file: String,
    /// Path of the data file.
    pub data_file: Option<String>,
    /// Path of the log file.
    pub log_file: Option<String>,
    /// Path of the bad-records file.
    pub bad_file: Option<String>,
    /// Path of the discard file.
    pub discard_file: Option<String>,
    /// Connection string handed to the loader.
    pub conn: Option<String>,
}

/// One environment variable handed to a shell step.
#[derive(Debug, Clone)]
pub struct EnvVar {
    /// The variable's name.
    pub name: String,
    /// The variable's value; may hold placeholders.
    pub value: String,
}

/// What a shell step does when its command exits with a failure status.
#[derive(Debug, Clone, Copy, PartialEq, Eq, Structural)]
pub enum ShellErrorPolicy {
    /// The step fails.
    Fail,
    /// The failure is logged and the step counts as successful.
    Ignore,
    /// The command is run again, up to `max_retries` more times, waiting
    /// `delay_secs` seconds before each new run.
    Retry { max_retries: u32, delay_secs: u64 },
}

impl Default for ShellErrorPolicy {
    fn default() -> (policy: Self)
        ensures
            policy == ShellErrorPolicy::Fail,
    {
        ShellErrorPolicy::Fail
    }
}

/// The retry count a policy named just `retry` gets.
pub const DEFAULT_SHELL_MAX_RETRIES: u32 = 3;

/// The delay in seconds a policy named just `retry` gets.
pub const DEFAULT_SHELL_DELAY_SECS: u64 = 5;

impl ShellErrorPolicy {
    /// The policy a name and its optional parameters stand for.
    pub open spec fn named(
        name: Seq<char>,
        max_retries: Option<u32>,
        delay_secs: Option<u64>,
    ) -> Option<ShellErrorPolicy> {
        if name == "fail"@ {
            Some(ShellErrorPolicy::Fail)
        } else if name == "ignore"@ {
            Some(ShellErrorPolicy::Ignore)
        } else if name == "retry"@ {
            Some(
                ShellErrorPolicy::Retry {
                    max_retries: match max_retries {
                        Some(n) => n,
                        None => DEFAULT_SHELL_MAX_RETRIES,
                    },
                    delay_secs: match delay_secs {
                        Some(n) => n,
                        None => DEFAULT_SHELL_DELAY_SECS,
                    },
                },
            )
        } else {
            None
        }
    }

    /// Reads a policy from its name (`fail`, `ignore` or `retry`) and the
    /// optional retry parameters. Any other name is rejected, and the name is
    /// handed back as the error.
    pub fn from_parts(name: &str, max_retries: Option<u32>, delay_secs: Option<u64>) -> (res:
        Result<ShellErrorPolicy, String>)
        ensures
            match res {
                Ok(policy) => Self::named(name@, max_retries, delay_secs) == Some(policy),
                Err(unknown) => Self::named(name@, max_retries, delay_secs) is None && unknown@
                    == name@,
            },
    {
        if crate::text::str_eq(name, "fail") {
            Ok(ShellErrorPolicy::Fail)
        } else if crate::text::str_eq(name, "ignore") {
            Ok(ShellErrorPolicy::Ignore)
        } else if crate::text::str_eq(name, "retry") {
            Ok(
                ShellErrorPolicy::Retry {
                    max_retries: match max_retries {
                        Some(n) => n,
                        None => DEFAULT_SHELL_MAX_RETRIES,
                    },
                    delay_secs: match delay_secs {
                        Some(n) => n,
                        None => DEFAULT_SHELL_DELAY_SECS,
                    },
                },
            )
        } else {
            Err(String::from_str(name))
        }
    }
}

/// Configuration of a shell step.
#[derive(Debug, Clone)]
pub struct ShellConfig {
    /// The script or command line to run.
    pub script: String,
    /// The shell program; the platform's default shell when absent.
    pub shell_program: Option<String>,
    /// Further arguments handed to the shell after the script.
    pub shell_args: Vec<String>,
    /// Environment variables set for the command, in the order in which
    /// they are set: where a name occurs twice the later value stands.
    pub env: Vec<EnvVar>,
    /// Directory to run the command in.
    pub working_dir: Option<String>,
    /// Account to run the command as.
    pub run_as: Option<String>,
    /// What to do on a failure exit status.
    pub error_policy: ShellErrorPolicy,
}

/// Configuration of a step that extracts a variable from one line of a file.
#[derive(Debug, Clone)]
pub struct ExtractVarFromFileConfig {
    /// Path of the file to read; may hold placeholders.
    pub file_path: String,
    /// The line to read, counted from 1.
    pub line: usize,
    /// The regular expression matched against that line.
    pub pattern: String,
    /// The capture group whose text is extracted.
    pub group: usize,
    /// The context variable that receives the text.
    pub var_name: String,
}

/// What a loop does when a child step fails in one iteration.
#[derive(Debug, Clone, Copy, PartialEq, Eq, Structural)]
pub enum IterationFailurePolicy {
    /// The whole loop, and with it the loop step, fails at once.
    StopAll,
    /// The failure is logged and the loop goes on with the next match.
    Continue,
}

impl Default for IterationFailurePolicy {
    fn default() -> (policy: Self)
        ensures
            policy == IterationFailurePolicy::StopAll,
    {
        IterationFailurePolicy::StopAll
    }
}

/// Configuration of a loop step.
#[derive(Debug)]
pub struct LoopStepConfig {
    /// The glob pattern whose matches are iterated; may hold placeholders.
    pub for_each_glob: String,
    /// The context variable that receives the current match.
    pub as_var: String,
    /// What to do when a child step fails.
    pub iteration_failure_policy: IterationFailurePolicy,
    /// The steps run once per match.
    pub steps: Vec<Step>,
}

/// The work a step performs.
#[derive(Debug)]
#[allow(inconsistent_fields)]
pub enum StepKind {
    /// Runs a SQL statement.
    Sql { sql: String, target_db: Option<String> },
    /// Runs the contents of a SQL file.
    SqlFile { path: String, target_db: Option<String> },
    /// Runs the bulk loader.
    SqlLoaderPar { config: SqlLoaderParConfig },
    /// Runs a shell command.
    Shell { config: ShellConfig },
    /// Extracts a variable from a file.
    ExtractVarFromFile { config: ExtractVarFromFileConfig },
    /// Runs a block of steps once per match of a glob pattern.
    Loop { config: LoopStepConfig },
}

/// The answer a confirmation gate takes when nobody answers.
#[derive(Debug, Clone, Copy, PartialEq, Eq, Structural)]
pub enum ConfirmDefault {
    /// Go on.
    Yes,
    /// Decline.
    No,
}

impl Default for ConfirmDefault {
    fn default() -> (answer: Self)
        ensures
            answer == ConfirmDefault::Yes,
    {
        ConfirmDefault::Yes
    }
}

impl ConfirmDefault {
    /// Whether this default accepts.
    pub open spec fn accepts(self) -> bool {
        self == ConfirmDefault::Yes
    }

    /// Whether this default accepts.
    pub fn is_yes(&self) -> (yes: bool)
        ensures
            yes == self.accepts(),
    {
        match self {
            ConfirmDefault::Yes => true,
            ConfirmDefault::No => false,
        }
    }
}

/// The confirmation gates of a step.
#[derive(Debug, Clone)]
pub struct StepConfirmConfig {
    /// Ask before the step runs.
    pub before: bool,
    /// Ask after the step ran successfully.
    pub after: bool,
    /// The question shown before the step runs.
    pub message_before: Option<String>,
    /// The question shown after the step ran.
    pub message_after: Option<String>,
    /// The answer taken when nobody answers.
    pub default_answer: ConfirmDefault,
}

/// The smallest schedulable unit of a scenario.
#[derive(Debug)]
pub struct Step {
    /// Identifier, unique within the list that holds the step.
    pub id: String,
    /// Human-readable name.
    pub name: String,
    /// The work to perform.
    pub kind: StepKind,
    /// Identifiers of the steps that must succeed first.
    pub depends_on: Vec<String>,
    /// Whether the step may run concurrently with others.
    pub allow_parallel: bool,
    /// How many times a failed attempt is repeated.
    pub retry: u8,
    /// Time limit of one attempt, in seconds.
    pub timeout_sec: u64,
    /// The confirmation gates, if any.
    pub confirm: Option<StepConfirmConfig>,
}

/// The retry count of a step that names none.
pub fn default_retry() -> (retry: u8)
    ensures
        retry == 0,
{
    0
}

/// The time limit in seconds of a step that names none.
pub fn default_timeout() -> (secs: u64)
    ensures
        secs == 60,
{
    60
}

/// The index of the last step of `steps` with identifier `id`, if there is one.
pub open spec fn last_index_of(steps: Seq<Step>, id: Seq<char>) -> Option<int>
    decreases steps.len(),
{
    if steps.len() == 0 {
        None
    } else if steps.last().id@ == id {
        Some(steps.len() - 1)
    } else {
        last_index_of(steps.drop_last(), id)
    }
}

/// The index that `last_index_of` gives is the index of a step with that
/// identifier, and no later step has it.
pub proof fn lemma_last_index_of(steps: Seq<Step>, id: Seq<char>)
    ensures
        match last_index_of(steps, id) {
            Some(k) => 0 <= k < steps.len() && steps[k].id@ == id && forall|j: int|
                k < j < steps.len() ==> (#[trigger] steps[j]).id@ != id,
            None => forall|j: int| 0 <= j < steps.len() ==> (#[trigger] steps[j]).id@ != id,
        },
    decreases steps.len(),
{
    if steps.len() > 0 {
        lemma_last_index_of(steps.drop_last(), id);
        if steps.last().id@ != id {
            assert forall|j: int| 0 <= j < steps.len() - 1 implies steps.drop_last()[j]
                == steps[j] by {}
            match last_index_of(steps.drop_last(), id) {
                Some(k) => {
                    assert(steps.drop_last()[k] == steps[k]);
                    assert forall|j: int| k < j < steps.len() implies (#[trigger] steps[j]).id@
                        != id by {
                        if j < steps.len() - 1 {
                            assert(steps.drop_last()[j] == steps[j]);
                        }
                    }
                },
                None => {
                    assert forall|j: int| 0 <= j < steps.len() implies (#[trigger] steps[j]).id@
                        != id by {
                        if j < steps.len() - 1 {
                            assert(steps.drop_last()[j] == steps[j]);
                        }
                    }
                },
            }
        }
    }
}

/// No two steps of `steps` share an identifier.
pub open spec fn ids_unique(steps: Seq<Step>) -> bool {
    forall|i: int, j: int|
        0 <= i < steps.len() && 0 <= j < steps.len() && steps[i].id@ == steps[j].id@ ==> i == j
}

/// Whether no two steps of `steps` share an identifier.
pub fn has_unique_ids(steps: &Vec<Step>) -> (unique: bool)
    ensures
        unique == ids_unique(steps@),
{
    let n = steps.len();
    let mut i: usize = 0;
    while i < n
        invariant
            n == steps.len(),
            i <= n,
            forall|a: int, b: int|
                0 <= a < i && 0 <= b < a ==> (#[trigger] steps@[a]).id@ != (#[trigger] steps@[b]).id@,
        decreases n - i,
    {
        let mut j: usize = 0;
        while j < i
            invariant
                n == steps.len(),
                i < n,
                j <= i,
                forall|b: int| 0 <= b < j ==> steps@[i as int].id@ != (#[trigger] steps@[b]).id@,
            decreases i - j,
        {
            if crate::text::str_eq(steps[i].id.as_str(), steps[j].id.as_str()) {
                return false;
            }
            j += 1;
        }
        i += 1;
    }
    proof {
        assert forall|a: int, b: int|
            0 <= a < steps@.len() && 0 <= b < steps@.len() && steps@[a].id@
                == steps@[b].id@ implies a == b by {
            if a < b {
                assert(0 <= b < n && 0 <= a < b);
            }
            if b < a {
                assert(0 <= a < n && 0 <= b < a);
            }
        }
    }
    true
}

/// A named collection of steps forming a dependency graph.
#[derive(Debug)]
pub struct Scenario {
    /// Display name.
    pub name: String,
    /// The declared database connections, by target name. Where a name occurs
    /// twice the later declaration stands.
    pub db: Vec<DbConnection>,
    /// The steps, in declaration order.
    pub steps: Vec<Step>,
}

impl Scenario {
    /// A lookup table from step identifier to step. Where an identifier
    /// occurs twice the later step stands.
    pub fn as_map(&self) -> (map: StringHashMap<&Step>)
        ensures
            forall|id: Seq<char>|
                map@.contains_key(id) <==> last_index_of(self.steps@, id) is Some,
            forall|id: Seq<char>| #[trigger]
                map@.contains_key(id) ==> *map@[id] == self.steps@[last_index_of(
                    self.steps@,
                    id,
                ).unwrap()],
    {
        let mut map: StringHashMap<&Step> = StringHashMap::new();
        let n = self.steps.len();
        let mut i: usize = 0;
        while i < n
            invariant
                n == self.steps.len(),
                i <= n,
                forall|id: Seq<char>|
                    map@.contains_key(id) <==> last_index_of(self.steps@.take(i as int), id)
                        is Some,
                forall|id: Seq<char>| #[trigger]
                    map@.contains_key(id) ==> *map@[id] == self.steps@[last_index_of(
                        self.steps@.take(i as int),
                        id,
                    ).unwrap()],
            decreases n - i,
        {
            proof {
                assert(self.steps@.take(i + 1).drop_last() == self.steps@.take(i as int));
            }
            map.insert(self.steps[i].id.clone(), &self.steps[i]);
            i += 1;
        }
        proof {
            assert(self.steps@.take(n as int) == self.steps@);
        }
        map
    }

    /// The number of steps.
    pub fn len(&self) -> (n: usize)
        ensures
            n == self.steps.len(),
    {
        self.steps.len()
    }

    /// Whether the scenario has no steps.
    pub fn is_empty(&self) -> (empty: bool)
        ensures
            empty == (self.steps.len() == 0),
    {
        self.steps.len() == 0
    }
}

} // verus!
