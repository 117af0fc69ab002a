//! Shell steps: what to run, what to do when the command fails, and which
//! account to run it under.

use crate::context::{all_expand, expansion, fails_first_at, reports, substitute, substituted};
use crate::context::{ExecutionContext, ExpansionError};
use crate::error::StepError;
use crate::scenario::{EnvVar, ShellConfig, ShellErrorPolicy};
use crate::text::{blank, decimal_text, fields_of, is_blank, lines_of, opt_text, parse_u32};
use crate::text::{parsed_u32, push_decimal, split_fields, split_lines, str_eq, text_list};
use vstd::prelude::*;
use vstd::string::StringExecFns;

verus! {

/// The kind of system the commands run on.
#[derive(Debug, Clone, Copy, PartialEq, Eq, Structural)]
pub enum Platform {
    /// A Unix-like system.
    Unix,
    /// Windows.
    Windows,
    /// Any other system.
    Other,
}

/// A command ready to be started.
#[derive(Debug, Clone)]
pub struct ShellPlan {
    /// The program to start.
    pub program: String,
    /// Its arguments: the flag that introduces a script, the script, and the
    /// step's further arguments.
    pub args: Vec<String>,
    /// The environment variables to set, in order.
    pub env: Vec<EnvVar>,
    /// The directory to run in.
    pub working_dir: Option<String>,
    /// The account to run as.
    pub run_as: Option<String>,
}

/// The shell used where a step names none.
pub open spec fn default_shell(platform: Platform) -> Seq<char> {
    if platform == Platform::Windows {
        "cmd"@
    } else {
        "sh"@
    }
}

/// The shell's flag that introduces a script.
pub open spec fn script_flag(platform: Platform) -> Seq<char> {
    if platform == Platform::Windows {
        "/C"@
    } else {
        "-c"@
    }
}

/// The names of the variables of `env`.
pub open spec fn env_names(env: Seq<EnvVar>) -> Seq<Seq<char>> {
    Seq::new(env.len(), |i: int| env[i].name@)
}

/// The values of the variables of `env`.
pub open spec fn env_values(env: Seq<EnvVar>) -> Seq<Seq<char>> {
    Seq::new(env.len(), |i: int| env[i].value@)
}

/// Every template of the step expands under `b`.
pub open spec fn shell_expands(config: ShellConfig, b: Map<Seq<char>, Seq<char>>) -> bool {
    &&& expansion(config.script@, b) is Some
    &&& all_expand(text_list(config.shell_args@), b)
    &&& all_expand(env_values(config.env@), b)
    &&& (config.working_dir matches Some(dir) ==> expansion(dir@, b) is Some)
}

/// The step asks for another account on a system that cannot switch.
pub open spec fn run_as_refused(config: ShellConfig, platform: Platform) -> bool {
    config.run_as is Some && platform != Platform::Unix
}

/// `plan` is the command of the step under `b` on `platform`.
pub open spec fn shell_plan_is(
    plan: ShellPlan,
    config: ShellConfig,
    b: Map<Seq<char>, Seq<char>>,
    platform: Platform,
) -> bool {
    &&& plan.program@ == match config.shell_program {
        Some(program) => program@,
        None => default_shell(platform),
    }
    &&& text_list(plan.args@) == seq![script_flag(platform), substitute(config.script@, b)]
        + substituted(text_list(config.shell_args@), b)
    &&& env_names(plan.env@) == env_names(config.env@)
    &&& env_values(plan.env@) == substituted(env_values(config.env@), b)
    &&& opt_text(plan.working_dir) == match config.working_dir {
        Some(dir) => Some(substitute(dir@, b)),
        None => None,
    }
    &&& opt_text(plan.run_as) == opt_text(config.run_as)
}

/// `e` reports the first template of the step that does not expand, taking
/// the script first, then the arguments, the environment and the directory.
pub open spec fn shell_expansion_failure(
    e: ExpansionError,
    config: ShellConfig,
    b: Map<Seq<char>, Seq<char>>,
) -> bool {
    let args = text_list(config.shell_args@);
    let values = env_values(config.env@);
    ||| reports(e, config.script@, "shell.command"@, b)
    ||| (expansion(config.script@, b) is Some && exists|k: int|
        fails_first_at(args, b, k) && reports(e, #[trigger] args[k], "shell.arg"@, b))
    ||| (expansion(config.script@, b) is Some && all_expand(args, b) && exists|k: int|
        fails_first_at(values, b, k) && reports(e, #[trigger] values[k], "shell.env"@, b))
    ||| (expansion(config.script@, b) is Some && all_expand(args, b) && all_expand(values, b)
        && (config.working_dir matches Some(dir) && reports(e, dir@, "shell.working_dir"@, b)))
}

/// `res` is what working out the command of the step gives under `b` on
/// `platform`: the command; or the report of the first template that does not
/// expand; or, where all expand, the refusal to switch accounts.
pub open spec fn shell_outcome(
    res: Result<ShellPlan, StepError>,
    config: ShellConfig,
    b: Map<Seq<char>, Seq<char>>,
    platform: Platform,
) -> bool {
    match res {
        Ok(plan) => shell_expands(config, b) && !run_as_refused(config, platform)
            && shell_plan_is(plan, config, b, platform),
        Err(StepError::Expansion(e)) => shell_expansion_failure(e, config, b),
        Err(StepError::RunAsUnsupported) => shell_expands(config, b) && run_as_refused(
            config,
            platform,
        ),
        Err(_) => false,
    }
}

/// Expands the values of `env`, in order, keeping the names.
fn expand_env(ctx: &ExecutionContext, env: &Vec<EnvVar>) -> (res: Result<
    Vec<EnvVar>,
    ExpansionError,
>)
    ensures
        match res {
            Ok(out) => all_expand(env_values(env@), ctx.bindings()) && env_names(out@)
                == env_names(env@) && env_values(out@) == substituted(
                env_values(env@),
                ctx.bindings(),
            ),
            Err(e) => exists|k: int|
                fails_first_at(env_values(env@), ctx.bindings(), k) && reports(
                    e,
                    #[trigger] env_values(env@)[k],
                    "shell.env"@,
                    ctx.bindings(),
                ),
        },
{
    let n = env.len();
    let mut out: Vec<EnvVar> = Vec::new();
    let mut i: usize = 0;
    while i < n
        invariant
            n == env.len(),
            i <= n,
            out@.len() == i,
            forall|k: int|
                0 <= k < i ==> expansion(#[trigger] env_values(env@)[k], ctx.bindings()) is Some,
            forall|k: int|
                0 <= k < i ==> (#[trigger] out@[k]).name@ == env@[k].name@ && out@[k].value@
                    == substitute(env@[k].value@, ctx.bindings()),
        decreases n - i,
    {
        match ctx.expand_required(env[i].value.as_str(), "shell.env") {
            Ok(value) => {
                out.push(EnvVar { name: env[i].name.clone(), value });
            },
            Err(e) => {
                proof {
                    assert(fails_first_at(env_values(env@), ctx.bindings(), i as int));
                    assert(env_values(env@)[i as int] == env@[i as int].value@);
                }
                return Err(e);
            },
        }
        i += 1;
    }
    proof {
        assert(env_names(out@) =~= env_names(env@));
        assert(env_values(out@) =~= substituted(env_values(env@), ctx.bindings()));
    }
    Ok(out)
}

/// Works out the command of a shell step: the program, the script and the
/// further arguments, the environment, the directory and the account, with
/// every template expanded through the context. The first template that
/// does not expand fails the step. A step that asks for another account fails
/// on a system that cannot switch accounts.
pub fn run_shell_command(config: &ShellConfig, ctx: &ExecutionContext, platform: Platform) -> (res:
    Result<ShellPlan, StepError>)
    ensures
        shell_outcome(res, *config, ctx.bindings(), platform),
{
    let windows = match platform {
        Platform::Windows => true,
        _ => false,
    };
    let program = match &config.shell_program {
        Some(program) => program.clone(),
        None => if windows {
            String::from_str("cmd")
        } else {
            String::from_str("sh")
        },
    };
    let script = match ctx.expand_required(config.script.as_str(), "shell.command") {
        Ok(text) => text,
        Err(e) => {
            return Err(StepError::Expansion(e));
        },
    };
    let extra = match ctx.expand_all(&config.shell_args, "shell.arg") {
        Ok(texts) => texts,
        Err(e) => {
            return Err(StepError::Expansion(e));
        },
    };
    let env = match expand_env(ctx, &config.env) {
        Ok(env) => env,
        Err(e) => {
            return Err(StepError::Expansion(e));
        },
    };
    let working_dir = match ctx.expand_optional(&config.working_dir, "shell.working_dir") {
        Ok(dir) => dir,
        Err(e) => {
            return Err(StepError::Expansion(e));
        },
    };
    let unix = match platform {
        Platform::Unix => true,
        _ => false,
    };
    if config.run_as.is_some() && !unix {
        return Err(StepError::RunAsUnsupported);
    }
    let mut args: Vec<String> = Vec::new();
    args.push(
        if windows {
            String::from_str("/C")
        } else {
            String::from_str("-c")
        },
    );
    args.push(script);
    let ghost head = text_list(args@);
    let mut i: usize = 0;
    while i < extra.len()
        invariant
            i <= extra.len(),
            head.len() == 2,
            args@.len() == 2 + i,
            text_list(args@) == head + text_list(extra@).take(i as int),
        decreases extra.len() - i,
    {
        let ghost before = text_list(args@);
        args.push(extra[i].clone());
        proof {
            assert(text_list(args@) =~= before + seq![extra@[i as int]@]);
            assert(head + text_list(extra@).take(i + 1) =~= (head + text_list(extra@).take(
                i as int,
            )) + seq![extra@[i as int]@]);
        }
        i += 1;
    }
    proof {
        assert(text_list(extra@).take(extra@.len() as int) =~= text_list(extra@));
        assert(head =~= seq![script_flag(platform), substitute(config.script@, ctx.bindings())]);
    }
    let run_as = match &config.run_as {
        Some(user) => Some(user.clone()),
        None => None,
    };
    Ok(ShellPlan { program, args, env, working_dir, run_as })
}

/// What follows from the end of one run of a shell step's command.
#[derive(Debug, Clone, Copy, PartialEq, Eq, Structural)]
pub enum ShellVerdict {
    /// The command succeeded, and so does the step.
    Succeeded,
    /// The command failed; the policy ignores it, and the step succeeds.
    Ignored,
    /// The command failed, and so does the step.
    Failed,
    /// The command failed once more than the policy retries.
    Exhausted,
    /// The command failed and is run again after a delay.
    Retry { delay_secs: u64 },
}

/// What the policy makes of the end of the run numbered `run`, counted from
/// 1: under `Retry`, the command is run at most `max_retries + 1` times.
pub open spec fn verdict_of(policy: ShellErrorPolicy, run: nat, success: bool) -> ShellVerdict {
    if success {
        ShellVerdict::Succeeded
    } else {
        match policy {
            ShellErrorPolicy::Fail => ShellVerdict::Failed,
            ShellErrorPolicy::Ignore => ShellVerdict::Ignored,
            ShellErrorPolicy::Retry { max_retries, delay_secs } => if run > max_retries {
                ShellVerdict::Exhausted
            } else {
                ShellVerdict::Retry { delay_secs }
            },
        }
    }
}

/// The log line a verdict is announced with, if it has one.
pub open spec fn verdict_log(
    policy: ShellErrorPolicy,
    run: nat,
    success: bool,
    status: Seq<char>,
) -> Option<Seq<char>> {
    match verdict_of(policy, run, success) {
        ShellVerdict::Ignored => Some("exit status "@ + status + " ignored by policy"@),
        ShellVerdict::Retry { delay_secs } => Some(
            "command failed, retrying in "@ + decimal_text(delay_secs as nat) + "s ("@
                + decimal_text(run) + "/"@ + decimal_text(
                match policy {
                    ShellErrorPolicy::Retry { max_retries, .. } => max_retries as nat + 1,
                    _ => 1,
                },
            ) + ")"@,
        ),
        _ => None,
    }
}

/// What the engine does after one run of a shell step's command.
#[derive(Debug, Clone)]
pub struct ShellDecision {
    /// What follows.
    pub verdict: ShellVerdict,
    /// The error the step fails with, where it fails.
    pub error: Option<StepError>,
    /// The log line to emit, where there is one.
    pub log: Option<String>,
}

/// Decides what follows from the end of the run numbered `run` (the first
/// run is number 1) of a shell step's command. `status` is the exit status as
/// text, for the log line and the error.
pub fn shell_after_exit(policy: &ShellErrorPolicy, run: u64, success: bool, status: &str) -> (d:
    ShellDecision)
    ensures
        d.verdict == verdict_of(*policy, run as nat, success),
        match d.error {
            Some(StepError::CommandFailed { status: text }) => d.verdict == ShellVerdict::Failed
                && text@ == status@,
            Some(StepError::RetriesExhausted { status: text }) => d.verdict
                == ShellVerdict::Exhausted && text@ == status@,
            Some(_) => false,
            None => d.verdict != ShellVerdict::Failed && d.verdict != ShellVerdict::Exhausted,
        },
        opt_text(d.log) == verdict_log(*policy, run as nat, success, status@),
{
    if success {
        return ShellDecision { verdict: ShellVerdict::Succeeded, error: None, log: None };
    }
    match policy {
        ShellErrorPolicy::Fail => ShellDecision {
            verdict: ShellVerdict::Failed,
            error: Some(StepError::CommandFailed { status: String::from_str(status) }),
            log: None,
        },
        ShellErrorPolicy::Ignore => {
            let mut line = String::from_str("exit status ");
            line.append(status);
            line.append(" ignored by policy");
            ShellDecision { verdict: ShellVerdict::Ignored, error: None, log: Some(line) }
        },
        ShellErrorPolicy::Retry { max_retries, delay_secs } => {
            if run > *max_retries as u64 {
                ShellDecision {
                    verdict: ShellVerdict::Exhausted,
                    error: Some(StepError::RetriesExhausted { status: String::from_str(status) }),
                    log: None,
                }
            } else {
                let mut line = String::from_str("command failed, retrying in ");
                push_decimal(&mut line, *delay_secs);
                line.append("s (");
                push_decimal(&mut line, run);
                line.append("/");
                push_decimal(&mut line, *max_retries as u64 + 1);
                line.append(")");
                ShellDecision {
                    verdict: ShellVerdict::Retry { delay_secs: *delay_secs },
                    error: None,
                    log: Some(line),
                }
            }
        },
    }
}

/// How many runs remain under the policy when the run numbered `run` is
/// about to end in failure.
pub open spec fn retries_left(policy: ShellErrorPolicy, run: nat) -> nat {
    match policy {
        ShellErrorPolicy::Retry { max_retries, .. } => if run > max_retries {
            0
        } else {
            (max_retries + 1 - run) as nat
        },
        _ => 0,
    }
}

/// The number of the last run of a command that fails every time, where the
/// run numbered `run` is under way.
pub open spec fn last_failing_run(policy: ShellErrorPolicy, run: nat) -> nat
    decreases retries_left(policy, run),
{
    match verdict_of(policy, run, false) {
        ShellVerdict::Retry { .. } => last_failing_run(policy, run + 1),
        _ => run,
    }
}

/// A command that fails every time is run exactly `max_retries + 1` times
/// under a retry policy, and the step then fails; under the other policies it
/// is run once.
pub proof fn lemma_failing_command_runs(policy: ShellErrorPolicy)
    ensures
        policy matches ShellErrorPolicy::Retry { max_retries, .. } ==> (last_failing_run(
            policy,
            1,
        ) == max_retries + 1 && verdict_of(policy, (max_retries + 1) as nat, false)
            == ShellVerdict::Exhausted),
        !(policy is Retry) ==> last_failing_run(policy, 1) == 1,
{
    if let ShellErrorPolicy::Retry { max_retries, .. } = policy {
        lemma_failing_from(policy, 1);
    }
}

/// From any run within the policy's limit on, the last run is the one
/// numbered `max_retries + 1`.
proof fn lemma_failing_from(policy: ShellErrorPolicy, run: nat)
    requires
        (policy matches ShellErrorPolicy::Retry { max_retries, .. } && 1 <= run <= max_retries
            + 1),
    ensures
        (policy matches ShellErrorPolicy::Retry { max_retries, .. } && last_failing_run(
            policy,
            run,
        ) == max_retries + 1),
    decreases retries_left(policy, run),
{
    if let ShellErrorPolicy::Retry { max_retries, .. } = policy {
        if run <= max_retries {
            lemma_failing_from(policy, run + 1);
        }
    }
}

/// Whether `line` is an entry of the account database: not blank, no
/// comment, and at least four fields parted by colons.
pub open spec fn is_account_entry(line: Seq<char>) -> bool {
    &&& !is_blank(line)
    &&& !(line.len() > 0 && line[0] == '#')
    &&& fields_of(line, ':').len() >= 4
}

/// Whether `line` is the account entry of `user`.
pub open spec fn names_user(line: Seq<char>, user: Seq<char>) -> bool {
    is_account_entry(line) && fields_of(line, ':')[0] == user
}

/// The line at index `k` is the first entry of `user` among `lines`.
pub open spec fn first_entry_at(lines: Seq<Seq<char>>, user: Seq<char>, k: int) -> bool {
    &&& 0 <= k < lines.len()
    &&& names_user(lines[k], user)
    &&& forall|j: int| 0 <= j < k ==> !names_user(#[trigger] lines[j], user)
}

/// Whether `text` starts with `c`.
fn starts_with(text: &str, c: char) -> (yes: bool)
    ensures
        yes == (text@.len() > 0 && text@[0] == c),
{
    let chars = crate::text::to_chars(text);
    chars.len() > 0 && chars[0] == c
}

/// Looks up the user and group numbers of `user` in the text of an account
/// database in the format of `/etc/passwd`. The first entry of the user
/// counts. The result is the pair of the user number and the group number.
pub fn lookup_unix_user(passwd: &str, user: &str) -> (res: Result<(u32, u32), StepError>)
    ensures
        match res {
            Ok((uid, gid)) => exists|k: int|
                first_entry_at(lines_of(passwd@), user@, k) && parsed_u32(
                    fields_of(#[trigger] lines_of(passwd@)[k], ':')[2],
                ) == Some(uid) && parsed_u32(fields_of(lines_of(passwd@)[k], ':')[3]) == Some(
                    gid,
                ),
            Err(StepError::UnknownUser { user: name }) => name@ == user@ && forall|k: int|
                0 <= k < lines_of(passwd@).len() ==> !names_user(
                    #[trigger] lines_of(passwd@)[k],
                    user@,
                ),
            Err(StepError::InvalidAccountId { text }) => exists|k: int|
                first_entry_at(lines_of(passwd@), user@, k) && {
                    let fields = fields_of(#[trigger] lines_of(passwd@)[k], ':');
                    ||| (parsed_u32(fields[2]) is None && text@ == fields[2])
                    ||| (parsed_u32(fields[2]) is Some && parsed_u32(fields[3]) is None && text@
                        == fields[3])
                },
            Err(_) => false,
        },
{
    let lines = split_lines(passwd);
    let n = lines.len();
    let mut i: usize = 0;
    while i < n
        invariant
            n == lines.len(),
            i <= n,
            text_list(lines@) == lines_of(passwd@),
            forall|j: int| 0 <= j < i ==> !names_user(#[trigger] lines_of(passwd@)[j], user@),
        decreases n - i,
    {
        let line = lines[i].as_str();
        proof {
            assert(text_list(lines@)[i as int] == lines@[i as int]@);
        }
        if !blank(line) && !starts_with(line, '#') {
            let fields = split_fields(line, ':');
            if fields.len() >= 4 {
                proof {
                    assert(text_list(fields@)[0] == fields@[0]@);
                    assert(text_list(fields@)[2] == fields@[2]@);
                    assert(text_list(fields@)[3] == fields@[3]@);
                }
                if str_eq(fields[0].as_str(), user) {
                    proof {
                        assert(first_entry_at(lines_of(passwd@), user@, i as int));
                    }
                    let uid = match parse_u32(fields[2].as_str()) {
                        Some(uid) => uid,
                        None => {
                            return Err(StepError::InvalidAccountId { text: fields[2].clone() });
                        },
                    };
                    let gid = match parse_u32(fields[3].as_str()) {
                        Some(gid) => gid,
                        None => {
                            return Err(StepError::InvalidAccountId { text: fields[3].clone() });
                        },
                    };
                    return Ok((uid, gid));
                }
            }
        }
        i += 1;
    }
    Err(StepError::UnknownUser { user: String::from_str(user) })
}

} // verus!
