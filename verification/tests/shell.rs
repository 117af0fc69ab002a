use batch_orchestrator::context::ExecutionContext;
use batch_orchestrator::error::StepError;
use batch_orchestrator::scenario::{EnvVar, ShellConfig, ShellErrorPolicy};
use batch_orchestrator::steps::shell::{
    lookup_unix_user, run_shell_command, shell_after_exit, Platform, ShellVerdict,
};

fn shell_test_config() -> ShellConfig {
    ShellConfig {
        script: "echo ${MSG}".to_string(),
        shell_program: None,
        shell_args: vec!["${A1}".to_string(), "plain".to_string()],
        env: vec![
            EnvVar { name: "OUT".to_string(), value: "${DIR}/out".to_string() },
            EnvVar { name: "${MSG}".to_string(), value: "x".to_string() },
        ],
        working_dir: Some("${DIR}".to_string()),
        run_as: None,
        error_policy: ShellErrorPolicy::Fail,
    }
}

fn shell_test_ctx() -> ExecutionContext {
    let mut ctx = ExecutionContext::new();
    ctx.set_var("MSG", "hi");
    ctx.set_var("A1", "first");
    ctx.set_var("DIR", "/work");
    ctx
}

#[test]
fn shell_command_on_unix() {
    let plan = run_shell_command(&shell_test_config(), &shell_test_ctx(), Platform::Unix).unwrap();
    assert_eq!(plan.program, "sh");
    assert_eq!(plan.args, vec!["-c", "echo hi", "first", "plain"]);
    assert_eq!(plan.env.len(), 2);
    assert_eq!(plan.env[0].name, "OUT");
    assert_eq!(plan.env[0].value, "/work/out");
    // Names of variables are not expanded.
    assert_eq!(plan.env[1].name, "${MSG}");
    assert_eq!(plan.env[1].value, "x");
    assert_eq!(plan.working_dir, Some("/work".to_string()));
    assert_eq!(plan.run_as, None);
}

#[test]
fn shell_command_on_windows_and_elsewhere() {
    let plan = run_shell_command(&shell_test_config(), &shell_test_ctx(), Platform::Windows).unwrap();
    assert_eq!(plan.program, "cmd");
    assert_eq!(plan.args[0], "/C");
    assert_eq!(plan.args[1], "echo hi");
    let plan = run_shell_command(&shell_test_config(), &shell_test_ctx(), Platform::Other).unwrap();
    assert_eq!(plan.program, "sh");
    assert_eq!(plan.args[0], "-c");
}

#[test]
fn named_shell_program_is_taken_as_given() {
    let mut config = shell_test_config();
    config.shell_program = Some("/bin/${MSG}".to_string());
    let plan = run_shell_command(&config, &shell_test_ctx(), Platform::Windows).unwrap();
    assert_eq!(plan.program, "/bin/${MSG}");
    assert_eq!(plan.args[0], "/C");
}

#[test]
fn first_template_that_does_not_expand_fails_the_step() {
    let mut ctx = ExecutionContext::new();
    let field_of = |res: Result<_, StepError>| match res {
        Err(StepError::Expansion(e)) => (e.field.unwrap(), e.template),
        Err(other) => panic!("unexpected error {:?}", other),
        Ok(_) => panic!("expected a failure"),
    };
    let config = shell_test_config();
    assert_eq!(
        field_of(run_shell_command(&config, &ctx, Platform::Unix)),
        ("shell.command".to_string(), "echo ${MSG}".to_string())
    );
    ctx.set_var("MSG", "m");
    assert_eq!(
        field_of(run_shell_command(&config, &ctx, Platform::Unix)),
        ("shell.arg".to_string(), "${A1}".to_string())
    );
    ctx.set_var("A1", "a");
    assert_eq!(
        field_of(run_shell_command(&config, &ctx, Platform::Unix)),
        ("shell.env".to_string(), "${DIR}/out".to_string())
    );
    let mut no_env = shell_test_config();
    no_env.env.clear();
    assert_eq!(
        field_of(run_shell_command(&no_env, &ctx, Platform::Unix)),
        ("shell.working_dir".to_string(), "${DIR}".to_string())
    );
}

#[test]
fn run_as_is_refused_where_accounts_cannot_be_switched() {
    let mut config = shell_test_config();
    config.run_as = Some("batch".to_string());
    let ctx = shell_test_ctx();
    let plan = run_shell_command(&config, &ctx, Platform::Unix).unwrap();
    assert_eq!(plan.run_as, Some("batch".to_string()));
    assert!(matches!(run_shell_command(&config, &ctx, Platform::Windows), Err(StepError::RunAsUnsupported)));
    assert!(matches!(run_shell_command(&config, &ctx, Platform::Other), Err(StepError::RunAsUnsupported)));
    // A template that does not expand is reported first.
    let empty = ExecutionContext::new();
    assert!(matches!(run_shell_command(&config, &empty, Platform::Windows), Err(StepError::Expansion(_))));
}

#[test]
fn successful_exit_succeeds_under_every_policy() {
    for policy in [
        ShellErrorPolicy::Fail,
        ShellErrorPolicy::Ignore,
        ShellErrorPolicy::Retry { max_retries: 0, delay_secs: 1 },
    ] {
        let d = shell_after_exit(&policy, 1, true, "exit status: 0");
        assert_eq!(d.verdict, ShellVerdict::Succeeded);
        assert!(d.error.is_none());
        assert!(d.log.is_none());
    }
}

#[test]
fn failure_under_fail_and_ignore() {
    let d = shell_after_exit(&ShellErrorPolicy::Fail, 1, false, "exit status: 2");
    assert_eq!(d.verdict, ShellVerdict::Failed);
    assert!(d.log.is_none());
    match d.error {
        Some(StepError::CommandFailed { status }) => assert_eq!(status, "exit status: 2"),
        other => panic!("unexpected {:?}", other),
    }
    let d = shell_after_exit(&ShellErrorPolicy::Ignore, 1, false, "exit status: 2");
    assert_eq!(d.verdict, ShellVerdict::Ignored);
    assert!(d.error.is_none());
    assert_eq!(d.log, Some("exit status exit status: 2 ignored by policy".to_string()));
}

#[test]
fn command_that_always_fails_is_run_max_retries_plus_one_times() {
    let policy = ShellErrorPolicy::Retry { max_retries: 2, delay_secs: 0 };
    let mut spawns: u64 = 0;
    let mut logs: Vec<String> = Vec::new();
    let error = loop {
        spawns += 1;
        let d = shell_after_exit(&policy, spawns, false, "exit status: 1");
        if let Some(line) = d.log {
            logs.push(line);
        }
        match d.verdict {
            ShellVerdict::Retry { delay_secs } => assert_eq!(delay_secs, 0),
            ShellVerdict::Exhausted => break d.error,
            other => panic!("unexpected verdict {:?}", other),
        }
        assert!(spawns < 10);
    };
    assert_eq!(spawns, 3);
    match error {
        Some(StepError::RetriesExhausted { status }) => assert_eq!(status, "exit status: 1"),
        other => panic!("unexpected {:?}", other),
    }
    assert_eq!(
        logs,
        vec!["command failed, retrying in 0s (1/3)", "command failed, retrying in 0s (2/3)"]
    );
}

#[test]
fn retry_limits() {
    let none = ShellErrorPolicy::Retry { max_retries: 0, delay_secs: 9 };
    assert_eq!(shell_after_exit(&none, 1, false, "s").verdict, ShellVerdict::Exhausted);
    let many = ShellErrorPolicy::Retry { max_retries: u32::MAX, delay_secs: 7 };
    assert_eq!(
        shell_after_exit(&many, u32::MAX as u64, false, "s").verdict,
        ShellVerdict::Retry { delay_secs: 7 }
    );
    assert_eq!(
        shell_after_exit(&many, u32::MAX as u64 + 1, false, "s").verdict,
        ShellVerdict::Exhausted
    );
    let d = shell_after_exit(&many, 1, false, "s");
    assert_eq!(d.log, Some("command failed, retrying in 7s (1/4294967296)".to_string()));
}

const SHELL_TEST_PASSWD: &str = "# accounts\n\nroot:x:0:0:root:/root:/bin/bash\r\n   \nshort:x:1\nbatch:x:1001:2002:Batch User:/home/batch:/bin/sh\nbatch:x:1:1::/:/bin/false\nbad:x:abc:5::/:/bin/sh\nbadgid:x:5:-1::/:/bin/sh\n#hidden:x:7:7::/:/bin/sh\nbig:x:4294967296:1::/:/bin/sh";

#[test]
fn user_and_group_numbers_are_looked_up() {
    assert_eq!(lookup_unix_user(SHELL_TEST_PASSWD, "root").unwrap(), (0, 0));
    // The first entry of a user counts.
    assert_eq!(lookup_unix_user(SHELL_TEST_PASSWD, "batch").unwrap(), (1001, 2002));
}

#[test]
fn unknown_users_are_reported() {
    for user in ["nobody", "short", "#hidden", "hidden", "", "roo"] {
        match lookup_unix_user(SHELL_TEST_PASSWD, user) {
            Err(StepError::UnknownUser { user: named }) => assert_eq!(named, user),
            other => panic!("unexpected {:?} for {:?}", other, user),
        }
    }
    assert!(matches!(lookup_unix_user("", "root"), Err(StepError::UnknownUser { .. })));
}

#[test]
fn numbers_that_are_no_numbers_are_reported() {
    match lookup_unix_user(SHELL_TEST_PASSWD, "bad") {
        Err(StepError::InvalidAccountId { text }) => assert_eq!(text, "abc"),
        other => panic!("unexpected {:?}", other),
    }
    match lookup_unix_user(SHELL_TEST_PASSWD, "badgid") {
        Err(StepError::InvalidAccountId { text }) => assert_eq!(text, "-1"),
        other => panic!("unexpected {:?}", other),
    }
    match lookup_unix_user(SHELL_TEST_PASSWD, "big") {
        Err(StepError::InvalidAccountId { text }) => assert_eq!(text, "4294967296"),
        other => panic!("unexpected {:?}", other),
    }
}
