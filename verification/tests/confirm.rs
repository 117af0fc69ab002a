use batch_orchestrator::confirm_bridge::{Answer, ConfirmBridge};
use batch_orchestrator::context::ExecutionContext;
use batch_orchestrator::events::{ConfirmPhase, EngineEvent};
use batch_orchestrator::scenario::{
    ConfirmDefault, ExtractVarFromFileConfig, IterationFailurePolicy, LoopStepConfig, ShellConfig,
    ShellErrorPolicy, SqlLoaderParConfig, Step, StepConfirmConfig, StepKind,
};
use batch_orchestrator::steps::{
    run_single_step, AttemptEnd, Outcome, RunnerAction, RunnerInput, RunnerState, StepRunResult,
};
use batch_orchestrator::steps::confirm::{
    evaluate_confirm, record_confirm, request_confirm, resolve_confirm, step_kind_label,
    summarize_step, trim_lines,
};

fn confirm_test_step(id: &str, kind: StepKind) -> Step {
    Step {
        id: id.to_string(),
        name: format!("Step {id}"),
        kind,
        depends_on: Vec::new(),
        allow_parallel: false,
        retry: 0,
        timeout_sec: 60,
        confirm: None,
    }
}

fn confirm_test_sql(id: &str) -> Step {
    confirm_test_step(id, StepKind::Sql { sql: "select 1".to_string(), target_db: None })
}

fn confirm_test_config(before: bool, after: bool, default_answer: ConfirmDefault) -> StepConfirmConfig {
    StepConfirmConfig {
        before,
        after,
        message_before: Some("go?".to_string()),
        message_after: None,
        default_answer,
    }
}

#[test]
fn bridge_numbers_requests_from_one() {
    let mut bridge = ConfirmBridge::new();
    assert_eq!(bridge.register(), 1);
    assert_eq!(bridge.register(), 2);
    assert_eq!(bridge.register(), 3);
}

#[test]
fn bridge_answer_reaches_the_one_who_asked() {
    let mut bridge = ConfirmBridge::new();
    let id = bridge.register();
    assert_eq!(bridge.take_answer(id), Answer::Waiting);
    assert!(bridge.respond(id, true));
    assert_eq!(bridge.take_answer(id), Answer::Answered(true));
    assert_eq!(bridge.take_answer(id), Answer::Gone);
    let id = bridge.register();
    assert!(bridge.respond(id, false));
    assert_eq!(bridge.take_answer(id), Answer::Answered(false));
}

#[test]
fn bridge_stale_answers_match_nothing() {
    let mut bridge = ConfirmBridge::new();
    assert!(!bridge.respond(1, true));
    let id = bridge.register();
    assert!(!bridge.respond(id + 1, true));
    assert!(bridge.respond(id, true));
    // A second answer to the same request is stale, and changes nothing.
    assert!(!bridge.respond(id, false));
    assert_eq!(bridge.take_answer(id), Answer::Answered(true));
    assert!(!bridge.respond(id, true));
}

#[test]
fn bridge_cancel_removes_the_request() {
    let mut bridge = ConfirmBridge::new();
    let a = bridge.register();
    let b = bridge.register();
    bridge.cancel(a);
    assert_eq!(bridge.take_answer(a), Answer::Gone);
    assert!(!bridge.respond(a, true));
    assert_eq!(bridge.take_answer(b), Answer::Waiting);
    bridge.cancel(99);
    assert!(bridge.respond(b, false));
    bridge.cancel(b);
    assert_eq!(bridge.take_answer(b), Answer::Gone);
}

#[test]
fn gate_that_is_off_accepts_and_records_nothing() {
    let step = confirm_test_sql("s1");
    let mut ctx = ExecutionContext::new();
    let confirm = confirm_test_config(false, true, ConfirmDefault::No);
    assert!(evaluate_confirm(&step, &confirm, ConfirmPhase::Before, &mut ctx));
    assert_eq!(ctx.get_var("CONFIRM_S1"), None);
}

#[test]
fn headless_gate_takes_the_default_answer() {
    let step = confirm_test_sql("load-1");
    let mut ctx = ExecutionContext::new();
    let no = confirm_test_config(true, false, ConfirmDefault::No);
    assert!(!evaluate_confirm(&step, &no, ConfirmPhase::Before, &mut ctx));
    assert_eq!(ctx.get_var("CONFIRM_LOAD-1"), Some("No"));
    let yes = confirm_test_config(true, true, ConfirmDefault::Yes);
    assert!(evaluate_confirm(&step, &yes, ConfirmPhase::After, &mut ctx));
    assert_eq!(ctx.get_var("CONFIRM_LOAD-1"), Some("Yes"));
}

#[test]
fn headless_step_with_declining_default_fails_before_it_runs() {
    let mut step = confirm_test_sql("s1");
    step.retry = 3;
    step.confirm = Some(confirm_test_config(true, false, ConfirmDefault::No));
    let mut ctx = ExecutionContext::new();
    let mut state = RunnerState::Idle;
    let mut input = RunnerInput::Start;
    let mut executions = 0;
    let result = loop {
        let t = run_single_step(&step, state, input, "", false);
        state = t.next;
        match t.action {
            RunnerAction::Confirm { phase } => {
                let confirm = step.confirm.as_ref().unwrap();
                let accepted = evaluate_confirm(&step, confirm, phase, &mut ctx);
                input = RunnerInput::Confirmed { accepted };
            }
            RunnerAction::Execute { .. } => {
                executions += 1;
                input = RunnerInput::Attempted { end: AttemptEnd::Succeeded };
            }
            RunnerAction::Finish { outcome } => {
                assert_eq!(outcome, Outcome::DeclinedBefore);
                break t.result.unwrap();
            }
            other => panic!("unexpected action {:?}", other),
        }
    };
    assert_eq!(executions, 0);
    assert!(matches!(result, StepRunResult::Failed(_)));
    assert_eq!(ctx.get_var("CONFIRM_S1"), Some("No"));
}

#[test]
fn recorded_answer_can_be_expanded_by_later_steps() {
    let step = confirm_test_sql("step_a");
    let mut ctx = ExecutionContext::new();
    record_confirm(&step, true, &mut ctx);
    assert_eq!(ctx.get_var("CONFIRM_STEP_A"), Some("Yes"));
    assert_eq!(ctx.get_var("CONFIRM_step_a"), None);
    assert_eq!(ctx.expand_placeholders("answer=${CONFIRM_STEP_A}").unwrap(), "answer=Yes");
    record_confirm(&step, false, &mut ctx);
    assert_eq!(ctx.expand_placeholders("${CONFIRM_STEP_A}").unwrap(), "No");
}

#[test]
fn request_is_registered_and_described() {
    let step = confirm_test_sql("s1");
    let confirm = confirm_test_config(true, false, ConfirmDefault::No);
    let mut bridge = ConfirmBridge::new();
    assert!(request_confirm(&step, &confirm, ConfirmPhase::After, &mut bridge).is_none());
    let (id, event) = request_confirm(&step, &confirm, ConfirmPhase::Before, &mut bridge).unwrap();
    assert_eq!(id, 1);
    assert_eq!(bridge.take_answer(id), Answer::Waiting);
    match event {
        EngineEvent::RequestConfirm {
            request_id,
            step_id,
            step_name,
            step_kind,
            summary,
            message,
            default_answer,
            phase,
        } => {
            assert_eq!(request_id, 1);
            assert_eq!(step_id, "s1");
            assert_eq!(step_name, "Step s1");
            assert_eq!(step_kind, "sql");
            assert_eq!(summary, Some("select 1".to_string()));
            assert_eq!(message, Some("go?".to_string()));
            assert_eq!(default_answer, ConfirmDefault::No);
            assert_eq!(phase, ConfirmPhase::Before);
        }
        other => panic!("unexpected event {:?}", other),
    }
}

#[test]
fn answer_decides_and_is_reported() {
    let step = confirm_test_sql("s1");
    let confirm = confirm_test_config(true, false, ConfirmDefault::No);
    let mut bridge = ConfirmBridge::new();
    let mut ctx = ExecutionContext::new();
    let (id, _) = request_confirm(&step, &confirm, ConfirmPhase::Before, &mut bridge).unwrap();
    assert!(bridge.respond(id, true));
    let answer = match bridge.take_answer(id) {
        Answer::Answered(a) => Some(a),
        _ => None,
    };
    let (accepted, events) = resolve_confirm(&step, &confirm, id, answer, &mut ctx, &mut bridge);
    assert!(accepted);
    assert_eq!(events.len(), 1);
    assert!(matches!(
        &events[0],
        EngineEvent::ConfirmResponse { request_id: 1, step_id, accepted: true } if step_id == "s1"
    ));
    assert_eq!(ctx.get_var("CONFIRM_S1"), Some("Yes"));
}

#[test]
fn given_up_wait_falls_back_to_the_default() {
    let step = confirm_test_sql("s1");
    let confirm = confirm_test_config(true, false, ConfirmDefault::No);
    let mut bridge = ConfirmBridge::new();
    let mut ctx = ExecutionContext::new();
    let (id, _) = request_confirm(&step, &confirm, ConfirmPhase::Before, &mut bridge).unwrap();
    let (accepted, events) = resolve_confirm(&step, &confirm, id, None, &mut ctx, &mut bridge);
    assert!(!accepted);
    assert!(events.is_empty());
    assert_eq!(ctx.get_var("CONFIRM_S1"), Some("No"));
    assert_eq!(bridge.take_answer(id), Answer::Gone);
    assert!(!bridge.respond(id, true));
}

#[test]
fn labels_of_step_kinds() {
    let loader = SqlLoaderParConfig {
        control_file: "c.ctl".to_string(),
        data_file: None,
        log_file: None,
        bad_file: None,
        discard_file: None,
        conn: None,
    };
    let shell = ShellConfig {
        script: "a\nb\nc\nd\ne".to_string(),
        shell_program: None,
        shell_args: Vec::new(),
        env: Vec::new(),
        working_dir: None,
        run_as: None,
        error_policy: ShellErrorPolicy::Fail,
    };
    let extract = ExtractVarFromFileConfig {
        file_path: "/tmp/f".to_string(),
        line: 2,
        pattern: "x".to_string(),
        group: 1,
        var_name: "V".to_string(),
    };
    let looped = LoopStepConfig {
        for_each_glob: "/in/*.csv".to_string(),
        as_var: "FILE".to_string(),
        iteration_failure_policy: IterationFailurePolicy::StopAll,
        steps: vec![confirm_test_sql("c1"), confirm_test_sql("c2")],
    };
    let cases = vec![
        (StepKind::Sql { sql: "1\n2\n3\n4\n5".to_string(), target_db: None }, "sql", "1\n2\n3\n4\n..."),
        (StepKind::SqlFile { path: "q.sql".to_string(), target_db: None }, "sql_file", "file: q.sql"),
        (StepKind::SqlLoaderPar { config: loader }, "sql_loader_par", "control: c.ctl"),
        (StepKind::Shell { config: shell }, "shell", "a\nb\nc\nd\n..."),
        (
            StepKind::ExtractVarFromFile { config: extract },
            "extract",
            "file: /tmp/f / group: 1 / variable: V",
        ),
        (StepKind::Loop { config: looped }, "loop", "loop /in/*.csv -> FILE (2 steps)"),
    ];
    for (kind, label, summary) in cases {
        assert_eq!(step_kind_label(&kind), label);
        let step = confirm_test_step("x", kind);
        assert_eq!(summarize_step(&step), Some(summary.to_string()));
    }
}

#[test]
fn trimming_lines() {
    assert_eq!(trim_lines("a\nb\nc", 4), "a\nb\nc");
    assert_eq!(trim_lines("a\nb\nc\nd", 4), "a\nb\nc\nd");
    assert_eq!(trim_lines("a\nb\nc\nd\ne", 4), "a\nb\nc\nd\n...");
    assert_eq!(trim_lines("a\r\nb\r\n", 1), "a\n...");
    assert_eq!(trim_lines("", 4), "");
    assert_eq!(trim_lines("one", 0), "...");
    assert_eq!(trim_lines("", 0), "");
    assert_eq!(trim_lines("x\n", 1), "x");
}
