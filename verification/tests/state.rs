use batch_orchestrator::scenario::{Scenario, Step, StepKind};
use batch_orchestrator::state::{ScenarioRuntime, StepRuntimeState, StepStatus, MAX_LOG_LINES};

#[test]
fn new_record_is_pending() {
    let state = StepRuntimeState::new();
    assert!(matches!(state.status, StepStatus::Pending));
    assert!(state.started_at.is_none());
    assert!(state.finished_at.is_none());
    assert!(state.logs.is_empty());
    let state = StepRuntimeState::default();
    assert!(matches!(state.status, StepStatus::Pending));
}

#[test]
fn log_keeps_the_latest_lines() {
    assert_eq!(MAX_LOG_LINES, 500);
    let mut state = StepRuntimeState::new();
    for i in 0..MAX_LOG_LINES {
        state.push_log(format!("line {i}"));
    }
    assert_eq!(state.logs.len(), 500);
    assert_eq!(state.logs[0], "line 0");
    state.push_log("line 500".to_string());
    assert_eq!(state.logs.len(), 500);
    assert_eq!(state.logs[0], "line 1");
    assert_eq!(state.logs[499], "line 500");
    state.push_log("line 501".to_string());
    assert_eq!(state.logs[0], "line 2");
    assert_eq!(state.logs[499], "line 501");
}

#[test]
fn log_cuts_down_an_overlong_record() {
    let mut state = StepRuntimeState::new();
    for i in 0..510 {
        state.logs.push(format!("old {i}"));
    }
    state.push_log("new".to_string());
    assert_eq!(state.logs.len(), 500);
    assert_eq!(state.logs[0], "old 11");
    assert_eq!(state.logs[499], "new");
}

#[test]
fn runtime_has_one_record_per_step() {
    let steps = vec!["a", "b", "c"]
        .into_iter()
        .map(|id| Step {
            id: id.to_string(),
            name: id.to_string(),
            kind: StepKind::Sql { sql: String::new(), target_db: None },
            depends_on: Vec::new(),
            allow_parallel: false,
            retry: 0,
            timeout_sec: 60,
            confirm: None,
        })
        .collect();
    let runtime = ScenarioRuntime::new(Scenario { name: "s".to_string(), db: Vec::new(), steps });
    assert_eq!(runtime.steps_state.len(), 3);
    assert_eq!(runtime.scenario.steps.len(), 3);
    for state in &runtime.steps_state {
        assert!(matches!(state.status, StepStatus::Pending));
        assert!(state.started_at.is_none() && state.finished_at.is_none());
        assert!(state.logs.is_empty());
    }
}
