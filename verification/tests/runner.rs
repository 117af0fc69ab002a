use batch_orchestrator::events::EngineEvent;
use batch_orchestrator::runner::{Directive, Scheduler, IDLE_POLL_MILLIS};
use batch_orchestrator::scenario::{Scenario, Step, StepKind};
use batch_orchestrator::state::StepStatus;
use batch_orchestrator::steps::StepRunResult;

fn runner_test_step(id: &str, deps: &[&str], parallel: bool) -> Step {
    Step {
        id: id.to_string(),
        name: id.to_uppercase(),
        kind: StepKind::Sql { sql: "select 1".to_string(), target_db: None },
        depends_on: deps.iter().map(|d| d.to_string()).collect(),
        allow_parallel: parallel,
        retry: 0,
        timeout_sec: 60,
        confirm: None,
    }
}

fn runner_test_scheduler(steps: Vec<Step>) -> Scheduler {
    Scheduler::new(Scenario { name: "test".to_string(), db: Vec::new(), steps })
}

fn runner_test_labels(events: &[EngineEvent]) -> Vec<String> {
    events
        .iter()
        .map(|e| match e {
            EngineEvent::StepStarted { step_id } => format!("started {step_id}"),
            EngineEvent::StepLog { step_id, line } => format!("log {step_id}: {line}"),
            EngineEvent::StepFinished { step_id, success } => format!("finished {step_id} {success}"),
            EngineEvent::ScenarioFinished => "scenario finished".to_string(),
            _ => "confirm".to_string(),
        })
        .collect()
}

fn runner_test_status(s: &Scheduler, i: usize) -> String {
    match &s.runtime().steps_state[i].status {
        StepStatus::Pending => "pending".to_string(),
        StepStatus::Running => "running".to_string(),
        StepStatus::Success => "success".to_string(),
        StepStatus::Failed(reason) => format!("failed: {reason}"),
    }
}

#[test]
fn dependent_steps_wait_for_their_dependency() {
    // A has no dependencies; B depends on A; C depends on A and may run
    // concurrently.
    let mut s = runner_test_scheduler(vec![
        runner_test_step("a", &[], false),
        runner_test_step("b", &["a"], false),
        runner_test_step("c", &["a"], true),
    ]);
    let (d, ev) = s.next(false, 10);
    assert_eq!(d, Directive::Run { index: 0 });
    assert_eq!(runner_test_labels(&ev), vec!["started a"]);
    assert_eq!(runner_test_status(&s, 0), "running");
    assert_eq!(runner_test_status(&s, 1), "pending");
    assert_eq!(runner_test_status(&s, 2), "pending");
    assert_eq!(s.runtime().steps_state[0].started_at, Some(10));

    let ev = s.complete(0, StepRunResult::Success, 20);
    assert_eq!(runner_test_labels(&ev), vec!["finished a true"]);
    assert_eq!(s.runtime().steps_state[0].finished_at, Some(20));

    // The cycle in which A ran ends idle: B and C are found in the next one.
    let (d, ev) = s.next(false, 21);
    assert_eq!(d, Directive::Sleep { millis: IDLE_POLL_MILLIS });
    assert!(ev.is_empty());

    let (d, ev) = s.next(false, 30);
    assert_eq!(d, Directive::Run { index: 1 });
    assert_eq!(runner_test_labels(&ev), vec!["started b"]);
    assert_eq!(runner_test_status(&s, 2), "pending");
    let ev = s.complete(1, StepRunResult::Success, 31);
    assert_eq!(runner_test_labels(&ev), vec!["finished b true"]);

    let (d, ev) = s.next(false, 32);
    assert_eq!(d, Directive::Spawn { index: 2 });
    assert_eq!(runner_test_labels(&ev), vec!["started c"]);

    let (d, ev) = s.next(false, 33);
    assert_eq!(d, Directive::AwaitAny);
    assert!(ev.is_empty());
    let ev = s.complete(2, StepRunResult::Success, 40);
    assert_eq!(runner_test_labels(&ev), vec!["finished c true"]);

    let (d, ev) = s.next(false, 41);
    assert_eq!(d, Directive::Finish);
    assert_eq!(runner_test_labels(&ev), vec!["scenario finished"]);

    let (d, ev) = s.next(false, 42);
    assert_eq!(d, Directive::Finish);
    assert!(ev.is_empty());
}

#[test]
fn parallel_steps_are_spawned_after_the_sequential_ones() {
    let mut s = runner_test_scheduler(vec![
        runner_test_step("p1", &[], true),
        runner_test_step("s1", &[], false),
        runner_test_step("p2", &[], true),
        runner_test_step("s2", &[], false),
    ]);
    assert_eq!(s.next(false, 0).0, Directive::Run { index: 1 });
    s.complete(1, StepRunResult::Success, 0);
    assert_eq!(s.next(false, 0).0, Directive::Run { index: 3 });
    s.complete(3, StepRunResult::Success, 0);
    assert_eq!(s.next(false, 0).0, Directive::Spawn { index: 0 });
    assert_eq!(s.next(false, 0).0, Directive::Spawn { index: 2 });
    assert_eq!(s.next(false, 0).0, Directive::AwaitAny);
    s.complete(2, StepRunResult::Success, 0);
    assert_eq!(s.next(false, 0).0, Directive::AwaitAny);
    s.complete(0, StepRunResult::Success, 0);
    let (d, ev) = s.next(false, 0);
    assert_eq!(d, Directive::Finish);
    assert_eq!(runner_test_labels(&ev), vec!["scenario finished"]);
}

#[test]
fn failure_reaches_every_dependent_without_starting_it() {
    // a <- b <- c, and d depends on c; e is independent. The children are
    // declared before their parents, so one pass over the list is not enough.
    let mut s = runner_test_scheduler(vec![
        runner_test_step("d", &["c"], false),
        runner_test_step("c", &["b"], true),
        runner_test_step("b", &["a"], false),
        runner_test_step("a", &[], false),
        runner_test_step("e", &[], false),
    ]);
    assert_eq!(s.next(false, 0).0, Directive::Run { index: 3 });
    let ev = s.complete(3, StepRunResult::Failed("boom".to_string()), 5);
    assert_eq!(runner_test_labels(&ev), vec!["log a: boom", "finished a false"]);
    assert_eq!(runner_test_status(&s, 3), "failed: boom");

    assert_eq!(s.next(false, 0).0, Directive::Run { index: 4 });
    s.complete(4, StepRunResult::Success, 6);
    assert_eq!(s.next(false, 0).0, Directive::Sleep { millis: 100 });

    let (d, ev) = s.next(false, 7);
    assert_eq!(d, Directive::Finish);
    assert_eq!(
        runner_test_labels(&ev),
        vec![
            "log b: not run: an upstream dependency failed",
            "finished b false",
            "log c: not run: an upstream dependency failed",
            "finished c false",
            "log d: not run: an upstream dependency failed",
            "finished d false",
            "scenario finished",
        ]
    );
    for i in 0..3 {
        assert_eq!(runner_test_status(&s, i), "failed: upstream dependency failed");
        assert_eq!(s.runtime().steps_state[i].started_at, None);
        assert_eq!(s.runtime().steps_state[i].finished_at, Some(7));
    }
}

#[test]
fn cancelled_run_ends_at_the_start_of_a_cycle() {
    let mut s = runner_test_scheduler(vec![
        runner_test_step("a", &[], false),
        runner_test_step("b", &["a"], false),
    ]);
    let (d, ev) = s.next(true, 0);
    assert_eq!(d, Directive::Finish);
    assert_eq!(runner_test_labels(&ev), vec!["scenario finished"]);
    assert_eq!(runner_test_status(&s, 0), "pending");
    assert_eq!(runner_test_status(&s, 1), "pending");
    let (d, ev) = s.next(false, 0);
    assert_eq!(d, Directive::Finish);
    assert!(ev.is_empty());
}

#[test]
fn cancellation_is_not_looked_at_within_a_cycle() {
    let mut s = runner_test_scheduler(vec![
        runner_test_step("a", &[], false),
        runner_test_step("b", &[], false),
    ]);
    assert_eq!(s.next(false, 0).0, Directive::Run { index: 0 });
    s.complete(0, StepRunResult::Success, 0);
    // Cancelled while the cycle dispatches: the queued step is still handed out.
    assert_eq!(s.next(true, 0).0, Directive::Run { index: 1 });
    s.complete(1, StepRunResult::Failed("cancelled".to_string()), 0);
    let (d, ev) = s.next(true, 0);
    assert_eq!(d, Directive::Finish);
    assert_eq!(runner_test_labels(&ev), vec!["scenario finished"]);
}

#[test]
fn scenario_with_two_steps_of_one_name_gets_no_scheduler() {
    let twice = Scenario {
        name: "t".to_string(),
        db: Vec::new(),
        steps: vec![runner_test_step("a", &[], false), runner_test_step("a", &[], true)],
    };
    assert!(Scheduler::for_scenario(twice).is_none());
    let once = Scenario {
        name: "t".to_string(),
        db: Vec::new(),
        steps: vec![runner_test_step("a", &[], false), runner_test_step("b", &[], true)],
    };
    assert!(Scheduler::for_scenario(once).is_some());
}

#[test]
fn log_lines_are_kept_in_the_record_of_their_step() {
    let mut s = runner_test_scheduler(vec![
        runner_test_step("a", &[], false),
        runner_test_step("b", &[], false),
    ]);
    s.record_log(1, "first".to_string());
    s.record_log(1, "second".to_string());
    s.record_log(9, "dropped".to_string());
    assert!(s.runtime().steps_state[0].logs.is_empty());
    assert_eq!(s.runtime().steps_state[1].logs, vec!["first", "second"]);
    for i in 0..600 {
        s.record_log(0, format!("line {i}"));
    }
    assert_eq!(s.runtime().steps_state[0].logs.len(), 500);
    assert_eq!(s.runtime().steps_state[0].logs[0], "line 100");
    assert_eq!(s.runtime().steps_state[0].logs[499], "line 599");
    assert_eq!(runner_test_status(&s, 0), "pending");
    assert_eq!(s.next(false, 0).0, Directive::Run { index: 0 });
    assert_eq!(s.runtime().steps_state[0].logs.len(), 500);
}

#[test]
fn nothing_follows_the_end_of_a_cancelled_run() {
    let mut s = runner_test_scheduler(vec![
        runner_test_step("a", &[], true),
        runner_test_step("b", &["a"], false),
    ]);
    assert_eq!(s.next(false, 1).0, Directive::Spawn { index: 0 });
    assert_eq!(s.next(false, 1).0, Directive::AwaitAny);
    // Cancelled while the concurrent step runs.
    let (d, ev) = s.next(true, 2);
    assert_eq!(d, Directive::Finish);
    assert_eq!(runner_test_labels(&ev), vec!["scenario finished"]);
    // The step's result comes late: it is dropped, and no event follows.
    assert!(s.complete(0, StepRunResult::Success, 3).is_empty());
    assert!(s.complete(0, StepRunResult::Failed("late".to_string()), 3).is_empty());
    assert_eq!(runner_test_status(&s, 0), "running");
    assert_eq!(s.runtime().steps_state[0].finished_at, None);
    assert_eq!(runner_test_status(&s, 1), "pending");
    let (d, ev) = s.next(false, 4);
    assert_eq!(d, Directive::Finish);
    assert!(ev.is_empty());
}

#[test]
fn scheduler_leaves_the_scenario_as_it_is() {
    let scenario = Scenario {
        name: "nightly".to_string(),
        db: vec![batch_orchestrator::scenario::DbConnection {
            name: "dw".to_string(),
            config: batch_orchestrator::scenario::DbConnectionConfig {
                kind: batch_orchestrator::scenario::DbKind::Dummy,
                dsn: None,
                user: None,
                password: None,
            },
        }],
        steps: vec![runner_test_step("a", &[], false), runner_test_step("b", &["a"], true)],
    };
    let mut s = Scheduler::new(scenario);
    s.record_log(0, "line".to_string());
    assert_eq!(s.next(false, 0).0, Directive::Run { index: 0 });
    s.complete(0, StepRunResult::Failed("no".to_string()), 1);
    assert_eq!(s.next(false, 2).0, Directive::Sleep { millis: 100 });
    assert_eq!(s.next(false, 3).0, Directive::Finish);
    let runtime = s.runtime();
    assert_eq!(runtime.scenario.name, "nightly");
    assert_eq!(runtime.scenario.db.len(), 1);
    assert_eq!(runtime.scenario.db[0].name, "dw");
    assert_eq!(runtime.scenario.steps.len(), 2);
    assert_eq!(runtime.scenario.steps[1].id, "b");
    assert_eq!(runtime.scenario.steps[1].depends_on, vec!["a"]);
}

#[test]
fn empty_scenario_finishes_at_once() {
    let mut s = runner_test_scheduler(Vec::new());
    let (d, ev) = s.next(false, 0);
    assert_eq!(d, Directive::Finish);
    assert_eq!(runner_test_labels(&ev), vec!["scenario finished"]);
}

#[test]
fn result_for_a_step_that_does_not_run_changes_nothing() {
    let mut s = runner_test_scheduler(vec![runner_test_step("a", &[], false)]);
    assert!(s.complete(0, StepRunResult::Success, 0).is_empty());
    assert!(s.complete(7, StepRunResult::Success, 0).is_empty());
    assert_eq!(runner_test_status(&s, 0), "pending");
    assert_eq!(s.next(false, 0).0, Directive::Run { index: 0 });
    assert_eq!(s.complete(0, StepRunResult::Success, 0).len(), 1);
    assert!(s.complete(0, StepRunResult::Failed("late".to_string()), 0).is_empty());
    assert_eq!(runner_test_status(&s, 0), "success");
}

#[test]
fn unknown_dependency_keeps_the_run_idle() {
    let mut s = runner_test_scheduler(vec![runner_test_step("a", &["ghost"], false)]);
    assert_eq!(s.next(false, 0).0, Directive::Sleep { millis: 100 });
    assert_eq!(s.next(false, 0).0, Directive::Sleep { millis: 100 });
    let (d, ev) = s.next(true, 0);
    assert_eq!(d, Directive::Finish);
    assert_eq!(runner_test_labels(&ev), vec!["scenario finished"]);
}

#[test]
fn every_run_ends_with_exactly_one_final_event() {
    // Drives a diamond with a failing branch to its end and counts.
    let mut s = runner_test_scheduler(vec![
        runner_test_step("root", &[], false),
        runner_test_step("left", &["root"], true),
        runner_test_step("right", &["root"], true),
        runner_test_step("join", &["left", "right"], false),
    ]);
    let mut all: Vec<String> = Vec::new();
    let mut running: Vec<usize> = Vec::new();
    let mut calls = 0;
    loop {
        calls += 1;
        assert!(calls < 100, "the run does not end");
        let (d, ev) = s.next(false, calls);
        all.extend(runner_test_labels(&ev));
        match d {
            Directive::Run { index } => {
                all.extend(runner_test_labels(&s.complete(index, StepRunResult::Success, calls)));
            }
            Directive::Spawn { index } => running.push(index),
            Directive::AwaitAny => {
                let index = running.remove(0);
                let result = if index == 2 {
                    StepRunResult::Failed("no".to_string())
                } else {
                    StepRunResult::Success
                };
                all.extend(runner_test_labels(&s.complete(index, result, calls)));
            }
            Directive::Sleep { .. } => {}
            Directive::Finish => break,
        }
    }
    assert_eq!(all.iter().filter(|l| *l == "scenario finished").count(), 1);
    assert_eq!(all.last().unwrap(), "scenario finished");
    assert!(!all.contains(&"started join".to_string()));
    assert!(all.contains(&"finished join false".to_string()));
    let started_left = all.iter().position(|l| l == "started left").unwrap();
    let finished_root = all.iter().position(|l| l == "finished root true").unwrap();
    assert!(finished_root < started_left);
}
