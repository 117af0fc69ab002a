use batch_orchestrator::context::ExecutionContext;
use batch_orchestrator::error::StepError;
use batch_orchestrator::executor::{new_oracle_db_executor, DummyExecutor, ExecutorSpec, OracleDbExecutor};
use batch_orchestrator::resources::{
    build_executor_from_config, plan_engine_handles, prepare_engine_handles, EngineHandles,
};
use batch_orchestrator::scenario::{DbConnection, DbConnectionConfig, DbKind, Scenario};

fn resources_test_connection(name: &str, kind: DbKind, dsn: Option<&str>, user: Option<&str>, password: Option<&str>) -> DbConnection {
    DbConnection {
        name: name.to_string(),
        config: DbConnectionConfig {
            kind,
            dsn: dsn.map(|s| s.to_string()),
            user: user.map(|s| s.to_string()),
            password: password.map(|s| s.to_string()),
        },
    }
}

fn resources_test_scenario(db: Vec<DbConnection>) -> Scenario {
    Scenario { name: "s".to_string(), db, steps: Vec::new() }
}

fn resources_test_label(spec: &ExecutorSpec) -> String {
    match spec {
        ExecutorSpec::Dummy => "dummy".to_string(),
        ExecutorSpec::Postgres { dsn, user, password } => format!("pg {dsn} {user:?} {password:?}"),
        ExecutorSpec::Oracle(executor) => format!("ora {}", executor.arguments()[1]),
    }
}

#[test]
fn registry_holds_the_default_executor() {
    let handles = EngineHandles::new("base");
    assert_eq!(handles.get_db_executor("default").unwrap(), &"base");
    match handles.get_db_executor("other") {
        Err(StepError::UndefinedDbTarget { name }) => assert_eq!(name, "other"),
        other => panic!("unexpected {:?}", other),
    }
    let e = StepError::UndefinedDbTarget { name: "other".to_string() };
    assert_eq!(e.message(), "undefined DB target: other");
}

#[test]
fn registering_replaces_what_stood_under_the_name() {
    let mut handles = EngineHandles::new(1);
    handles.register("a", 2);
    handles.register("a", 3);
    handles.register("default", 4);
    assert_eq!(handles.get_db_executor("a").unwrap(), &3);
    assert_eq!(handles.get_db_executor("default").unwrap(), &4);
}

#[test]
fn connection_values_are_expanded() {
    let mut ctx = ExecutionContext::new();
    ctx.set_var("HOST", "db1");
    ctx.set_env("PW", "secret");
    let dummy = resources_test_connection("d", DbKind::Dummy, Some("${NOPE}"), None, None);
    assert_eq!(resources_test_label(&build_executor_from_config(&dummy.config, &ctx).unwrap()), "dummy");
    let pg = resources_test_connection("p", DbKind::Postgres, Some("host=${HOST}"), None, Some("${PW}"));
    assert_eq!(
        resources_test_label(&build_executor_from_config(&pg.config, &ctx).unwrap()),
        "pg host=db1 None Some(\"secret\")"
    );
    let ora = resources_test_connection("o", DbKind::Oracle, Some("${HOST}:1521/x"), Some("scott"), Some("${PW}"));
    assert_eq!(
        resources_test_label(&build_executor_from_config(&ora.config, &ctx).unwrap()),
        "ora scott/secret@db1:1521/x"
    );
}

#[test]
fn missing_and_unresolved_connection_values_are_errors() {
    let ctx = ExecutionContext::new();
    let missing = |c: DbConnection| match build_executor_from_config(&c.config, &ctx) {
        Err(StepError::MissingConnectionValue { field }) => field,
        other => panic!("unexpected {:?}", other.map(|s| resources_test_label(&s))),
    };
    let unresolved = |c: DbConnection| match build_executor_from_config(&c.config, &ctx) {
        Err(StepError::Expansion(e)) => e.field.unwrap(),
        other => panic!("unexpected {:?}", other.map(|s| resources_test_label(&s))),
    };
    assert_eq!(missing(resources_test_connection("p", DbKind::Postgres, None, None, None)), "dsn");
    assert_eq!(missing(resources_test_connection("o", DbKind::Oracle, None, None, None)), "dsn");
    assert_eq!(missing(resources_test_connection("o", DbKind::Oracle, Some("d"), None, Some("p"))), "user");
    assert_eq!(missing(resources_test_connection("o", DbKind::Oracle, Some("d"), Some("u"), None)), "password");
    assert_eq!(unresolved(resources_test_connection("p", DbKind::Postgres, Some("${X}"), Some("${Y}"), None)), "dsn");
    assert_eq!(unresolved(resources_test_connection("p", DbKind::Postgres, Some("d"), Some("${Y}"), Some("${Z}"))), "user");
    assert_eq!(unresolved(resources_test_connection("p", DbKind::Postgres, Some("d"), None, Some("${Z}"))), "password");
    assert_eq!(unresolved(resources_test_connection("o", DbKind::Oracle, Some("d"), Some("u"), Some("${Z}"))), "password");
    let e = StepError::MissingConnectionValue { field: "dsn".to_string() };
    assert_eq!(e.message(), "dsn is missing");
}

#[test]
fn targets_are_planned_in_order_and_the_first_failure_ends_the_work() {
    let ctx = ExecutionContext::new();
    let ok = resources_test_scenario(vec![
        resources_test_connection("a", DbKind::Dummy, None, None, None),
        resources_test_connection("b", DbKind::Postgres, Some("dsn"), None, None),
    ]);
    let plans = plan_engine_handles(&ok, &ctx).unwrap();
    assert_eq!(plans.len(), 2);
    assert_eq!(plans[0].name, "a");
    assert_eq!(plans[1].name, "b");
    assert_eq!(resources_test_label(&plans[1].spec), "pg dsn None None");
    let bad = resources_test_scenario(vec![
        resources_test_connection("a", DbKind::Dummy, None, None, None),
        resources_test_connection("b", DbKind::Postgres, None, None, None),
        resources_test_connection("c", DbKind::Oracle, None, None, None),
    ]);
    let e = plan_engine_handles(&bad, &ctx).unwrap_err();
    assert_eq!(e.target, "b");
    assert_eq!(e.message(), "cannot build the executor of b: dsn is missing");
}

#[test]
fn registry_is_built_from_the_scenario() {
    let ctx = ExecutionContext::new();
    let scenario = resources_test_scenario(vec![
        resources_test_connection("a", DbKind::Dummy, None, None, None),
        resources_test_connection("b", DbKind::Postgres, Some("dsn"), None, None),
        resources_test_connection("a", DbKind::Oracle, Some("d"), Some("u"), Some("p")),
    ]);
    let handles = prepare_engine_handles(&scenario, "base".to_string(), &ctx, |spec: &ExecutorSpec| {
        Ok(resources_test_label(spec))
    })
    .unwrap();
    assert_eq!(handles.get_db_executor("default").unwrap(), "base");
    assert_eq!(handles.get_db_executor("b").unwrap(), "pg dsn None None");
    // The later declaration of a name stands.
    assert_eq!(handles.get_db_executor("a").unwrap(), "ora u/p@d");
    assert!(handles.get_db_executor("c").is_err());
}

#[test]
fn failing_builder_aborts_the_registry() {
    let ctx = ExecutionContext::new();
    let scenario = resources_test_scenario(vec![
        resources_test_connection("a", DbKind::Dummy, None, None, None),
        resources_test_connection("b", DbKind::Postgres, Some("dsn"), None, None),
    ]);
    let res = prepare_engine_handles(&scenario, 0u8, &ctx, |spec: &ExecutorSpec| match spec {
        ExecutorSpec::Postgres { .. } => Err("pool creation failed".to_string()),
        _ => Ok(1u8),
    });
    match res {
        Err(e) => {
            assert_eq!(e.target, "b");
            assert!(matches!(&e.cause, StepError::External { detail } if detail == "pool creation failed"));
            assert_eq!(e.message(), "cannot build the executor of b: pool creation failed");
        }
        Ok(_) => panic!("expected a failure"),
    }
    let unplanned = resources_test_scenario(vec![resources_test_connection("x", DbKind::Oracle, None, None, None)]);
    let res = prepare_engine_handles(&unplanned, 0u8, &ctx, |_spec: &ExecutorSpec| Ok(1u8));
    assert!(matches!(res, Err(e) if e.target == "x"));
}

#[test]
fn oracle_client_is_driven_by_arguments_and_a_script() {
    let executor = OracleDbExecutor::new("host:1521/svc", "scott", "tiger");
    assert_eq!(executor.arguments(), vec!["-S", "scott/tiger@host:1521/svc"]);
    assert_eq!(
        executor.script("select 1 from dual"),
        "SET HEADING OFF\nSET FEEDBACK OFF\nselect 1 from dual\n/\nEXIT\n"
    );
    match new_oracle_db_executor("d", "u", "p") {
        ExecutorSpec::Oracle(executor) => assert_eq!(executor.arguments()[1], "u/p@d"),
        other => panic!("unexpected {:?}", other),
    }
    assert_eq!(DummyExecutor.report("select 1"), "[DummyExecutor] SQL: select 1");
}
