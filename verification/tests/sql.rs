use batch_orchestrator::context::ExecutionContext;
use batch_orchestrator::error::StepError;
use batch_orchestrator::resources::EngineHandles;
use batch_orchestrator::scenario::SqlLoaderParConfig;
use batch_orchestrator::events::EngineEvent;
use batch_orchestrator::steps::sql::{execute_sql, execute_sql_file, load_sql_file, sql_file_path};
use batch_orchestrator::steps::sqlldr::run_sqlldr;

#[test]
fn statement_is_expanded_and_sent_to_the_default_target() {
    let mut handles = EngineHandles::new(10u32);
    handles.register("reporting", 20u32);
    let mut ctx = ExecutionContext::new();
    ctx.set_var("TABLE", "orders");
    let (executor, statement) = execute_sql("delete from ${TABLE}", &None, &handles, &ctx).unwrap();
    assert_eq!(*executor, 10);
    assert_eq!(statement, "delete from orders");
    let target = Some("reporting".to_string());
    let (executor, statement) = execute_sql("select 1", &target, &handles, &ctx).unwrap();
    assert_eq!(*executor, 20);
    assert_eq!(statement, "select 1");
}

#[test]
fn unknown_target_is_an_error_that_names_it() {
    let handles = EngineHandles::new(10u32);
    let ctx = ExecutionContext::new();
    let target = Some("nowhere".to_string());
    match execute_sql("select 1", &target, &handles, &ctx) {
        Err(StepError::UndefinedDbTarget { name }) => assert_eq!(name, "nowhere"),
        other => panic!("unexpected {:?}", other.map(|r| r.1)),
    }
}

#[test]
fn statement_that_does_not_expand_fails_before_the_target_is_looked_at() {
    let handles = EngineHandles::new(10u32);
    let ctx = ExecutionContext::new();
    let target = Some("nowhere".to_string());
    match execute_sql("select ${X}", &target, &handles, &ctx) {
        Err(StepError::Expansion(e)) => {
            assert_eq!(e.field, Some("sql".to_string()));
            assert_eq!(e.template, "select ${X}");
        }
        other => panic!("unexpected {:?}", other.map(|r| r.1)),
    }
}

#[test]
fn sql_file_path_and_contents_are_expanded() {
    let mut ctx = ExecutionContext::new();
    ctx.set_var("DIR", "/sql");
    ctx.set_var("DAY", "2024-01-01");
    assert_eq!(sql_file_path("${DIR}/load.sql", &ctx).unwrap(), "/sql/load.sql");
    assert_eq!(
        load_sql_file("insert into t values ('${DAY}');\n", &ctx).unwrap(),
        "insert into t values ('2024-01-01');\n"
    );
    match sql_file_path("${NOPE}", &ctx) {
        Err(StepError::Expansion(e)) => assert_eq!(e.field, Some("sql_file".to_string())),
        other => panic!("unexpected {:?}", other),
    }
    match load_sql_file("${NOPE}", &ctx) {
        Err(StepError::Expansion(e)) => assert_eq!(e.field, Some("sql_file_content".to_string())),
        other => panic!("unexpected {:?}", other),
    }
}

#[test]
fn sql_file_is_announced_and_prepared_from_its_contents() {
    let mut handles = EngineHandles::new(1u8);
    handles.register("dw", 2u8);
    let mut ctx = ExecutionContext::new();
    ctx.set_var("DAY", "2024-01-01");
    let target = Some("dw".to_string());
    let start = execute_sql_file(
        "${DIR}/load.sql",
        "delete from t where d = '${DAY}'",
        &target,
        &handles,
        &ctx,
        "step-7",
    );
    assert_eq!(start.events.len(), 1);
    assert!(matches!(
        &start.events[0],
        EngineEvent::StepLog { step_id, line }
            if step_id == "step-7" && line == "running SQL file ${DIR}/load.sql"
    ));
    let (executor, statement) = start.plan.unwrap();
    assert_eq!(*executor, 2);
    assert_eq!(statement, "delete from t where d = '2024-01-01'");
}

#[test]
fn sql_file_that_does_not_expand_is_not_announced() {
    let handles = EngineHandles::new(1u8);
    let ctx = ExecutionContext::new();
    let start = execute_sql_file("f.sql", "select ${X}", &None, &handles, &ctx, "s");
    assert!(start.events.is_empty());
    match start.plan {
        Err(StepError::Expansion(e)) => assert_eq!(e.field, Some("sql_file_content".to_string())),
        other => panic!("unexpected {:?}", other.map(|r| r.1)),
    }
    let missing = Some("nowhere".to_string());
    let start = execute_sql_file("f.sql", "select 1", &missing, &handles, &ctx, "s");
    assert_eq!(start.events.len(), 1);
    assert!(matches!(start.plan, Err(StepError::UndefinedDbTarget { name }) if name == "nowhere"));
}

fn sql_test_loader() -> SqlLoaderParConfig {
    SqlLoaderParConfig {
        control_file: "${DIR}/load.ctl".to_string(),
        data_file: Some("${DIR}/data.csv".to_string()),
        log_file: None,
        bad_file: Some("bad.txt".to_string()),
        discard_file: Some("${DIR}/discard.txt".to_string()),
        conn: Some("scott/${PW}@db".to_string()),
    }
}

#[test]
fn loader_command_line() {
    let mut ctx = ExecutionContext::new();
    ctx.set_var("DIR", "/in");
    ctx.set_var("PW", "tiger");
    let plan = run_sqlldr(&sql_test_loader(), &ctx).unwrap();
    assert_eq!(plan.program, "sqlldr");
    assert_eq!(
        plan.args,
        vec![
            "scott/tiger@db",
            "control=/in/load.ctl",
            "data=/in/data.csv",
            "bad=bad.txt",
            "discard=/in/discard.txt",
        ]
    );
    let mut all = sql_test_loader();
    all.log_file = Some("l.log".to_string());
    let plan = run_sqlldr(&all, &ctx).unwrap();
    assert_eq!(plan.args[3], "log=l.log");
    assert_eq!(plan.args.len(), 6);
}

#[test]
fn loader_connection_falls_back_to_the_context_and_the_environment() {
    let mut config = sql_test_loader();
    config.conn = None;
    config.data_file = None;
    config.bad_file = None;
    config.discard_file = None;
    let mut ctx = ExecutionContext::new();
    ctx.set_var("DIR", "/in");
    assert!(matches!(run_sqlldr(&config, &ctx), Err(StepError::MissingLoaderConnection)));
    ctx.set_env("SQLLDR_CONN", "env/conn");
    assert_eq!(run_sqlldr(&config, &ctx).unwrap().args, vec!["env/conn", "control=/in/load.ctl"]);
    ctx.set_var("SQLLDR_CONN", "ctx/${DIR}");
    // The fallback is taken as it stands, without expansion.
    assert_eq!(run_sqlldr(&config, &ctx).unwrap().args[0], "ctx/${DIR}");
}

#[test]
fn loader_reports_the_first_missing_piece() {
    let field_of = |res: Result<_, StepError>| match res {
        Err(StepError::Expansion(e)) => e.field.unwrap(),
        Err(other) => panic!("unexpected error {:?}", other),
        Ok(_) => panic!("expected a failure"),
    };
    let mut ctx = ExecutionContext::new();
    assert_eq!(field_of(run_sqlldr(&sql_test_loader(), &ctx)), "sqlldr.conn");
    ctx.set_var("PW", "p");
    assert_eq!(field_of(run_sqlldr(&sql_test_loader(), &ctx)), "control");
    let mut config = sql_test_loader();
    config.control_file = "c".to_string();
    assert_eq!(field_of(run_sqlldr(&config, &ctx)), "data");
    config.data_file = None;
    config.log_file = Some("${L}".to_string());
    assert_eq!(field_of(run_sqlldr(&config, &ctx)), "log");
    config.log_file = None;
    config.bad_file = Some("${B}".to_string());
    assert_eq!(field_of(run_sqlldr(&config, &ctx)), "bad");
    config.bad_file = None;
    assert_eq!(field_of(run_sqlldr(&config, &ctx)), "discard");
}
