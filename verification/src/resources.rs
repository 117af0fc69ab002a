//! The registry of database targets: which executor stands behind which
//! name. It is built once, before any step runs, and only read after that.

use crate::context::{expansion, reports, ExecutionContext, ExpansionError};
use crate::error::StepError;
use crate::executor::{ExecutorSpec, OracleDbExecutor};
use crate::scenario::{DbConnection, DbConnectionConfig, DbKind, Scenario};
use crate::text::opt_text;
use vstd::hash_map::StringHashMap;
use vstd::prelude::*;
use vstd::string::StringExecFns;

verus! {

/// The name of the target that steps use when they name none.
pub open spec fn default_target() -> Seq<char> {
    "default"@
}

/// The executors of a run, by target name.
#[verifier::reject_recursive_types(E)]
pub struct EngineHandles<E> {
    db_map: StringHashMap<E>,
}

impl<E> EngineHandles<E> {
    /// The registered executors, by target name.
    pub closed spec fn targets(&self) -> Map<Seq<char>, E> {
        self.db_map@
    }

    /// A registry that holds `default_executor` under the name `default`.
    pub fn new(default_executor: E) -> (handles: Self)
        ensures
            handles.targets() == Map::<Seq<char>, E>::empty().insert(
                default_target(),
                default_executor,
            ),
    {
        let mut db_map: StringHashMap<E> = StringHashMap::new();
        db_map.insert(String::from_str("default"), default_executor);
        EngineHandles { db_map }
    }

    /// Registers `executor` under `name`, in place of what stood there.
    pub fn register(&mut self, name: &str, executor: E)
        ensures
            final(self).targets() == old(self).targets().insert(name@, executor),
    {
        self.db_map.insert(String::from_str(name), executor);
    }

    /// The executor registered under `name`. A name that was never
    /// registered is an error that names it.
    pub fn get_db_executor(&self, name: &str) -> (res: Result<&E, StepError>)
        ensures
            match res {
                Ok(executor) => self.targets().contains_key(name@) && *executor
                    == self.targets()[name@],
                Err(StepError::UndefinedDbTarget { name: unknown }) => !self.targets().contains_key(
                    name@,
                ) && unknown@ == name@,
                Err(_) => false,
            },
    {
        match self.db_map.get(name) {
            Some(executor) => Ok(executor),
            None => Err(StepError::UndefinedDbTarget { name: String::from_str(name) }),
        }
    }
}

/// Why the registry could not be built.
#[derive(Debug, Clone)]
pub struct EngineError {
    /// The target whose executor could not be built.
    pub target: String,
    /// What went wrong.
    pub cause: StepError,
}

impl EngineError {
    /// The text of `message`.
    pub open spec fn message_text(self) -> Seq<char> {
        "cannot build the executor of "@ + self.target@ + ": "@ + self.cause.message_text()
    }

    /// A one-line description of the failure.
    pub fn message(&self) -> (text: String)
        ensures
            text@ == self.message_text(),
    {
        let mut text = String::from_str("cannot build the executor of ");
        text.append(self.target.as_str());
        text.append(": ");
        let cause = self.cause.message();
        text.append(cause.as_str());
        text
    }
}

/// The value of a connection field that must be there: it is present and
/// expands under `b`.
pub open spec fn required_value(value: Option<String>, b: Map<Seq<char>, Seq<char>>) -> Option<
    Seq<char>,
> {
    match value {
        Some(template) => expansion(template@, b),
        None => None,
    }
}

/// `e` says why the required value `value` of `field` cannot be had.
pub open spec fn required_failure(
    e: StepError,
    value: Option<String>,
    field: Seq<char>,
    b: Map<Seq<char>, Seq<char>>,
) -> bool {
    match e {
        StepError::MissingConnectionValue { field: named } => value is None && named@ == field,
        StepError::Expansion(x) => value matches Some(template) && reports(x, template@, field, b),
        _ => false,
    }
}

/// Expands a connection field that must be there.
fn expand_required(ctx: &ExecutionContext, value: &Option<String>, field: &str) -> (res: Result<
    String,
    StepError,
>)
    ensures
        match res {
            Ok(text) => required_value(*value, ctx.bindings()) == Some(text@),
            Err(e) => required_value(*value, ctx.bindings()) is None && required_failure(
                e,
                *value,
                field@,
                ctx.bindings(),
            ),
        },
{
    match value {
        Some(template) => match ctx.expand_required(template.as_str(), field) {
            Ok(text) => Ok(text),
            Err(e) => Err(StepError::Expansion(e)),
        },
        None => Err(StepError::MissingConnectionValue { field: String::from_str(field) }),
    }
}

/// Expands a connection field that may be missing.
fn expand_optional(ctx: &ExecutionContext, value: &Option<String>, field: &str) -> (res: Result<
    Option<String>,
    StepError,
>)
    ensures
        match res {
            Ok(text) => match *value {
                Some(template) => text is Some && expansion(template@, ctx.bindings())
                    == opt_text(text),
                None => text is None,
            },
            Err(StepError::Expansion(x)) => *value matches Some(template) && reports(
                x,
                template@,
                field@,
                ctx.bindings(),
            ),
            Err(_) => false,
        },
{
    match ctx.expand_optional(value, field) {
        Ok(text) => Ok(text),
        Err(e) => Err(StepError::Expansion(e)),
    }
}

/// `spec` is what the connection `config` needs under `b`: nothing for a
/// dummy; the expanded connection string, and the user and password where
/// given, for PostgreSQL; the expanded connection string, user and password
/// for Oracle.
pub open spec fn executor_spec_is(
    spec: ExecutorSpec,
    config: DbConnectionConfig,
    b: Map<Seq<char>, Seq<char>>,
) -> bool {
    match config.kind {
        DbKind::Dummy => spec is Dummy,
        DbKind::Postgres => match spec {
            ExecutorSpec::Postgres { dsn, user, password } => {
                &&& required_value(config.dsn, b) == Some(dsn@)
                &&& match config.user {
                    Some(template) => expansion(template@, b) == opt_text(user) && user is Some,
                    None => user is None,
                }
                &&& match config.password {
                    Some(template) => expansion(template@, b) == opt_text(password)
                        && password is Some,
                    None => password is None,
                }
            },
            _ => false,
        },
        DbKind::Oracle => match spec {
            ExecutorSpec::Oracle(executor) => {
                &&& required_value(config.dsn, b) == Some(executor.dsn())
                &&& required_value(config.user, b) == Some(executor.user())
                &&& required_value(config.password, b) == Some(executor.password())
            },
            _ => false,
        },
    }
}

/// Every field that the executor of `config` needs can be had under `b`.
pub open spec fn connection_ok(config: DbConnectionConfig, b: Map<Seq<char>, Seq<char>>) -> bool {
    match config.kind {
        DbKind::Dummy => true,
        DbKind::Postgres => {
            &&& required_value(config.dsn, b) is Some
            &&& (config.user matches Some(t) ==> expansion(t@, b) is Some)
            &&& (config.password matches Some(t) ==> expansion(t@, b) is Some)
        },
        DbKind::Oracle => {
            &&& required_value(config.dsn, b) is Some
            &&& required_value(config.user, b) is Some
            &&& required_value(config.password, b) is Some
        },
    }
}

/// `e` reports the first field of `config` that cannot be had under `b`,
/// taking the connection string first, then the user, then the password.
pub open spec fn executor_spec_failure(
    e: StepError,
    config: DbConnectionConfig,
    b: Map<Seq<char>, Seq<char>>,
) -> bool {
    match config.kind {
        DbKind::Dummy => false,
        DbKind::Postgres => {
            ||| required_failure(e, config.dsn, "dsn"@, b) && required_value(config.dsn, b) is None
            ||| (required_value(config.dsn, b) is Some && (e matches StepError::Expansion(x)
                && (config.user matches Some(t) && reports(x, t@, "user"@, b))))
            ||| (required_value(config.dsn, b) is Some && (config.user matches Some(t)
                ==> expansion(t@, b) is Some) && (e matches StepError::Expansion(x) && (
            config.password matches Some(t) && reports(x, t@, "password"@, b))))
        },
        DbKind::Oracle => {
            ||| required_failure(e, config.dsn, "dsn"@, b) && required_value(config.dsn, b) is None
            ||| (required_value(config.dsn, b) is Some && required_value(config.user, b) is None
                && required_failure(e, config.user, "user"@, b))
            ||| (required_value(config.dsn, b) is Some && required_value(config.user, b) is Some
                && required_value(config.password, b) is None && required_failure(
                e,
                config.password,
                "password"@,
                b,
            ))
        },
    }
}

/// Works out what the executor of one declared connection needs, expanding
/// the connection string, the user and the password through the context. A
/// dummy needs nothing. PostgreSQL needs the connection string; Oracle needs
/// all three.
pub fn build_executor_from_config(config: &DbConnectionConfig, ctx: &ExecutionContext) -> (res:
    Result<ExecutorSpec, StepError>)
    ensures
        match res {
            Ok(spec) => connection_ok(*config, ctx.bindings()) && executor_spec_is(
                spec,
                *config,
                ctx.bindings(),
            ),
            Err(e) => !connection_ok(*config, ctx.bindings()) && executor_spec_failure(
                e,
                *config,
                ctx.bindings(),
            ),
        },
{
    match config.kind {
        DbKind::Dummy => Ok(ExecutorSpec::Dummy),
        DbKind::Postgres => {
            let dsn = match expand_required(ctx, &config.dsn, "dsn") {
                Ok(text) => text,
                Err(e) => {
                    return Err(e);
                },
            };
            let user = match expand_optional(ctx, &config.user, "user") {
                Ok(text) => text,
                Err(e) => {
                    return Err(e);
                },
            };
            let password = match expand_optional(ctx, &config.password, "password") {
                Ok(text) => text,
                Err(e) => {
                    return Err(e);
                },
            };
            Ok(ExecutorSpec::Postgres { dsn, user, password })
        },
        DbKind::Oracle => {
            let dsn = match expand_required(ctx, &config.dsn, "dsn") {
                Ok(text) => text,
                Err(e) => {
                    return Err(e);
                },
            };
            let user = match expand_required(ctx, &config.user, "user") {
                Ok(text) => text,
                Err(e) => {
                    return Err(e);
                },
            };
            let password = match expand_required(ctx, &config.password, "password") {
                Ok(text) => text,
                Err(e) => {
                    return Err(e);
                },
            };
            Ok(ExecutorSpec::Oracle(OracleDbExecutor::new(
                dsn.as_str(),
                user.as_str(),
                password.as_str(),
            )))
        },
    }
}

/// The executor of every declared connection can be worked out under `b`.
pub open spec fn connections_ok(db: Seq<DbConnection>, b: Map<Seq<char>, Seq<char>>) -> bool {
    forall|i: int| 0 <= i < db.len() ==> connection_ok((#[trigger] db[i]).config, b)
}

/// Some declared connection has the name `name`.
pub open spec fn declares(db: Seq<DbConnection>, name: Seq<char>) -> bool {
    exists|i: int| 0 <= i < db.len() && (#[trigger] db[i]).name@ == name
}

/// A declared target together with what its executor needs.
#[derive(Debug, Clone)]
pub struct TargetPlan {
    /// The target's name.
    pub name: String,
    /// What the executor needs.
    pub spec: ExecutorSpec,
}

/// Works out what the executor of every declared connection of the scenario
/// needs, in the order of declaration. The first connection that cannot be
/// worked out ends the work: the run must not start.
pub fn plan_engine_handles(scenario: &Scenario, ctx: &ExecutionContext) -> (res: Result<
    Vec<TargetPlan>,
    EngineError,
>)
    ensures
        match res {
            Ok(plans) => {
                &&& connections_ok(scenario.db@, ctx.bindings())
                &&& plans@.len() == scenario.db@.len()
                &&& forall|i: int|
                    0 <= i < plans@.len() ==> (#[trigger] plans@[i]).name@ == scenario.db@[i].name@
                        && executor_spec_is(plans@[i].spec, scenario.db@[i].config, ctx.bindings())
            },
            Err(e) => !connections_ok(scenario.db@, ctx.bindings()) && planning_failure(
                e,
                scenario.db@,
                ctx.bindings(),
            ),
        },
{
    let n = scenario.db.len();
    let mut plans: Vec<TargetPlan> = Vec::new();
    let mut i: usize = 0;
    while i < n
        invariant
            n == scenario.db@.len(),
            i <= n,
            plans@.len() == i,
            forall|k: int|
                0 <= k < i ==> (#[trigger] plans@[k]).name@ == scenario.db@[k].name@
                    && executor_spec_is(plans@[k].spec, scenario.db@[k].config, ctx.bindings()),
            forall|k: int|
                0 <= k < i ==> connection_ok((#[trigger] scenario.db@[k]).config, ctx.bindings()),
        decreases n - i,
    {
        let entry = &scenario.db[i];
        match build_executor_from_config(&entry.config, ctx) {
            Ok(spec) => {
                plans.push(TargetPlan { name: entry.name.clone(), spec });
            },
            Err(cause) => {
                return Err(EngineError { target: entry.name.clone(), cause });
            },
        }
        i += 1;
    }
    Ok(plans)
}

/// The connection at index `k` is the last one declared under `name`.
pub open spec fn last_declared_at(db: Seq<DbConnection>, name: Seq<char>, k: int) -> bool {
    &&& 0 <= k < db.len()
    &&& db[k].name@ == name
    &&& forall|m: int| k < m < db.len() ==> (#[trigger] db[m]).name@ != name
}

/// `e` reports the first declared connection whose executor cannot be
/// worked out under `b`.
pub open spec fn planning_failure(
    e: EngineError,
    db: Seq<DbConnection>,
    b: Map<Seq<char>, Seq<char>>,
) -> bool {
    exists|i: int|
        {
            &&& 0 <= i < db.len()
            &&& e.target@ == (#[trigger] db[i]).name@
            &&& !connection_ok(db[i].config, b)
            &&& executor_spec_failure(e.cause, db[i].config, b)
            &&& forall|j: int| 0 <= j < i ==> connection_ok((#[trigger] db[j]).config, b)
        }
}

/// `executor` is what `build` made for the connection at index `k`.
pub open spec fn built_for<E, F: Fn(&ExecutorSpec) -> Result<E, String>>(
    build: F,
    db: Seq<DbConnection>,
    b: Map<Seq<char>, Seq<char>>,
    k: int,
    outcome: Result<E, String>,
) -> bool {
    exists|spec: ExecutorSpec| #[trigger]
        executor_spec_is(spec, db[k].config, b) && build.ensures((&spec,), outcome)
}

/// Builds the registry of a run: the default executor under the name
/// `default`, and under each declared name the executor that `build` makes
/// from what the connection needs. The connections are worked out first, all
/// of them; then the executors are built in the order of declaration, a
/// later declaration of a name replacing an earlier one. Whatever fails
/// first ends the work, and no run starts.
pub fn prepare_engine_handles<E, F>(
    scenario: &Scenario,
    default_executor: E,
    ctx: &ExecutionContext,
    build: F,
) -> (res: Result<EngineHandles<E>, EngineError>) where F: Fn(&ExecutorSpec) -> Result<E, String>
    requires
        forall|spec: &ExecutorSpec| build.requires((spec,)),
    ensures
        match res {
            Ok(handles) => {
                &&& connections_ok(scenario.db@, ctx.bindings())
                &&& forall|name: Seq<char>|
                    handles.targets().contains_key(name) <==> name == default_target() || declares(
                        scenario.db@,
                        name,
                    )
                &&& !declares(scenario.db@, default_target()) ==> handles.targets()[default_target()]
                    == default_executor
                &&& forall|name: Seq<char>| #[trigger]
                    declares(scenario.db@, name) ==> exists|k: int|
                        #[trigger] last_declared_at(scenario.db@, name, k) && built_for(
                            build,
                            scenario.db@,
                            ctx.bindings(),
                            k,
                            Ok(handles.targets()[name]),
                        )
            },
            Err(e) => if connections_ok(scenario.db@, ctx.bindings()) {
                exists|k: int, detail: String|
                    {
                        &&& 0 <= k < scenario.db@.len()
                        &&& e.target@ == scenario.db@[k].name@
                        &&& e.cause == (StepError::External { detail })
                        &&& #[trigger] built_for::<E, F>(
                            build,
                            scenario.db@,
                            ctx.bindings(),
                            k,
                            Err(detail),
                        )
                    }
            } else {
                planning_failure(e, scenario.db@, ctx.bindings())
            },
        },
{
    let plans = match plan_engine_handles(scenario, ctx) {
        Ok(plans) => plans,
        Err(e) => {
            return Err(e);
        },
    };
    let mut handles = EngineHandles::new(default_executor);
    let n = plans.len();
    let mut i: usize = 0;
    while i < n
        invariant
            n == plans@.len(),
            n == scenario.db@.len(),
            i <= n,
            connections_ok(scenario.db@, ctx.bindings()),
            forall|spec: &ExecutorSpec| build.requires((spec,)),
            forall|k: int|
                0 <= k < n ==> (#[trigger] plans@[k]).name@ == scenario.db@[k].name@
                    && executor_spec_is(plans@[k].spec, scenario.db@[k].config, ctx.bindings()),
            forall|name: Seq<char>|
                handles.targets().contains_key(name) <==> name == default_target() || declares(
                    scenario.db@.take(i as int),
                    name,
                ),
            !declares(scenario.db@.take(i as int), default_target())
                ==> handles.targets()[default_target()] == default_executor,
            forall|name: Seq<char>| #[trigger]
                declares(scenario.db@.take(i as int), name) ==> exists|k: int|
                    #[trigger] last_declared_at(scenario.db@.take(i as int), name, k) && built_for(
                        build,
                        scenario.db@,
                        ctx.bindings(),
                        k,
                        Ok(handles.targets()[name]),
                    ),
        decreases n - i,
    {
        let plan = &plans[i];
        let ghost before = handles.targets();
        let ghost shorter = scenario.db@.take(i as int);
        let ghost longer = scenario.db@.take(i + 1);
        match build(&plan.spec) {
            Ok(executor) => {
                handles.register(plan.name.as_str(), executor);
                proof {
                    assert(built_for(
                        build,
                        scenario.db@,
                        ctx.bindings(),
                        i as int,
                        Ok(handles.targets()[plan.name@]),
                    )) by {
                        assert(executor_spec_is(
                            plan.spec,
                            scenario.db@[i as int].config,
                            ctx.bindings(),
                        ));
                    }
                }
            },
            Err(detail) => {
                proof {
                    assert(scenario.db@[i as int].name@ == plan.name@);
                    assert(built_for::<E, F>(
                        build,
                        scenario.db@,
                        ctx.bindings(),
                        i as int,
                        Err(detail),
                    )) by {
                        assert(executor_spec_is(
                            plan.spec,
                            scenario.db@[i as int].config,
                            ctx.bindings(),
                        ));
                    }
                }
                return Err(
                    EngineError { target: plan.name.clone(), cause: StepError::External { detail } },
                );
            },
        }
        proof {
            assert(longer[i as int].name@ == plan.name@);
            assert forall|name: Seq<char>|
                handles.targets().contains_key(name) <==> name == default_target() || declares(
                    longer,
                    name,
                ) by {
                if declares(longer, name) {
                    let k = choose|k: int| 0 <= k < longer.len() && (#[trigger] longer[k]).name@
                        == name;
                    if k < i {
                        assert(shorter[k].name@ == name);
                    }
                }
                if declares(shorter, name) {
                    let k = choose|k: int| 0 <= k < shorter.len() && (#[trigger] shorter[k]).name@
                        == name;
                    assert(longer[k].name@ == name);
                }
            }
            assert forall|name: Seq<char>| #[trigger] declares(longer, name) implies exists|k: int|
                #[trigger] last_declared_at(longer, name, k) && built_for(
                    build,
                    scenario.db@,
                    ctx.bindings(),
                    k,
                    Ok(handles.targets()[name]),
                ) by {
                if name == plan.name@ {
                    assert(last_declared_at(longer, name, i as int));
                } else {
                    let w = choose|w: int| 0 <= w < longer.len() && (#[trigger] longer[w]).name@
                        == name;
                    assert(w < i);
                    assert(shorter[w].name@ == name);
                    assert(declares(shorter, name));
                    let k = choose|k: int|
                        #[trigger] last_declared_at(shorter, name, k) && built_for(
                            build,
                            scenario.db@,
                            ctx.bindings(),
                            k,
                            Ok(before[name]),
                        );
                    assert(last_declared_at(longer, name, k)) by {
                        assert(longer[k] == shorter[k]);
                        assert forall|m: int| k < m < longer.len() implies (#[trigger] longer[m]).name@
                            != name by {
                            if m < i {
                                assert(shorter[m] == longer[m]);
                            }
                        }
                    }
                }
            }
        }
        i += 1;
    }
    proof {
        assert(scenario.db@.take(n as int) =~= scenario.db@);
    }
    Ok(handles)
}

} // verus!
