//! Bulk-loader steps: the command line of the loader.

use crate::context::{expansion, reports, substitute, ExecutionContext, ExpansionError};
use crate::error::StepError;
use crate::scenario::SqlLoaderParConfig;
use crate::text::{opt_text, text_list};
use vstd::prelude::*;
use vstd::string::StringExecFns;

verus! {

/// The context variable, or environment variable, that names the loader's
/// connection where the step names none.
pub open spec fn loader_conn_key() -> Seq<char> {
    "SQLLDR_CONN"@
}

/// The loader's program.
pub open spec fn loader_program() -> Seq<char> {
    "sqlldr"@
}

/// A command line: a program and its arguments.
#[derive(Debug, Clone)]
pub struct CommandPlan {
    /// The program to start.
    pub program: String,
    /// Its arguments, in order.
    pub args: Vec<String>,
}

/// The connection the loader logs in with: the step's, expanded, or else
/// what `SQLLDR_CONN` resolves to.
pub open spec fn loader_conn(config: SqlLoaderParConfig, b: Map<Seq<char>, Seq<char>>) -> Option<
    Seq<char>,
> {
    match config.conn {
        Some(conn) => expansion(conn@, b),
        None => if b.contains_key(loader_conn_key()) {
            Some(b[loader_conn_key()])
        } else {
            None
        },
    }
}

/// The argument `key=value` for a file that is given, and nothing for one
/// that is not.
pub open spec fn file_argument(key: Seq<char>, path: Option<String>, b: Map<Seq<char>, Seq<char>>) -> Seq<
    Seq<char>,
> {
    match path {
        Some(path) => seq![key + "="@ + substitute(path@, b)],
        None => Seq::empty(),
    }
}

/// Whether an optional path expands under `b`.
pub open spec fn path_expands(path: Option<String>, b: Map<Seq<char>, Seq<char>>) -> bool {
    path matches Some(p) ==> expansion(p@, b) is Some
}

/// Everything the loader's command line is made of can be had under `b`.
pub open spec fn loader_expands(config: SqlLoaderParConfig, b: Map<Seq<char>, Seq<char>>) -> bool {
    &&& loader_conn(config, b) is Some
    &&& expansion(config.control_file@, b) is Some
    &&& path_expands(config.data_file, b)
    &&& path_expands(config.log_file, b)
    &&& path_expands(config.bad_file, b)
    &&& path_expands(config.discard_file, b)
}

/// The arguments of the loader: the connection, the control file, and the
/// data, log, bad and discard files as far as they are given.
pub open spec fn loader_args(config: SqlLoaderParConfig, b: Map<Seq<char>, Seq<char>>) -> Seq<
    Seq<char>,
> {
    seq![loader_conn(config, b).unwrap(), "control="@ + substitute(config.control_file@, b)]
        + file_argument("data"@, config.data_file, b) + file_argument("log"@, config.log_file, b)
        + file_argument("bad"@, config.bad_file, b) + file_argument(
        "discard"@,
        config.discard_file,
        b,
    )
}

/// `e` reports an optional path that does not expand.
pub open spec fn path_failure(
    e: ExpansionError,
    path: Option<String>,
    field: Seq<char>,
    b: Map<Seq<char>, Seq<char>>,
) -> bool {
    path matches Some(p) && reports(e, p@, field, b)
}

/// `e` says what the loader's command line lacks, taking the connection
/// first, then the control file and the other files in the order of the
/// arguments.
pub open spec fn loader_failure(
    e: StepError,
    config: SqlLoaderParConfig,
    b: Map<Seq<char>, Seq<char>>,
) -> bool {
    match e {
        StepError::MissingLoaderConnection => config.conn is None && !b.contains_key(
            loader_conn_key(),
        ),
        StepError::Expansion(x) => {
            ||| (config.conn matches Some(conn) && reports(x, conn@, "sqlldr.conn"@, b))
            ||| (loader_conn(config, b) is Some && reports(x, config.control_file@, "control"@, b))
            ||| (loader_conn(config, b) is Some && expansion(config.control_file@, b) is Some
                && path_failure(x, config.data_file, "data"@, b))
            ||| (loader_conn(config, b) is Some && expansion(config.control_file@, b) is Some
                && path_expands(config.data_file, b) && path_failure(
                x,
                config.log_file,
                "log"@,
                b,
            ))
            ||| (loader_conn(config, b) is Some && expansion(config.control_file@, b) is Some
                && path_expands(config.data_file, b) && path_expands(config.log_file, b)
                && path_failure(x, config.bad_file, "bad"@, b))
            ||| (loader_conn(config, b) is Some && expansion(config.control_file@, b) is Some
                && path_expands(config.data_file, b) && path_expands(config.log_file, b)
                && path_expands(config.bad_file, b) && path_failure(
                x,
                config.discard_file,
                "discard"@,
                b,
            ))
        },
        _ => false,
    }
}

/// `res` is what working out the loader's command line gives under `b`: the
/// command line, or the report of what it lacks.
pub open spec fn loader_outcome(
    res: Result<CommandPlan, StepError>,
    config: SqlLoaderParConfig,
    b: Map<Seq<char>, Seq<char>>,
) -> bool {
    match res {
        Ok(plan) => {
            &&& loader_expands(config, b)
            &&& plan.program@ == loader_program()
            &&& text_list(plan.args@) == loader_args(config, b)
        },
        Err(e) => !loader_expands(config, b) && loader_failure(e, config, b),
    }
}

/// Appends the argument `key=value` for a path that is given.
fn push_file_argument(
    args: &mut Vec<String>,
    key: &str,
    path: &Option<String>,
    ctx: &ExecutionContext,
) -> (res: Result<(), ExpansionError>)
    ensures
        match res {
            Ok(()) => path_expands(*path, ctx.bindings()) && text_list(final(args)@) == text_list(
                old(args)@,
            ) + file_argument(key@, *path, ctx.bindings()),
            Err(e) => path_failure(e, *path, key@, ctx.bindings()),
        },
{
    let ghost before = text_list(args@);
    match ctx.expand_optional(path, key) {
        Ok(Some(value)) => {
            let mut arg = String::from_str(key);
            arg.append("=");
            arg.append(value.as_str());
            args.push(arg);
            proof {
                assert(text_list(args@) =~= before + file_argument(key@, *path, ctx.bindings()));
            }
            Ok(())
        },
        Ok(None) => {
            proof {
                assert(text_list(args@) =~= before + file_argument(key@, *path, ctx.bindings()));
            }
            Ok(())
        },
        Err(e) => Err(e),
    }
}

/// Works out the command line of a bulk-loader step. The loader logs in
/// with the step's connection or, where the step names none, with what
/// `SQLLDR_CONN` resolves to in the context or the environment; without
/// either the step fails. The paths are expanded through the context.
pub fn run_sqlldr(config: &SqlLoaderParConfig, ctx: &ExecutionContext) -> (res: Result<
    CommandPlan,
    StepError,
>)
    ensures
        loader_outcome(res, *config, ctx.bindings()),
{
    let conn = match &config.conn {
        Some(conn) => match ctx.expand_required(conn.as_str(), "sqlldr.conn") {
            Ok(text) => text,
            Err(e) => {
                return Err(StepError::Expansion(e));
            },
        },
        None => match ctx.get_or_env("SQLLDR_CONN") {
            Some(text) => text,
            None => {
                return Err(StepError::MissingLoaderConnection);
            },
        },
    };
    let control = match ctx.expand_required(config.control_file.as_str(), "control") {
        Ok(text) => text,
        Err(e) => {
            return Err(StepError::Expansion(e));
        },
    };
    let mut args: Vec<String> = Vec::new();
    args.push(conn);
    let mut control_arg = String::from_str("control=");
    control_arg.append(control.as_str());
    args.push(control_arg);
    proof {
        assert(text_list(args@) =~= seq![
            loader_conn(*config, ctx.bindings()).unwrap(),
            "control="@ + substitute(config.control_file@, ctx.bindings()),
        ]);
    }
    match push_file_argument(&mut args, "data", &config.data_file, ctx) {
        Ok(()) => {},
        Err(e) => {
            return Err(StepError::Expansion(e));
        },
    }
    match push_file_argument(&mut args, "log", &config.log_file, ctx) {
        Ok(()) => {},
        Err(e) => {
            return Err(StepError::Expansion(e));
        },
    }
    match push_file_argument(&mut args, "bad", &config.bad_file, ctx) {
        Ok(()) => {},
        Err(e) => {
            return Err(StepError::Expansion(e));
        },
    }
    match push_file_argument(&mut args, "discard", &config.discard_file, ctx) {
        Ok(()) => {},
        Err(e) => {
            return Err(StepError::Expansion(e));
        },
    }
    Ok(CommandPlan { program: String::from_str("sqlldr"), args })
}

} // verus!
