//! What it takes to reach a database: the data of each kind of executor, as
//! far as it can be worked out without touching the database.

use vstd::prelude::*;
use vstd::string::StringExecFns;

verus! {

/// An executor that accepts every statement and only reports it.
#[derive(Debug, Clone, Copy, PartialEq, Eq, Structural)]
pub struct DummyExecutor;

impl DummyExecutor {
    /// The line that reports `sql`.
    pub open spec fn report_text(sql: Seq<char>) -> Seq<char> {
        "[DummyExecutor] SQL: "@ + sql
    }

    /// The line the executor reports a statement with.
    pub fn report(&self, sql: &str) -> (line: String)
        ensures
            line@ == Self::report_text(sql@),
    {
        let mut line = String::from_str("[DummyExecutor] SQL: ");
        line.append(sql);
        line
    }
}

/// An executor that hands statements to the Oracle command-line client.
#[derive(Debug, Clone)]
pub struct OracleDbExecutor {
    dsn: String,
    user: String,
    password: String,
}

/// The command-line client of Oracle.
pub open spec fn sqlplus_program() -> Seq<char> {
    "sqlplus"@
}

impl OracleDbExecutor {
    /// The connection string.
    pub closed spec fn dsn(&self) -> Seq<char> {
        self.dsn@
    }

    /// The user name.
    pub closed spec fn user(&self) -> Seq<char> {
        self.user@
    }

    /// The password.
    pub closed spec fn password(&self) -> Seq<char> {
        self.password@
    }

    /// An executor for the database at `dsn`, logging in as `user`.
    pub fn new(dsn: &str, user: &str, password: &str) -> (executor: Self)
        ensures
            executor.dsn() == dsn@,
            executor.user() == user@,
            executor.password() == password@,
    {
        OracleDbExecutor {
            dsn: String::from_str(dsn),
            user: String::from_str(user),
            password: String::from_str(password),
        }
    }

    /// The login argument: user, password and connection string.
    pub open spec fn login_text(&self) -> Seq<char> {
        self.user() + "/"@ + self.password() + "@"@ + self.dsn()
    }

    /// The text the client reads for `sql`: headings and feedback off, the
    /// statement, a line that runs it, and the exit command.
    pub open spec fn script_text(sql: Seq<char>) -> Seq<char> {
        "SET HEADING OFF\nSET FEEDBACK OFF\n"@ + sql + "\n/\nEXIT\n"@
    }

    /// The arguments the client is started with: the silent flag and the
    /// login.
    pub fn arguments(&self) -> (args: Vec<String>)
        ensures
            args@.len() == 2,
            args@[0]@ == "-S"@,
            args@[1]@ == self.login_text(),
    {
        let mut login = self.user.clone();
        login.append("/");
        login.append(self.password.as_str());
        login.append("@");
        login.append(self.dsn.as_str());
        let mut args: Vec<String> = Vec::new();
        args.push(String::from_str("-S"));
        args.push(login);
        args
    }

    /// The text to write to the client's input to run `sql`.
    pub fn script(&self, sql: &str) -> (text: String)
        ensures
            text@ == Self::script_text(sql@),
    {
        let mut text = String::from_str("SET HEADING OFF\nSET FEEDBACK OFF\n");
        text.append(sql);
        text.append("\n/\nEXIT\n");
        text
    }
}

/// What is needed to build the executor of a database target.
#[derive(Debug, Clone)]
pub enum ExecutorSpec {
    /// An executor that does nothing.
    Dummy,
    /// A pool of PostgreSQL connections.
    Postgres { dsn: String, user: Option<String>, password: Option<String> },
    /// The Oracle command-line client.
    Oracle(OracleDbExecutor),
}

/// What is needed to reach the Oracle database at `dsn` as `user`.
pub fn new_oracle_db_executor(dsn: &str, user: &str, password: &str) -> (spec: ExecutorSpec)
    ensures
        spec matches ExecutorSpec::Oracle(executor) && executor.dsn() == dsn@ && executor.user()
            == user@ && executor.password() == password@,
{
    ExecutorSpec::Oracle(OracleDbExecutor::new(dsn, user, password))
}

} // verus!
