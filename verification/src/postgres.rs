//! The credential manager: the statements that create, reset, disable and
//! drop a login identity on one database endpoint, and the order in which
//! one transaction runs them.

use crate::error::Error;
use crate::text::{decimal_text, u64_to_string};
use vstd::prelude::*;

verus! {

/// One statement of a credential transaction.
#[derive(Clone, Copy, Debug, PartialEq, Eq, Structural)]
pub enum StatementKind {
    /// Creates the login identity with its password.
    CreateUser,
    /// Grants read-only access to the tables of the public schema.
    GrantSelect,
    /// Sets the time after which a statement of the user is cancelled.
    SetStatementTimeout,
    /// Lets the user log in again.
    EnableLogin,
    /// Sets the password of the user.
    SetPassword,
    /// Stops the user from logging in, and keeps the identity.
    DisableLogin,
    /// Hands what the user owns to the administrative identity.
    ReassignOwned,
    /// Revokes what the user still owns or was granted.
    DropOwned,
    /// Removes the login identity.
    DropUser,
}

/// The text of a statement for a user. The user name stands in double
/// quotes, as an identifier; the password in single quotes, as a literal.
pub open spec fn sql_text(
    kind: StatementKind,
    username: Seq<char>,
    password: Seq<char>,
    timeout_ms: u64,
) -> Seq<char> {
    match kind {
        StatementKind::CreateUser => "create user \""@ + username + "\" with password '"@ + password
            + "';"@,
        StatementKind::GrantSelect => "grant select on all tables in schema public to \""@
            + username + "\";"@,
        StatementKind::SetStatementTimeout => "alter role \""@ + username
            + "\" set statement_timeout = '"@ + decimal_text(timeout_ms as nat) + "';"@,
        StatementKind::EnableLogin => "alter user \""@ + username + "\" with login;"@,
        StatementKind::SetPassword => "alter user \""@ + username + "\" with password '"@ + password
            + "';"@,
        StatementKind::DisableLogin => "alter user \""@ + username + "\" with nologin;"@,
        StatementKind::ReassignOwned => "reassign owned by \""@ + username + "\" to postgres;"@,
        StatementKind::DropOwned => "drop owned by \""@ + username + "\";"@,
        StatementKind::DropUser => "drop user \""@ + username + "\";"@,
    }
}

/// Writes `prefix`, `subject` and `suffix` one after the other.
pub fn around(prefix: &str, subject: &str, suffix: &str) -> (r: String)
    ensures
        r@ == prefix@ + subject@ + suffix@,
{
    let mut r = String::from_str(prefix);
    r.append(subject);
    r.append(suffix);
    r
}

/// Writes the text of a statement for a user.
pub fn statement(kind: StatementKind, username: &str, password: &str, timeout_ms: u64) -> (r:
    String)
    ensures
        r@ == sql_text(kind, username@, password@, timeout_ms),
{
    match kind {
        StatementKind::CreateUser => {
            let mut r = around("create user \"", username, "\" with password '");
            r.append(password);
            r.append("';");
            r
        },
        StatementKind::GrantSelect => around(
            "grant select on all tables in schema public to \"",
            username,
            "\";",
        ),
        StatementKind::SetStatementTimeout => {
            let mut r = around("alter role \"", username, "\" set statement_timeout = '");
            let t = u64_to_string(timeout_ms);
            r.append(t.as_str());
            r.append("';");
            r
        },
        StatementKind::EnableLogin => around("alter user \"", username, "\" with login;"),
        StatementKind::SetPassword => {
            let mut r = around("alter user \"", username, "\" with password '");
            r.append(password);
            r.append("';");
            r
        },
        StatementKind::DisableLogin => around("alter user \"", username, "\" with nologin;"),
        StatementKind::ReassignOwned => around("reassign owned by \"", username, "\" to postgres;"),
        StatementKind::DropOwned => around("drop owned by \"", username, "\";"),
        StatementKind::DropUser => around("drop user \"", username, "\";"),
    }
}

/// The query that probes whether a user exists; its one parameter is the
/// user name.
pub const USER_EXISTS_QUERY: &'static str =
    "select usesysid from pg_user where pg_user.usename = $1;";

/// The query that reads the cumulative execution time of one user; its
/// one parameter is the user name.
pub const USER_METRICS_QUERY: &'static str =
    "select usename, sum(total_exec_time) as total_exec_time from pg_stat_statements inner join pg_catalog.pg_user on pg_catalog.pg_user.usesysid = userid where pg_catalog.pg_user.usename = $1 group by usename;";

/// The query that reads the cumulative execution time of every user.
pub const ALL_USER_METRICS_QUERY: &'static str =
    "select usename, sum(total_exec_time) as total_exec_time from pg_stat_statements inner join pg_catalog.pg_user on pg_catalog.pg_user.usesysid = userid group by usename;";

/// What is asked of a credential on one endpoint.
#[derive(Clone, Copy, Debug, PartialEq, Eq, Structural)]
pub enum Operation {
    /// Make the user exist with the given password and able to log in:
    /// create it where it is absent, reset it where it is present.
    Create,
    /// Remove the user and what it owns; nothing where it is absent.
    Drop,
    /// Revoke the login of the user and keep the identity; nothing where
    /// it is absent.
    Disable,
    /// Create the user with the given password, with read access and
    /// the statement timeout; where the user is present already, reset it
    /// as `Create` does, so that a repeated run does not fail.
    UserCreate,
    /// Restore the login of the user and set its password, without
    /// looking first.
    UserEnable,
}

/// Whether an operation first probes for the user.
pub open spec fn needs_probe(op: Operation) -> bool {
    op != Operation::UserEnable
}

/// The statements that one transaction runs for an operation, in order,
/// given whether the user was found and whether a statement timeout is
/// configured.
pub open spec fn plan_of(op: Operation, found: bool, with_timeout: bool) -> Seq<StatementKind> {
    match op {
        Operation::Create | Operation::UserCreate => if found {
            seq![StatementKind::EnableLogin, StatementKind::SetPassword]
        } else if with_timeout {
            seq![
                StatementKind::CreateUser,
                StatementKind::GrantSelect,
                StatementKind::SetStatementTimeout,
            ]
        } else {
            seq![StatementKind::CreateUser, StatementKind::GrantSelect]
        },
        Operation::UserEnable => seq![StatementKind::EnableLogin, StatementKind::SetPassword],
        Operation::Drop => if found {
            seq![StatementKind::ReassignOwned, StatementKind::DropOwned, StatementKind::DropUser]
        } else {
            Seq::empty()
        },
        Operation::Disable => if found {
            seq![StatementKind::DisableLogin]
        } else {
            Seq::empty()
        },
    }
}

/// The statements that one transaction runs for an operation.
pub fn plan(op: Operation, found: bool, with_timeout: bool) -> (r: Vec<StatementKind>)
    ensures
        r@ == plan_of(op, found, with_timeout),
{
    let mut r: Vec<StatementKind> = Vec::new();
    match op {
        Operation::Create | Operation::UserCreate => {
            if found {
                r.push(StatementKind::EnableLogin);
                r.push(StatementKind::SetPassword);
            } else {
                r.push(StatementKind::CreateUser);
                r.push(StatementKind::GrantSelect);
                if with_timeout {
                    r.push(StatementKind::SetStatementTimeout);
                }
            }
        },
        Operation::UserEnable => {
            r.push(StatementKind::EnableLogin);
            r.push(StatementKind::SetPassword);
        },
        Operation::Drop => {
            if found {
                r.push(StatementKind::ReassignOwned);
                r.push(StatementKind::DropOwned);
                r.push(StatementKind::DropUser);
            }
        },
        Operation::Disable => {
            if found {
                r.push(StatementKind::DisableLogin);
            }
        },
    }
    assert(r@ =~= plan_of(op, found, with_timeout));
    r
}

/// Where a credential task stands. Each stage but the last two waits for
/// the outcome of one action on the connection.
#[derive(Clone, Copy, Debug, PartialEq, Eq, Structural)]
pub enum Stage {
    /// Waiting for the existence probe.
    Probing,
    /// Waiting for the transaction to open.
    Beginning,
    /// Waiting for the statement at this position of the plan.
    Running(usize),
    /// Waiting for the commit.
    Committing,
    /// Waiting for the rollback that follows a failed statement.
    RollingBack,
    /// Done: the operation took effect, or there was nothing to do.
    Succeeded,
    /// Done: the operation failed and left nothing behind.
    Failed,
}

/// What a credential task asks of the connection next.
#[derive(Clone, Copy, Debug, PartialEq, Eq, Structural)]
pub enum DbAction {
    /// Run the existence probe for the user.
    Probe,
    /// Open a transaction.
    Begin,
    /// Run this statement inside the transaction.
    Execute(StatementKind),
    /// Commit the transaction.
    Commit,
    /// Roll the transaction back.
    Rollback,
    /// Nothing more: read the result.
    Finish,
}

/// A credential task as contracts see it.
pub struct TaskView {
    pub operation: Operation,
    pub username: Seq<char>,
    pub password: Seq<char>,
    pub timeout_ms: Option<u64>,
    pub stage: Stage,
    pub found: bool,
    pub failure: Seq<char>,
}

/// The outcome of an action as contracts see it: the answer of the probe
/// (which the other actions leave unread), or the message of a failure.
pub open spec fn outcome_view(outcome: Result<bool, String>) -> Result<bool, Seq<char>> {
    match outcome {
        Ok(found) => Ok(found),
        Err(message) => Err(message@),
    }
}

impl TaskView {
    /// The statements of the plan, once the probe has answered.
    pub open spec fn plan(self) -> Seq<StatementKind> {
        plan_of(self.operation, self.found, self.timeout_ms is Some)
    }

    /// A running task points at a statement of its plan, and a task that
    /// opens a transaction has statements to run.
    pub open spec fn wf(self) -> bool {
        match self.stage {
            Stage::Probing => needs_probe(self.operation),
            Stage::Beginning => self.plan().len() > 0,
            Stage::Running(i) => i < self.plan().len(),
            _ => true,
        }
    }

    /// Whether the task is done.
    pub open spec fn finished(self) -> bool {
        self.stage == Stage::Succeeded || self.stage == Stage::Failed
    }

    /// The action whose outcome the task waits for.
    pub open spec fn pending(self) -> DbAction {
        match self.stage {
            Stage::Probing => DbAction::Probe,
            Stage::Beginning => DbAction::Begin,
            Stage::Running(i) => DbAction::Execute(self.plan()[i as int]),
            Stage::Committing => DbAction::Commit,
            Stage::RollingBack => DbAction::Rollback,
            Stage::Succeeded => DbAction::Finish,
            Stage::Failed => DbAction::Finish,
        }
    }

    /// The task after the outcome of its pending action. A failed probe,
    /// begin or commit fails the task; a failed statement rolls the
    /// transaction back and then fails the task; the commit follows the
    /// last statement only.
    pub open spec fn after(self, outcome: Result<bool, Seq<char>>) -> TaskView {
        match self.stage {
            Stage::Probing => match outcome {
                Ok(found) => TaskView {
                    found,
                    stage: if plan_of(self.operation, found, self.timeout_ms is Some).len() == 0 {
                        Stage::Succeeded
                    } else {
                        Stage::Beginning
                    },
                    ..self
                },
                Err(message) => TaskView { stage: Stage::Failed, failure: message, ..self },
            },
            Stage::Beginning => match outcome {
                Ok(_) => TaskView { stage: Stage::Running(0), ..self },
                Err(message) => TaskView { stage: Stage::Failed, failure: message, ..self },
            },
            Stage::Running(i) => match outcome {
                Ok(_) => TaskView {
                    stage: if i + 1 < self.plan().len() {
                        Stage::Running((i + 1) as usize)
                    } else {
                        Stage::Committing
                    },
                    ..self
                },
                Err(message) => TaskView { stage: Stage::RollingBack, failure: message, ..self },
            },
            Stage::Committing => match outcome {
                Ok(_) => TaskView { stage: Stage::Succeeded, ..self },
                Err(message) => TaskView { stage: Stage::Failed, failure: message, ..self },
            },
            Stage::RollingBack => match outcome {
                Ok(_) => TaskView { stage: Stage::Failed, ..self },
                Err(message) => TaskView { stage: Stage::Failed, failure: message, ..self },
            },
            Stage::Succeeded => self,
            Stage::Failed => self,
        }
    }

    /// The task after a sequence of outcomes, each answering the action
    /// that was pending when it came.
    pub open spec fn after_all(self, outcomes: Seq<Result<bool, Seq<char>>>) -> TaskView
        decreases outcomes.len(),
    {
        if outcomes.len() == 0 {
            self
        } else {
            self.after_all(outcomes.drop_last()).after(outcomes.last())
        }
    }
}

/// The task that an operation starts as.
pub open spec fn first_view(
    operation: Operation,
    username: Seq<char>,
    password: Seq<char>,
    timeout_ms: Option<u64>,
) -> TaskView {
    TaskView {
        operation,
        username,
        password,
        timeout_ms,
        stage: if needs_probe(operation) {
            Stage::Probing
        } else {
            Stage::Beginning
        },
        found: false,
        failure: Seq::empty(),
    }
}

/// One run of an operation on one connection: it says which action comes
/// next, and takes the outcome of each.
pub struct CredentialTask {
    operation: Operation,
    username: String,
    password: String,
    timeout_ms: Option<u64>,
    stage: Stage,
    found: bool,
    failure: String,
}

impl CredentialTask {
    /// The task as contracts see it.
    pub closed spec fn view(&self) -> TaskView {
        TaskView {
            operation: self.operation,
            username: self.username@,
            password: self.password@,
            timeout_ms: self.timeout_ms,
            stage: self.stage,
            found: self.found,
            failure: self.failure@,
        }
    }

    /// Starts an operation for a user. The password is read by the
    /// operations that set one.
    pub fn new(operation: Operation, username: &str, password: &str, timeout_ms: Option<u64>) -> (t:
        CredentialTask)
        ensures
            t@ == first_view(operation, username@, password@, timeout_ms),
            t@.wf(),
    {
        let probes = match operation {
            Operation::Create => true,
            Operation::Drop => true,
            Operation::Disable => true,
            Operation::UserCreate => true,
            Operation::UserEnable => false,
        };
        CredentialTask {
            operation,
            username: String::from_str(username),
            password: String::from_str(password),
            timeout_ms,
            stage: if probes {
                Stage::Probing
            } else {
                Stage::Beginning
            },
            found: false,
            failure: String::new(),
        }
    }

    /// The action to perform next on the connection.
    pub fn action(&self) -> (a: DbAction)
        requires
            self@.wf(),
        ensures
            a == self@.pending(),
    {
        match self.stage {
            Stage::Probing => DbAction::Probe,
            Stage::Beginning => DbAction::Begin,
            Stage::Running(i) => {
                let steps = plan(self.operation, self.found, self.timeout_ms.is_some());
                DbAction::Execute(steps[i])
            },
            Stage::Committing => DbAction::Commit,
            Stage::RollingBack => DbAction::Rollback,
            Stage::Succeeded => DbAction::Finish,
            Stage::Failed => DbAction::Finish,
        }
    }

    /// The user that the task works on.
    pub fn username(&self) -> (r: &str)
        ensures
            r@ == self@.username,
    {
        self.username.as_str()
    }

    /// The text of a statement of the plan.
    pub fn sql(&self, kind: StatementKind) -> (r: String)
        ensures
            r@ == sql_text(
                kind,
                self@.username,
                self@.password,
                match self@.timeout_ms {
                    Some(t) => t,
                    None => 0,
                },
            ),
    {
        let t: u64 = match self.timeout_ms {
            Some(t) => t,
            None => 0,
        };
        statement(kind, self.username.as_str(), self.password.as_str(), t)
    }

    /// Takes the outcome of the pending action: for the probe, whether
    /// the user was found; for a failure, its message.
    pub fn record(&mut self, outcome: Result<bool, String>)
        requires
            old(self)@.wf(),
        ensures
            final(self)@.wf(),
            final(self)@ == old(self)@.after(outcome_view(outcome)),
    {
        match self.stage {
            Stage::Probing => match outcome {
                Ok(found) => {
                    let steps = plan(self.operation, found, self.timeout_ms.is_some());
                    self.found = found;
                    self.stage = if steps.len() == 0 {
                        Stage::Succeeded
                    } else {
                        Stage::Beginning
                    };
                },
                Err(message) => {
                    self.stage = Stage::Failed;
                    self.failure = message;
                },
            },
            Stage::Beginning => match outcome {
                Ok(_) => {
                    self.stage = Stage::Running(0);
                },
                Err(message) => {
                    self.stage = Stage::Failed;
                    self.failure = message;
                },
            },
            Stage::Running(i) => match outcome {
                Ok(_) => {
                    let steps = plan(self.operation, self.found, self.timeout_ms.is_some());
                    self.stage = if i + 1 < steps.len() {
                        Stage::Running(i + 1)
                    } else {
                        Stage::Committing
                    };
                },
                Err(message) => {
                    self.stage = Stage::RollingBack;
                    self.failure = message;
                },
            },
            Stage::Committing => match outcome {
                Ok(_) => {
                    self.stage = Stage::Succeeded;
                },
                Err(message) => {
                    self.stage = Stage::Failed;
                    self.failure = message;
                },
            },
            Stage::RollingBack => match outcome {
                Ok(_) => {
                    self.stage = Stage::Failed;
                },
                Err(message) => {
                    self.stage = Stage::Failed;
                    self.failure = message;
                },
            },
            Stage::Succeeded => {},
            Stage::Failed => {},
        }
    }

    /// The result of the task once it is done: success, or a database
    /// failure with the message of what failed.
    pub fn result(&self) -> (r: Option<Result<(), Error>>)
        ensures
            match self@.stage {
                Stage::Succeeded => r == Some(Ok::<(), Error>(())),
                Stage::Failed => r is Some && r.unwrap() is Err && r.unwrap().unwrap_err()
                    is PgError && r.unwrap().unwrap_err().message_text() == self@.failure,
                _ => r is None,
            },
    {
        match self.stage {
            Stage::Succeeded => Some(Ok(())),
            Stage::Failed => Some(Err(Error::PgError(self.failure.clone()))),
            _ => None,
        }
    }
}

/// Whether `tokio_postgres::Config` reads a text as a connection string.
/// The answer depends on the text alone in one build of the driver; a
/// build for a system without Unix sockets reads a host that is written
/// as a path differently.
pub uninterp spec fn accepts_connection_string(url: Seq<char>) -> bool;

/// `tokio_postgres::Config::from_str`, through `str::parse`: whether it
/// reads the text as a connection string; where it does not, the message
/// of its error comes back.
#[verifier::external_body]
fn check_connection_string(url: &str) -> (r: Result<(), String>)
    ensures
        r is Ok <==> accepts_connection_string(url@),
{
    match url.parse::<tokio_postgres::Config>() {
        Ok(_) => Ok(()),
        Err(e) => Err(e.to_string()),
    }
}

/// One database endpoint of a network: where to connect, how many
/// connections to pool, and the statement timeout of the users created
/// there.
#[derive(Debug, Clone, PartialEq, Eq)]
pub struct Postgres {
    pub url: String,
    pub max_connections: usize,
    pub query_timeout: Option<u64>,
}

/// The cumulative execution time of the statements of one user, in
/// milliseconds, as an endpoint reports it.
#[derive(Debug, Clone, PartialEq, Eq)]
pub struct UserStatements {
    pub usename: String,
    pub total_exec_time: u64,
}

impl Postgres {
    /// An endpoint at a connection string, which must be one that the
    /// database driver reads.
    pub fn try_new(url: &str, max_connections: usize, query_timeout: Option<u64>) -> (r: Result<
        Self,
        Error,
    >)
        ensures
            r is Ok <==> accepts_connection_string(url@),
            r is Ok ==> r.unwrap().url@ == url@ && r.unwrap().max_connections == max_connections
                && r.unwrap().query_timeout == query_timeout,
            r is Err ==> r->Err_0 is PgError,
    {
        match check_connection_string(url) {
            Ok(()) => Ok(Postgres { url: String::from_str(url), max_connections, query_timeout }),
            Err(message) => Err(Error::PgError(message)),
        }
    }

    /// Starts the task that makes a user exist on this endpoint with the
    /// given password and able to log in.
    pub fn create_user(&self, username: &str, password: &str) -> (task: CredentialTask)
        ensures
            task@ == first_view(Operation::Create, username@, password@, self.query_timeout),
            task@.wf(),
    {
        CredentialTask::new(Operation::Create, username, password, self.query_timeout)
    }

    /// Starts the task that removes a user and what it owns from this
    /// endpoint.
    pub fn drop_user(&self, username: &str) -> (task: CredentialTask)
        ensures
            task@ == first_view(Operation::Drop, username@, Seq::empty(), self.query_timeout),
            task@.wf(),
    {
        let task = CredentialTask::new(Operation::Drop, username, "", self.query_timeout);
        proof {
            reveal_strlit("");
            assert(""@ =~= Seq::<char>::empty());
        }
        task
    }

    /// Starts the task that revokes the login of a user on this endpoint
    /// and keeps the identity.
    pub fn user_disable(&self, username: &str) -> (task: CredentialTask)
        ensures
            task@ == first_view(Operation::Disable, username@, Seq::empty(), self.query_timeout),
            task@.wf(),
    {
        let task = CredentialTask::new(Operation::Disable, username, "", self.query_timeout);
        proof {
            reveal_strlit("");
            assert(""@ =~= Seq::<char>::empty());
        }
        task
    }

    /// Starts the task that creates a user on this endpoint with the
    /// given password. The task looks for the user first: where it is
    /// present already, the task restores its login and sets the
    /// password, so that a repeated run commits and leaves the user as
    /// the first run did.
    pub fn user_create(&self, username: &str, password: &str) -> (task: CredentialTask)
        ensures
            task@ == first_view(Operation::UserCreate, username@, password@, self.query_timeout),
            task@.wf(),
    {
        CredentialTask::new(Operation::UserCreate, username, password, self.query_timeout)
    }

    /// Starts the task that restores the login of a user on this
    /// endpoint and sets its password, without looking for it first.
    pub fn user_enable(&self, username: &str, password: &str) -> (task: CredentialTask)
        ensures
            task@ == first_view(Operation::UserEnable, username@, password@, self.query_timeout),
            task@.wf(),
    {
        CredentialTask::new(Operation::UserEnable, username, password, self.query_timeout)
    }
}

} // verus!
