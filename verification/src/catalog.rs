//! What the credential operations mean for an endpoint: a model of the
//! login identities that a database keeps, the effect of each statement
//! on it, and the laws that the operations obey.

use crate::postgres::{
    first_view, needs_probe, plan_of, DbAction, Operation, Stage, StatementKind, TaskView,
};
use vstd::prelude::*;

verus! {

/// What an endpoint keeps of one login identity.
pub struct Role {
    pub password: Seq<char>,
    pub login: bool,
    pub select_granted: bool,
    pub statement_timeout: Option<u64>,
}

/// The login identities of one endpoint, by user name.
pub type Catalog = Map<Seq<char>, Role>;

/// The catalog after one statement, or nothing where the database
/// refuses the statement: creating a user that exists, and every other
/// statement on a user that does not.
pub open spec fn apply_statement(
    catalog: Catalog,
    kind: StatementKind,
    username: Seq<char>,
    password: Seq<char>,
    timeout_ms: u64,
) -> Option<Catalog> {
    if kind == StatementKind::CreateUser {
        if catalog.contains_key(username) {
            None
        } else {
            Some(
                catalog.insert(
                    username,
                    Role { password, login: true, select_granted: false, statement_timeout: None },
                ),
            )
        }
    } else if !catalog.contains_key(username) {
        None
    } else {
        let role = catalog[username];
        match kind {
            StatementKind::GrantSelect => Some(
                catalog.insert(username, Role { select_granted: true, ..role }),
            ),
            StatementKind::SetStatementTimeout => Some(
                catalog.insert(username, Role { statement_timeout: Some(timeout_ms), ..role }),
            ),
            StatementKind::EnableLogin => Some(
                catalog.insert(username, Role { login: true, ..role }),
            ),
            StatementKind::SetPassword => Some(catalog.insert(username, Role { password, ..role })),
            StatementKind::DisableLogin => Some(
                catalog.insert(username, Role { login: false, ..role }),
            ),
            StatementKind::ReassignOwned => Some(catalog),
            StatementKind::DropOwned => Some(
                catalog.insert(username, Role { select_granted: false, ..role }),
            ),
            StatementKind::DropUser => Some(catalog.remove(username)),
            StatementKind::CreateUser => None,
        }
    }
}

/// The catalog after the statements of a plan in order, or nothing where
/// one of them is refused.
pub open spec fn apply_plan(
    catalog: Catalog,
    plan: Seq<StatementKind>,
    username: Seq<char>,
    password: Seq<char>,
    timeout_ms: u64,
) -> Option<Catalog>
    decreases plan.len(),
{
    if plan.len() == 0 {
        Some(catalog)
    } else {
        match apply_statement(catalog, plan[0], username, password, timeout_ms) {
            None => None,
            Some(next) => apply_plan(next, plan.drop_first(), username, password, timeout_ms),
        }
    }
}

/// The timeout that the statements are written with.
pub open spec fn timeout_or_zero(timeout_ms: Option<u64>) -> u64 {
    match timeout_ms {
        Some(t) => t,
        None => 0,
    }
}

/// The catalog that a committed run of an operation leaves, or nothing
/// where the transaction cannot commit. The probe answers by the catalog.
pub open spec fn committed(
    catalog: Catalog,
    operation: Operation,
    username: Seq<char>,
    password: Seq<char>,
    timeout_ms: Option<u64>,
) -> Option<Catalog> {
    apply_plan(
        catalog,
        plan_of(operation, catalog.contains_key(username), timeout_ms is Some),
        username,
        password,
        timeout_or_zero(timeout_ms),
    )
}

/// The user exists on the endpoint, can log in, and has this password.
pub open spec fn provisioned(catalog: Catalog, username: Seq<char>, password: Seq<char>) -> bool {
    &&& catalog.contains_key(username)
    &&& catalog[username].login
    &&& catalog[username].password == password
}

/// Two catalogs agree on every user but one.
pub open spec fn same_elsewhere(a: Catalog, b: Catalog, username: Seq<char>) -> bool {
    forall|other: Seq<char>|
        other != username ==> a.contains_key(other) == b.contains_key(other) && (a.contains_key(
            other,
        ) ==> a[other] == b[other])
}

/// Create always commits: on any endpoint it leaves the user able to log
/// in with the given password, and touches no other user.
pub proof fn lemma_create_provisions(
    catalog: Catalog,
    username: Seq<char>,
    password: Seq<char>,
    timeout_ms: Option<u64>,
)
    ensures
        committed(catalog, Operation::Create, username, password, timeout_ms) is Some,
        provisioned(
            committed(catalog, Operation::Create, username, password, timeout_ms).unwrap(),
            username,
            password,
        ),
        same_elsewhere(
            catalog,
            committed(catalog, Operation::Create, username, password, timeout_ms).unwrap(),
            username,
        ),
{
    reveal_with_fuel(apply_plan, 4);
    let t = timeout_or_zero(timeout_ms);
    let plan = plan_of(Operation::Create, catalog.contains_key(username), timeout_ms is Some);
    lemma_unfold_plan(catalog, plan, username, password, t);
}

/// The plans of this crate have at most three statements; this spells
/// out what such a plan does, statement by statement.
pub proof fn lemma_unfold_plan(
    catalog: Catalog,
    plan: Seq<StatementKind>,
    username: Seq<char>,
    password: Seq<char>,
    timeout_ms: u64,
)
    requires
        plan.len() <= 3,
    ensures
        plan.len() == 0 ==> apply_plan(catalog, plan, username, password, timeout_ms) == Some(
            catalog,
        ),
        plan.len() == 1 ==> apply_plan(catalog, plan, username, password, timeout_ms)
            == apply_statement(catalog, plan[0], username, password, timeout_ms),
        plan.len() == 2 ==> apply_plan(catalog, plan, username, password, timeout_ms) == (
        match apply_statement(catalog, plan[0], username, password, timeout_ms) {
            None => None,
            Some(first) => apply_statement(first, plan[1], username, password, timeout_ms),
        }),
        plan.len() == 3 ==> apply_plan(catalog, plan, username, password, timeout_ms) == (
        match apply_statement(catalog, plan[0], username, password, timeout_ms) {
            None => None,
            Some(first) => match apply_statement(first, plan[1], username, password, timeout_ms) {
                None => None,
                Some(second) => apply_statement(second, plan[2], username, password, timeout_ms),
            },
        }),
{
    reveal_with_fuel(apply_plan, 4);
    if plan.len() >= 1 {
        let tail = plan.drop_first();
        if plan.len() >= 2 {
            assert(tail[0] == plan[1]);
            let last = tail.drop_first();
            if plan.len() >= 3 {
                assert(last[0] == plan[2]);
                assert(last.drop_first().len() == 0);
            }
        }
    }
}

/// Create is idempotent: a second create with the same password commits
/// as well and leaves the endpoint exactly as the first did.
pub proof fn lemma_create_is_idempotent(
    catalog: Catalog,
    username: Seq<char>,
    password: Seq<char>,
    timeout_ms: Option<u64>,
)
    ensures
        committed(catalog, Operation::Create, username, password, timeout_ms) is Some,
        committed(
            committed(catalog, Operation::Create, username, password, timeout_ms).unwrap(),
            Operation::Create,
            username,
            password,
            timeout_ms,
        ) == committed(catalog, Operation::Create, username, password, timeout_ms),
{
    let t = timeout_or_zero(timeout_ms);
    let plan = plan_of(Operation::Create, catalog.contains_key(username), timeout_ms is Some);
    lemma_unfold_plan(catalog, plan, username, password, t);
    lemma_create_provisions(catalog, username, password, timeout_ms);
    let once = committed(catalog, Operation::Create, username, password, timeout_ms).unwrap();
    let again = plan_of(Operation::Create, true, timeout_ms is Some);
    lemma_unfold_plan(once, again, username, password, t);
    let twice = committed(once, Operation::Create, username, password, timeout_ms).unwrap();
    assert(twice =~= once);
}

/// The plain creation of a user does what create does, so it always
/// commits and is idempotent as well; where the user is present with
/// its login and this password, it leaves the endpoint as it was.
pub proof fn lemma_user_create_is_idempotent(
    catalog: Catalog,
    username: Seq<char>,
    password: Seq<char>,
    timeout_ms: Option<u64>,
)
    ensures
        committed(catalog, Operation::UserCreate, username, password, timeout_ms) == committed(
            catalog,
            Operation::Create,
            username,
            password,
            timeout_ms,
        ),
        committed(catalog, Operation::UserCreate, username, password, timeout_ms) is Some,
        committed(
            committed(catalog, Operation::UserCreate, username, password, timeout_ms).unwrap(),
            Operation::UserCreate,
            username,
            password,
            timeout_ms,
        ) == committed(catalog, Operation::UserCreate, username, password, timeout_ms),
        provisioned(catalog, username, password) ==> committed(
            catalog,
            Operation::UserCreate,
            username,
            password,
            timeout_ms,
        ) == Some(catalog),
{
    lemma_create_is_idempotent(catalog, username, password, timeout_ms);
    if provisioned(catalog, username, password) {
        let plan = plan_of(Operation::UserCreate, true, timeout_ms is Some);
        lemma_unfold_plan(catalog, plan, username, password, timeout_or_zero(timeout_ms));
        let after = committed(
            catalog,
            Operation::UserCreate,
            username,
            password,
            timeout_ms,
        ).unwrap();
        assert(after =~= catalog);
    }
}

/// Drop always commits: it leaves the endpoint without the user, touches
/// no other user, and changes nothing where the user was absent.
pub proof fn lemma_drop_removes(catalog: Catalog, username: Seq<char>, timeout_ms: Option<u64>)
    ensures
        committed(catalog, Operation::Drop, username, Seq::empty(), timeout_ms) is Some,
        !committed(
            catalog,
            Operation::Drop,
            username,
            Seq::empty(),
            timeout_ms,
        ).unwrap().contains_key(username),
        same_elsewhere(
            catalog,
            committed(catalog, Operation::Drop, username, Seq::empty(), timeout_ms).unwrap(),
            username,
        ),
        !catalog.contains_key(username) ==> committed(
            catalog,
            Operation::Drop,
            username,
            Seq::empty(),
            timeout_ms,
        ) == Some(catalog),
{
    let plan = plan_of(Operation::Drop, catalog.contains_key(username), timeout_ms is Some);
    lemma_unfold_plan(catalog, plan, username, Seq::empty(), timeout_or_zero(timeout_ms));
}

/// Disable always commits: it revokes the login and keeps the rest of
/// the identity, touches no other user, and changes nothing where the
/// user was absent.
pub proof fn lemma_disable_keeps_identity(
    catalog: Catalog,
    username: Seq<char>,
    timeout_ms: Option<u64>,
)
    ensures
        committed(catalog, Operation::Disable, username, Seq::empty(), timeout_ms) is Some,
        catalog.contains_key(username) ==> committed(
            catalog,
            Operation::Disable,
            username,
            Seq::empty(),
            timeout_ms,
        ) == Some(catalog.insert(username, Role { login: false, ..catalog[username] })),
        !catalog.contains_key(username) ==> committed(
            catalog,
            Operation::Disable,
            username,
            Seq::empty(),
            timeout_ms,
        ) == Some(catalog),
{
    let plan = plan_of(Operation::Disable, catalog.contains_key(username), timeout_ms is Some);
    lemma_unfold_plan(catalog, plan, username, Seq::empty(), timeout_or_zero(timeout_ms));
}

/// What a run of an operation leaves on an endpoint: the committed
/// catalog where the run succeeded, and the catalog as it was where the
/// run failed, since a failed run rolls back.
pub open spec fn after_run(
    catalog: Catalog,
    operation: Operation,
    username: Seq<char>,
    password: Seq<char>,
    timeout_ms: Option<u64>,
    succeeded: bool,
) -> Catalog {
    if succeeded && committed(catalog, operation, username, password, timeout_ms) is Some {
        committed(catalog, operation, username, password, timeout_ms).unwrap()
    } else {
        catalog
    }
}

/// Recovery from a partial failure: whatever a first attempt left on an
/// endpoint, with whatever password, and whether it succeeded there or
/// not, a later attempt that succeeds leaves the user provisioned with
/// the password of that later attempt.
pub proof fn lemma_retry_recovers(
    catalog: Catalog,
    username: Seq<char>,
    first_password: Seq<char>,
    first_succeeded: bool,
    password: Seq<char>,
    timeout_ms: Option<u64>,
)
    ensures
        provisioned(
            after_run(
                after_run(
                    catalog,
                    Operation::Create,
                    username,
                    first_password,
                    timeout_ms,
                    first_succeeded,
                ),
                Operation::Create,
                username,
                password,
                timeout_ms,
                true,
            ),
            username,
            password,
        ),
{
    let between = after_run(
        catalog,
        Operation::Create,
        username,
        first_password,
        timeout_ms,
        first_succeeded,
    );
    lemma_create_provisions(between, username, password, timeout_ms);
}

/// Whether every outcome of a sequence is a success.
pub open spec fn all_ok(outcomes: Seq<Result<bool, Seq<char>>>) -> bool {
    forall|i: int| 0 <= i < outcomes.len() ==> (#[trigger] outcomes[i]) is Ok
}

/// A failure is final: once a task is rolling back or has failed, no
/// outcome brings it to commit or to succeed.
pub proof fn lemma_failure_is_final(task: TaskView, outcomes: Seq<Result<bool, Seq<char>>>)
    requires
        task.stage == Stage::RollingBack || task.stage == Stage::Failed,
    ensures
        task.after_all(outcomes).stage == Stage::RollingBack || task.after_all(outcomes).stage
            == Stage::Failed,
    decreases outcomes.len(),
{
    if outcomes.len() > 0 {
        lemma_failure_is_final(task, outcomes.drop_last());
    }
}

/// A task whose pending action fails never commits: from that outcome
/// on it is rolling back or has failed, whatever follows.
pub proof fn lemma_failed_action_never_commits(
    task: TaskView,
    message: Seq<char>,
    outcomes: Seq<Result<bool, Seq<char>>>,
)
    requires
        !task.finished(),
    ensures
        task.after(Err(message)).after_all(outcomes).stage == Stage::RollingBack || task.after(
            Err(message),
        ).after_all(outcomes).stage == Stage::Failed,
{
    lemma_failure_is_final(task.after(Err(message)), outcomes);
}

/// A task succeeds only through its whole plan: if it stands at
/// `Succeeded` after some outcomes, none of the outcomes it waited for
/// was a failure, and where it had statements to run, the commit was the
/// last action it waited for.
pub proof fn lemma_success_needs_every_step(task: TaskView, outcomes: Seq<Result<bool, Seq<char>>>)
    requires
        task.wf(),
        !task.finished(),
        task.after_all(outcomes).stage == Stage::Succeeded,
    ensures
        exists|n: int|
            0 < n <= outcomes.len() && all_ok(outcomes.subrange(0, n)) && task.after_all(
                outcomes.subrange(0, n),
            ).stage == Stage::Succeeded && !task.after_all(outcomes.subrange(0, n - 1)).finished()
                && (task.after_all(outcomes.subrange(0, n)).plan().len() > 0 ==> task.after_all(
                outcomes.subrange(0, n - 1),
            ).pending() == DbAction::Commit),
    decreases outcomes.len(),
{
    if task.stage == Stage::RollingBack {
        lemma_failure_is_final(task, outcomes);
    } else if outcomes.len() > 0 {
        let head = outcomes.drop_last();
        let before = task.after_all(head);
        lemma_wf_is_kept(task, head);
        if before.stage == Stage::Succeeded {
            lemma_success_needs_every_step(task, head);
            let n = choose|n: int|
                0 < n <= head.len() && all_ok(head.subrange(0, n)) && task.after_all(
                    head.subrange(0, n),
                ).stage == Stage::Succeeded && !task.after_all(head.subrange(0, n - 1)).finished()
                    && (task.after_all(head.subrange(0, n)).plan().len() > 0 ==> task.after_all(
                    head.subrange(0, n - 1),
                ).pending() == DbAction::Commit);
            assert(head.subrange(0, n) =~= outcomes.subrange(0, n));
            assert(head.subrange(0, n - 1) =~= outcomes.subrange(0, n - 1));
        } else {
            let n = outcomes.len() as int;
            assert(outcomes.subrange(0, n) =~= outcomes);
            assert(outcomes.subrange(0, n - 1) =~= head);
            assert(!before.finished());
            lemma_unfinished_saw_no_failure(task, head);
            assert(outcomes.last() is Ok);
            assert(all_ok(outcomes)) by {
                assert forall|i: int| 0 <= i < outcomes.len() implies (#[trigger] outcomes[i])
                    is Ok by {
                    if i < head.len() {
                        assert(head[i] is Ok);
                    }
                }
            }
            if task.after_all(outcomes).plan().len() > 0 {
                assert(before.stage == Stage::Committing || before.stage == Stage::Probing);
                if before.stage == Stage::Probing {
                    assert(false);
                }
            }
        }
    }
}

/// Outcomes keep a task well formed.
pub proof fn lemma_wf_is_kept(task: TaskView, outcomes: Seq<Result<bool, Seq<char>>>)
    requires
        task.wf(),
    ensures
        task.after_all(outcomes).wf(),
    decreases outcomes.len(),
{
    if outcomes.len() > 0 {
        lemma_wf_is_kept(task, outcomes.drop_last());
    }
}

/// A task that is neither done nor rolling back has seen no failure.
pub proof fn lemma_unfinished_saw_no_failure(
    task: TaskView,
    outcomes: Seq<Result<bool, Seq<char>>>,
)
    requires
        !task.finished(),
        task.stage != Stage::RollingBack,
        !task.after_all(outcomes).finished(),
        task.after_all(outcomes).stage != Stage::RollingBack,
    ensures
        all_ok(outcomes),
    decreases outcomes.len(),
{
    if outcomes.len() > 0 {
        let head = outcomes.drop_last();
        let before = task.after_all(head);
        if before.finished() || before.stage == Stage::RollingBack {
            assert(task.after_all(outcomes).finished());
        } else {
            lemma_unfinished_saw_no_failure(task, head);
            assert forall|i: int| 0 <= i < outcomes.len() implies (#[trigger] outcomes[i])
                is Ok by {
                if i < head.len() {
                    assert(head[i] is Ok);
                }
            }
        }
    }
}

/// A run without failures goes through the whole plan in order: after
/// the probe where there is one, the task opens a transaction, runs each
/// statement of its plan at its turn, commits, and succeeds.
pub proof fn lemma_clean_run_follows_plan(
    operation: Operation,
    username: Seq<char>,
    password: Seq<char>,
    timeout_ms: Option<u64>,
    found: bool,
    steps: nat,
)
    ensures
        ({
            let start = first_view(operation, username, password, timeout_ms);
            let probes: nat = if needs_probe(operation) {
                1
            } else {
                0
            };
            let plan = plan_of(operation, found, timeout_ms is Some);
            let task = start.after_all(Seq::new(steps, |i: int| Ok::<bool, Seq<char>>(found)));
            &&& steps < probes ==> task.pending() == DbAction::Probe
            &&& plan.len() == 0 && steps >= probes ==> task.stage == Stage::Succeeded
            &&& plan.len() > 0 && steps == probes ==> task.pending() == DbAction::Begin
            &&& plan.len() > 0 && probes < steps <= probes + plan.len() ==> task.pending()
                == DbAction::Execute(plan[steps - probes - 1])
            &&& plan.len() > 0 && steps == probes + plan.len() + 1 ==> task.pending()
                == DbAction::Commit
            &&& plan.len() > 0 && steps > probes + plan.len() + 1 ==> task.stage
                == Stage::Succeeded
            &&& steps >= probes ==> task.plan() == plan
        }),
    decreases steps,
{
    let start = first_view(operation, username, password, timeout_ms);
    let oks = Seq::new(steps, |i: int| Ok::<bool, Seq<char>>(found));
    if steps > 0 {
        lemma_clean_run_follows_plan(
            operation,
            username,
            password,
            timeout_ms,
            found,
            (steps - 1) as nat,
        );
        let fewer = Seq::new((steps - 1) as nat, |i: int| Ok::<bool, Seq<char>>(found));
        assert(oks.drop_last() =~= fewer);
        assert(oks.last() == Ok::<bool, Seq<char>>(found));
    }
}

} // verus!
