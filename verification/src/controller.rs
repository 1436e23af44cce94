//! The declarative resource and its reconciliation: the deletion guard,
//! the provisioning of the credential on every endpoint of the network,
//! and the cleanup that must succeed before the resource may go.

use crate::catalog::{after_run, lemma_retry_recovers, provisioned, Catalog};
use crate::error::Error;
use crate::identity::{gen_password, gen_username_hash, is_identifier, is_password, username_hash_of};
use crate::metrics::{counted, project_id, project_of, Metrics};
use crate::postgres::{around, Operation};
use crate::text::texts_of;
use vstd::prelude::*;

verus! {

/// The marker that defers the deletion of a resource until its cleanup
/// has succeeded.
pub const DB_SYNC_PORT_FINALIZER: &'static str = "dbsyncports.demeter.run";

/// The seconds after which a converged resource is looked at again.
pub const DRIFT_INTERVAL: u64 = 300;

/// The seconds after which a failed reconciliation is tried again.
pub const RETRY_DELAY: u64 = 5;

/// What a resource asks for: access to the replica of one network.
#[derive(Debug, Clone, PartialEq, Eq)]
pub struct DbSyncPortSpec {
    pub network: String,
    pub throughput_tier: Option<String>,
}

/// The credential of a resource, set once it is provisioned.
#[derive(Debug, Clone, PartialEq, Eq)]
pub struct DbSyncPortStatus {
    pub username: String,
    pub password: String,
}

/// A resource as the control plane holds it, with what the controller
/// reads of it.
#[derive(Debug, Clone, PartialEq, Eq)]
pub struct DbSyncPort {
    pub name: String,
    pub namespace: String,
    pub spec: DbSyncPortSpec,
    pub status: Option<DbSyncPortStatus>,
    /// The markers that defer the deletion of the resource.
    pub finalizers: Vec<String>,
    /// Whether the deletion of the resource was requested.
    pub deleting: bool,
}

/// When the controller looks at a resource again.
#[derive(Debug, Clone, Copy, PartialEq, Eq, Structural)]
pub struct Action {
    /// The seconds to wait, or nothing to wait for the next change.
    pub requeue_after: Option<u64>,
}

impl Action {
    /// Look again after `seconds`, whether or not the resource changes.
    pub fn requeue(seconds: u64) -> (a: Action)
        ensures
            a == (Action { requeue_after: Some(seconds) }),
    {
        Action { requeue_after: Some(seconds) }
    }

    /// Look again when the resource changes.
    pub fn await_change() -> (a: Action)
        ensures
            a == (Action { requeue_after: None }),
    {
        Action { requeue_after: None }
    }
}

/// The text from which the user name of a resource is derived: its name
/// and its namespace, joined by a dot.
pub open spec fn identity_text(name: Seq<char>, namespace: Seq<char>) -> Seq<char> {
    name + "."@ + namespace
}

impl DbSyncPortStatus {
    /// The credential of the resource `name` in `namespace` with a given
    /// password: the user name is derived from the two names.
    pub fn with_password(name: &str, ns: &str, password: String) -> (r: Result<Self, Error>)
        ensures
            r is Ok,
            r.unwrap().username@ == username_hash_of(identity_text(name@, ns@)),
            is_identifier(r.unwrap().username@),
            r.unwrap().password@ == password@,
    {
        let text = around(name, ".", ns);
        match gen_username_hash(text.as_str()) {
            Ok(username) => Ok(DbSyncPortStatus { username, password }),
            Err(e) => Err(e),
        }
    }

    /// A fresh credential for the resource `name` in `namespace`: the
    /// user name is derived from the two names, the password is random.
    pub fn try_new(name: &str, ns: &str) -> (r: Result<Self, Error>)
        ensures
            r is Ok,
            r.unwrap().username@ == username_hash_of(identity_text(name@, ns@)),
            is_identifier(r.unwrap().username@),
            is_password(r.unwrap().password@),
    {
        DbSyncPortStatus::with_password(name, ns, gen_password())
    }
}

/// The position of the first marker equal to `marker` at or after `at`.
pub open spec fn marker_from(finalizers: Seq<String>, marker: Seq<char>, at: int) -> Option<int>
    decreases finalizers.len() - at,
{
    if at < 0 || at >= finalizers.len() {
        None
    } else if finalizers[at]@ == marker {
        Some(at)
    } else {
        marker_from(finalizers, marker, at + 1)
    }
}

/// The markers of a resource once a step was performed: with the
/// deletion guard at their end once it was attached, without the marker
/// at the position once the guard was removed, and as they were after
/// any other step.
pub open spec fn markers_after(finalizers: Seq<Seq<char>>, step: Step) -> Seq<Seq<char>> {
    match step {
        Step::AddFinalizer => finalizers.push(DB_SYNC_PORT_FINALIZER@),
        Step::RemoveFinalizer(at) => if at < finalizers.len() {
            finalizers.remove(at as int)
        } else {
            finalizers
        },
        _ => finalizers,
    }
}

/// One step of a reconciliation: what the controller asks of the
/// control plane or of the endpoints of the network next.
#[derive(Debug, Clone, Copy, PartialEq, Eq, Structural)]
pub enum Step {
    /// Attach the deletion guard to the resource.
    AddFinalizer,
    /// Create the credential on every endpoint of the network.
    CreateUsers,
    /// Persist the credential as the status of the resource.
    PatchStatus,
    /// Drop the credential on every endpoint of the network.
    DropUsers,
    /// Remove the deletion guard, which stands at this position among
    /// the markers of the resource.
    RemoveFinalizer(usize),
    /// Nothing more: read the result.
    Finish,
}

/// How a reconciliation ended, or that it has not yet.
#[derive(Debug, Clone, Copy, PartialEq, Eq, Structural)]
pub enum Verdict {
    /// Not done yet.
    Pending,
    /// Done; look at the resource again as the action says.
    Succeeded(Action),
    /// The namespace of the resource names no project.
    NoProject,
    /// The credential could not be created on every endpoint.
    CreateFailed,
    /// The status could not be persisted.
    PatchFailed,
    /// The credential could not be dropped on every endpoint.
    DropFailed,
    /// The deletion guard could not be attached or removed.
    FinalizerFailed,
}

/// A reconciliation as contracts see it.
pub struct ReconciliationView {
    /// The step whose report is awaited; `Finish` once done.
    pub step: Step,
    pub verdict: Verdict,
    pub namespace: Seq<char>,
    pub network: Seq<char>,
    pub username: Seq<char>,
    pub password: Seq<char>,
    /// Where the deletion guard stands among the markers, if it is there.
    pub guard: Option<usize>,
    /// The message of the failure that ended the reconciliation.
    pub message: Seq<char>,
}

/// Whether every call of a step succeeded.
pub open spec fn all_succeeded(results: Seq<Result<(), Error>>) -> bool {
    forall|i: int| 0 <= i < results.len() ==> (#[trigger] results[i]) is Ok
}

/// The message of the first failure among the calls of a step; empty
/// where none failed.
pub open spec fn first_failure_text(results: Seq<Result<(), Error>>) -> Seq<char>
    decreases results.len(),
{
    if results.len() == 0 {
        Seq::empty()
    } else if results[0] is Err {
        results[0]->Err_0.message_text()
    } else {
        first_failure_text(results.drop_first())
    }
}

impl ReconciliationView {
    /// Whether the reconciliation is done.
    pub open spec fn finished(self) -> bool {
        self.step == Step::Finish
    }

    /// Done with a verdict.
    pub open spec fn done(self, verdict: Verdict, message: Seq<char>) -> ReconciliationView {
        ReconciliationView { step: Step::Finish, verdict, message, ..self }
    }

    /// The reconciliation after the report of its pending step: whether
    /// every call of the step succeeded, and the message of the first
    /// failure.
    ///
    /// The status is persisted only after the credential stands on every
    /// endpoint; the deletion guard is removed only after the credential
    /// is gone from every endpoint; every failure ends the
    /// reconciliation, to be tried again later.
    pub open spec fn after(self, ok: bool, message: Seq<char>) -> ReconciliationView {
        match self.step {
            Step::AddFinalizer => if ok {
                self.done(Verdict::Succeeded(Action { requeue_after: None }), self.message)
            } else {
                self.done(Verdict::FinalizerFailed, message)
            },
            Step::CreateUsers => if ok {
                ReconciliationView { step: Step::PatchStatus, ..self }
            } else {
                self.done(Verdict::CreateFailed, "fail to create user"@)
            },
            Step::PatchStatus => if ok {
                self.done(
                    Verdict::Succeeded(Action { requeue_after: Some(DRIFT_INTERVAL) }),
                    self.message,
                )
            } else {
                self.done(Verdict::PatchFailed, message)
            },
            Step::DropUsers => if ok && self.guard is Some {
                ReconciliationView { step: Step::RemoveFinalizer(self.guard.unwrap()), ..self }
            } else if ok {
                self.done(Verdict::Succeeded(Action { requeue_after: None }), self.message)
            } else {
                self.done(Verdict::DropFailed, "fail to drop user"@)
            },
            Step::RemoveFinalizer(_) => if ok {
                self.done(Verdict::Succeeded(Action { requeue_after: None }), self.message)
            } else {
                self.done(Verdict::FinalizerFailed, message)
            },
            Step::Finish => self,
        }
    }

    /// The reconciliation after a sequence of reports, each answering
    /// the step that was pending when it came.
    pub open spec fn after_all(self, reports: Seq<(bool, Seq<char>)>) -> ReconciliationView
        decreases reports.len(),
    {
        if reports.len() == 0 {
            self
        } else {
            self.after_all(reports.drop_last()).after(reports.last().0, reports.last().1)
        }
    }
}

impl DbSyncPort {
    /// Whether the resource was provisioned: it has a status with a user
    /// name.
    pub open spec fn executed(&self) -> bool {
        self.status is Some && self.status.unwrap().username@.len() > 0
    }

    /// Where the deletion guard stands among the markers of the
    /// resource, if it is there.
    pub open spec fn guard(&self) -> Option<int> {
        marker_from(self.finalizers@, DB_SYNC_PORT_FINALIZER@, 0)
    }

    /// The tier that consumption of the resource is counted under: the
    /// one it asks for, or none.
    pub open spec fn tier_text(&self) -> Seq<char> {
        match self.spec.throughput_tier {
            Some(tier) => tier@,
            None => Seq::empty(),
        }
    }

    /// Whether the resource was provisioned.
    pub fn was_executed(&self) -> (r: bool)
        ensures
            r == self.executed(),
    {
        match &self.status {
            Some(status) => status.username.as_str().unicode_len() > 0,
            None => false,
        }
    }

    /// Where the deletion guard stands among the markers of the
    /// resource, if it is there.
    pub fn finalizer_index(&self) -> (r: Option<usize>)
        ensures
            match r {
                Some(i) => self.guard() == Some(i as int) && i < self.finalizers@.len(),
                None => self.guard() is None,
            },
    {
        let marker = String::from_str(DB_SYNC_PORT_FINALIZER);
        let mut i: usize = 0;
        while i < self.finalizers.len()
            invariant
                i <= self.finalizers@.len(),
                marker@ == DB_SYNC_PORT_FINALIZER@,
                self.guard() == marker_from(self.finalizers@, DB_SYNC_PORT_FINALIZER@, i as int),
            decreases self.finalizers@.len() - i,
        {
            if self.finalizers[i] == marker {
                return Some(i);
            }
            i += 1;
        }
        None
    }

    /// The markers to write to the resource for a step: the markers of
    /// the resource with the deletion guard added or removed as the step
    /// says.
    pub fn finalizers_after(&self, step: Step) -> (r: Vec<String>)
        ensures
            texts_of(r@) == markers_after(texts_of(self.finalizers@), step),
    {
        let skipped: Option<usize> = match step {
            Step::RemoveFinalizer(at) => Some(at),
            _ => None,
        };
        let ghost kept = texts_of(self.finalizers@);
        let mut r: Vec<String> = Vec::new();
        let mut i: usize = 0;
        while i < self.finalizers.len()
            invariant
                i <= self.finalizers@.len(),
                kept == texts_of(self.finalizers@),
                texts_of(r@) == if skipped is Some && skipped.unwrap() < i {
                    kept.subrange(0, i as int).remove(skipped.unwrap() as int)
                } else {
                    kept.subrange(0, i as int)
                },
            decreases self.finalizers@.len() - i,
        {
            let ghost before = texts_of(r@);
            if skipped != Some(i) {
                r.push(self.finalizers[i].clone());
                assert(texts_of(r@) =~= before.push(kept[i as int]));
            }
            assert(texts_of(r@) =~= if skipped is Some && skipped.unwrap() < i + 1 {
                kept.subrange(0, i + 1).remove(skipped.unwrap() as int)
            } else {
                kept.subrange(0, i + 1)
            });
            i += 1;
        }
        assert(kept.subrange(0, kept.len() as int) =~= kept);
        match step {
            Step::AddFinalizer => {
                let ghost before = texts_of(r@);
                r.push(String::from_str(DB_SYNC_PORT_FINALIZER));
                assert(texts_of(r@) =~= before.push(DB_SYNC_PORT_FINALIZER@));
            },
            _ => {},
        }
        r
    }

    /// The tier that consumption of the resource is counted under.
    pub fn tier(&self) -> (r: String)
        ensures
            r@ == self.tier_text(),
    {
        match &self.spec.throughput_tier {
            Some(tier) => tier.clone(),
            None => String::new(),
        }
    }

    /// How a reconciliation of this resource starts, given a fresh
    /// credential to use if the resource needs one.
    ///
    /// A resource without the deletion guard gets it first, unless it
    /// is being deleted, when nothing is left to do. A guarded resource
    /// that is not being deleted is provisioned unless it already was. A
    /// guarded resource that is being deleted has its credential
    /// dropped, if it has one, before the guard is removed.
    pub open spec fn first_step(&self, fresh: DbSyncPortStatus) -> ReconciliationView {
        let base = ReconciliationView {
            step: Step::Finish,
            verdict: Verdict::Pending,
            namespace: self.namespace@,
            network: self.spec.network@,
            username: Seq::empty(),
            password: Seq::empty(),
            guard: match self.guard() {
                Some(i) => Some(i as usize),
                None => None,
            },
            message: Seq::empty(),
        };
        if self.guard() is None {
            if self.deleting {
                base.done(Verdict::Succeeded(Action { requeue_after: None }), Seq::empty())
            } else {
                ReconciliationView { step: Step::AddFinalizer, ..base }
            }
        } else if !self.deleting {
            if self.executed() {
                base.done(
                    Verdict::Succeeded(Action { requeue_after: Some(DRIFT_INTERVAL) }),
                    Seq::empty(),
                )
            } else if project_of(self.namespace@) is None {
                base.done(Verdict::NoProject, self.namespace@)
            } else {
                ReconciliationView {
                    step: Step::CreateUsers,
                    username: fresh.username@,
                    password: fresh.password@,
                    ..base
                }
            }
        } else if self.executed() {
            if project_of(self.namespace@) is None {
                base.done(Verdict::NoProject, self.namespace@)
            } else {
                ReconciliationView {
                    step: Step::DropUsers,
                    username: self.status.unwrap().username@,
                    ..base
                }
            }
        } else {
            ReconciliationView { step: Step::RemoveFinalizer(self.guard().unwrap() as usize), ..base }
        }
    }
}

/// The position of the first failure among the calls of a step.
pub fn first_failure(results: &Vec<Result<(), Error>>) -> (r: Option<usize>)
    ensures
        r is None == all_succeeded(results@),
        match r {
            Some(i) => i < results@.len() && results@[i as int] is Err && first_failure_text(
                results@,
            ) == results@[i as int]->Err_0.message_text(),
            None => true,
        },
{
    let mut i: usize = 0;
    assert(results@.subrange(0, results@.len() as int) =~= results@);
    while i < results.len()
        invariant
            i <= results@.len(),
            forall|j: int| 0 <= j < i ==> (#[trigger] results@[j]) is Ok,
            first_failure_text(results@) == first_failure_text(
                results@.subrange(i as int, results@.len() as int),
            ),
        decreases results@.len() - i,
    {
        let ghost rest = results@.subrange(i as int, results@.len() as int);
        assert(rest[0] == results@[i as int]);
        assert(rest.drop_first() =~= results@.subrange(i + 1, results@.len() as int));
        match &results[i] {
            Err(_) => {
                return Some(i);
            },
            Ok(_) => {},
        }
        i += 1;
    }
    None
}

/// One reconciliation of a resource: it says which step comes next, and
/// takes the report of each.
pub struct Reconciliation {
    step: Step,
    verdict: Verdict,
    namespace: String,
    network: String,
    username: String,
    password: String,
    guard: Option<usize>,
    message: String,
}

impl Reconciliation {
    /// The reconciliation as contracts see it.
    pub closed spec fn view(&self) -> ReconciliationView {
        ReconciliationView {
            step: self.step,
            verdict: self.verdict,
            namespace: self.namespace@,
            network: self.network@,
            username: self.username@,
            password: self.password@,
            guard: self.guard,
            message: self.message@,
        }
    }

    /// A reconciliation that counts an event has a project to count it
    /// under.
    pub open spec fn wf(&self) -> bool {
        (self@.step == Step::CreateUsers || self@.step == Step::PatchStatus || self@.step
            == Step::DropUsers) ==> project_of(self@.namespace) is Some
    }

    /// Starts the reconciliation of a resource with a given fresh
    /// credential, which is used if the resource needs one.
    pub fn start_with(resource: &DbSyncPort, fresh: DbSyncPortStatus) -> (r: Reconciliation)
        ensures
            r@ == resource.first_step(fresh),
            r.wf(),
    {
        let guard = resource.finalizer_index();
        let executed = resource.was_executed();
        let mut r = Reconciliation {
            step: Step::Finish,
            verdict: Verdict::Pending,
            namespace: resource.namespace.clone(),
            network: resource.spec.network.clone(),
            username: String::new(),
            password: String::new(),
            guard,
            message: String::new(),
        };
        match guard {
            None => {
                if resource.deleting {
                    r.verdict = Verdict::Succeeded(Action::await_change());
                } else {
                    r.step = Step::AddFinalizer;
                }
            },
            Some(index) => {
                if !resource.deleting && executed {
                    r.verdict = Verdict::Succeeded(Action::requeue(DRIFT_INTERVAL));
                } else if resource.deleting && !executed {
                    r.step = Step::RemoveFinalizer(index);
                } else if project_id(resource.namespace.as_str()).is_none() {
                    r.verdict = Verdict::NoProject;
                    r.message = resource.namespace.clone();
                } else if !resource.deleting {
                    r.step = Step::CreateUsers;
                    r.username = fresh.username;
                    r.password = fresh.password;
                } else {
                    r.step = Step::DropUsers;
                    match &resource.status {
                        Some(status) => {
                            r.username = status.username.clone();
                        },
                        None => {},
                    }
                }
            },
        }
        r
    }

    /// Starts the reconciliation of a resource. Where the resource needs
    /// a credential, its user name is derived from its name and its
    /// namespace, and its password is random.
    pub fn start(resource: &DbSyncPort) -> (r: Result<Reconciliation, Error>)
        ensures
            r is Ok,
            exists|fresh: DbSyncPortStatus|
                fresh.username@ == username_hash_of(
                    identity_text(resource.name@, resource.namespace@),
                ) && is_password(fresh.password@) && r.unwrap()@ == resource.first_step(fresh),
            r.unwrap().wf(),
    {
        match DbSyncPortStatus::try_new(resource.name.as_str(), resource.namespace.as_str()) {
            Ok(fresh) => {
                let ghost witness = fresh;
                let r = Reconciliation::start_with(resource, fresh);
                assert(r@ == resource.first_step(witness));
                Ok(r)
            },
            Err(e) => Err(e),
        }
    }

    /// The step to perform next.
    pub fn step(&self) -> (s: Step)
        ensures
            s == self@.step,
    {
        self.step
    }

    /// The user name of the credential that the pending step creates,
    /// persists or drops.
    pub fn username(&self) -> (r: &str)
        ensures
            r@ == self@.username,
    {
        self.username.as_str()
    }

    /// The password of the credential that the pending step creates or
    /// persists.
    pub fn password(&self) -> (r: &str)
        ensures
            r@ == self@.password,
    {
        self.password.as_str()
    }

    /// Takes the report of the pending step: the result of each of its
    /// calls, one per endpoint for the steps on the endpoints, one for a
    /// patch. A user created or dropped is counted, once its step and,
    /// for a creation, the status patch after it have succeeded.
    pub fn record(&mut self, results: &Vec<Result<(), Error>>, metrics: &mut Metrics)
        requires
            old(self).wf(),
            old(metrics).wf(),
        ensures
            final(self).wf(),
            final(metrics).wf(),
            final(self)@ == old(self)@.after(
                all_succeeded(results@),
                first_failure_text(results@),
            ),
            if old(self)@.step == Step::PatchStatus && all_succeeded(results@) {
                &&& counted(
                    old(metrics).users_created,
                    final(metrics).users_created,
                    seq![project_of(old(self)@.namespace).unwrap(), old(self)@.network],
                    1,
                )
                &&& final(metrics).users_dropped == old(metrics).users_dropped
            } else if old(self)@.step == Step::DropUsers && all_succeeded(results@) {
                &&& counted(
                    old(metrics).users_dropped,
                    final(metrics).users_dropped,
                    seq![project_of(old(self)@.namespace).unwrap(), old(self)@.network],
                    1,
                )
                &&& final(metrics).users_created == old(metrics).users_created
            } else {
                &&& final(metrics).users_created == old(metrics).users_created
                &&& final(metrics).users_dropped == old(metrics).users_dropped
            },
            final(metrics).reconcile_failures == old(metrics).reconcile_failures,
            final(metrics).metrics_failures == old(metrics).metrics_failures,
            final(metrics).dcu == old(metrics).dcu,
    {
        let failure = first_failure(results);
        let ok = failure.is_none();
        let message = match failure {
            Some(i) => match &results[i] {
                Err(e) => String::from_str(e.message()),
                Ok(_) => String::new(),
            },
            None => String::new(),
        };
        assert(!ok ==> message@ == first_failure_text(results@));
        match self.step {
            Step::AddFinalizer => {
                self.step = Step::Finish;
                if ok {
                    self.verdict = Verdict::Succeeded(Action::await_change());
                } else {
                    self.verdict = Verdict::FinalizerFailed;
                    self.message = message;
                }
            },
            Step::CreateUsers => {
                if ok {
                    self.step = Step::PatchStatus;
                } else {
                    self.step = Step::Finish;
                    self.verdict = Verdict::CreateFailed;
                    self.message = String::from_str("fail to create user");
                }
            },
            Step::PatchStatus => {
                self.step = Step::Finish;
                if ok {
                    metrics.count_user_created(self.namespace.as_str(), self.network.as_str());
                    self.verdict = Verdict::Succeeded(Action::requeue(DRIFT_INTERVAL));
                } else {
                    self.verdict = Verdict::PatchFailed;
                    self.message = message;
                }
            },
            Step::DropUsers => {
                if ok {
                    metrics.count_user_dropped(self.namespace.as_str(), self.network.as_str());
                    match self.guard {
                        Some(index) => {
                            self.step = Step::RemoveFinalizer(index);
                        },
                        None => {
                            self.step = Step::Finish;
                            self.verdict = Verdict::Succeeded(Action::await_change());
                        },
                    }
                } else {
                    self.step = Step::Finish;
                    self.verdict = Verdict::DropFailed;
                    self.message = String::from_str("fail to drop user");
                }
            },
            Step::RemoveFinalizer(_) => {
                self.step = Step::Finish;
                if ok {
                    self.verdict = Verdict::Succeeded(Action::await_change());
                } else {
                    self.verdict = Verdict::FinalizerFailed;
                    self.message = message;
                }
            },
            Step::Finish => {},
        }
    }

    /// The failure that a verdict stands for, with its message; nothing
    /// for a reconciliation that succeeded or is not done.
    pub open spec fn failure_of(view: ReconciliationView) -> Option<(Seq<char>, Seq<char>)> {
        match view.verdict {
            Verdict::Pending => None,
            Verdict::Succeeded(_) => None,
            Verdict::NoProject => Some(("ConfigError"@, "no project in namespace "@ + view.message)),
            Verdict::CreateFailed => Some(("PgError"@, view.message)),
            Verdict::DropFailed => Some(("PgError"@, view.message)),
            Verdict::PatchFailed => Some(("KubeError"@, view.message)),
            Verdict::FinalizerFailed => Some(("FinalizerError"@, view.message)),
        }
    }

    /// The result of the reconciliation once it is done: when to look at
    /// the resource again, or the failure that ended it.
    pub fn result(&self) -> (r: Option<Result<Action, Error>>)
        ensures
            match self@.verdict {
                Verdict::Pending => r is None,
                Verdict::Succeeded(action) => r == Some(Ok::<Action, Error>(action)),
                _ => r is Some && r.unwrap() is Err && Self::failure_of(self@) == Some(
                    (r.unwrap()->Err_0.kind_text(), r.unwrap()->Err_0.message_text()),
                ),
            },
    {
        match self.verdict {
            Verdict::Pending => None,
            Verdict::Succeeded(action) => Some(Ok(action)),
            Verdict::NoProject => {
                let mut text = String::from_str("no project in namespace ");
                text.append(self.message.as_str());
                Some(Err(Error::ConfigError(text)))
            },
            Verdict::CreateFailed => Some(Err(Error::PgError(self.message.clone()))),
            Verdict::DropFailed => Some(Err(Error::PgError(self.message.clone()))),
            Verdict::PatchFailed => Some(Err(Error::KubeError(self.message.clone()))),
            Verdict::FinalizerFailed => Some(Err(Error::FinalizerError(self.message.clone()))),
        }
    }
}

/// What to do about a failed reconciliation: count it under the name of
/// the resource and the label of the failure, and try again after
/// [`RETRY_DELAY`] seconds.
pub fn error_policy(crd: &DbSyncPort, err: &Error, metrics: &mut Metrics) -> (action: Action)
    requires
        old(metrics).wf(),
    ensures
        action == (Action { requeue_after: Some(RETRY_DELAY) }),
        final(metrics).wf(),
        counted(
            old(metrics).reconcile_failures,
            final(metrics).reconcile_failures,
            seq![crd.name@, crate::metrics::failure_label(*err)],
            1,
        ),
        final(metrics).users_created == old(metrics).users_created,
        final(metrics).users_dropped == old(metrics).users_dropped,
        final(metrics).metrics_failures == old(metrics).metrics_failures,
        final(metrics).dcu == old(metrics).dcu,
{
    metrics.reconcile_failure(crd, err);
    Action::requeue(RETRY_DELAY)
}

/// The deletion guard outlives a failed cleanup: once a step of a
/// reconciliation has failed, no report brings it to remove the guard,
/// nor to persist a status.
pub proof fn lemma_failure_ends_reconciliation(
    r: ReconciliationView,
    message: Seq<char>,
    reports: Seq<(bool, Seq<char>)>,
)
    ensures
        r.after(false, message).after_all(reports).finished(),
        r.finished() ==> r.after_all(reports) == r,
    decreases reports.len(),
{
    if reports.len() > 0 {
        lemma_failure_ends_reconciliation(r, message, reports.drop_last());
    }
}

/// The guard is removed only after the cleanup: a reconciliation asks to
/// remove the guard only if it started there, for a resource without a
/// credential, or if the report before was that of a drop which
/// succeeded on every endpoint.
pub proof fn lemma_guard_removed_after_cleanup(
    r: ReconciliationView,
    reports: Seq<(bool, Seq<char>)>,
)
    requires
        reports.len() > 0,
        !(r.step matches Step::RemoveFinalizer(_)),
        r.after_all(reports).step matches Step::RemoveFinalizer(_),
    ensures
        r.after_all(reports.drop_last()).step == Step::DropUsers,
        reports.last().0,
        forall|k: int|
            0 <= k < reports.len() ==> !(#[trigger] r.after_all(reports.subrange(0, k)).step
                matches Step::RemoveFinalizer(_)),
    decreases reports.len(),
{
    let head = reports.drop_last();
    let before = r.after_all(head);
    assert forall|k: int| 0 <= k < reports.len() implies !(#[trigger] r.after_all(
        reports.subrange(0, k),
    ).step matches Step::RemoveFinalizer(_)) by {
        if r.after_all(reports.subrange(0, k)).step matches Step::RemoveFinalizer(_) {
            lemma_guard_step_is_last(r, reports, k);
        }
    }
    assert(head =~= reports.subrange(0, reports.len() - 1));
}

/// After the request to remove the guard comes only the end: a
/// reconciliation that stands at that step after some reports is done
/// after any more.
pub proof fn lemma_guard_step_is_last(
    r: ReconciliationView,
    reports: Seq<(bool, Seq<char>)>,
    k: int,
)
    requires
        0 <= k < reports.len(),
        r.after_all(reports.subrange(0, k)).step matches Step::RemoveFinalizer(_),
    ensures
        r.after_all(reports).finished(),
    decreases reports.len() - k,
{
    let at = r.after_all(reports.subrange(0, k));
    let next = reports.subrange(0, k + 1);
    assert(next.drop_last() =~= reports.subrange(0, k));
    assert(r.after_all(next) == at.after(next.last().0, next.last().1));
    assert(r.after_all(next).finished());
    lemma_finished_stays(r, reports, k + 1);
}

/// A reconciliation that is done stays as it is.
pub proof fn lemma_finished_stays(r: ReconciliationView, reports: Seq<(bool, Seq<char>)>, k: int)
    requires
        0 <= k <= reports.len(),
        r.after_all(reports.subrange(0, k)).finished(),
    ensures
        r.after_all(reports) == r.after_all(reports.subrange(0, k)),
    decreases reports.len() - k,
{
    if k == reports.len() {
        assert(reports.subrange(0, k) =~= reports);
    } else {
        let next = reports.subrange(0, k + 1);
        assert(next.drop_last() =~= reports.subrange(0, k));
        lemma_finished_stays(r, reports, k + 1);
    }
}

/// A status is persisted only for a credential that stands everywhere:
/// a reconciliation asks to persist the status only if the report
/// before was that of a creation which succeeded on every endpoint.
pub proof fn lemma_status_follows_creation(r: ReconciliationView, reports: Seq<(bool, Seq<char>)>)
    requires
        reports.len() > 0,
        r.step != Step::PatchStatus,
        r.after_all(reports).step == Step::PatchStatus,
    ensures
        r.after_all(reports.drop_last()).step == Step::CreateUsers,
        reports.last().0,
{
}

/// A status is set once: the reconciliation of a resource that is
/// provisioned and not being deleted is done as it starts, whatever
/// fresh credential it is given, and no report makes it persist a
/// status or touch an endpoint.
pub proof fn lemma_status_is_set_once(
    resource: DbSyncPort,
    fresh: DbSyncPortStatus,
    reports: Seq<(bool, Seq<char>)>,
)
    requires
        resource.executed(),
        resource.guard() is Some,
        !resource.deleting,
    ensures
        resource.first_step(fresh).finished(),
        resource.first_step(fresh).after_all(reports) == resource.first_step(fresh),
        resource.first_step(fresh).verdict == Verdict::Succeeded(
            Action { requeue_after: Some(DRIFT_INTERVAL) },
        ),
{
    lemma_failure_ends_reconciliation(resource.first_step(fresh), Seq::empty(), reports);
}

/// Recovery from a partial failure. Where the creation fails on some
/// endpoint of the network, the reconciliation is reported failed and
/// persists no status, so that the resource is provisioned again later;
/// and where that later creation succeeds on every endpoint, every
/// endpoint has the user with the password of the later attempt,
/// whether the first attempt had reached it or not, and the status is
/// persisted next.
pub proof fn lemma_partial_failure_recovers(
    first: ReconciliationView,
    retry: ReconciliationView,
    endpoints: Seq<Catalog>,
    reached: Seq<bool>,
    timeout_ms: Option<u64>,
)
    requires
        first.step == Step::CreateUsers,
        retry.step == Step::CreateUsers,
        retry.username == first.username,
        reached.len() == endpoints.len(),
    ensures
        first.after(false, Seq::empty()).finished(),
        first.after(false, Seq::empty()).verdict == Verdict::CreateFailed,
        retry.after(true, Seq::empty()).step == Step::PatchStatus,
        retry.after(true, Seq::empty()).password == retry.password,
        forall|i: int|
            0 <= i < endpoints.len() ==> provisioned(
                after_run(
                    after_run(
                        #[trigger] endpoints[i],
                        Operation::Create,
                        first.username,
                        first.password,
                        timeout_ms,
                        reached[i],
                    ),
                    Operation::Create,
                    retry.username,
                    retry.password,
                    timeout_ms,
                    true,
                ),
                retry.username,
                retry.password,
            ),
{
    assert forall|i: int| 0 <= i < endpoints.len() implies provisioned(
        after_run(
            after_run(
                #[trigger] endpoints[i],
                Operation::Create,
                first.username,
                first.password,
                timeout_ms,
                reached[i],
            ),
            Operation::Create,
            retry.username,
            retry.password,
            timeout_ms,
            true,
        ),
        retry.username,
        retry.password,
    ) by {
        lemma_retry_recovers(
            endpoints[i],
            first.username,
            first.password,
            reached[i],
            retry.password,
            timeout_ms,
        );
    }
}

} // verus!
