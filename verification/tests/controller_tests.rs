use ext_cardano_dbsync::controller::{
    error_policy, first_failure, Action, DbSyncPort, DbSyncPortSpec, DbSyncPortStatus,
    Reconciliation, Step, DB_SYNC_PORT_FINALIZER,
};
use ext_cardano_dbsync::error::Error;
use ext_cardano_dbsync::metrics::Metrics;

fn labels(values: &[&str]) -> Vec<String> {
    values.iter().map(|v| v.to_string()).collect()
}

fn resource() -> DbSyncPort {
    DbSyncPort {
        name: "alice".to_string(),
        namespace: "prj-demo".to_string(),
        spec: DbSyncPortSpec { network: "preprod".to_string(), throughput_tier: None },
        status: None,
        finalizers: vec![],
        deleting: false,
    }
}

fn guarded() -> DbSyncPort {
    let mut r = resource();
    r.finalizers = vec!["other.example".to_string(), DB_SYNC_PORT_FINALIZER.to_string()];
    r
}

fn provisioned() -> DbSyncPort {
    let mut r = guarded();
    r.status =
        Some(DbSyncPortStatus { username: "dmtr_user".to_string(), password: "pw".to_string() });
    r
}

fn fresh() -> DbSyncPortStatus {
    DbSyncPortStatus { username: "dmtr_new".to_string(), password: "newpw".to_string() }
}

fn ok(n: usize) -> Vec<Result<(), Error>> {
    (0..n).map(|_| Ok(())).collect()
}

fn pg(message: &str) -> Result<(), Error> {
    Err(Error::PgError(message.to_string()))
}

#[test]
fn the_marker_has_its_name() {
    assert_eq!(DB_SYNC_PORT_FINALIZER, "dbsyncports.demeter.run");
}

#[test]
fn actions_say_when_to_look_again() {
    assert_eq!(Action::requeue(300), Action { requeue_after: Some(300) });
    assert_eq!(Action::await_change(), Action { requeue_after: None });
}

#[test]
fn a_resource_was_executed_once_it_has_a_user_name() {
    assert!(!resource().was_executed());
    assert!(provisioned().was_executed());
    let mut r = resource();
    r.status = Some(DbSyncPortStatus { username: String::new(), password: "pw".to_string() });
    assert!(!r.was_executed());
}

#[test]
fn the_guard_is_found_among_the_markers() {
    assert_eq!(resource().finalizer_index(), None);
    assert_eq!(guarded().finalizer_index(), Some(1));
    let mut r = guarded();
    r.finalizers.push(DB_SYNC_PORT_FINALIZER.to_string());
    assert_eq!(r.finalizer_index(), Some(1));
    r.finalizers = vec!["dbsyncports.demeter.run2".to_string()];
    assert_eq!(r.finalizer_index(), None);
}

#[test]
fn the_tier_is_the_one_asked_for() {
    assert_eq!(resource().tier(), "");
    let mut r = resource();
    r.spec.throughput_tier = Some("2".to_string());
    assert_eq!(r.tier(), "2");
}

#[test]
fn an_unguarded_resource_gets_the_guard_first() {
    let mut metrics = Metrics::try_new().unwrap();
    let mut rec = Reconciliation::start_with(&resource(), fresh());
    assert_eq!(rec.step(), Step::AddFinalizer);
    assert_eq!(rec.result(), None);
    rec.record(&ok(1), &mut metrics);
    assert_eq!(rec.step(), Step::Finish);
    assert_eq!(rec.result(), Some(Ok(Action::await_change())));
    assert_eq!(metrics.users_created.get(&labels(&["demo", "preprod"])), Some(0));
}

#[test]
fn a_guard_that_cannot_be_attached_fails_the_reconciliation() {
    let mut metrics = Metrics::try_new().unwrap();
    let mut rec = Reconciliation::start_with(&resource(), fresh());
    rec.record(&vec![Err(Error::KubeError("conflict".to_string()))], &mut metrics);
    assert_eq!(rec.step(), Step::Finish);
    assert_eq!(rec.result(), Some(Err(Error::FinalizerError("conflict".to_string()))));
}

#[test]
fn a_guarded_resource_is_provisioned_on_every_endpoint() {
    let mut metrics = Metrics::try_new().unwrap();
    let mut rec = Reconciliation::start_with(&guarded(), fresh());
    assert_eq!(rec.step(), Step::CreateUsers);
    assert_eq!(rec.username(), "dmtr_new");
    assert_eq!(rec.password(), "newpw");
    rec.record(&ok(2), &mut metrics);
    assert_eq!(rec.step(), Step::PatchStatus);
    assert_eq!(rec.username(), "dmtr_new");
    assert_eq!(rec.password(), "newpw");
    // Nothing is counted before the status is persisted.
    assert_eq!(metrics.users_created.get(&labels(&["demo", "preprod"])), Some(0));
    rec.record(&ok(1), &mut metrics);
    assert_eq!(rec.step(), Step::Finish);
    assert_eq!(rec.result(), Some(Ok(Action::requeue(300))));
    assert_eq!(metrics.users_created.get(&labels(&["demo", "preprod"])), Some(1));
    assert_eq!(metrics.users_dropped.get(&labels(&["demo", "preprod"])), Some(0));
}

#[test]
fn a_provisioned_resource_is_left_alone() {
    let mut rec = Reconciliation::start_with(&provisioned(), fresh());
    assert_eq!(rec.step(), Step::Finish);
    assert_eq!(rec.result(), Some(Ok(Action::requeue(300))));
    let mut metrics = Metrics::try_new().unwrap();
    rec.record(&ok(1), &mut metrics);
    assert_eq!(rec.result(), Some(Ok(Action::requeue(300))));
    assert_eq!(metrics.users_created.get(&labels(&["demo", "preprod"])), Some(0));
}

#[test]
fn fan_out_partial_failure_recovery() {
    let mut metrics = Metrics::try_new().unwrap();
    // Create succeeds on the first endpoint and fails on the second.
    let mut rec = Reconciliation::start_with(&guarded(), fresh());
    rec.record(&vec![Ok(()), pg("connection refused")], &mut metrics);
    assert_eq!(rec.step(), Step::Finish);
    assert_eq!(rec.result(), Some(Err(Error::PgError("fail to create user".to_string()))));
    assert_eq!(metrics.users_created.get(&labels(&["demo", "preprod"])), Some(0));
    // No status was persisted, so the retry provisions again, with the
    // credential of the retry, on both endpoints.
    let retry =
        DbSyncPortStatus { username: "dmtr_new".to_string(), password: "second".to_string() };
    let mut rec = Reconciliation::start_with(&guarded(), retry);
    assert_eq!(rec.step(), Step::CreateUsers);
    assert_eq!(rec.password(), "second");
    rec.record(&ok(2), &mut metrics);
    assert_eq!(rec.step(), Step::PatchStatus);
    rec.record(&ok(1), &mut metrics);
    assert_eq!(rec.result(), Some(Ok(Action::requeue(300))));
    assert_eq!(metrics.users_created.get(&labels(&["demo", "preprod"])), Some(1));
}

#[test]
fn a_status_that_cannot_be_persisted_fails_the_reconciliation() {
    let mut metrics = Metrics::try_new().unwrap();
    let mut rec = Reconciliation::start_with(&guarded(), fresh());
    rec.record(&ok(2), &mut metrics);
    rec.record(&vec![Err(Error::KubeError("timeout".to_string()))], &mut metrics);
    assert_eq!(rec.result(), Some(Err(Error::KubeError("timeout".to_string()))));
    assert_eq!(metrics.users_created.get(&labels(&["demo", "preprod"])), Some(0));
}

#[test]
fn finalizer_ordering() {
    let mut metrics = Metrics::try_new().unwrap();
    let mut deleting = provisioned();
    deleting.deleting = true;
    // The cleanup fails on one endpoint: the guard stays.
    let mut rec = Reconciliation::start_with(&deleting, fresh());
    assert_eq!(rec.step(), Step::DropUsers);
    assert_eq!(rec.username(), "dmtr_user");
    rec.record(&vec![Ok(()), pg("locked")], &mut metrics);
    assert_eq!(rec.step(), Step::Finish);
    assert_eq!(rec.result(), Some(Err(Error::PgError("fail to drop user".to_string()))));
    assert_eq!(metrics.users_dropped.get(&labels(&["demo", "preprod"])), Some(0));
    // The cleanup succeeds everywhere: only now is the guard removed.
    let mut rec = Reconciliation::start_with(&deleting, fresh());
    rec.record(&ok(2), &mut metrics);
    assert_eq!(rec.step(), Step::RemoveFinalizer(1));
    assert_eq!(rec.result(), None);
    assert_eq!(metrics.users_dropped.get(&labels(&["demo", "preprod"])), Some(1));
    rec.record(&ok(1), &mut metrics);
    assert_eq!(rec.step(), Step::Finish);
    assert_eq!(rec.result(), Some(Ok(Action::await_change())));
}

#[test]
fn a_guard_that_cannot_be_removed_fails_the_reconciliation() {
    let mut metrics = Metrics::try_new().unwrap();
    let mut deleting = provisioned();
    deleting.deleting = true;
    let mut rec = Reconciliation::start_with(&deleting, fresh());
    rec.record(&ok(2), &mut metrics);
    rec.record(&vec![Err(Error::KubeError("gone".to_string()))], &mut metrics);
    assert_eq!(rec.result(), Some(Err(Error::FinalizerError("gone".to_string()))));
}

#[test]
fn a_deleted_resource_without_credential_only_loses_the_guard() {
    let mut metrics = Metrics::try_new().unwrap();
    let mut deleting = guarded();
    deleting.deleting = true;
    let mut rec = Reconciliation::start_with(&deleting, fresh());
    assert_eq!(rec.step(), Step::RemoveFinalizer(1));
    rec.record(&ok(1), &mut metrics);
    assert_eq!(rec.result(), Some(Ok(Action::await_change())));
    assert_eq!(metrics.users_dropped.get(&labels(&["demo", "preprod"])), Some(0));
}

#[test]
fn a_deleted_resource_without_guard_is_left_alone() {
    let mut deleting = resource();
    deleting.deleting = true;
    let rec = Reconciliation::start_with(&deleting, fresh());
    assert_eq!(rec.step(), Step::Finish);
    assert_eq!(rec.result(), Some(Ok(Action::await_change())));
}

#[test]
fn a_namespace_without_project_is_refused() {
    let mut r = guarded();
    r.namespace = "default".to_string();
    let rec = Reconciliation::start_with(&r, fresh());
    assert_eq!(rec.step(), Step::Finish);
    assert_eq!(
        rec.result(),
        Some(Err(Error::ConfigError("no project in namespace default".to_string())))
    );
}

#[test]
fn a_network_without_endpoints_is_provisioned_vacuously() {
    let mut metrics = Metrics::try_new().unwrap();
    let mut rec = Reconciliation::start_with(&guarded(), fresh());
    rec.record(&ok(0), &mut metrics);
    assert_eq!(rec.step(), Step::PatchStatus);
}

#[test]
fn a_started_reconciliation_derives_its_credential() {
    let rec = Reconciliation::start(&guarded()).unwrap();
    assert_eq!(rec.step(), Step::CreateUsers);
    let expected = DbSyncPortStatus::try_new("alice", "prj-demo").unwrap();
    assert_eq!(rec.username(), expected.username);
    assert_eq!(rec.password().chars().count(), 16);
    assert!(rec.password().chars().all(|c| c.is_ascii_alphanumeric()));
    let rec = Reconciliation::start(&provisioned()).unwrap();
    assert_eq!(rec.step(), Step::Finish);
}

#[test]
fn the_first_failure_is_found() {
    assert_eq!(first_failure(&ok(3)), None);
    assert_eq!(first_failure(&ok(0)), None);
    assert_eq!(first_failure(&vec![Ok(()), pg("a"), pg("b")]), Some(1));
    assert_eq!(first_failure(&vec![pg("a")]), Some(0));
}

#[test]
fn failed_reconciliations_are_counted_and_retried() {
    let mut metrics = Metrics::try_new().unwrap();
    let e = Error::PgError("fail to create user".to_string());
    assert_eq!(error_policy(&guarded(), &e, &mut metrics), Action::requeue(5));
    assert_eq!(error_policy(&guarded(), &e, &mut metrics), Action { requeue_after: Some(5) });
    assert_eq!(
        metrics.reconcile_failures.get(&labels(&["alice", "pgerror(\"fail to create user\")"])),
        Some(2)
    );
}

#[test]
fn the_markers_follow_the_step() {
    let guard = DB_SYNC_PORT_FINALIZER.to_string();
    // Attaching the guard puts it after the markers that are there.
    assert_eq!(resource().finalizers_after(Step::AddFinalizer), vec![guard.clone()]);
    let mut r = resource();
    r.finalizers = vec!["other.example".to_string()];
    assert_eq!(
        r.finalizers_after(Step::AddFinalizer),
        vec!["other.example".to_string(), guard.clone()]
    );
    // Removing the guard takes out the marker at its position only.
    assert_eq!(
        guarded().finalizers_after(Step::RemoveFinalizer(1)),
        vec!["other.example".to_string()]
    );
    assert_eq!(guarded().finalizers_after(Step::RemoveFinalizer(0)), vec![guard.clone()]);
    let mut twice = guarded();
    twice.finalizers.push(guard.clone());
    assert_eq!(
        twice.finalizers_after(Step::RemoveFinalizer(1)),
        vec!["other.example".to_string(), guard.clone()]
    );
    // A position beyond the markers, and any other step, change nothing.
    assert_eq!(guarded().finalizers_after(Step::RemoveFinalizer(2)), guarded().finalizers);
    for step in [Step::CreateUsers, Step::PatchStatus, Step::DropUsers, Step::Finish] {
        assert_eq!(guarded().finalizers_after(step), guarded().finalizers);
    }
    // The reconciliation names the position of the guard.
    let mut deleted = guarded();
    deleted.deleting = true;
    let reconciliation = Reconciliation::start(&deleted).unwrap();
    assert_eq!(
        deleted.finalizers_after(reconciliation.step()),
        vec!["other.example".to_string()]
    );
}
