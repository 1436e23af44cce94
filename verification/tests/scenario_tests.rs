use ext_cardano_dbsync::config::Config;
use ext_cardano_dbsync::controller::{
    Action, DbSyncPort, DbSyncPortSpec, DbSyncPortStatus, Reconciliation, Step,
    DB_SYNC_PORT_FINALIZER,
};
use ext_cardano_dbsync::metering::{Metered, MeteringEngine};
use ext_cardano_dbsync::postgres::{DbAction, UserStatements};
use ext_cardano_dbsync::state::State;

fn labels(values: &[&str]) -> Vec<String> {
    values.iter().map(|v| v.to_string()).collect()
}

fn vars(pairs: &[(&str, &str)]) -> Vec<(String, String)> {
    pairs.iter().map(|(k, v)| (k.to_string(), v.to_string())).collect()
}

#[test]
fn end_to_end_scenario() {
    let config = Config::from_env(&vars(&[
        ("DB_URLS", "postgres://admin:pw@db-0:5432"),
        ("DB_NAMES", "preprod=dbsync-preprod"),
        ("DCU_PER_SECOND", "preprod=5.0"),
        ("METRICS_DELAY", "30"),
    ]))
    .unwrap();
    let mut state = State::try_new(&config).unwrap();

    // Resource `alice` in namespace `prj-demo`, network `preprod`.
    let mut alice = DbSyncPort {
        name: "alice".to_string(),
        namespace: "prj-demo".to_string(),
        spec: DbSyncPortSpec { network: "preprod".to_string(), throughput_tier: Some("1".into()) },
        status: None,
        finalizers: vec![DB_SYNC_PORT_FINALIZER.to_string()],
        deleting: false,
    };

    // The first reconcile creates the credential on every endpoint.
    let endpoints = state.get_pg_by_network("preprod").unwrap().clone();
    assert_eq!(endpoints.len(), 1);
    let mut reconciliation = Reconciliation::start(&alice).unwrap();
    assert_eq!(reconciliation.step(), Step::CreateUsers);
    let username = reconciliation.username().to_string();
    let password = reconciliation.password().to_string();
    assert_eq!(username, DbSyncPortStatus::try_new("alice", "prj-demo").unwrap().username);
    assert_eq!(password.chars().count(), 16);
    assert!(password.chars().all(|c| c.is_ascii_alphanumeric()));

    let mut results = Vec::new();
    for endpoint in &endpoints {
        let mut task = endpoint.create_user(&username, &password);
        assert_eq!(task.action(), DbAction::Probe);
        task.record(Ok(false));
        while task.action() != DbAction::Finish {
            task.record(Ok(false));
        }
        results.push(task.result().unwrap());
    }
    reconciliation.record(&results, &mut state.metrics);

    // Then it patches the status and counts the user.
    assert_eq!(reconciliation.step(), Step::PatchStatus);
    assert_eq!(state.metrics.users_created.get(&labels(&["demo", "preprod"])), Some(0));
    alice.status = Some(DbSyncPortStatus {
        username: reconciliation.username().to_string(),
        password: reconciliation.password().to_string(),
    });
    reconciliation.record(&vec![Ok(())], &mut state.metrics);
    assert_eq!(reconciliation.result(), Some(Ok(Action::requeue(300))));
    assert_eq!(state.metrics.users_created.get(&labels(&["demo", "preprod"])), Some(1));

    // A later reconcile finds the status and leaves everything alone.
    let again = Reconciliation::start(&alice).unwrap();
    assert_eq!(again.step(), Step::Finish);
    assert_eq!(alice.status.as_ref().unwrap().username, username);
    assert_eq!(alice.status.as_ref().unwrap().password, password);

    // Metering tick 1 observes 0 ms: baseline only.
    let resources = vec![alice];
    let mut engine = MeteringEngine::new();
    let reading = |total| vec![UserStatements { usename: username.clone(), total_exec_time: total }];
    assert_eq!(
        engine.tick("preprod", &reading(0), &resources, &config, &mut state.metrics),
        vec![Metered::Seeded]
    );
    assert_eq!(state.metrics.dcu.get(&labels(&["demo", "preprod", "alice", "1"])), Some(0));

    // Tick 2 observes 3000 ms: ceil(3.0 * 5.0) = 15 units.
    assert_eq!(
        engine.tick("preprod", &reading(3000), &resources, &config, &mut state.metrics),
        vec![Metered::Billed(15)]
    );
    assert_eq!(state.metrics.dcu.get(&labels(&["demo", "preprod", "alice", "1"])), Some(15));
    assert_eq!(engine.baseline("preprod", &username), Some(3000));
}
