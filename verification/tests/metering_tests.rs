use ext_cardano_dbsync::config::Config;
use ext_cardano_dbsync::controller::{DbSyncPort, DbSyncPortSpec, DbSyncPortStatus};
use ext_cardano_dbsync::metering::{
    find_owner, reading_of, total_of_endpoints, users_to_meter, Metered, MeteringEngine,
};
use ext_cardano_dbsync::metrics::Metrics;
use ext_cardano_dbsync::postgres::UserStatements;
use ext_cardano_dbsync::rate::Rate;

fn labels(values: &[&str]) -> Vec<String> {
    values.iter().map(|v| v.to_string()).collect()
}

fn config() -> Config {
    Config {
        db_urls: vec!["postgres://db:5432".to_string()],
        db_names: vec![("preprod".to_string(), "dbsync-preprod".to_string())],
        db_max_connections: 2,
        dcu_per_second: vec![
            ("preprod".to_string(), Rate { numerator: 50, denominator: 10 }),
            ("preview".to_string(), Rate { numerator: 3333, denominator: 10000 }),
        ],
        metrics_delay: 30,
        query_timeout: 12000,
    }
}

fn resource(name: &str, namespace: &str, network: &str, username: Option<&str>) -> DbSyncPort {
    DbSyncPort {
        name: name.to_string(),
        namespace: namespace.to_string(),
        spec: DbSyncPortSpec { network: network.to_string(), throughput_tier: Some("1".into()) },
        status: username
            .map(|u| DbSyncPortStatus { username: u.to_string(), password: "pw".to_string() }),
        finalizers: vec![],
        deleting: false,
    }
}

fn resources() -> Vec<DbSyncPort> {
    vec![
        resource("pending", "prj-demo", "preprod", None),
        resource("alice", "prj-demo", "preprod", Some("dmtr_alice")),
        resource("bob", "prj-other", "preview", Some("dmtr_bob")),
        resource("carol", "default", "preprod", Some("dmtr_carol")),
        resource("dave", "prj-demo", "mainnet", Some("dmtr_dave")),
    ]
}

fn reading(user: &str, total: u64) -> UserStatements {
    UserStatements { usename: user.to_string(), total_exec_time: total }
}

#[test]
fn readings_are_billed_once() {
    let mut metrics = Metrics::try_new().unwrap();
    let mut engine = MeteringEngine::new();
    let (config, resources) = (config(), resources());
    let mut outcomes = Vec::new();
    for total in [0u64, 100, 250, 250, 400] {
        outcomes.push(engine.meter(
            "preprod",
            &reading("dmtr_alice", total),
            &resources,
            &config,
            &mut metrics,
        ));
    }
    assert_eq!(
        outcomes,
        vec![
            Metered::Seeded,
            Metered::Billed(1),
            Metered::Billed(1),
            Metered::Unchanged,
            Metered::Billed(1),
        ]
    );
    assert_eq!(metrics.dcu.get(&labels(&["demo", "preprod", "alice", "1"])), Some(3));
}

#[test]
fn a_counter_that_fell_back_is_not_billed() {
    let mut metrics = Metrics::try_new().unwrap();
    let mut engine = MeteringEngine::new();
    let (config, resources) = (config(), resources());
    let mut outcomes = Vec::new();
    for total in [500_000u64, 500_000, 100_000, 250_000] {
        outcomes.push(engine.meter(
            "preprod",
            &reading("dmtr_alice", total),
            &resources,
            &config,
            &mut metrics,
        ));
    }
    assert_eq!(
        outcomes,
        vec![Metered::Seeded, Metered::Unchanged, Metered::Reset, Metered::Billed(750)]
    );
    assert_eq!(engine.baseline("preprod", "dmtr_alice"), Some(250_000));
    assert_eq!(metrics.dcu.get(&labels(&["demo", "preprod", "alice", "1"])), Some(750));
}

#[test]
fn fractions_of_a_unit_are_rounded_up() {
    let mut metrics = Metrics::try_new().unwrap();
    let mut engine = MeteringEngine::new();
    let (config, resources) = (config(), resources());
    engine.meter("preview", &reading("dmtr_bob", 10), &resources, &config, &mut metrics);
    assert_eq!(
        engine.meter("preview", &reading("dmtr_bob", 1510), &resources, &config, &mut metrics),
        Metered::Billed(1)
    );
    assert_eq!(metrics.dcu.get(&labels(&["other", "preview", "bob", "1"])), Some(1));
}

#[test]
fn readings_without_owner_are_left_alone() {
    let mut metrics = Metrics::try_new().unwrap();
    let mut engine = MeteringEngine::new();
    let (config, mut resources) = (config(), resources());
    let stranger = reading("dmtr_stranger", 10);
    assert_eq!(
        engine.meter("preprod", &stranger, &resources, &config, &mut metrics),
        Metered::Seeded
    );
    let stranger = reading("dmtr_stranger", 2010);
    assert_eq!(
        engine.meter("preprod", &stranger, &resources, &config, &mut metrics),
        Metered::Unowned
    );
    // The baseline stayed, so the growth is billed once the owner is known.
    assert_eq!(engine.baseline("preprod", "dmtr_stranger"), Some(10));
    resources.push(resource("eve", "prj-demo", "preprod", Some("dmtr_stranger")));
    assert_eq!(
        engine.meter("preprod", &stranger, &resources, &config, &mut metrics),
        Metered::Billed(10)
    );
    assert_eq!(engine.baseline("preprod", "dmtr_stranger"), Some(2010));
    assert_eq!(metrics.dcu.get(&labels(&["demo", "preprod", "eve", "1"])), Some(10));
}

#[test]
fn a_network_without_rate_is_counted_as_a_failure() {
    let mut metrics = Metrics::try_new().unwrap();
    let mut engine = MeteringEngine::new();
    let (config, resources) = (config(), resources());
    engine.meter("mainnet", &reading("dmtr_dave", 0), &resources, &config, &mut metrics);
    assert_eq!(
        engine.meter("mainnet", &reading("dmtr_dave", 5000), &resources, &config, &mut metrics),
        Metered::Unrated
    );
    assert_eq!(engine.baseline("mainnet", "dmtr_dave"), Some(0));
    assert_eq!(
        metrics.metrics_failures.get(&labels(&[
            "configerror(\"dcu_per_second not configured to mainnet network\")"
        ])),
        Some(1)
    );
    assert_eq!(metrics.dcu.get(&labels(&["demo", "mainnet", "dave", "1"])), Some(0));
}

#[test]
fn a_namespace_without_project_is_counted_as_a_failure() {
    let mut metrics = Metrics::try_new().unwrap();
    let mut engine = MeteringEngine::new();
    let (config, resources) = (config(), resources());
    engine.meter("preprod", &reading("dmtr_carol", 0), &resources, &config, &mut metrics);
    assert_eq!(
        engine.meter("preprod", &reading("dmtr_carol", 5000), &resources, &config, &mut metrics),
        Metered::NoProject
    );
    assert_eq!(engine.baseline("preprod", "dmtr_carol"), Some(0));
    assert_eq!(
        metrics.metrics_failures.get(&labels(&["configerror(\"no project in namespace default\")"])),
        Some(1)
    );
}

#[test]
fn one_reading_does_not_stop_the_others() {
    let mut metrics = Metrics::try_new().unwrap();
    let mut engine = MeteringEngine::new();
    let (config, resources) = (config(), resources());
    let first = vec![reading("dmtr_alice", 0), reading("dmtr_carol", 0), reading("dmtr_x", 0)];
    assert_eq!(
        engine.tick("preprod", &first, &resources, &config, &mut metrics),
        vec![Metered::Seeded, Metered::Seeded, Metered::Seeded]
    );
    let second =
        vec![reading("dmtr_carol", 1000), reading("dmtr_x", 1000), reading("dmtr_alice", 1000)];
    assert_eq!(
        engine.tick("preprod", &second, &resources, &config, &mut metrics),
        vec![Metered::NoProject, Metered::Unowned, Metered::Billed(5)]
    );
    assert_eq!(metrics.dcu.get(&labels(&["demo", "preprod", "alice", "1"])), Some(5));
    assert_eq!(engine.tick("preprod", &vec![], &resources, &config, &mut metrics), vec![]);
}

#[test]
fn the_same_user_twice_in_a_cycle_is_billed_for_its_growth_only() {
    let mut metrics = Metrics::try_new().unwrap();
    let mut engine = MeteringEngine::new();
    let (config, resources) = (config(), resources());
    let readings =
        vec![reading("dmtr_alice", 0), reading("dmtr_alice", 2000), reading("dmtr_alice", 2000)];
    assert_eq!(
        engine.tick("preprod", &readings, &resources, &config, &mut metrics),
        vec![Metered::Seeded, Metered::Billed(10), Metered::Unchanged]
    );
}

#[test]
fn the_owner_is_the_provisioned_resource_of_the_network() {
    let resources = resources();
    assert_eq!(find_owner(&resources, "preprod", "dmtr_alice"), Some(1));
    assert_eq!(find_owner(&resources, "preview", "dmtr_bob"), Some(2));
    assert_eq!(find_owner(&resources, "preprod", "dmtr_bob"), None);
    assert_eq!(find_owner(&resources, "preprod", "dmtr_nobody"), None);
    assert_eq!(find_owner(&vec![], "preprod", "dmtr_alice"), None);
}

#[test]
fn endpoint_readings_add_up_or_are_left_out() {
    assert_eq!(total_of_endpoints(&vec![Some(10), Some(20), Some(0)]), Some(30));
    assert_eq!(total_of_endpoints(&vec![]), Some(0));
    assert_eq!(total_of_endpoints(&vec![Some(10), None, Some(5)]), None);
    assert_eq!(total_of_endpoints(&vec![None]), None);
    assert_eq!(total_of_endpoints(&vec![Some(u64::MAX), Some(1)]), Some(u64::MAX));
    assert_eq!(total_of_endpoints(&vec![Some(u64::MAX), Some(1), None]), None);
}

#[test]
fn a_new_engine_has_no_baselines() {
    let engine = MeteringEngine::new();
    assert_eq!(engine.baseline("preprod", "dmtr_alice"), None);
}

#[test]
fn the_provisioned_users_of_a_network_are_metered() {
    let mut all = resources();
    assert_eq!(users_to_meter(&all, "preprod"), vec!["dmtr_alice", "dmtr_carol"]);
    assert_eq!(users_to_meter(&all, "preview"), vec!["dmtr_bob"]);
    assert_eq!(users_to_meter(&all, "mainnet"), vec!["dmtr_dave"]);
    assert!(users_to_meter(&all, "sanchonet").is_empty());
    assert!(users_to_meter(&all, "").is_empty());
    assert!(users_to_meter(&Vec::new(), "preprod").is_empty());
    // A user is read once for every resource that has it.
    all.push(resource("erin", "prj-demo", "preprod", Some("dmtr_alice")));
    assert_eq!(users_to_meter(&all, "preprod"), vec!["dmtr_alice", "dmtr_carol", "dmtr_alice"]);
}

#[test]
fn a_user_without_a_row_has_run_nothing() {
    assert_eq!(reading_of(&None), 0);
    assert_eq!(reading_of(&Some(reading("dmtr_alice", 1234))), 1234);
    assert_eq!(reading_of(&Some(reading("dmtr_alice", 0))), 0);
    assert_eq!(reading_of(&Some(reading("dmtr_alice", u64::MAX))), u64::MAX);
}
