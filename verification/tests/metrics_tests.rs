use ext_cardano_dbsync::controller::{DbSyncPort, DbSyncPortSpec};
use ext_cardano_dbsync::counters::{CounterVec, MetricRegistry};
use ext_cardano_dbsync::error::Error;
use ext_cardano_dbsync::metrics::{get_project_id, labels1, labels2, labels4, project_id, Metrics};

fn labels(values: &[&str]) -> Vec<String> {
    values.iter().map(|v| v.to_string()).collect()
}

fn resource(name: &str) -> DbSyncPort {
    DbSyncPort {
        name: name.to_string(),
        namespace: "prj-demo".to_string(),
        spec: DbSyncPortSpec { network: "preprod".to_string(), throughput_tier: None },
        status: None,
        finalizers: vec![],
        deleting: false,
    }
}

#[test]
fn the_project_follows_the_mark_in_the_namespace() {
    assert_eq!(get_project_id("prj-demo"), "demo");
    assert_eq!(get_project_id("ns-prj-a-prj-b"), "a-prj-b");
    assert_eq!(get_project_id("prj-"), "");
    assert_eq!(project_id("prj-demo"), Some("demo".to_string()));
    assert_eq!(project_id("default"), None);
    assert_eq!(project_id("prj"), None);
    assert_eq!(project_id(""), None);
}

#[test]
fn label_lists_keep_their_order() {
    assert_eq!(labels1("a".to_string()), vec!["a"]);
    assert_eq!(labels2("a".to_string(), "b".to_string()), vec!["a", "b"]);
    assert_eq!(
        labels4("a".to_string(), "b".to_string(), "c".to_string(), "d".to_string()),
        vec!["a", "b", "c", "d"]
    );
}

#[test]
fn a_family_counts_by_label_values() {
    let mut family = CounterVec::new("requests_total", "requests", &labels(&["a", "b"])).unwrap();
    assert_eq!(family.get(&labels(&["x", "y"])), Some(0));
    assert!(family.add(&labels(&["x", "y"]), 3));
    assert!(family.add(&labels(&["x", "y"]), 4));
    assert!(family.add(&labels(&["x", "z"]), 1));
    assert_eq!(family.get(&labels(&["x", "y"])), Some(7));
    assert_eq!(family.get(&labels(&["x", "z"])), Some(1));
    assert_eq!(family.get(&labels(&["q", "q"])), Some(0));
}

#[test]
fn a_family_refuses_another_number_of_values() {
    let mut family = CounterVec::new("requests_total", "requests", &labels(&["a", "b"])).unwrap();
    assert!(!family.add(&labels(&["x"]), 3));
    assert!(!family.add(&labels(&["x", "y", "z"]), 3));
    assert_eq!(family.get(&labels(&["x"])), None);
    assert_eq!(family.get(&labels(&["x", "y"])), Some(0));
}

#[test]
fn a_family_counter_wraps_at_sixty_four_bits() {
    let mut family = CounterVec::new("wrap_total", "wraps", &labels(&["a"])).unwrap();
    assert!(family.add(&labels(&["x"]), u64::MAX));
    assert!(family.add(&labels(&["x"]), 2));
    assert_eq!(family.get(&labels(&["x"])), Some(1));
}

#[test]
fn the_registry_crate_decides_on_names() {
    assert!(matches!(
        CounterVec::new("not a name", "help", &labels(&["a"])),
        Err(Error::PrometheusError(_))
    ));
    assert!(matches!(
        CounterVec::new("name_total", "", &labels(&["a"])),
        Err(Error::PrometheusError(_))
    ));
    assert!(matches!(
        CounterVec::new("name_total", "help", &labels(&["a", "a"])),
        Err(Error::PrometheusError(_))
    ));
}

#[test]
fn counters_start_at_zero() {
    let metrics = Metrics::try_new().unwrap();
    assert_eq!(metrics.users_created.get(&labels(&["demo", "preprod"])), Some(0));
    assert_eq!(metrics.users_dropped.get(&labels(&["demo", "preprod"])), Some(0));
    assert_eq!(metrics.reconcile_failures.get(&labels(&["alice", "x"])), Some(0));
    assert_eq!(metrics.metrics_failures.get(&labels(&["x"])), Some(0));
    assert_eq!(metrics.dcu.get(&labels(&["demo", "preprod", "alice", ""])), Some(0));
}

#[test]
fn users_are_counted_by_project_and_network() {
    let mut metrics = Metrics::try_new().unwrap();
    metrics.count_user_created("prj-demo", "preprod");
    metrics.count_user_created("prj-demo", "preprod");
    metrics.count_user_created("prj-demo", "mainnet");
    metrics.count_user_dropped("prj-other", "preprod");
    assert_eq!(metrics.users_created.get(&labels(&["demo", "preprod"])), Some(2));
    assert_eq!(metrics.users_created.get(&labels(&["demo", "mainnet"])), Some(1));
    assert_eq!(metrics.users_created.get(&labels(&["other", "preprod"])), Some(0));
    assert_eq!(metrics.users_dropped.get(&labels(&["other", "preprod"])), Some(1));
    assert_eq!(metrics.users_dropped.get(&labels(&["demo", "preprod"])), Some(0));
}

#[test]
fn consumption_is_counted_by_project_network_resource_and_tier() {
    let mut metrics = Metrics::try_new().unwrap();
    metrics.count_dcu_consumed("prj-demo", "preprod", "alice", "1", 15);
    metrics.count_dcu_consumed("prj-demo", "preprod", "alice", "1", 5);
    metrics.count_dcu_consumed("prj-demo", "preprod", "bob", "1", 1);
    assert_eq!(metrics.dcu.get(&labels(&["demo", "preprod", "alice", "1"])), Some(20));
    assert_eq!(metrics.dcu.get(&labels(&["demo", "preprod", "bob", "1"])), Some(1));
    assert_eq!(metrics.users_created.get(&labels(&["demo", "preprod"])), Some(0));
}

#[test]
fn failures_are_counted_under_their_label() {
    let mut metrics = Metrics::try_new().unwrap();
    let e = Error::PgError("fail to create user".to_string());
    metrics.reconcile_failure(&resource("alice"), &e);
    metrics.reconcile_failure(&resource("alice"), &e);
    metrics.metrics_failure(&Error::ConfigError("no rate".to_string()));
    assert_eq!(
        metrics.reconcile_failures.get(&labels(&["alice", "pgerror(\"fail to create user\")"])),
        Some(2)
    );
    assert_eq!(
        metrics.reconcile_failures.get(&labels(&["bob", "pgerror(\"fail to create user\")"])),
        Some(0)
    );
    assert_eq!(metrics.metrics_failures.get(&labels(&["configerror(\"no rate\")"])), Some(1));
}

#[test]
fn the_counters_are_registered_once() {
    let mut registry = MetricRegistry::new();
    let metrics = Metrics::try_new().unwrap().register(&mut registry).unwrap();
    assert_eq!(metrics.users_created.get(&labels(&["demo", "preprod"])), Some(0));
    assert!(matches!(
        Metrics::try_new().unwrap().register(&mut registry),
        Err(Error::PrometheusError(_))
    ));
}

#[test]
fn registered_counters_are_gathered() {
    let mut registry = MetricRegistry::new();
    let mut metrics = Metrics::try_new().unwrap().register(&mut registry).unwrap();
    assert!(registry.gather().is_empty());
    metrics.count_user_created("prj-demo", "preprod");
    let families = registry.gather();
    assert_eq!(families.len(), 1);
    assert_eq!(families[0].get_name(), "dmtr_dbsync_users_created_total");
}

#[test]
fn a_registry_takes_a_family_once() {
    let mut registry = MetricRegistry::new();
    assert!(registry.gather().is_empty());
    let mut first = CounterVec::new("first_total", "first", &labels(&["a"])).unwrap();
    let mut second = CounterVec::new("second_total", "second", &labels(&["a"])).unwrap();
    let same_name = CounterVec::new("first_total", "first", &labels(&["a"])).unwrap();
    assert_eq!(registry.register(&second), Ok(()));
    assert_eq!(registry.register(&first), Ok(()));
    assert!(matches!(registry.register(&same_name), Err(Error::PrometheusError(_))));
    assert!(matches!(registry.register(&first), Err(Error::PrometheusError(_))));
    // Only a family with a child is gathered, sorted by name.
    assert!(registry.gather().is_empty());
    second.add(&labels(&["x"]), 1);
    let names: Vec<String> = registry.gather().iter().map(|f| f.get_name().to_string()).collect();
    assert_eq!(names, vec!["second_total"]);
    // Reading a count makes the child as well.
    assert_eq!(first.get(&labels(&["x"])), Some(0));
    let names: Vec<String> = registry.gather().iter().map(|f| f.get_name().to_string()).collect();
    assert_eq!(names, vec!["first_total", "second_total"]);
    first.add(&labels(&["x"]), 1);
    let names: Vec<String> = registry.gather().iter().map(|f| f.get_name().to_string()).collect();
    assert_eq!(names, vec!["first_total", "second_total"]);
}

#[test]
fn a_failed_registration_keeps_what_was_taken() {
    let mut registry = MetricRegistry::new();
    let mut taken = CounterVec::new(
        "dmtr_dbsync_users_dropped_total",
        "total of users dropped in dbsync",
        &labels(&["project", "network"]),
    )
    .unwrap();
    assert_eq!(registry.register(&taken), Ok(()));
    // The third of the five families has a name that is held already.
    assert!(matches!(
        Metrics::try_new().unwrap().register(&mut registry),
        Err(Error::PrometheusError(_))
    ));
    taken.add(&labels(&["demo", "preprod"]), 1);
    let names: Vec<String> = registry.gather().iter().map(|f| f.get_name().to_string()).collect();
    assert_eq!(names, vec!["dmtr_dbsync_users_dropped_total"]);
}

#[test]
fn a_family_needs_a_help_text_and_valid_names() {
    let two = labels(&["project", "network"]);
    assert!(CounterVec::new("requests_total", "requests", &two).is_ok());
    assert!(CounterVec::new("_x9", "h", &two).is_ok());
    assert!(CounterVec::new("app:requests:total", "requests", &two).is_ok());
    assert!(CounterVec::new("Requests", "requests", &labels(&[])).is_ok());
    assert!(CounterVec::new("requests_total", "requests", &labels(&["_l", "L2"])).is_ok());
    let refused: Vec<(&str, &str, Vec<String>)> = vec![
        ("requests_total", "", two.clone()),
        ("", "requests", two.clone()),
        ("9lives", "requests", two.clone()),
        ("has space", "requests", two.clone()),
        ("dash-ed", "requests", two.clone()),
        ("na\u{ef}ve", "requests", two.clone()),
        ("requests_total", "requests", labels(&["project", "project"])),
        ("requests_total", "requests", labels(&["project", ""])),
        ("requests_total", "requests", labels(&["a:b"])),
        ("requests_total", "requests", labels(&["1st"])),
        ("requests_total", "requests", labels(&["with space"])),
    ];
    for (name, help, label_names) in refused {
        assert!(
            matches!(CounterVec::new(name, help, &label_names), Err(Error::PrometheusError(_))),
            "for {:?}, {:?}, {:?}",
            name,
            help,
            label_names
        );
    }
}

#[test]
fn the_five_families_are_always_made_and_taken() {
    for _ in 0..3 {
        let mut registry = MetricRegistry::new();
        let metrics = Metrics::try_new();
        assert!(metrics.is_ok());
        assert!(metrics.unwrap().register(&mut registry).is_ok());
    }
}

#[test]
fn the_registry_crate_gives_the_names_their_identifiers() {
    let described = |name: &str, help: &str, label_names: &[&str]| {
        let family =
            prometheus::IntCounterVec::new(prometheus::Opts::new(name, help), label_names)
                .unwrap();
        prometheus::core::Collector::desc(&family)[0].id
    };
    assert_eq!(
        described("dmtr_dbsync_reconciliation_errors_total", "h", &["instance", "error"]),
        0xdfae_1828_9275_8a58
    );
    assert_eq!(
        described("dmtr_dbsync_users_created_total", "h", &["project", "network"]),
        0x8547_4ca4_5a55_8686
    );
    assert_eq!(
        described("dmtr_dbsync_users_dropped_total", "other help", &["project"]),
        0xb7c3_9c43_cc29_a934
    );
    assert_eq!(
        described("dmtr_dbsync_metrics_errors_total", "h", &["error"]),
        0xa9ef_a53b_78cb_0ef2
    );
    assert_eq!(described("dmtr_consumed_dcus", "h", &[]), 0x0e41_6d27_f733_2eda);
}
