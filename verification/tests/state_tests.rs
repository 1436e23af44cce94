use ext_cardano_dbsync::config::Config;
use ext_cardano_dbsync::error::Error;
use ext_cardano_dbsync::rate::Rate;
use ext_cardano_dbsync::state::{connections_of, endpoints_of, State};

fn config(urls: &[&str]) -> Config {
    Config {
        db_urls: urls.iter().map(|u| u.to_string()).collect(),
        db_names: vec![
            ("mainnet".to_string(), "dbsync-mainnet".to_string()),
            ("preprod".to_string(), "dbsync-preprod".to_string()),
        ],
        db_max_connections: 3,
        dcu_per_second: vec![("mainnet".to_string(), Rate { numerator: 1, denominator: 1 })],
        metrics_delay: 30,
        query_timeout: 9000,
    }
}

fn urls(state: &State, network: &str) -> Vec<String> {
    state.get_pg_by_network(network).unwrap().iter().map(|e| e.url.clone()).collect()
}

#[test]
fn every_network_has_every_endpoint() {
    let state = State::try_new(&config(&["postgres://u@a:5432", "postgres://u@b:5432"])).unwrap();
    assert_eq!(
        urls(&state, "mainnet"),
        vec!["postgres://u@a:5432/dbsync-mainnet", "postgres://u@b:5432/dbsync-mainnet"]
    );
    assert_eq!(
        urls(&state, "preprod"),
        vec!["postgres://u@a:5432/dbsync-preprod", "postgres://u@b:5432/dbsync-preprod"]
    );
    for endpoint in state.get_pg_by_network("mainnet").unwrap() {
        assert_eq!(endpoint.max_connections, 3);
        assert_eq!(endpoint.query_timeout, Some(9000));
    }
    assert_eq!(state.pg_connections.len(), 2);
}

#[test]
fn an_unknown_network_is_a_configuration_failure() {
    let state = State::try_new(&config(&["postgres://u@a:5432"])).unwrap();
    assert_eq!(
        state.get_pg_by_network("preview").err(),
        Some(Error::ConfigError("postgres not configured to preview".to_string()))
    );
    assert_eq!(
        state.get_pg_by_network("").err(),
        Some(Error::ConfigError("postgres not configured to ".to_string()))
    );
}

#[test]
fn a_malformed_address_fails_the_start() {
    assert!(matches!(
        State::try_new(&config(&["postgres://u@a:5432", "postgres://u@b:port"])),
        Err(Error::PgError(_))
    ));
    assert!(matches!(
        connections_of(&config(&["postgres://u@b:port"])),
        Err(Error::PgError(_))
    ));
}

#[test]
fn without_addresses_networks_have_no_endpoints() {
    let state = State::try_new(&config(&[])).unwrap();
    assert_eq!(urls(&state, "mainnet"), Vec::<String>::new());
    assert!(state.get_pg_by_network("preview").is_err());
}

#[test]
fn endpoints_of_a_database_follow_the_addresses() {
    let endpoints = endpoints_of(&config(&["postgres://u@a:5432"]), "db").unwrap();
    assert_eq!(endpoints.len(), 1);
    assert_eq!(endpoints[0].url, "postgres://u@a:5432/db");
}

#[test]
fn the_last_entry_of_a_network_counts() {
    let mut c = config(&["postgres://u@a:5432"]);
    c.db_names.push(("mainnet".to_string(), "dbsync-other".to_string()));
    let state = State::try_new(&c).unwrap();
    assert_eq!(urls(&state, "mainnet"), vec!["postgres://u@a:5432/dbsync-other"]);
}

#[test]
fn a_state_counts_and_collects() {
    let mut state = State::try_new(&config(&["postgres://u@a:5432"])).unwrap();
    assert!(state.metrics_collected().is_empty());
    state.metrics.count_user_created("prj-demo", "preprod");
    state.metrics.count_dcu_consumed("prj-demo", "preprod", "alice", "", 15);
    let names: Vec<String> =
        state.metrics_collected().iter().map(|f| f.get_name().to_string()).collect();
    assert_eq!(names, vec!["dmtr_consumed_dcus", "dmtr_dbsync_users_created_total"]);
}
