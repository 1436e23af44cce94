//! What the controller and the metering loop share: the counters, the
//! registry that exposes them, and the endpoints of every network.

use crate::config::{find_last, last_value, Config};
use crate::counters::{gathered_from, MetricRegistry};
use crate::error::Error;
use crate::metrics::Metrics;
use crate::postgres::{accepts_connection_string, around, Postgres};
use vstd::prelude::*;

verus! {

/// The connection string of a database at an endpoint address.
pub open spec fn connection_text(url: Seq<char>, db_name: Seq<char>) -> Seq<char> {
    url + "/"@ + db_name
}

/// The endpoints as contracts see them: of each network, in the order
/// of the configuration, the connection string of each endpoint.
pub open spec fn endpoint_texts(connections: Seq<(String, Vec<Postgres>)>) -> Seq<
    (Seq<char>, Seq<Seq<char>>),
> {
    connections.map_values(
        |entry: (String, Vec<Postgres>)|
            (entry.0@, entry.1@.map_values(|endpoint: Postgres| endpoint.url@)),
    )
}

/// The connection strings that a configuration asks for: for every
/// network with a database, that database at every endpoint address.
pub open spec fn wanted_texts(urls: Seq<String>, names: Seq<(String, String)>) -> Seq<
    (Seq<char>, Seq<Seq<char>>),
> {
    names.map_values(
        |entry: (String, String)|
            (entry.0@, urls.map_values(|url: String| connection_text(url@, entry.1@))),
    )
}

/// Whether the database driver reads every connection string that a
/// configuration asks for.
pub open spec fn all_accepted(urls: Seq<String>, names: Seq<(String, String)>) -> bool {
    forall|i: int, j: int|
        0 <= i < names.len() && 0 <= j < urls.len() ==> accepts_connection_string(
            connection_text((#[trigger] urls[j])@, (#[trigger] names[i]).1@),
        )
}

/// Every endpoint has the pool size and the statement timeout of the
/// configuration.
pub open spec fn all_sized(
    connections: Seq<(String, Vec<Postgres>)>,
    max_connections: usize,
    query_timeout: u64,
) -> bool {
    forall|i: int, j: int|
        0 <= i < connections.len() && 0 <= j < connections[i].1@.len() ==> (
        #[trigger] connections[i].1@[j]).max_connections == max_connections
            && connections[i].1@[j].query_timeout == Some(query_timeout)
}

/// The endpoints of one database: one per endpoint address.
pub fn endpoints_of(config: &Config, db_name: &str) -> (r: Result<Vec<Postgres>, Error>)
    ensures
        match r {
            Ok(endpoints) => {
                &&& endpoints@.map_values(|endpoint: Postgres| endpoint.url@)
                    == config.db_urls@.map_values(|url: String| connection_text(url@, db_name@))
                &&& forall|j: int|
                    0 <= j < config.db_urls@.len() ==> accepts_connection_string(
                        connection_text((#[trigger] config.db_urls@[j])@, db_name@),
                    )
                &&& forall|j: int|
                    0 <= j < endpoints@.len() ==> (#[trigger] endpoints@[j]).max_connections
                        == config.db_max_connections && endpoints@[j].query_timeout == Some(
                        config.query_timeout,
                    )
            },
            Err(e) => e is PgError && exists|j: int|
                0 <= j < config.db_urls@.len() && !accepts_connection_string(
                    connection_text((#[trigger] config.db_urls@[j])@, db_name@),
                ),
        },
{
    let mut endpoints: Vec<Postgres> = Vec::new();
    let mut j: usize = 0;
    while j < config.db_urls.len()
        invariant
            j <= config.db_urls@.len(),
            endpoints@.len() == j,
            forall|k: int|
                0 <= k < j ==> (#[trigger] endpoints@[k]).url@ == connection_text(
                    config.db_urls@[k]@,
                    db_name@,
                ) && endpoints@[k].max_connections == config.db_max_connections
                    && endpoints@[k].query_timeout == Some(config.query_timeout),
            forall|k: int|
                0 <= k < j ==> accepts_connection_string(
                    connection_text((#[trigger] config.db_urls@[k])@, db_name@),
                ),
        decreases config.db_urls@.len() - j,
    {
        let text = around(config.db_urls[j].as_str(), "/", db_name);
        match Postgres::try_new(
            text.as_str(),
            config.db_max_connections,
            Some(config.query_timeout),
        ) {
            Ok(endpoint) => {
                endpoints.push(endpoint);
            },
            Err(e) => {
                return Err(e);
            },
        }
        j += 1;
    }
    assert(endpoints@.map_values(|endpoint: Postgres| endpoint.url@)
        =~= config.db_urls@.map_values(|url: String| connection_text(url@, db_name@)));
    Ok(endpoints)
}

/// The endpoints of every network of a configuration. They are made
/// exactly when the database driver reads every connection string.
pub fn connections_of(config: &Config) -> (r: Result<Vec<(String, Vec<Postgres>)>, Error>)
    ensures
        r is Ok <==> all_accepted(config.db_urls@, config.db_names@),
        r is Ok ==> endpoint_texts(r.unwrap()@) == wanted_texts(config.db_urls@, config.db_names@)
            && all_sized(r.unwrap()@, config.db_max_connections, config.query_timeout),
        r is Err ==> r->Err_0 is PgError,
{
    let mut connections: Vec<(String, Vec<Postgres>)> = Vec::new();
    let mut i: usize = 0;
    while i < config.db_names.len()
        invariant
            i <= config.db_names@.len(),
            connections@.len() == i,
            forall|k: int|
                0 <= k < i ==> (#[trigger] connections@[k]).0@ == config.db_names@[k].0@
                    && connections@[k].1@.map_values(|endpoint: Postgres| endpoint.url@)
                    == config.db_urls@.map_values(
                    |url: String| connection_text(url@, config.db_names@[k].1@),
                ),
            forall|k: int, j: int|
                0 <= k < i && 0 <= j < config.db_urls@.len() ==> accepts_connection_string(
                    connection_text(
                        (#[trigger] config.db_urls@[j])@,
                        (#[trigger] config.db_names@[k]).1@,
                    ),
                ),
            all_sized(connections@, config.db_max_connections, config.query_timeout),
        decreases config.db_names@.len() - i,
    {
        match endpoints_of(config, config.db_names[i].1.as_str()) {
            Ok(endpoints) => {
                let ghost before = connections@;
                connections.push((config.db_names[i].0.clone(), endpoints));
                assert forall|a: int, b: int|
                    0 <= a < connections@.len() && 0 <= b < connections@[a].1@.len() implies (
                #[trigger] connections@[a].1@[b]).max_connections == config.db_max_connections
                    && connections@[a].1@[b].query_timeout == Some(config.query_timeout) by {
                    if a < before.len() {
                        assert(connections@[a] == before[a]);
                    }
                }
            },
            Err(e) => {
                return Err(e);
            },
        }
        i += 1;
    }
    assert(endpoint_texts(connections@) =~= wanted_texts(config.db_urls@, config.db_names@));
    Ok(connections)
}

/// What the controller and the metering loop share.
#[derive(Debug)]
pub struct State {
    /// The registry that the scrape endpoint reads.
    pub registry: MetricRegistry,
    /// The counters.
    pub metrics: Metrics,
    /// The endpoints of every network, by network.
    pub pg_connections: Vec<(String, Vec<Postgres>)>,
}

impl State {
    /// Registers the counters with a registry that holds nothing else,
    /// and lists the endpoints of every network of the configuration.
    ///
    /// It succeeds exactly where the database driver reads every
    /// connection string of the configuration, and fails with a database
    /// failure where it does not read one of them. The counters are
    /// always made and registered.
    pub fn try_new(config: &Config) -> (r: Result<Self, Error>)
        ensures
            r is Ok <==> all_accepted(config.db_urls@, config.db_names@),
            r is Err ==> r->Err_0 is PgError,
            r is Ok ==> {
                &&& r.unwrap().metrics.wf()
                &&& r.unwrap().metrics.untouched()
                &&& r.unwrap().metrics.named()
                &&& r.unwrap().registry.families() == r.unwrap().metrics.names()
                &&& all_accepted(config.db_urls@, config.db_names@)
                &&& endpoint_texts(r.unwrap().pg_connections@) == wanted_texts(
                    config.db_urls@,
                    config.db_names@,
                )
                &&& all_sized(
                    r.unwrap().pg_connections@,
                    config.db_max_connections,
                    config.query_timeout,
                )
            },
    {
        let mut registry = MetricRegistry::new();
        let metrics = match Metrics::try_new() {
            Ok(metrics) => metrics,
            Err(e) => {
                return Err(e);
            },
        };
        let metrics = match metrics.register(&mut registry) {
            Ok(metrics) => metrics,
            Err(e) => {
                return Err(e);
            },
        };
        let pg_connections = match connections_of(config) {
            Ok(connections) => connections,
            Err(e) => {
                return Err(e);
            },
        };
        assert(registry.families() =~= metrics.names());
        Ok(State { registry, metrics, pg_connections })
    }

    /// The families of the registry that have a child, with the counts
    /// of their children, for the scrape endpoint: each has the name of
    /// a family that the registry holds, and they come sorted by name,
    /// none twice. A family has a child once a count of it was added to
    /// or read.
    pub fn metrics_collected(&self) -> (families: Vec<prometheus::proto::MetricFamily>)
        ensures
            gathered_from(families@, self.registry.families()),
    {
        self.registry.gather()
    }

    /// The endpoints configured for a network.
    pub open spec fn endpoints_of(&self, network: Seq<char>) -> Option<Vec<Postgres>> {
        last_value(self.pg_connections@, network)
    }

    /// The endpoints of a network, or a configuration failure that names
    /// the network where none are configured for it.
    pub fn get_pg_by_network(&self, network: &str) -> (r: Result<&Vec<Postgres>, Error>)
        ensures
            match r {
                Ok(endpoints) => self.endpoints_of(network@) == Some(*endpoints),
                Err(e) => self.endpoints_of(network@) is None && e is ConfigError
                    && e.message_text() == "postgres not configured to "@ + network@,
            },
    {
        match find_last(&self.pg_connections, network) {
            Some(i) => Ok(&self.pg_connections[i].1),
            None => {
                let mut message = String::from_str("postgres not configured to ");
                message.append(network);
                Err(Error::ConfigError(message))
            },
        }
    }
}

} // verus!
