//! The startup configuration: its settings, and how they are read from
//! the variables of the environment.

use crate::error::Error;
use crate::rate::{parse_rate_spec, Rate};
use crate::text::{parse_u64, parse_u64_spec, split, split_text, texts_of};
use vstd::prelude::*;

verus! {

/// The pool size used when none is configured.
pub const DEFAULT_MAX_CONNECTIONS: usize = 2;

/// The statement timeout, in milliseconds, used when none is configured.
pub const DEFAULT_QUERY_TIMEOUT: u64 = 12000;

/// The value that a list of named values holds for a name: that of the
/// last entry with the name, as in a map filled in order.
pub open spec fn last_value<V>(pairs: Seq<(String, V)>, name: Seq<char>) -> Option<V>
    decreases pairs.len(),
{
    if pairs.len() == 0 {
        None
    } else if pairs.last().0@ == name {
        Some(pairs.last().1)
    } else {
        last_value(pairs.drop_last(), name)
    }
}

/// The position of the last entry with a name.
pub fn find_last<V>(pairs: &Vec<(String, V)>, name: &str) -> (r: Option<usize>)
    ensures
        match r {
            Some(i) => i < pairs@.len() && pairs@[i as int].0@ == name@ && last_value(pairs@, name@)
                == Some(pairs@[i as int].1),
            None => last_value(pairs@, name@) is None,
        },
{
    let wanted = String::from_str(name);
    let mut i: usize = pairs.len();
    assert(pairs@.subrange(0, i as int) =~= pairs@);
    while i > 0
        invariant
            i <= pairs@.len(),
            wanted@ == name@,
            last_value(pairs@, name@) == last_value(pairs@.subrange(0, i as int), name@),
        decreases i,
    {
        let ghost head = pairs@.subrange(0, i as int);
        assert(head.last() == pairs@[i - 1]);
        assert(head.drop_last() =~= pairs@.subrange(0, i - 1));
        if pairs[i - 1].0 == wanted {
            return Some(i - 1);
        }
        i -= 1;
    }
    None
}

/// The settings of the controller, read once at startup.
pub struct Config {
    /// The address of each database endpoint, without a database name.
    pub db_urls: Vec<String>,
    /// The database that serves each network, by network.
    pub db_names: Vec<(String, String)>,
    /// The size of the connection pool of each endpoint.
    pub db_max_connections: usize,
    /// The consumption rate of each network, by network.
    pub dcu_per_second: Vec<(String, Rate)>,
    /// The seconds between two metering cycles.
    pub metrics_delay: u64,
    /// The milliseconds after which a statement of a user is cancelled.
    pub query_timeout: u64,
}

/// The settings as contracts see them.
pub struct ConfigView {
    pub db_urls: Seq<Seq<char>>,
    pub db_names: Seq<(Seq<char>, Seq<char>)>,
    pub db_max_connections: usize,
    pub dcu_per_second: Seq<(Seq<char>, Rate)>,
    pub metrics_delay: u64,
    pub query_timeout: u64,
}

/// A `NAME=VALUE` pair: the text before the first `=` and the text
/// between the first and the second, or nothing without a `=`.
pub open spec fn pair_of(text: Seq<char>) -> Option<(Seq<char>, Seq<char>)> {
    let parts = split_text(text, '=');
    if parts.len() >= 2 {
        Some((parts[0], parts[1]))
    } else {
        None
    }
}

/// The pairs of a comma-separated list of `NAME=VALUE`, or nothing where
/// an item has no `=`.
pub open spec fn name_pairs(items: Seq<Seq<char>>) -> Option<Seq<(Seq<char>, Seq<char>)>>
    decreases items.len(),
{
    if items.len() == 0 {
        Some(Seq::empty())
    } else {
        match (name_pairs(items.drop_last()), pair_of(items.last())) {
            (Some(before), Some(pair)) => Some(before.push(pair)),
            _ => None,
        }
    }
}

/// The rates of a list of `NETWORK=NUMBER` pairs, or nothing where a
/// number is not a rate.
pub open spec fn rate_pairs(pairs: Seq<(Seq<char>, Seq<char>)>) -> Option<Seq<(Seq<char>, Rate)>>
    decreases pairs.len(),
{
    if pairs.len() == 0 {
        Some(Seq::empty())
    } else {
        match (rate_pairs(pairs.drop_last()), parse_rate_spec(pairs.last().1)) {
            (Some(before), Some(rate)) => Some(before.push((pairs.last().0, rate))),
            _ => None,
        }
    }
}

/// The views of a list of text pairs.
pub open spec fn pair_texts(pairs: Seq<(String, String)>) -> Seq<(Seq<char>, Seq<char>)> {
    pairs.map_values(|p: (String, String)| (p.0@, p.1@))
}

/// The views of a list of rates by network.
pub open spec fn rate_texts(pairs: Seq<(String, Rate)>) -> Seq<(Seq<char>, Rate)> {
    pairs.map_values(|p: (String, Rate)| (p.0@, p.1))
}

/// The value of a variable of the environment.
pub open spec fn var_of(vars: Seq<(String, String)>, name: Seq<char>) -> Option<Seq<char>> {
    match last_value(vars, name) {
        Some(value) => Some(value@),
        None => None,
    }
}

/// The number of a setting that holds a pool size.
pub open spec fn pool_size_of(text: Seq<char>) -> Option<usize> {
    match parse_u64_spec(text) {
        Some(n) if n <= usize::MAX => Some(n as usize),
        _ => None,
    }
}

/// What the environment configures: the settings, or the message of the
/// first setting, in the order below, that is missing or malformed.
pub open spec fn config_of(vars: Seq<(String, String)>) -> Result<ConfigView, Seq<char>> {
    let urls = var_of(vars, "DB_URLS"@);
    let names = var_of(vars, "DB_NAMES"@);
    let pool = var_of(vars, "DB_MAX_CONNECTIONS"@);
    let rates = var_of(vars, "DCU_PER_SECOND"@);
    let delay = var_of(vars, "METRICS_DELAY"@);
    let timeout = var_of(vars, "QUERY_TIMEOUT"@);
    if urls is None {
        Err("DB_URLS must be set"@)
    } else if names is None {
        Err("DB_NAMES must be set"@)
    } else if name_pairs(split_text(names.unwrap(), ',')) is None {
        Err("DB_NAMES must be NETWORK=NAME"@)
    } else if pool is Some && pool_size_of(pool.unwrap()) is None {
        Err("DB_MAX_CONNECTIONS must be number usize"@)
    } else if rates is None {
        Err("DCU_PER_SECOND must be set"@)
    } else if name_pairs(split_text(rates.unwrap(), ',')) is None || rate_pairs(
        name_pairs(split_text(rates.unwrap(), ',')).unwrap(),
    ) is None {
        Err("DCU_PER_SECOND must be NETWORK=NUMBER"@)
    } else if delay is None {
        Err("METRICS_DELAY must be set"@)
    } else if parse_u64_spec(delay.unwrap()) is None {
        Err("METRICS_DELAY must be a number"@)
    } else if timeout is Some && parse_u64_spec(timeout.unwrap()) is None {
        Err("QUERY_TIMEOUT must be a number"@)
    } else {
        Ok(
            ConfigView {
                db_urls: split_text(urls.unwrap(), ','),
                db_names: name_pairs(split_text(names.unwrap(), ',')).unwrap(),
                db_max_connections: if pool is Some {
                    pool_size_of(pool.unwrap()).unwrap()
                } else {
                    DEFAULT_MAX_CONNECTIONS
                },
                dcu_per_second: rate_pairs(
                    name_pairs(split_text(rates.unwrap(), ',')).unwrap(),
                ).unwrap(),
                metrics_delay: parse_u64_spec(delay.unwrap()).unwrap(),
                query_timeout: if timeout is Some {
                    parse_u64_spec(timeout.unwrap()).unwrap()
                } else {
                    DEFAULT_QUERY_TIMEOUT
                },
            },
        )
    }
}

/// Reads the `NAME=VALUE` pairs of a list of items.
pub fn read_pairs(items: &Vec<String>) -> (r: Option<Vec<(String, String)>>)
    ensures
        match r {
            Some(pairs) => name_pairs(texts_of(items@)) == Some(pair_texts(pairs@)),
            None => name_pairs(texts_of(items@)) is None,
        },
{
    let mut pairs: Vec<(String, String)> = Vec::new();
    let mut i: usize = 0;
    assert(texts_of(items@).subrange(0, 0) =~= Seq::empty());
    assert(pair_texts(pairs@) =~= Seq::empty());
    while i < items.len()
        invariant
            i <= items@.len(),
            name_pairs(texts_of(items@).subrange(0, i as int)) == Some(pair_texts(pairs@)),
        decreases items@.len() - i,
    {
        let ghost upto = texts_of(items@).subrange(0, i + 1);
        proof {
            assert(upto.drop_last() =~= texts_of(items@).subrange(0, i as int));
            assert(upto.last() == items@[i as int]@);
        }
        let mut parts = split(items[i].as_str(), '=');
        if parts.len() < 2 {
            proof {
                lemma_name_pairs_prefix(texts_of(items@), i + 1);
            }
            return None;
        }
        let ghost texts = texts_of(parts@);
        assert(texts[0] == parts@[0]@ && texts[1] == parts@[1]@);
        let value = parts.swap_remove(1);
        let name = parts.swap_remove(0);
        let ghost before = pairs@;
        pairs.push((name, value));
        proof {
            assert(pair_texts(pairs@) =~= pair_texts(before).push((name@, value@)));
        }
        i += 1;
    }
    assert(texts_of(items@).subrange(0, i as int) =~= texts_of(items@));
    Some(pairs)
}

/// A list of items has no pairs where one of its prefixes has none.
pub proof fn lemma_name_pairs_prefix(items: Seq<Seq<char>>, k: int)
    requires
        0 <= k <= items.len(),
        name_pairs(items.subrange(0, k)) is None,
    ensures
        name_pairs(items) is None,
    decreases items.len(),
{
    if k == items.len() {
        assert(items.subrange(0, k) =~= items);
    } else {
        assert(items.drop_last().subrange(0, k) =~= items.subrange(0, k));
        lemma_name_pairs_prefix(items.drop_last(), k);
    }
}

/// A list of pairs has no rates where one of its prefixes has none.
pub proof fn lemma_rate_pairs_prefix(pairs: Seq<(Seq<char>, Seq<char>)>, k: int)
    requires
        0 <= k <= pairs.len(),
        rate_pairs(pairs.subrange(0, k)) is None,
    ensures
        rate_pairs(pairs) is None,
    decreases pairs.len(),
{
    if k == pairs.len() {
        assert(pairs.subrange(0, k) =~= pairs);
    } else {
        assert(pairs.drop_last().subrange(0, k) =~= pairs.subrange(0, k));
        lemma_rate_pairs_prefix(pairs.drop_last(), k);
    }
}

/// Reads the rates of a list of `NETWORK=NUMBER` pairs.
pub fn read_rates(pairs: &Vec<(String, String)>) -> (r: Option<Vec<(String, Rate)>>)
    ensures
        match r {
            Some(rates) => rate_pairs(pair_texts(pairs@)) == Some(rate_texts(rates@)) && forall|
                i: int,
            |
                0 <= i < rates@.len() ==> (#[trigger] rates@[i]).1.wf(),
            None => rate_pairs(pair_texts(pairs@)) is None,
        },
{
    let mut rates: Vec<(String, Rate)> = Vec::new();
    let ghost texts = pair_texts(pairs@);
    let mut i: usize = 0;
    while i < pairs.len()
        invariant
            i <= pairs@.len(),
            texts == pair_texts(pairs@),
            rates@.len() == i,
            forall|j: int|
                0 <= j < rates@.len() ==> (#[trigger] rates@[j]).0@ == pairs@[j].0@
                    && parse_rate_spec(pairs@[j].1@) == Some(rates@[j].1) && rates@[j].1.wf(),
        decreases pairs@.len() - i,
    {
        match Rate::parse(pairs[i].1.as_str()) {
            None => {
                proof {
                    let upto = texts.subrange(0, i + 1);
                    assert(upto.last() == (pairs@[i as int].0@, pairs@[i as int].1@));
                    assert(rate_pairs(upto) is None);
                    lemma_rate_pairs_prefix(texts, i + 1);
                }
                return None;
            },
            Some(rate) => {
                rates.push((pairs[i].0.clone(), rate));
            },
        }
        i += 1;
    }
    proof {
        lemma_rates_read(texts, rate_texts(rates@));
    }
    Some(rates)
}

/// Pairs whose numbers all read as rates have those rates, in order.
pub proof fn lemma_rates_read(pairs: Seq<(Seq<char>, Seq<char>)>, rates: Seq<(Seq<char>, Rate)>)
    requires
        pairs.len() == rates.len(),
        forall|j: int|
            0 <= j < rates.len() ==> (#[trigger] rates[j]).0 == pairs[j].0 && parse_rate_spec(
                pairs[j].1,
            ) == Some(rates[j].1),
    ensures
        rate_pairs(pairs) == Some(rates),
    decreases pairs.len(),
{
    if pairs.len() > 0 {
        lemma_rates_read(pairs.drop_last(), rates.drop_last());
        assert(rates.drop_last().push((pairs.last().0, rates.last().1)) =~= rates);
    } else {
        assert(rates =~= Seq::empty());
    }
}

impl Config {
    /// The settings as contracts see them.
    pub open spec fn view(&self) -> ConfigView {
        ConfigView {
            db_urls: texts_of(self.db_urls@),
            db_names: pair_texts(self.db_names@),
            db_max_connections: self.db_max_connections,
            dcu_per_second: rate_texts(self.dcu_per_second@),
            metrics_delay: self.metrics_delay,
            query_timeout: self.query_timeout,
        }
    }

    /// Every configured rate is a fraction with a denominator.
    pub open spec fn wf(&self) -> bool {
        forall|i: int|
            0 <= i < self.dcu_per_second@.len() ==> (#[trigger] self.dcu_per_second@[i]).1.wf()
    }

    /// The rate configured for a network.
    pub open spec fn rate_of(&self, network: Seq<char>) -> Option<Rate> {
        last_value(self.dcu_per_second@, network)
    }

    /// The database configured for a network.
    pub open spec fn db_name_of(&self, network: Seq<char>) -> Option<Seq<char>> {
        match last_value(self.db_names@, network) {
            Some(name) => Some(name@),
            None => None,
        }
    }

    /// The consumption rate of a network, if one is configured.
    pub fn rate(&self, network: &str) -> (r: Option<Rate>)
        ensures
            r == self.rate_of(network@),
            self.wf() && r is Some ==> r.unwrap().wf(),
    {
        match find_last(&self.dcu_per_second, network) {
            Some(i) => Some(self.dcu_per_second[i].1),
            None => None,
        }
    }

    /// Reads the settings from the variables of the environment, given
    /// as pairs of name and value.
    ///
    /// `DB_URLS` is a comma-separated list of endpoint addresses;
    /// `DB_NAMES` and `DCU_PER_SECOND` are comma-separated lists of
    /// `NETWORK=VALUE`; `METRICS_DELAY` is a number of seconds. The pool
    /// size `DB_MAX_CONNECTIONS` and the statement timeout
    /// `QUERY_TIMEOUT`, in milliseconds, may be left out.
    pub fn from_env(vars: &Vec<(String, String)>) -> (r: Result<Config, Error>)
        ensures
            match r {
                Ok(config) => config_of(vars@) == Ok::<ConfigView, Seq<char>>(config@)
                    && config.wf(),
                Err(e) => e is ConfigError && config_of(vars@) == Err::<ConfigView, Seq<char>>(
                    e.message_text(),
                ),
            },
    {
        let urls = match find_last(vars, "DB_URLS") {
            Some(i) => split(vars[i].1.as_str(), ','),
            None => {
                return Err(Error::ConfigError(String::from_str("DB_URLS must be set")));
            },
        };
        let names = match find_last(vars, "DB_NAMES") {
            Some(i) => {
                let items = split(vars[i].1.as_str(), ',');
                match read_pairs(&items) {
                    Some(pairs) => pairs,
                    None => {
                        return Err(
                            Error::ConfigError(String::from_str("DB_NAMES must be NETWORK=NAME")),
                        );
                    },
                }
            },
            None => {
                return Err(Error::ConfigError(String::from_str("DB_NAMES must be set")));
            },
        };
        let pool: usize = match find_last(vars, "DB_MAX_CONNECTIONS") {
            Some(i) => match parse_u64(vars[i].1.as_str()) {
                Some(n) if n <= usize::MAX as u64 => n as usize,
                _ => {
                    return Err(
                        Error::ConfigError(
                            String::from_str("DB_MAX_CONNECTIONS must be number usize"),
                        ),
                    );
                },
            },
            None => DEFAULT_MAX_CONNECTIONS,
        };
        let rates = match find_last(vars, "DCU_PER_SECOND") {
            Some(i) => {
                let items = split(vars[i].1.as_str(), ',');
                let pairs = match read_pairs(&items) {
                    Some(pairs) => pairs,
                    None => {
                        return Err(
                            Error::ConfigError(
                                String::from_str("DCU_PER_SECOND must be NETWORK=NUMBER"),
                            ),
                        );
                    },
                };
                match read_rates(&pairs) {
                    Some(rates) => rates,
                    None => {
                        return Err(
                            Error::ConfigError(
                                String::from_str("DCU_PER_SECOND must be NETWORK=NUMBER"),
                            ),
                        );
                    },
                }
            },
            None => {
                return Err(Error::ConfigError(String::from_str("DCU_PER_SECOND must be set")));
            },
        };
        let delay: u64 = match find_last(vars, "METRICS_DELAY") {
            Some(i) => match parse_u64(vars[i].1.as_str()) {
                Some(n) => n,
                None => {
                    return Err(
                        Error::ConfigError(String::from_str("METRICS_DELAY must be a number")),
                    );
                },
            },
            None => {
                return Err(Error::ConfigError(String::from_str("METRICS_DELAY must be set")));
            },
        };
        let timeout: u64 = match find_last(vars, "QUERY_TIMEOUT") {
            Some(i) => match parse_u64(vars[i].1.as_str()) {
                Some(n) => n,
                None => {
                    return Err(
                        Error::ConfigError(String::from_str("QUERY_TIMEOUT must be a number")),
                    );
                },
            },
            None => DEFAULT_QUERY_TIMEOUT,
        };
        Ok(
            Config {
                db_urls: urls,
                db_names: names,
                db_max_connections: pool,
                dcu_per_second: rates,
                metrics_delay: delay,
                query_timeout: timeout,
            },
        )
    }
}

} // verus!
