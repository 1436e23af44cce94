//! The metering engine: it turns the cumulative execution-time counters
//! of the users into consumption units, once per reading, and never bills
//! what it cannot attribute.

use crate::config::Config;
use crate::controller::DbSyncPort;
use crate::error::Error;
use crate::counters::{child_key, wrapping_sum};
use crate::metrics::{counted, label_text, project_id, project_of, Metrics};
use crate::postgres::UserStatements;
use crate::rate::{consumption_units, Rate};
use crate::snapshot::{baseline_of, metered, UsageKey, UsageSnapshot};
use crate::text::texts_of;
use vstd::prelude::*;

verus! {

/// What one reading of one user came to.
#[derive(Debug, Clone, Copy, PartialEq, Eq, Structural)]
pub enum Metered {
    /// The first reading of the user: it is the baseline from now on.
    Seeded,
    /// The counter fell back, as after a restart of the database: the
    /// reading is the baseline from now on, and nothing is billed.
    Reset,
    /// The counter stood still: nothing to bill.
    Unchanged,
    /// The growth of the counter was billed for this many units, and the
    /// reading is the baseline from now on.
    Billed(u64),
    /// No provisioned resource of the network has this user: nothing is
    /// billed and the baseline stays, so that the growth can be billed
    /// once the resource is known.
    Unowned,
    /// No rate is configured for the network: a failure is counted,
    /// nothing is billed and the baseline stays.
    Unrated,
    /// The namespace of the resource names no project: a failure is
    /// counted, nothing is billed and the baseline stays.
    NoProject,
}

/// The position of the first provisioned resource of a network with a
/// user name, at or after `at`.
pub open spec fn owner_from(
    resources: Seq<DbSyncPort>,
    network: Seq<char>,
    username: Seq<char>,
    at: int,
) -> Option<int>
    decreases resources.len() - at,
{
    if at < 0 || at >= resources.len() {
        None
    } else if resources[at].status is Some && resources[at].status.unwrap().username@ == username
        && resources[at].spec.network@ == network {
        Some(at)
    } else {
        owner_from(resources, network, username, at + 1)
    }
}

/// The units billed for a growth at a rate, capped at the largest count
/// that a counter takes.
pub open spec fn billed_units(delta: u64, rate: Rate) -> u64 {
    if consumption_units(delta as nat, rate) <= u64::MAX {
        consumption_units(delta as nat, rate) as u64
    } else {
        u64::MAX
    }
}

/// What a reading comes to, given the baseline of the user, the
/// resource that owns the user, the rate of the network and the project
/// of the namespace of the resource.
///
/// A reading without a baseline seeds one. A reading below the baseline
/// resets it. A reading equal to the baseline changes nothing. A reading
/// above the baseline is billed for its growth, if there is an owner, a
/// rate and a project to bill it to, and is left alone otherwise.
pub open spec fn outcome_of(
    previous: Option<u64>,
    current: u64,
    owned: bool,
    rate: Option<Rate>,
    has_project: bool,
) -> Metered {
    match previous {
        None => Metered::Seeded,
        Some(p) => if current < p {
            Metered::Reset
        } else if current == p {
            Metered::Unchanged
        } else if !owned {
            Metered::Unowned
        } else if rate is None {
            Metered::Unrated
        } else if !has_project {
            Metered::NoProject
        } else {
            Metered::Billed(billed_units((current - p) as u64, rate.unwrap()))
        },
    }
}

/// Whether an outcome makes the reading the baseline of the user.
pub open spec fn moves_baseline(outcome: Metered) -> bool {
    outcome == Metered::Seeded || outcome == Metered::Reset || outcome == Metered::Unchanged
        || outcome is Billed
}

/// The message of the failure counted where no rate is configured for a
/// network.
pub open spec fn unrated_text(network: Seq<char>) -> Seq<char> {
    "dcu_per_second not configured to "@ + network + " network"@
}

/// The message of the failure counted where a namespace names no
/// project.
pub open spec fn no_project_text(namespace: Seq<char>) -> Seq<char> {
    "no project in namespace "@ + namespace
}

/// The position of the first provisioned resource of a network with a
/// user name.
pub fn find_owner(resources: &Vec<DbSyncPort>, network: &str, username: &str) -> (r: Option<usize>)
    ensures
        match r {
            Some(i) => i < resources@.len() && owner_from(resources@, network@, username@, 0)
                == Some(i as int),
            None => owner_from(resources@, network@, username@, 0) is None,
        },
{
    let wanted_network = String::from_str(network);
    let wanted_user = String::from_str(username);
    let mut i: usize = 0;
    while i < resources.len()
        invariant
            i <= resources@.len(),
            wanted_network@ == network@,
            wanted_user@ == username@,
            owner_from(resources@, network@, username@, 0) == owner_from(
                resources@,
                network@,
                username@,
                i as int,
            ),
        decreases resources@.len() - i,
    {
        let found = match &resources[i].status {
            Some(status) => status.username == wanted_user && resources[i].spec.network
                == wanted_network,
            None => false,
        };
        if found {
            return Some(i);
        }
        i += 1;
    }
    None
}

/// The users that are metered on a network: the user of every
/// provisioned resource of the network, in the order of the resources.
pub open spec fn metered_users(resources: Seq<DbSyncPort>, network: Seq<char>) -> Seq<Seq<char>>
    decreases resources.len(),
{
    if resources.len() == 0 {
        Seq::empty()
    } else {
        let before = metered_users(resources.drop_last(), network);
        let resource = resources.last();
        if resource.status is Some && resource.spec.network@ == network {
            before.push(resource.status.unwrap().username@)
        } else {
            before
        }
    }
}

/// The users to read on the endpoints of a network in one tick.
pub fn users_to_meter(resources: &Vec<DbSyncPort>, network: &str) -> (users: Vec<String>)
    ensures
        texts_of(users@) == metered_users(resources@, network@),
{
    let wanted_network = String::from_str(network);
    let mut users: Vec<String> = Vec::new();
    let mut i: usize = 0;
    assert(resources@.subrange(0, 0) =~= Seq::<DbSyncPort>::empty());
    assert(texts_of(users@) =~= Seq::<Seq<char>>::empty());
    while i < resources.len()
        invariant
            i <= resources@.len(),
            wanted_network@ == network@,
            texts_of(users@) == metered_users(resources@.subrange(0, i as int), network@),
        decreases resources@.len() - i,
    {
        let ghost before = texts_of(users@);
        assert(resources@.subrange(0, i + 1).drop_last() =~= resources@.subrange(0, i as int));
        assert(resources@.subrange(0, i + 1).last() == resources@[i as int]);
        match &resources[i].status {
            Some(status) => {
                if resources[i].spec.network == wanted_network {
                    users.push(status.username.clone());
                    assert(texts_of(users@) =~= before.push(status.username@));
                }
            },
            None => {},
        }
        i += 1;
    }
    assert(resources@.subrange(0, resources@.len() as int) =~= resources@);
    users
}

/// The execution time that an endpoint reports for a user, in
/// milliseconds: that of the row of the user, and zero where the
/// endpoint has no row for the user, who then has run no statement yet.
pub fn reading_of(row: &Option<UserStatements>) -> (ms: u64)
    ensures
        row is Some ==> ms == row.unwrap().total_exec_time,
        row is None ==> ms == 0,
{
    match row {
        Some(statements) => statements.total_exec_time,
        None => 0,
    }
}

/// The sum of the readings of the endpoints of a network, capped at the
/// largest value of a counter; nothing if one endpoint gave no reading,
/// since a sum without it would look like a counter that fell back.
pub open spec fn network_total(readings: Seq<Option<u64>>) -> Option<u64>
    decreases readings.len(),
{
    if readings.len() == 0 {
        Some(0)
    } else {
        match (network_total(readings.drop_last()), readings.last()) {
            (Some(sum), Some(reading)) => Some(
                if sum + reading <= u64::MAX {
                    (sum + reading) as u64
                } else {
                    u64::MAX
                },
            ),
            _ => None,
        }
    }
}

/// A total is missing as soon as one of its prefixes is.
pub proof fn lemma_network_total_prefix(readings: Seq<Option<u64>>, k: int)
    requires
        0 <= k <= readings.len(),
        network_total(readings.subrange(0, k)) is None,
    ensures
        network_total(readings) is None,
    decreases readings.len(),
{
    if k == readings.len() {
        assert(readings.subrange(0, k) =~= readings);
    } else {
        assert(readings.drop_last().subrange(0, k) =~= readings.subrange(0, k));
        lemma_network_total_prefix(readings.drop_last(), k);
    }
}

/// Adds up the readings that the endpoints of a network gave for one
/// user.
pub fn total_of_endpoints(readings: &Vec<Option<u64>>) -> (r: Option<u64>)
    ensures
        r == network_total(readings@),
{
    let mut sum: u64 = 0;
    let mut i: usize = 0;
    assert(readings@.subrange(0, 0) =~= Seq::<Option<u64>>::empty());
    while i < readings.len()
        invariant
            i <= readings@.len(),
            network_total(readings@.subrange(0, i as int)) == Some(sum),
        decreases readings@.len() - i,
    {
        let ghost upto = readings@.subrange(0, i + 1);
        proof {
            assert(upto.drop_last() =~= readings@.subrange(0, i as int));
            assert(upto.last() == readings@[i as int]);
        }
        match readings[i] {
            Some(reading) => {
                sum = if sum > u64::MAX - reading {
                    u64::MAX
                } else {
                    sum + reading
                };
            },
            None => {
                proof {
                    lemma_network_total_prefix(readings@, i + 1);
                }
                return None;
            },
        }
        i += 1;
    }
    assert(readings@.subrange(0, i as int) =~= readings@);
    Some(sum)
}

/// The metering engine. It owns the usage snapshot, which starts empty
/// and lives as long as the process.
pub struct MeteringEngine {
    snapshot: UsageSnapshot,
}

impl MeteringEngine {
    /// The baselines held, by network and user name.
    pub closed spec fn view(&self) -> Map<UsageKey, u64> {
        self.snapshot@
    }

    /// The engine keeps one baseline per user and network.
    pub closed spec fn wf(&self) -> bool {
        self.snapshot.wf()
    }

    /// An engine without baselines: the first reading of every user only
    /// seeds one.
    pub fn new() -> (engine: MeteringEngine)
        ensures
            engine.wf(),
            engine@ == Map::<UsageKey, u64>::empty(),
    {
        MeteringEngine { snapshot: UsageSnapshot::new() }
    }

    /// The baseline of a user of a network, if there is one.
    pub fn baseline(&self, network: &str, username: &str) -> (r: Option<u64>)
        requires
            self.wf(),
        ensures
            r == baseline_of(self@, (network@, username@)),
    {
        self.snapshot.get(network, username)
    }

    /// Meters one reading of one user of a network: the cumulative
    /// execution time of its statements, in milliseconds.
    ///
    /// The owner of the user is the first provisioned resource of the
    /// network with that user name. A growth of the counter is billed at
    /// the rate of the network, rounded up to a whole unit, under the
    /// project of the namespace of the owner, the network, the name of
    /// the owner and its tier. Where the growth cannot be billed, the
    /// baseline stays as it is.
    pub fn meter(
        &mut self,
        network: &str,
        statements: &UserStatements,
        resources: &Vec<DbSyncPort>,
        config: &Config,
        metrics: &mut Metrics,
    ) -> (outcome: Metered)
        requires
            old(self).wf(),
            old(metrics).wf(),
            config.wf(),
        ensures
            final(self).wf(),
            final(metrics).wf(),
            ({
                let key = (network@, statements.usename@);
                let owner = owner_from(resources@, network@, statements.usename@, 0);
                let namespace = if owner is Some {
                    resources@[owner.unwrap()].namespace@
                } else {
                    Seq::empty()
                };
                &&& outcome == outcome_of(
                    baseline_of(old(self)@, key),
                    statements.total_exec_time,
                    owner is Some,
                    config.rate_of(network@),
                    project_of(namespace) is Some,
                )
                &&& final(self)@ == if moves_baseline(outcome) {
                    old(self)@.insert(key, statements.total_exec_time)
                } else {
                    old(self)@
                }
                &&& match outcome {
                    Metered::Billed(units) => {
                        &&& counted(
                            old(metrics).dcu,
                            final(metrics).dcu,
                            seq![
                                project_of(namespace).unwrap(),
                                network@,
                                resources@[owner.unwrap()].name@,
                                resources@[owner.unwrap()].tier_text(),
                            ],
                            units,
                        )
                        &&& final(metrics).metrics_failures == old(metrics).metrics_failures
                    },
                    Metered::Unrated => {
                        &&& counted(
                            old(metrics).metrics_failures,
                            final(metrics).metrics_failures,
                            seq![label_text("ConfigError"@, unrated_text(network@))],
                            1,
                        )
                        &&& final(metrics).dcu == old(metrics).dcu
                    },
                    Metered::NoProject => {
                        &&& counted(
                            old(metrics).metrics_failures,
                            final(metrics).metrics_failures,
                            seq![label_text("ConfigError"@, no_project_text(namespace))],
                            1,
                        )
                        &&& final(metrics).dcu == old(metrics).dcu
                    },
                    _ => final(metrics).dcu == old(metrics).dcu && final(metrics).metrics_failures
                        == old(metrics).metrics_failures,
                }
            }),
            final(metrics).users_created == old(metrics).users_created,
            final(metrics).users_dropped == old(metrics).users_dropped,
            final(metrics).reconcile_failures == old(metrics).reconcile_failures,
    {
        let username = statements.usename.as_str();
        let current = statements.total_exec_time;
        let previous = match self.snapshot.get(network, username) {
            Some(p) => p,
            None => {
                self.snapshot.observe(network, username, current);
                return Metered::Seeded;
            },
        };
        if current < previous {
            self.snapshot.observe(network, username, current);
            return Metered::Reset;
        }
        if current == previous {
            self.snapshot.observe(network, username, current);
            return Metered::Unchanged;
        }
        let owner = match find_owner(resources, network, username) {
            Some(i) => &resources[i],
            None => {
                return Metered::Unowned;
            },
        };
        let rate = match config.rate(network) {
            Some(rate) => rate,
            None => {
                let mut message = String::from_str("dcu_per_second not configured to ");
                message.append(network);
                message.append(" network");
                metrics.metrics_failure(&Error::ConfigError(message));
                return Metered::Unrated;
            },
        };
        if project_id(owner.namespace.as_str()).is_none() {
            let mut message = String::from_str("no project in namespace ");
            message.append(owner.namespace.as_str());
            metrics.metrics_failure(&Error::ConfigError(message));
            return Metered::NoProject;
        }
        let units = rate.consumption(current - previous);
        let tier = owner.tier();
        metrics.count_dcu_consumed(
            owner.namespace.as_str(),
            network,
            owner.name.as_str(),
            tier.as_str(),
            units,
        );
        self.snapshot.observe(network, username, current);
        Metered::Billed(units)
    }

    /// One metering cycle for one network: meters the reading of every
    /// user in turn and says what each came to. A reading that cannot be
    /// billed does not stop the others.
    pub fn tick(
        &mut self,
        network: &str,
        readings: &Vec<UserStatements>,
        resources: &Vec<DbSyncPort>,
        config: &Config,
        metrics: &mut Metrics,
    ) -> (outcomes: Vec<Metered>)
        requires
            old(self).wf(),
            old(metrics).wf(),
            config.wf(),
        ensures
            final(self).wf(),
            final(metrics).wf(),
            outcomes@ == tick_outcomes(old(self)@, network@, readings@, resources@, *config),
            final(self)@ == tick_baselines(old(self)@, network@, readings@, resources@, *config),
            final(metrics).dcu.values() == tick_counts(
                old(metrics).dcu.values(),
                true,
                old(self)@,
                network@,
                readings@,
                resources@,
                *config,
            ),
            final(metrics).metrics_failures.values() == tick_counts(
                old(metrics).metrics_failures.values(),
                false,
                old(self)@,
                network@,
                readings@,
                resources@,
                *config,
            ),
            final(metrics).users_created == old(metrics).users_created,
            final(metrics).users_dropped == old(metrics).users_dropped,
            final(metrics).reconcile_failures == old(metrics).reconcile_failures,
    {
        let mut outcomes: Vec<Metered> = Vec::new();
        let mut i: usize = 0;
        let ghost start = self@;
        let ghost start_dcu = metrics.dcu.values();
        let ghost start_failures = metrics.metrics_failures.values();
        assert(readings@.subrange(0, 0) =~= Seq::<UserStatements>::empty());
        while i < readings.len()
            invariant
                i <= readings@.len(),
                self.wf(),
                metrics.wf(),
                config.wf(),
                metrics.dcu.values() == tick_counts(
                    start_dcu,
                    true,
                    start,
                    network@,
                    readings@.subrange(0, i as int),
                    resources@,
                    *config,
                ),
                metrics.metrics_failures.values() == tick_counts(
                    start_failures,
                    false,
                    start,
                    network@,
                    readings@.subrange(0, i as int),
                    resources@,
                    *config,
                ),
                outcomes@ == tick_outcomes(
                    start,
                    network@,
                    readings@.subrange(0, i as int),
                    resources@,
                    *config,
                ),
                self@ == tick_baselines(
                    start,
                    network@,
                    readings@.subrange(0, i as int),
                    resources@,
                    *config,
                ),
                metrics.users_created == old(metrics).users_created,
                metrics.users_dropped == old(metrics).users_dropped,
                metrics.reconcile_failures == old(metrics).reconcile_failures,
            decreases readings@.len() - i,
        {
            let ghost upto = readings@.subrange(0, i + 1);
            proof {
                assert(upto.drop_last() =~= readings@.subrange(0, i as int));
                assert(upto.last() == readings@[i as int]);
            }
            let outcome = self.meter(network, &readings[i], resources, config, metrics);
            outcomes.push(outcome);
            i += 1;
        }
        assert(readings@.subrange(0, i as int) =~= readings@);
        outcomes
    }
}

/// What one reading comes to against given baselines.
pub open spec fn reading_outcome(
    baselines: Map<UsageKey, u64>,
    network: Seq<char>,
    reading: UserStatements,
    resources: Seq<DbSyncPort>,
    config: Config,
) -> Metered {
    let owner = owner_from(resources, network, reading.usename@, 0);
    let namespace = if owner is Some {
        resources[owner.unwrap()].namespace@
    } else {
        Seq::empty()
    };
    outcome_of(
        baseline_of(baselines, (network, reading.usename@)),
        reading.total_exec_time,
        owner is Some,
        config.rate_of(network),
        project_of(namespace) is Some,
    )
}

/// The baselines after a cycle over some readings.
pub open spec fn tick_baselines(
    baselines: Map<UsageKey, u64>,
    network: Seq<char>,
    readings: Seq<UserStatements>,
    resources: Seq<DbSyncPort>,
    config: Config,
) -> Map<UsageKey, u64>
    decreases readings.len(),
{
    if readings.len() == 0 {
        baselines
    } else {
        let before = tick_baselines(baselines, network, readings.drop_last(), resources, config);
        let outcome = reading_outcome(before, network, readings.last(), resources, config);
        if moves_baseline(outcome) {
            before.insert((network, readings.last().usename@), readings.last().total_exec_time)
        } else {
            before
        }
    }
}

/// What the readings of a cycle come to, in order.
pub open spec fn tick_outcomes(
    baselines: Map<UsageKey, u64>,
    network: Seq<char>,
    readings: Seq<UserStatements>,
    resources: Seq<DbSyncPort>,
    config: Config,
) -> Seq<Metered>
    decreases readings.len(),
{
    if readings.len() == 0 {
        Seq::empty()
    } else {
        let before = tick_baselines(baselines, network, readings.drop_last(), resources, config);
        tick_outcomes(baselines, network, readings.drop_last(), resources, config).push(
            reading_outcome(before, network, readings.last(), resources, config),
        )
    }
}

/// What a reading adds to the consumption counters, if `billing`, or to
/// the counters of metering failures, if not: the labels it is counted
/// under and the amount, or nothing where its outcome counts nothing
/// there.
pub open spec fn reading_count(
    billing: bool,
    outcome: Metered,
    network: Seq<char>,
    reading: UserStatements,
    resources: Seq<DbSyncPort>,
) -> Option<(Seq<Seq<char>>, u64)> {
    let owner = owner_from(resources, network, reading.usename@, 0);
    match outcome {
        Metered::Billed(units) => if billing {
            Some(
                (
                    seq![
                        project_of(resources[owner.unwrap()].namespace@).unwrap(),
                        network,
                        resources[owner.unwrap()].name@,
                        resources[owner.unwrap()].tier_text(),
                    ],
                    units,
                ),
            )
        } else {
            None
        },
        Metered::Unrated => if billing {
            None
        } else {
            Some((seq![label_text("ConfigError"@, unrated_text(network))], 1u64))
        },
        Metered::NoProject => if billing {
            None
        } else {
            Some(
                (
                    seq![
                        label_text(
                            "ConfigError"@,
                            no_project_text(resources[owner.unwrap()].namespace@),
                        ),
                    ],
                    1u64,
                ),
            )
        },
        _ => None,
    }
}

/// The counts of a family after a cycle over some readings: those of
/// the consumption counters, if `billing`, or those of the counters of
/// metering failures, if not.
pub open spec fn tick_counts(
    counts: Map<u64, u64>,
    billing: bool,
    baselines: Map<UsageKey, u64>,
    network: Seq<char>,
    readings: Seq<UserStatements>,
    resources: Seq<DbSyncPort>,
    config: Config,
) -> Map<u64, u64>
    decreases readings.len(),
{
    if readings.len() == 0 {
        counts
    } else {
        let earlier = readings.drop_last();
        let before = tick_counts(counts, billing, baselines, network, earlier, resources, config);
        let outcome = reading_outcome(
            tick_baselines(baselines, network, earlier, resources, config),
            network,
            readings.last(),
            resources,
            config,
        );
        match reading_count(billing, outcome, network, readings.last(), resources) {
            Some((labels, amount)) => before.insert(
                child_key(labels),
                wrapping_sum(before[child_key(labels)], amount),
            ),
            None => before,
        }
    }
}

/// The engine bills the deltas that a snapshot meters: a reading is
/// billed exactly where the snapshot meters a delta for it and there is
/// an owner, a rate and a project to bill it to, and it is then billed
/// for the units of that delta at the rate. So what is said of the
/// deltas emitted for a sequence of readings holds of what the engine
/// bills for them.
pub proof fn lemma_billed_is_metered(
    previous: Option<u64>,
    current: u64,
    owned: bool,
    rate: Option<Rate>,
    has_project: bool,
)
    ensures
        outcome_of(previous, current, owned, rate, has_project) is Billed <==> metered(
            previous,
            current,
        ) is Some && owned && rate is Some && has_project,
        outcome_of(previous, current, owned, rate, has_project) is Billed ==> outcome_of(
            previous,
            current,
            owned,
            rate,
            has_project,
        ) == Metered::Billed(billed_units(metered(previous, current).unwrap(), rate.unwrap())),
{
}

/// Nothing is billed without growth, and billing follows the growth:
/// a reading is billed only above its baseline, for the rounded-up
/// product of its growth and the rate, and then becomes the baseline, so
/// that the same growth is never billed again.
pub proof fn lemma_billing_follows_growth(
    previous: Option<u64>,
    current: u64,
    owned: bool,
    rate: Option<Rate>,
    has_project: bool,
)
    ensures
        outcome_of(previous, current, owned, rate, has_project) is Billed ==> previous is Some
            && current > previous.unwrap() && owned && rate is Some && has_project,
        previous is Some && current <= previous.unwrap() ==> !(outcome_of(
            previous,
            current,
            owned,
            rate,
            has_project,
        ) is Billed),
        outcome_of(Some(current), current, owned, rate, has_project) == Metered::Unchanged,
{
}

} // verus!
