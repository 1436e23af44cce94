//! The usage snapshot: the last cumulative execution-time counter seen for
//! each user of each network, and the rule that turns a new reading into
//! a billable delta.

use vstd::prelude::*;

verus! {

/// The key of a snapshot entry: the network and the user name.
pub type UsageKey = (Seq<char>, Seq<char>);

/// One baseline: the cumulative execution time, in milliseconds, last
/// seen for a user on a network.
pub struct UsageEntry {
    pub network: String,
    pub username: String,
    pub total_ms: u64,
}

/// The key under which an entry is kept.
pub open spec fn key_of(e: UsageEntry) -> UsageKey {
    (e.network@, e.username@)
}

/// Whether some entry is kept under `k`.
pub open spec fn has_key(es: Seq<UsageEntry>, k: UsageKey) -> bool {
    exists|i: int| 0 <= i < es.len() && key_of(#[trigger] es[i]) == k
}

/// The position of an entry kept under `k`.
pub open spec fn slot_of(es: Seq<UsageEntry>, k: UsageKey) -> int {
    choose|i: int| 0 <= i < es.len() && key_of(#[trigger] es[i]) == k
}

/// No two entries share a key.
pub open spec fn unique_keys(es: Seq<UsageEntry>) -> bool {
    forall|i: int, j: int|
        0 <= i < j < es.len() ==> key_of(#[trigger] es[i]) != key_of(#[trigger] es[j])
}

/// The baselines that a list of entries holds, by key.
pub open spec fn baselines(es: Seq<UsageEntry>) -> Map<UsageKey, u64> {
    Map::new(|k: UsageKey| has_key(es, k), |k: UsageKey| es[slot_of(es, k)].total_ms)
}

/// The delta that a reading is billed for, given the baseline before it:
/// nothing without a baseline, nothing when the counter stood still or
/// fell back, and otherwise the growth since the baseline.
pub open spec fn metered(previous: Option<u64>, current: u64) -> Option<u64> {
    match previous {
        Some(p) if current > p => Some((current - p) as u64),
        _ => None,
    }
}

/// The baseline kept under `k`, if any.
pub open spec fn baseline_of(m: Map<UsageKey, u64>, k: UsageKey) -> Option<u64> {
    if m.contains_key(k) {
        Some(m[k])
    } else {
        None
    }
}

/// The deltas emitted when the readings of one user are observed in
/// order, starting without a baseline.
pub open spec fn emitted(samples: Seq<u64>) -> Seq<u64>
    decreases samples.len(),
{
    if samples.len() <= 1 {
        Seq::empty()
    } else {
        let before = emitted(samples.drop_last());
        match metered(Some(samples[samples.len() - 2]), samples.last()) {
            Some(d) => before.push(d),
            None => before,
        }
    }
}

/// The sum of a sequence of deltas.
pub open spec fn total(deltas: Seq<u64>) -> nat
    decreases deltas.len(),
{
    if deltas.len() == 0 {
        0
    } else {
        total(deltas.drop_last()) + deltas.last() as nat
    }
}

/// Each reading is at least the one before it.
pub open spec fn never_falls(samples: Seq<u64>) -> bool {
    forall|i: int| 0 < i < samples.len() ==> samples[i - 1] <= #[trigger] samples[i]
}

/// The in-memory snapshot of the metering loop. It starts empty, so the
/// first reading of every user only seeds a baseline.
pub struct UsageSnapshot {
    entries: Vec<UsageEntry>,
}

impl UsageSnapshot {
    /// A snapshot is well formed when it keeps one baseline per user and
    /// network. Every snapshot made by `new` and changed through the
    /// methods below is.
    pub closed spec fn wf(&self) -> bool {
        unique_keys(self.entries@)
    }

    /// The baselines held, by network and user name.
    pub closed spec fn view(&self) -> Map<UsageKey, u64> {
        baselines(self.entries@)
    }

    /// A snapshot without baselines.
    pub fn new() -> (s: UsageSnapshot)
        ensures
            s.wf(),
            s@ == Map::<UsageKey, u64>::empty(),
    {
        let s = UsageSnapshot { entries: Vec::new() };
        assert(s@ =~= Map::<UsageKey, u64>::empty());
        s
    }

    /// The number of baselines held.
    pub fn len(&self) -> (n: usize)
        requires
            self.wf(),
        ensures
            n == self@.dom().len(),
            self@.dom().finite(),
    {
        proof {
            lemma_baselines_count(self.entries@);
        }
        self.entries.len()
    }

    fn slot(&self, network: &String, username: &String) -> (r: Option<usize>)
        ensures
            match r {
                Some(i) => i < self.entries@.len() && key_of(self.entries@[i as int]) == (
                    network@,
                    username@,
                ),
                None => !has_key(self.entries@, (network@, username@)),
            },
    {
        let mut i: usize = 0;
        while i < self.entries.len()
            invariant
                i <= self.entries@.len(),
                forall|j: int|
                    0 <= j < i ==> key_of(#[trigger] self.entries@[j]) != (network@, username@),
            decreases self.entries@.len() - i,
        {
            if self.entries[i].network == *network && self.entries[i].username == *username {
                return Some(i);
            }
            i += 1;
        }
        None
    }

    /// The baseline kept for a user of a network, if any.
    pub fn get(&self, network: &str, username: &str) -> (r: Option<u64>)
        requires
            self.wf(),
        ensures
            r == baseline_of(self@, (network@, username@)),
    {
        let n = String::from_str(network);
        let u = String::from_str(username);
        match self.slot(&n, &u) {
            Some(i) => {
                proof {
                    lemma_slot_is_unique(self.entries@, i as int);
                }
                Some(self.entries[i].total_ms)
            },
            None => None,
        }
    }

    /// Observes a reading: the reading becomes the baseline of the user,
    /// whatever stood there before, and the growth since the previous
    /// baseline is returned for billing. A first reading, an unchanged
    /// counter and a counter that fell back return nothing.
    pub fn observe(&mut self, network: &str, username: &str, current: u64) -> (delta: Option<u64>)
        requires
            old(self).wf(),
        ensures
            final(self).wf(),
            delta == metered(baseline_of(old(self)@, (network@, username@)), current),
            final(self)@ == old(self)@.insert((network@, username@), current),
    {
        let n = String::from_str(network);
        let u = String::from_str(username);
        let ghost before = self.entries@;
        let ghost k: UsageKey = (network@, username@);
        match self.slot(&n, &u) {
            Some(i) => {
                let previous = self.entries[i].total_ms;
                let entry = UsageEntry { network: n, username: u, total_ms: current };
                proof {
                    lemma_slot_is_unique(before, i as int);
                    lemma_update_baseline(before, i as int, entry);
                }
                self.entries.set(i, entry);
                if current > previous {
                    Some(current - previous)
                } else {
                    None
                }
            },
            None => {
                let entry = UsageEntry { network: n, username: u, total_ms: current };
                proof {
                    lemma_push_baseline(before, entry);
                }
                self.entries.push(entry);
                None
            },
        }
    }
}

/// With unique keys, the entry at a position is the one its key finds.
pub proof fn lemma_slot_is_unique(es: Seq<UsageEntry>, i: int)
    requires
        unique_keys(es),
        0 <= i < es.len(),
    ensures
        has_key(es, key_of(es[i])),
        slot_of(es, key_of(es[i])) == i,
        baselines(es).contains_key(key_of(es[i])),
        baselines(es)[key_of(es[i])] == es[i].total_ms,
{
    let k = key_of(es[i]);
    let j = slot_of(es, k);
    assert(0 <= j < es.len() && key_of(es[j]) == k);
    if j < i {
        assert(key_of(es[j]) != key_of(es[i]));
    } else if i < j {
        assert(key_of(es[i]) != key_of(es[j]));
    }
}

/// Replacing an entry by one of the same key sets the baseline of that
/// key and leaves the others.
pub proof fn lemma_update_baseline(es: Seq<UsageEntry>, i: int, e: UsageEntry)
    requires
        unique_keys(es),
        0 <= i < es.len(),
        key_of(e) == key_of(es[i]),
    ensures
        unique_keys(es.update(i, e)),
        baselines(es.update(i, e)) == baselines(es).insert(key_of(e), e.total_ms),
{
    let after = es.update(i, e);
    assert forall|a: int, b: int| 0 <= a < b < after.len() implies key_of(#[trigger] after[a])
        != key_of(#[trigger] after[b]) by {
        assert(key_of(after[a]) == key_of(es[a]));
        assert(key_of(after[b]) == key_of(es[b]));
    }
    assert forall|k: UsageKey| has_key(after, k) == has_key(es, k) by {
        if has_key(es, k) {
            let j = slot_of(es, k);
            assert(key_of(after[j]) == k);
        }
        if has_key(after, k) {
            let j = slot_of(after, k);
            assert(key_of(es[j]) == k);
        }
    }
    lemma_slot_is_unique(es, i);
    lemma_slot_is_unique(after, i);
    assert forall|k: UsageKey| has_key(after, k) implies #[trigger] baselines(after)[k]
        == baselines(es).insert(key_of(e), e.total_ms)[k] by {
        let j = slot_of(after, k);
        assert(key_of(es[j]) == k);
        lemma_slot_is_unique(es, j);
        lemma_slot_is_unique(after, j);
    }
    assert(baselines(after) =~= baselines(es).insert(key_of(e), e.total_ms));
}

/// Adding an entry under a key not yet kept adds its baseline and leaves
/// the others.
pub proof fn lemma_push_baseline(es: Seq<UsageEntry>, e: UsageEntry)
    requires
        unique_keys(es),
        !has_key(es, key_of(e)),
    ensures
        unique_keys(es.push(e)),
        baselines(es.push(e)) == baselines(es).insert(key_of(e), e.total_ms),
{
    let after = es.push(e);
    assert forall|a: int, b: int| 0 <= a < b < after.len() implies key_of(#[trigger] after[a])
        != key_of(#[trigger] after[b]) by {
        if b == es.len() {
            assert(after[a] == es[a]);
        } else {
            assert(after[a] == es[a] && after[b] == es[b]);
        }
    }
    assert forall|k: UsageKey| has_key(after, k) == (has_key(es, k) || k == key_of(e)) by {
        if has_key(es, k) {
            let j = slot_of(es, k);
            assert(key_of(after[j]) == k);
        }
        if k == key_of(e) {
            assert(key_of(after[es.len() as int]) == k);
        }
        if has_key(after, k) {
            let j = slot_of(after, k);
            if j < es.len() {
                assert(key_of(es[j]) == k);
            }
        }
    }
    assert forall|k: UsageKey| has_key(after, k) implies #[trigger] baselines(after)[k]
        == baselines(es).insert(key_of(e), e.total_ms)[k] by {
        let j = slot_of(after, k);
        lemma_slot_is_unique(after, j);
        if j < es.len() {
            assert(key_of(es[j]) == k);
            lemma_slot_is_unique(es, j);
        }
    }
    assert(baselines(after) =~= baselines(es).insert(key_of(e), e.total_ms));
}

/// With unique keys there are as many baselines as entries.
pub proof fn lemma_baselines_count(es: Seq<UsageEntry>)
    requires
        unique_keys(es),
    ensures
        baselines(es).dom().finite(),
        baselines(es).dom().len() == es.len(),
    decreases es.len(),
{
    if es.len() == 0 {
        assert(baselines(es).dom() =~= Set::<UsageKey>::empty());
    } else {
        let head = es.drop_last();
        let e = es.last();
        assert(unique_keys(head)) by {
            assert forall|a: int, b: int| 0 <= a < b < head.len() implies key_of(
                #[trigger] head[a],
            ) != key_of(#[trigger] head[b]) by {
                assert(head[a] == es[a] && head[b] == es[b]);
            }
        }
        assert(!has_key(head, key_of(e))) by {
            if has_key(head, key_of(e)) {
                let j = slot_of(head, key_of(e));
                assert(head[j] == es[j]);
                assert(key_of(es[j]) != key_of(es[es.len() - 1]));
            }
        }
        lemma_baselines_count(head);
        lemma_push_baseline(head, e);
        assert(head.push(e) =~= es);
        assert(baselines(es).dom() =~= baselines(head).dom().insert(key_of(e)));
        assert(!baselines(head).dom().contains(key_of(e)));
    }
}

/// No growth is counted twice: while a counter never falls, the deltas
/// emitted for its readings add up to the growth from the first reading
/// to the last.
pub proof fn lemma_growth_counted_once(samples: Seq<u64>)
    requires
        samples.len() > 0,
        never_falls(samples),
    ensures
        total(emitted(samples)) == samples.last() - samples.first(),
    decreases samples.len(),
{
    if samples.len() > 1 {
        let head = samples.drop_last();
        assert(never_falls(head)) by {
            assert forall|i: int| 0 < i < head.len() implies head[i - 1] <= #[trigger] head[i] by {
                assert(samples[i - 1] <= samples[i]);
            }
        }
        lemma_growth_counted_once(head);
        let n = samples.len() as int;
        assert(samples[n - 2] <= samples[n - 1]);
        assert(head.last() == samples[n - 2]);
        match metered(Some(samples[n - 2]), samples.last()) {
            Some(d) => {
                assert(emitted(samples) == emitted(head).push(d));
                assert(emitted(head).push(d).drop_last() =~= emitted(head));
            },
            None => {},
        }
    }
}

/// Nothing but growth is billed: every delta emitted is positive, and
/// together they never exceed what the readings grew by, step by step.
pub proof fn lemma_only_growth_is_billed(samples: Seq<u64>)
    ensures
        forall|i: int| 0 <= i < emitted(samples).len() ==> #[trigger] emitted(samples)[i] > 0,
        emitted(samples).len() < samples.len() || samples.len() == 0,
    decreases samples.len(),
{
    if samples.len() > 1 {
        lemma_only_growth_is_billed(samples.drop_last());
    }
}

} // verus!
