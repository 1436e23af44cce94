use ext_cardano_dbsync::snapshot::UsageSnapshot;

fn deltas(samples: &[u64]) -> Vec<u64> {
    let mut snapshot = UsageSnapshot::new();
    let mut out = Vec::new();
    for sample in samples {
        if let Some(delta) = snapshot.observe("preprod", "alice", *sample) {
            out.push(delta);
        }
    }
    out
}

#[test]
fn no_double_counting() {
    assert_eq!(deltas(&[0, 100, 250, 250, 400]), vec![100, 150, 150]);
}

#[test]
fn counter_reset_handling() {
    let mut snapshot = UsageSnapshot::new();
    assert_eq!(snapshot.observe("preprod", "alice", 500), None);
    assert_eq!(snapshot.observe("preprod", "alice", 500), None);
    assert_eq!(snapshot.observe("preprod", "alice", 100), None);
    assert_eq!(snapshot.get("preprod", "alice"), Some(100));
    assert_eq!(snapshot.observe("preprod", "alice", 250), Some(150));
    assert_eq!(deltas(&[500, 500, 100, 250]), vec![150]);
}

#[test]
fn growth_of_a_rising_counter_is_counted_once() {
    let samples = [7u64, 7, 19, 40, 40, 41, 1000];
    let total: u64 = deltas(&samples).iter().sum();
    assert_eq!(total, 1000 - 7);
}

#[test]
fn a_new_snapshot_is_empty() {
    let snapshot = UsageSnapshot::new();
    assert_eq!(snapshot.len(), 0);
    assert_eq!(snapshot.get("preprod", "alice"), None);
}

#[test]
fn baselines_are_kept_by_network_and_user() {
    let mut snapshot = UsageSnapshot::new();
    assert_eq!(snapshot.observe("preprod", "alice", 10), None);
    assert_eq!(snapshot.observe("mainnet", "alice", 1000), None);
    assert_eq!(snapshot.observe("preprod", "bob", 5), None);
    assert_eq!(snapshot.len(), 3);
    assert_eq!(snapshot.observe("preprod", "alice", 25), Some(15));
    assert_eq!(snapshot.observe("mainnet", "alice", 1001), Some(1));
    assert_eq!(snapshot.observe("preprod", "bob", 5), None);
    assert_eq!(snapshot.len(), 3);
    assert_eq!(snapshot.get("preprod", "alice"), Some(25));
    assert_eq!(snapshot.get("mainnet", "alice"), Some(1001));
    assert_eq!(snapshot.get("preview", "alice"), None);
}

#[test]
fn the_first_reading_is_never_billed() {
    assert_eq!(deltas(&[u64::MAX]), Vec::<u64>::new());
    assert_eq!(deltas(&[0]), Vec::<u64>::new());
    assert_eq!(deltas(&[]), Vec::<u64>::new());
}
