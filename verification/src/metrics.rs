//! The metrics sink: the counters of the controller and of the metering
//! loop, and the labels under which each event is counted.

use crate::controller::DbSyncPort;
use crate::counters::{
    child_key, descriptor_id, family_accepted, hash_eight, hash_round, hash_upto, no_counts, takes,
    takes_all, told_apart, wrapping_sum,
    CounterVec, MetricRegistry,
};
use crate::error::{framed_text, lowercase_text, quoted_text, Error};
use crate::text::{after_first, chars_of, find_after, slice_of, texts_of};
use vstd::prelude::*;

verus! {

/// The words after which a namespace names its project.
pub const PROJECT_MARK: &'static str = "prj-";

/// The project that a namespace belongs to: what follows the first
/// `prj-` in its name, or nothing where the name holds no `prj-`.
pub open spec fn project_of(namespace: Seq<char>) -> Option<Seq<char>> {
    after_first(namespace, PROJECT_MARK@)
}

/// The project that a namespace belongs to, if its name holds one.
pub fn project_id(namespace: &str) -> (r: Option<String>)
    ensures
        match r {
            Some(project) => project_of(namespace@) == Some(project@),
            None => project_of(namespace@) is None,
        },
{
    let hay = chars_of(namespace);
    let needle = chars_of(PROJECT_MARK);
    match find_after(&hay, &needle) {
        Some(at) => Some(slice_of(namespace, at, hay.len())),
        None => None,
    }
}

/// The project that a namespace belongs to. The namespace must name one.
pub fn get_project_id(namespace: &str) -> (project: String)
    requires
        project_of(namespace@) is Some,
    ensures
        project@ == project_of(namespace@).unwrap(),
{
    match project_id(namespace) {
        Some(project) => project,
        None => String::new(),
    }
}

/// One family after an event was counted in it: the count under the
/// labels grew by `by`, wrapping at 64 bits, and nothing else changed;
/// the family has the name and the label names that it had.
pub open spec fn counted(
    before: CounterVec,
    after: CounterVec,
    labels: Seq<Seq<char>>,
    by: u64,
) -> bool {
    &&& after.name() == before.name()
    &&& after.label_names() == before.label_names()
    &&& after.values() == before.values().insert(
        child_key(labels),
        wrapping_sum(before.count_of(labels), by),
    )
}

/// The label of a failure of a kind with a message: the name of the kind
/// and the quoted message in parentheses, in lowercase.
pub open spec fn label_text(kind: Seq<char>, message: Seq<char>) -> Seq<char> {
    lowercase_text(framed_text(kind, quoted_text(message)))
}

/// The label of a failure.
pub open spec fn failure_label(e: Error) -> Seq<char> {
    label_text(e.kind_text(), e.message_text())
}

/// A list of one label value.
pub fn labels1(a: String) -> (v: Vec<String>)
    ensures
        v@.len() == 1,
        texts_of(v@) == seq![a@],
{
    let mut v: Vec<String> = Vec::new();
    v.push(a);
    assert(texts_of(v@) =~= seq![a@]);
    v
}

/// A list of two label values.
pub fn labels2(a: String, b: String) -> (v: Vec<String>)
    ensures
        v@.len() == 2,
        texts_of(v@) == seq![a@, b@],
{
    let mut v: Vec<String> = Vec::new();
    v.push(a);
    v.push(b);
    assert(texts_of(v@) =~= seq![a@, b@]);
    v
}

/// A list of four label values.
pub fn labels4(a: String, b: String, c: String, d: String) -> (v: Vec<String>)
    ensures
        v@.len() == 4,
        texts_of(v@) == seq![a@, b@, c@, d@],
{
    let mut v: Vec<String> = Vec::new();
    v.push(a);
    v.push(b);
    v.push(c);
    v.push(d);
    assert(texts_of(v@) =~= seq![a@, b@, c@, d@]);
    v
}

/// The names of the five families, in the order in which they are
/// offered to a registry.
pub open spec fn metric_names() -> Seq<Seq<char>> {
    seq![
        "dmtr_dbsync_reconciliation_errors_total"@,
        "dmtr_dbsync_users_created_total"@,
        "dmtr_dbsync_users_dropped_total"@,
        "dmtr_dbsync_metrics_errors_total"@,
        "dmtr_consumed_dcus"@,
    ]
}

/// What a registry holds after it took the first `n` names of a list.
pub open spec fn offered(held: Set<Seq<char>>, names: Seq<Seq<char>>, n: int) -> Set<Seq<char>> {
    held.union(names.subrange(0, n).to_set())
}

/// Whether a registry that is offered the names of a list, one after the
/// other, takes the first `n` of them and refuses the next.
pub open spec fn refused_at(held: Set<Seq<char>>, names: Seq<Seq<char>>, n: int) -> bool {
    &&& 0 <= n < names.len()
    &&& takes_all(held, names.subrange(0, n))
    &&& !takes(offered(held, names, n), names[n])
}

/// A registry that took the first `n` names of a list takes the next
/// one exactly where it takes the first `n + 1` of the list by what it
/// held before.
pub proof fn lemma_takes_after(held: Set<Seq<char>>, names: Seq<Seq<char>>, n: int)
    requires
        0 <= n <= names.len(),
    ensures
        offered(held, names, 0) == held,
        n < names.len() ==> offered(held, names, n + 1) == offered(held, names, n).insert(names[n]),
        n < names.len() && takes_all(held, names.subrange(0, n)) ==> (takes(
            offered(held, names, n),
            names[n],
        ) <==> takes_all(held, names.subrange(0, n + 1))),
        takes_all(held, names) ==> takes_all(held, names.subrange(0, n)),
        !takes_all(held, names.subrange(0, n)) ==> !takes_all(held, names),
{
    let first = names.subrange(0, n);
    assert(offered(held, names, 0) =~= held);
    if takes_all(held, names) {
        assert forall|i: int| 0 <= i < first.len() implies takes(held, #[trigger] first[i]) by {
            assert(first[i] == names[i]);
        }
        assert forall|i: int, j: int| 0 <= i < j < first.len() implies descriptor_id(
            #[trigger] first[i],
        ) != descriptor_id(#[trigger] first[j]) by {
            assert(first[i] == names[i] && first[j] == names[j]);
        }
    }
    if n < names.len() {
        let next = names.subrange(0, n + 1);
        assert(next =~= first.push(names[n]));
        assert(offered(held, names, n + 1) =~= offered(held, names, n).insert(names[n])) by {
            assert forall|t: Seq<char>| next.to_set().contains(t) <==> first.to_set().contains(t)
                || t == names[n] by {
                if first.to_set().contains(t) {
                    let i = choose|i: int| 0 <= i < first.len() && first[i] == t;
                    assert(next[i] == t);
                }
                if t == names[n] {
                    assert(next[n] == t);
                }
            }
        }
        if takes_all(held, first) {
            if takes(offered(held, names, n), names[n]) {
                assert forall|i: int| 0 <= i < next.len() implies takes(
                    held,
                    #[trigger] next[i],
                ) by {
                    if i < n {
                        assert(next[i] == first[i]);
                    } else {
                        assert forall|other: Seq<char>| #[trigger]
                            held.contains(other) implies descriptor_id(other) != descriptor_id(
                            names[n],
                        ) by {
                            assert(offered(held, names, n).contains(other));
                        }
                    }
                }
                assert forall|i: int, j: int| 0 <= i < j < next.len() implies descriptor_id(
                    #[trigger] next[i],
                ) != descriptor_id(#[trigger] next[j]) by {
                    if j < n {
                        assert(next[i] == first[i] && next[j] == first[j]);
                    } else {
                        assert(first[i] == next[i]);
                        assert(first.to_set().contains(next[i]));
                        assert(offered(held, names, n).contains(next[i]));
                    }
                }
            }
            if takes_all(held, next) {
                assert forall|other: Seq<char>| #[trigger]
                    offered(held, names, n).contains(other) implies descriptor_id(other)
                    != descriptor_id(names[n]) by {
                    if held.contains(other) {
                        assert(takes(held, next[n]));
                    } else {
                        let i = choose|i: int| 0 <= i < first.len() && first[i] == other;
                        assert(next[i] == other);
                        assert(descriptor_id(next[i]) != descriptor_id(next[n]));
                    }
                }
            }
        }
    }
}

/// The registry crate accepts the five families: their names are metric
/// names, their help texts are not empty, and their label names are
/// label names that differ from each other.
pub proof fn lemma_families_are_accepted()
    ensures
        family_accepted(
            "dmtr_dbsync_users_created_total"@,
            "total of users created in dbsync"@,
            seq!["project"@, "network"@],
        ),
        family_accepted(
            "dmtr_dbsync_users_dropped_total"@,
            "total of users dropped in dbsync"@,
            seq!["project"@, "network"@],
        ),
        family_accepted(
            "dmtr_dbsync_reconciliation_errors_total"@,
            "reconciliation errors"@,
            seq!["instance"@, "error"@],
        ),
        family_accepted(
            "dmtr_dbsync_metrics_errors_total"@,
            "errors to calculation metrics"@,
            seq!["error"@],
        ),
        family_accepted(
            "dmtr_consumed_dcus"@,
            "quantity of dcu consumed"@,
            seq!["project"@, "network"@, "resource"@, "tier"@],
        ),
{
    reveal_strlit("dmtr_dbsync_users_created_total");
    reveal_strlit("dmtr_dbsync_users_dropped_total");
    reveal_strlit("dmtr_dbsync_reconciliation_errors_total");
    reveal_strlit("dmtr_dbsync_metrics_errors_total");
    reveal_strlit("dmtr_consumed_dcus");
    reveal_strlit("total of users created in dbsync");
    reveal_strlit("total of users dropped in dbsync");
    reveal_strlit("reconciliation errors");
    reveal_strlit("errors to calculation metrics");
    reveal_strlit("quantity of dcu consumed");
    reveal_strlit("project");
    reveal_strlit("network");
    reveal_strlit("instance");
    reveal_strlit("error");
    reveal_strlit("resource");
    reveal_strlit("tier");
    assert("project"@[0] != "network"@[0]);
    assert("project"@[0] != "resource"@[0]);
    assert("project"@[0] != "tier"@[0]);
    assert("network"@[0] != "resource"@[0]);
    assert("network"@[0] != "tier"@[0]);
    assert("resource"@[0] != "tier"@[0]);
    assert("instance"@[0] != "error"@[0]);
}

/// The identifier of the name `dmtr_dbsync_reconciliation_errors_total`,
/// eight rounds of the hash at a time.
proof fn lemma_id_of_reconcile_failures()
    ensures
        descriptor_id("dmtr_dbsync_reconciliation_errors_total"@) == 0xdfae_1828_9275_8a58,
{
    reveal(descriptor_id);
    reveal_strlit("dmtr_dbsync_reconciliation_errors_total");
    reveal_with_fuel(hash_upto, 9);
    let s = "dmtr_dbsync_reconciliation_errors_total"@;
    let h0: u64 = 0xcbf2_9ce4_8422_2325;
    assert(hash_upto(s, 0) == h0);
    let h8: u64 = 0xe55e_855c_21a7_1e80;
    assert(hash_eight(h0, 0x64, 0x6d, 0x74, 0x72, 0x5f, 0x64, 0x62, 0x73) == h8) by (bit_vector)
        requires
            h0 == 0xcbf2_9ce4_8422_2325,
            h8 == 0xe55e_855c_21a7_1e80,
    ;
    assert(hash_upto(s, 8) == h8);
    let h16: u64 = 0xf7a4_c1e8_a1ac_be5e;
    assert(hash_eight(h8, 0x79, 0x6e, 0x63, 0x5f, 0x72, 0x65, 0x63, 0x6f) == h16) by (bit_vector)
        requires
            h8 == 0xe55e_855c_21a7_1e80,
            h16 == 0xf7a4_c1e8_a1ac_be5e,
    ;
    assert(hash_upto(s, 16) == h16);
    let h24: u64 = 0xd699_c60f_1408_1b71;
    assert(hash_eight(h16, 0x6e, 0x63, 0x69, 0x6c, 0x69, 0x61, 0x74, 0x69) == h24) by (bit_vector)
        requires
            h16 == 0xf7a4_c1e8_a1ac_be5e,
            h24 == 0xd699_c60f_1408_1b71,
    ;
    assert(hash_upto(s, 24) == h24);
    let h32: u64 = 0x3e06_f9d4_3792_a5fd;
    assert(hash_eight(h24, 0x6f, 0x6e, 0x5f, 0x65, 0x72, 0x72, 0x6f, 0x72) == h32) by (bit_vector)
        requires
            h24 == 0xd699_c60f_1408_1b71,
            h32 == 0x3e06_f9d4_3792_a5fd,
    ;
    assert(hash_upto(s, 32) == h32);
    let h40: u64 = 0xdfae_1828_9275_8a58;
    assert(hash_eight(h32, 0x73, 0x5f, 0x74, 0x6f, 0x74, 0x61, 0x6c, 0xff) == h40) by (bit_vector)
        requires
            h32 == 0x3e06_f9d4_3792_a5fd,
            h40 == 0xdfae_1828_9275_8a58,
    ;
}

/// The identifier of the name `dmtr_dbsync_users_created_total`,
/// eight rounds of the hash at a time.
proof fn lemma_id_of_users_created()
    ensures
        descriptor_id("dmtr_dbsync_users_created_total"@) == 0x8547_4ca4_5a55_8686,
{
    reveal(descriptor_id);
    reveal_strlit("dmtr_dbsync_users_created_total");
    reveal_with_fuel(hash_upto, 9);
    let s = "dmtr_dbsync_users_created_total"@;
    let h0: u64 = 0xcbf2_9ce4_8422_2325;
    assert(hash_upto(s, 0) == h0);
    let h8: u64 = 0xe55e_855c_21a7_1e80;
    assert(hash_eight(h0, 0x64, 0x6d, 0x74, 0x72, 0x5f, 0x64, 0x62, 0x73) == h8) by (bit_vector)
        requires
            h0 == 0xcbf2_9ce4_8422_2325,
            h8 == 0xe55e_855c_21a7_1e80,
    ;
    assert(hash_upto(s, 8) == h8);
    let h16: u64 = 0xe1b4_5aef_6e93_180e;
    assert(hash_eight(h8, 0x79, 0x6e, 0x63, 0x5f, 0x75, 0x73, 0x65, 0x72) == h16) by (bit_vector)
        requires
            h8 == 0xe55e_855c_21a7_1e80,
            h16 == 0xe1b4_5aef_6e93_180e,
    ;
    assert(hash_upto(s, 16) == h16);
    let h24: u64 = 0xbb9a_e60b_2684_8fcc;
    assert(hash_eight(h16, 0x73, 0x5f, 0x63, 0x72, 0x65, 0x61, 0x74, 0x65) == h24) by (bit_vector)
        requires
            h16 == 0xe1b4_5aef_6e93_180e,
            h24 == 0xbb9a_e60b_2684_8fcc,
    ;
    assert(hash_upto(s, 24) == h24);
    let h32: u64 = 0x8547_4ca4_5a55_8686;
    assert(hash_eight(h24, 0x64, 0x5f, 0x74, 0x6f, 0x74, 0x61, 0x6c, 0xff) == h32) by (bit_vector)
        requires
            h24 == 0xbb9a_e60b_2684_8fcc,
            h32 == 0x8547_4ca4_5a55_8686,
    ;
}

/// The identifier of the name `dmtr_dbsync_users_dropped_total`,
/// eight rounds of the hash at a time.
proof fn lemma_id_of_users_dropped()
    ensures
        descriptor_id("dmtr_dbsync_users_dropped_total"@) == 0xb7c3_9c43_cc29_a934,
{
    reveal(descriptor_id);
    reveal_strlit("dmtr_dbsync_users_dropped_total");
    reveal_with_fuel(hash_upto, 9);
    let s = "dmtr_dbsync_users_dropped_total"@;
    let h0: u64 = 0xcbf2_9ce4_8422_2325;
    assert(hash_upto(s, 0) == h0);
    let h8: u64 = 0xe55e_855c_21a7_1e80;
    assert(hash_eight(h0, 0x64, 0x6d, 0x74, 0x72, 0x5f, 0x64, 0x62, 0x73) == h8) by (bit_vector)
        requires
            h0 == 0xcbf2_9ce4_8422_2325,
            h8 == 0xe55e_855c_21a7_1e80,
    ;
    assert(hash_upto(s, 8) == h8);
    let h16: u64 = 0xe1b4_5aef_6e93_180e;
    assert(hash_eight(h8, 0x79, 0x6e, 0x63, 0x5f, 0x75, 0x73, 0x65, 0x72) == h16) by (bit_vector)
        requires
            h8 == 0xe55e_855c_21a7_1e80,
            h16 == 0xe1b4_5aef_6e93_180e,
    ;
    assert(hash_upto(s, 16) == h16);
    let h24: u64 = 0xc9f1_87f7_fdb5_8f9e;
    assert(hash_eight(h16, 0x73, 0x5f, 0x64, 0x72, 0x6f, 0x70, 0x70, 0x65) == h24) by (bit_vector)
        requires
            h16 == 0xe1b4_5aef_6e93_180e,
            h24 == 0xc9f1_87f7_fdb5_8f9e,
    ;
    assert(hash_upto(s, 24) == h24);
    let h32: u64 = 0xb7c3_9c43_cc29_a934;
    assert(hash_eight(h24, 0x64, 0x5f, 0x74, 0x6f, 0x74, 0x61, 0x6c, 0xff) == h32) by (bit_vector)
        requires
            h24 == 0xc9f1_87f7_fdb5_8f9e,
            h32 == 0xb7c3_9c43_cc29_a934,
    ;
}

/// The identifier of the name `dmtr_dbsync_metrics_errors_total`,
/// eight rounds of the hash at a time.
proof fn lemma_id_of_metrics_failures()
    ensures
        descriptor_id("dmtr_dbsync_metrics_errors_total"@) == 0xa9ef_a53b_78cb_0ef2,
{
    reveal(descriptor_id);
    reveal_strlit("dmtr_dbsync_metrics_errors_total");
    reveal_with_fuel(hash_upto, 9);
    let s = "dmtr_dbsync_metrics_errors_total"@;
    let h0: u64 = 0xcbf2_9ce4_8422_2325;
    assert(hash_upto(s, 0) == h0);
    let h8: u64 = 0xe55e_855c_21a7_1e80;
    assert(hash_eight(h0, 0x64, 0x6d, 0x74, 0x72, 0x5f, 0x64, 0x62, 0x73) == h8) by (bit_vector)
        requires
            h0 == 0xcbf2_9ce4_8422_2325,
            h8 == 0xe55e_855c_21a7_1e80,
    ;
    assert(hash_upto(s, 8) == h8);
    let h16: u64 = 0x3a19_3eac_ef52_f155;
    assert(hash_eight(h8, 0x79, 0x6e, 0x63, 0x5f, 0x6d, 0x65, 0x74, 0x72) == h16) by (bit_vector)
        requires
            h8 == 0xe55e_855c_21a7_1e80,
            h16 == 0x3a19_3eac_ef52_f155,
    ;
    assert(hash_upto(s, 16) == h16);
    let h24: u64 = 0x9893_1cd1_16a8_9a4f;
    assert(hash_eight(h16, 0x69, 0x63, 0x73, 0x5f, 0x65, 0x72, 0x72, 0x6f) == h24) by (bit_vector)
        requires
            h16 == 0x3a19_3eac_ef52_f155,
            h24 == 0x9893_1cd1_16a8_9a4f,
    ;
    assert(hash_upto(s, 24) == h24);
    let h32: u64 = 0x8f82_9777_03cf_08b9;
    assert(hash_eight(h24, 0x72, 0x73, 0x5f, 0x74, 0x6f, 0x74, 0x61, 0x6c) == h32) by (bit_vector)
        requires
            h24 == 0x9893_1cd1_16a8_9a4f,
            h32 == 0x8f82_9777_03cf_08b9,
    ;
    assert(hash_upto(s, 32) == h32);
    let h33: u64 = 0xa9ef_a53b_78cb_0ef2;
    assert(hash_round(h32, 0xff) == h33) by (bit_vector)
        requires
            h32 == 0x8f82_9777_03cf_08b9,
            h33 == 0xa9ef_a53b_78cb_0ef2,
    ;
}

/// The identifier of the name `dmtr_consumed_dcus`,
/// eight rounds of the hash at a time.
proof fn lemma_id_of_dcu()
    ensures
        descriptor_id("dmtr_consumed_dcus"@) == 0x0e41_6d27_f733_2eda,
{
    reveal(descriptor_id);
    reveal_strlit("dmtr_consumed_dcus");
    reveal_with_fuel(hash_upto, 9);
    let s = "dmtr_consumed_dcus"@;
    let h0: u64 = 0xcbf2_9ce4_8422_2325;
    assert(hash_upto(s, 0) == h0);
    let h8: u64 = 0x10da_6f5c_3a55_315b;
    assert(hash_eight(h0, 0x64, 0x6d, 0x74, 0x72, 0x5f, 0x63, 0x6f, 0x6e) == h8) by (bit_vector)
        requires
            h0 == 0xcbf2_9ce4_8422_2325,
            h8 == 0x10da_6f5c_3a55_315b,
    ;
    assert(hash_upto(s, 8) == h8);
    let h16: u64 = 0x4e76_16ef_c0f2_0aed;
    assert(hash_eight(h8, 0x73, 0x75, 0x6d, 0x65, 0x64, 0x5f, 0x64, 0x63) == h16) by (bit_vector)
        requires
            h8 == 0x10da_6f5c_3a55_315b,
            h16 == 0x4e76_16ef_c0f2_0aed,
    ;
    assert(hash_upto(s, 16) == h16);
    let h19: u64 = 0x0e41_6d27_f733_2eda;
    assert(hash_round(hash_round(hash_round(h16, 0x75), 0x73), 0xff) == h19) by (bit_vector)
        requires
            h16 == 0x4e76_16ef_c0f2_0aed,
            h19 == 0x0e41_6d27_f733_2eda,
    ;
}


/// The identifiers of the names of the five families.
pub proof fn lemma_metric_ids()
    ensures
        descriptor_id("dmtr_dbsync_reconciliation_errors_total"@) == 0xdfae_1828_9275_8a58,
        descriptor_id("dmtr_dbsync_users_created_total"@) == 0x8547_4ca4_5a55_8686,
        descriptor_id("dmtr_dbsync_users_dropped_total"@) == 0xb7c3_9c43_cc29_a934,
        descriptor_id("dmtr_dbsync_metrics_errors_total"@) == 0xa9ef_a53b_78cb_0ef2,
        descriptor_id("dmtr_consumed_dcus"@) == 0x0e41_6d27_f733_2eda,
{
    lemma_id_of_reconcile_failures();
    lemma_id_of_users_created();
    lemma_id_of_users_dropped();
    lemma_id_of_metrics_failures();
    lemma_id_of_dcu();
}

/// The registry crate tells the names of the five families apart: their
/// identifiers differ.
pub proof fn lemma_names_are_told_apart()
    ensures
        told_apart(metric_names()),
{
    lemma_metric_ids();
}

/// The counters of the controller.
#[derive(Debug)]
pub struct Metrics {
    /// Users created, by project and network.
    pub users_created: CounterVec,
    /// Users dropped, by project and network.
    pub users_dropped: CounterVec,
    /// Failed reconciliations, by resource and failure.
    pub reconcile_failures: CounterVec,
    /// Failures of the metering loop, by failure.
    pub metrics_failures: CounterVec,
    /// Consumption units, by project, network, resource and tier.
    pub dcu: CounterVec,
}

impl Metrics {
    /// Every family takes the number of label values that the events
    /// counted in it have.
    pub open spec fn wf(&self) -> bool {
        &&& self.users_created.labels() == 2
        &&& self.users_dropped.labels() == 2
        &&& self.reconcile_failures.labels() == 2
        &&& self.metrics_failures.labels() == 1
        &&& self.dcu.labels() == 4
    }

    /// Nothing was counted yet.
    pub open spec fn untouched(&self) -> bool {
        &&& self.users_created.values() == no_counts()
        &&& self.users_dropped.values() == no_counts()
        &&& self.reconcile_failures.values() == no_counts()
        &&& self.metrics_failures.values() == no_counts()
        &&& self.dcu.values() == no_counts()
    }

    /// The five families have the names under which they are scraped,
    /// and the label names of the events counted in them.
    pub open spec fn named(&self) -> bool {
        &&& self.name_list() == metric_names()
        &&& self.users_created.label_names() == seq!["project"@, "network"@]
        &&& self.users_dropped.label_names() == seq!["project"@, "network"@]
        &&& self.reconcile_failures.label_names() == seq!["instance"@, "error"@]
        &&& self.metrics_failures.label_names() == seq!["error"@]
        &&& self.dcu.label_names() == seq!["project"@, "network"@, "resource"@, "tier"@]
    }

    /// The names of the five families, in the order in which they are
    /// offered to a registry.
    pub open spec fn name_list(&self) -> Seq<Seq<char>> {
        seq![
            self.reconcile_failures.name(),
            self.users_created.name(),
            self.users_dropped.name(),
            self.metrics_failures.name(),
            self.dcu.name(),
        ]
    }

    /// Makes the five families, all counts at zero.
    pub fn try_new() -> (r: Result<Metrics, Error>)
        ensures
            r is Ok,
            r.unwrap().wf(),
            r.unwrap().untouched(),
            r.unwrap().named(),
    {
        proof {
            lemma_families_are_accepted();
        }
        let users_created = CounterVec::new(
            "dmtr_dbsync_users_created_total",
            "total of users created in dbsync",
            &labels2(String::from_str("project"), String::from_str("network")),
        )?;
        let users_dropped = CounterVec::new(
            "dmtr_dbsync_users_dropped_total",
            "total of users dropped in dbsync",
            &labels2(String::from_str("project"), String::from_str("network")),
        )?;
        let reconcile_failures = CounterVec::new(
            "dmtr_dbsync_reconciliation_errors_total",
            "reconciliation errors",
            &labels2(String::from_str("instance"), String::from_str("error")),
        )?;
        let metrics_failures = CounterVec::new(
            "dmtr_dbsync_metrics_errors_total",
            "errors to calculation metrics",
            &labels1(String::from_str("error")),
        )?;
        let dcu = CounterVec::new(
            "dmtr_consumed_dcus",
            "quantity of dcu consumed",
            &labels4(
                String::from_str("project"),
                String::from_str("network"),
                String::from_str("resource"),
                String::from_str("tier"),
            ),
        )?;
        let metrics = Metrics {
            users_created,
            users_dropped,
            reconcile_failures,
            metrics_failures,
            dcu,
        };
        assert(metrics.name_list() =~= metric_names());
        Ok(metrics)
    }

    /// The names of the five families.
    pub open spec fn names(&self) -> Set<Seq<char>> {
        set![
            self.reconcile_failures.name(),
            self.users_created.name(),
            self.users_dropped.name(),
            self.metrics_failures.name(),
            self.dcu.name(),
        ]
    }

    /// Offers the five families to a registry, one after the other, and
    /// hands the counters back unchanged once the registry has taken
    /// them all; the registry then holds their names besides what it
    /// held. The registry takes them all where it tells their names
    /// apart from each other and from the names that it holds; so it
    /// does not where it holds one of the five already, and it does
    /// where it holds nothing and the five have their names. Where the
    /// registry refuses one, the registration fails at once, and the
    /// registry holds what it held and those of the five that it took
    /// before the one that it refused.
    pub fn register(self, registry: &mut MetricRegistry) -> (r: Result<Self, Error>)
        ensures
            r is Ok <==> takes_all(old(registry).families(), self.name_list()),
            r is Ok ==> r.unwrap() == self && final(registry).families() == old(
                registry,
            ).families().union(self.names()),
            r is Err ==> r.unwrap_err() is PrometheusError && exists|n: int|
                refused_at(old(registry).families(), self.name_list(), n)
                    && final(registry).families() == offered(
                    old(registry).families(),
                    self.name_list(),
                    n,
                ),
            r is Err ==> old(registry).families().subset_of(final(registry).families())
                && final(registry).families().subset_of(
                old(registry).families().union(self.names()),
            ),
            !old(registry).families().disjoint(self.names()) ==> r is Err,
            old(registry).families() == Set::<Seq<char>>::empty() && self.named() ==> r is Ok,
    {
        let ghost held = registry.families();
        let ghost list = self.name_list();
        proof {
            lemma_names_are_told_apart();
            lemma_takes_after(held, list, 0);
            lemma_takes_after(held, list, 1);
            lemma_takes_after(held, list, 2);
            lemma_takes_after(held, list, 3);
            lemma_takes_after(held, list, 4);
            lemma_takes_after(held, list, 5);
            assert(list.subrange(0, 5) =~= list);
            assert(takes_all(held, list.subrange(0, 0)));
            assert(offered(held, list, 5) =~= held.union(self.names())) by {
                assert forall|t: Seq<char>| list.to_set().contains(t) <==> self.names().contains(
                    t,
                ) by {
                    if self.names().contains(t) {
                        assert(list[0] == t || list[1] == t || list[2] == t || list[3] == t
                            || list[4] == t);
                    }
                }
            }
            assert(offered(held, list, 1).subset_of(offered(held, list, 2)));
            assert(offered(held, list, 2).subset_of(offered(held, list, 3)));
            assert(offered(held, list, 3).subset_of(offered(held, list, 4)));
            assert(offered(held, list, 4).subset_of(offered(held, list, 5)));
            if !held.disjoint(self.names()) {
                let t = choose|t: Seq<char>| held.contains(t) && self.names().contains(t);
                let i = choose|i: int| 0 <= i < 5 && list[i] == t;
                assert(!takes(held, list[i]));
            }
        }
        match registry.register(&self.reconcile_failures) {
            Ok(()) => {},
            Err(e) => {
                assert(refused_at(held, list, 0));
                return Err(e);
            },
        }
        assert(registry.families() == offered(held, list, 1));
        match registry.register(&self.users_created) {
            Ok(()) => {},
            Err(e) => {
                assert(refused_at(held, list, 1));
                return Err(e);
            },
        }
        assert(registry.families() == offered(held, list, 2));
        match registry.register(&self.users_dropped) {
            Ok(()) => {},
            Err(e) => {
                assert(refused_at(held, list, 2));
                return Err(e);
            },
        }
        assert(registry.families() == offered(held, list, 3));
        match registry.register(&self.metrics_failures) {
            Ok(()) => {},
            Err(e) => {
                assert(refused_at(held, list, 3));
                return Err(e);
            },
        }
        assert(registry.families() == offered(held, list, 4));
        match registry.register(&self.dcu) {
            Ok(()) => {},
            Err(e) => {
                assert(refused_at(held, list, 4));
                return Err(e);
            },
        }
        assert(registry.families() == offered(held, list, 5));
        Ok(self)
    }

    /// Counts a failed reconciliation of a resource, under the name of
    /// the resource and the label of the failure.
    pub fn reconcile_failure(&mut self, crd: &DbSyncPort, e: &Error)
        requires
            old(self).wf(),
        ensures
            final(self).wf(),
            counted(
                old(self).reconcile_failures,
                final(self).reconcile_failures,
                seq![crd.name@, failure_label(*e)],
                1,
            ),
            final(self).users_created == old(self).users_created,
            final(self).users_dropped == old(self).users_dropped,
            final(self).metrics_failures == old(self).metrics_failures,
            final(self).dcu == old(self).dcu,
    {
        let labels = labels2(crd.name.clone(), e.metric_label());
        self.reconcile_failures.add(&labels, 1);
    }

    /// Counts a failure of the metering loop, under the label of the
    /// failure.
    pub fn metrics_failure(&mut self, e: &Error)
        requires
            old(self).wf(),
        ensures
            final(self).wf(),
            counted(
                old(self).metrics_failures,
                final(self).metrics_failures,
                seq![failure_label(*e)],
                1,
            ),
            final(self).users_created == old(self).users_created,
            final(self).users_dropped == old(self).users_dropped,
            final(self).reconcile_failures == old(self).reconcile_failures,
            final(self).dcu == old(self).dcu,
    {
        let labels = labels1(e.metric_label());
        self.metrics_failures.add(&labels, 1);
    }

    /// Counts a user created for a resource of a namespace on a network,
    /// under the project of the namespace.
    pub fn count_user_created(&mut self, namespace: &str, network: &str)
        requires
            old(self).wf(),
            project_of(namespace@) is Some,
        ensures
            final(self).wf(),
            counted(
                old(self).users_created,
                final(self).users_created,
                seq![project_of(namespace@).unwrap(), network@],
                1,
            ),
            final(self).users_dropped == old(self).users_dropped,
            final(self).reconcile_failures == old(self).reconcile_failures,
            final(self).metrics_failures == old(self).metrics_failures,
            final(self).dcu == old(self).dcu,
    {
        let project = get_project_id(namespace);
        let labels = labels2(project, String::from_str(network));
        self.users_created.add(&labels, 1);
    }

    /// Counts a user dropped for a resource of a namespace on a network,
    /// under the project of the namespace.
    pub fn count_user_dropped(&mut self, namespace: &str, network: &str)
        requires
            old(self).wf(),
            project_of(namespace@) is Some,
        ensures
            final(self).wf(),
            counted(
                old(self).users_dropped,
                final(self).users_dropped,
                seq![project_of(namespace@).unwrap(), network@],
                1,
            ),
            final(self).users_created == old(self).users_created,
            final(self).reconcile_failures == old(self).reconcile_failures,
            final(self).metrics_failures == old(self).metrics_failures,
            final(self).dcu == old(self).dcu,
    {
        let project = get_project_id(namespace);
        let labels = labels2(project, String::from_str(network));
        self.users_dropped.add(&labels, 1);
    }

    /// Counts consumption units for a resource of a namespace on a
    /// network, under the project of the namespace, the network, the
    /// name of the resource and its tier.
    pub fn count_dcu_consumed(
        &mut self,
        namespace: &str,
        network: &str,
        resource: &str,
        tier: &str,
        dcu: u64,
    )
        requires
            old(self).wf(),
            project_of(namespace@) is Some,
        ensures
            final(self).wf(),
            counted(
                old(self).dcu,
                final(self).dcu,
                seq![project_of(namespace@).unwrap(), network@, resource@, tier@],
                dcu,
            ),
            final(self).users_created == old(self).users_created,
            final(self).users_dropped == old(self).users_dropped,
            final(self).reconcile_failures == old(self).reconcile_failures,
            final(self).metrics_failures == old(self).metrics_failures,
    {
        let project = get_project_id(namespace);
        let labels = labels4(
            project,
            String::from_str(network),
            String::from_str(resource),
            String::from_str(tier),
        );
        self.dcu.add(&labels, dcu);
    }
}

} // verus!
