//! Counter families of the metrics registry. The counters themselves are
//! kept by the `prometheus` crate; this module states what the calls into
//! it do, and what is stated here is taken on trust.
//!
//! A family changes only through [`CounterVec::add`], and a registry
//! only through [`MetricRegistry::register`]; both take what they change
//! by unique reference. The registry keeps a handle to each family that
//! it took, and only reads through it.

use crate::error::Error;
use crate::text::texts_of;
use vstd::prelude::*;

verus! {

/// A family of counters of one name, told apart by their label values.
/// The counters are kept by `prometheus::IntCounterVec`.
#[verifier::external_body]
#[derive(Debug)]
pub struct CounterVec {
    inner: prometheus::IntCounterVec,
}

/// The count that a counter family holds in each of its children. The
/// family keeps one child per hash of the label values, so the children
/// are told apart by that hash; a child that was never touched counts
/// zero.
pub uninterp spec fn counter_values(family: CounterVec) -> Map<u64, u64>;

/// The label names that a counter family was made with, in their order.
pub uninterp spec fn family_labels(family: CounterVec) -> Seq<Seq<char>>;

/// The hash under which a counter family keeps the child for a list of
/// label values.
pub uninterp spec fn child_key(labels: Seq<Seq<char>>) -> u64;

/// The name that a counter family was made with.
pub uninterp spec fn family_name(family: CounterVec) -> Seq<char>;

/// The names of the counter families that a registry holds.
pub uninterp spec fn registered_names(registry: prometheus::Registry) -> Set<Seq<char>>;

/// One round of the hash by which the registry crate identifies a
/// name: the byte is mixed into the hash, and the hash is multiplied,
/// wrapping at 64 bits.
pub open spec fn hash_round(hash: u64, byte: u8) -> u64 {
    (((hash ^ (byte as u64)) * 0x100_0000_01b3) % 0x1_0000_0000_0000_0000) as u64
}

/// Eight rounds of the hash, one byte after the other.
pub open spec fn hash_eight(
    hash: u64,
    b0: u8,
    b1: u8,
    b2: u8,
    b3: u8,
    b4: u8,
    b5: u8,
    b6: u8,
    b7: u8,
) -> u64 {
    let h1 = hash_round(hash, b0);
    let h2 = hash_round(h1, b1);
    let h3 = hash_round(h2, b2);
    let h4 = hash_round(h3, b3);
    let h5 = hash_round(h4, b4);
    let h6 = hash_round(h5, b5);
    let h7 = hash_round(h6, b6);
    hash_round(h7, b7)
}

/// The hash of the first `n` characters of a metric name, each of which
/// is one byte.
pub open spec fn hash_upto(name: Seq<char>, n: nat) -> u64
    decreases n,
{
    if n == 0 {
        0xcbf2_9ce4_8422_2325
    } else {
        hash_round(hash_upto(name, (n - 1) as nat), name[n - 1] as u8)
    }
}

/// The identifier by which a registry knows the family of a metric
/// name: the hash of the bytes of the name and of one closing byte, as
/// `Desc::new` computes it with `fnv::FnvHasher`. Two names may have
/// one identifier.
#[verifier::opaque]
pub open spec fn descriptor_id(name: Seq<char>) -> u64 {
    hash_round(hash_upto(name, name.len()), 0xff)
}

/// What `MetricFamily::get_name` returns for a family that a registry
/// gathered.
pub uninterp spec fn gathered_name(family: prometheus::proto::MetricFamily) -> Seq<char>;

/// Whether `a` comes before `b` in the order of texts: character by
/// character, a text before those that it begins.
pub open spec fn precedes(a: Seq<char>, b: Seq<char>) -> bool
    decreases a.len(),
{
    if b.len() == 0 {
        false
    } else if a.len() == 0 {
        true
    } else if a[0] != b[0] {
        a[0] < b[0]
    } else {
        precedes(a.drop_first(), b.drop_first())
    }
}

/// What holds of the families gathered from a registry that holds the
/// families of some names: each has one of these names, and they come
/// in the order of their names, none twice.
pub open spec fn gathered_from(
    families: Seq<prometheus::proto::MetricFamily>,
    names: Set<Seq<char>>,
) -> bool {
    &&& forall|i: int|
        0 <= i < families.len() ==> names.contains(gathered_name(#[trigger] families[i]))
    &&& forall|i: int, j: int|
        0 <= i < j < families.len() ==> precedes(
            gathered_name(#[trigger] families[i]),
            gathered_name(#[trigger] families[j]),
        )
}

/// Whether a character may stand in a metric or label name: a letter
/// of the basic alphabet or an underscore, in a metric name also a
/// colon, and after the first character also a digit.
pub open spec fn name_char(c: char, colon: bool, first: bool) -> bool {
    ||| 'a' <= c <= 'z'
    ||| 'A' <= c <= 'Z'
    ||| c == '_'
    ||| (colon && c == ':')
    ||| (!first && '0' <= c <= '9')
}

/// Whether the registry crate takes a text as a metric name (`colon`)
/// or as a label name: it is not empty and is made of the characters
/// that such a name may hold.
pub open spec fn valid_name(s: Seq<char>, colon: bool) -> bool {
    &&& s.len() > 0
    &&& forall|i: int| 0 <= i < s.len() ==> name_char(#[trigger] s[i], colon, i == 0)
}

/// No text occurs twice in a list.
pub open spec fn all_distinct(texts: Seq<Seq<char>>) -> bool {
    forall|i: int, j: int| 0 <= i < j < texts.len() ==> texts[i] != texts[j]
}

/// Whether the registry crate makes a family of a name, a help text and
/// label names: the help text is not empty, the name is a metric name,
/// and the label names are label names, each of them once.
pub open spec fn family_accepted(
    name: Seq<char>,
    help: Seq<char>,
    label_names: Seq<Seq<char>>,
) -> bool {
    &&& help.len() > 0
    &&& valid_name(name, true)
    &&& forall|i: int| 0 <= i < label_names.len() ==> valid_name(#[trigger] label_names[i], false)
    &&& all_distinct(label_names)
}

/// Whether a registry that holds the families of some names takes a
/// family of another name: it does unless it holds a name with the
/// identifier of that name, as it does where it holds the name itself.
pub open spec fn takes(held: Set<Seq<char>>, name: Seq<char>) -> bool {
    forall|other: Seq<char>| #[trigger]
        held.contains(other) ==> descriptor_id(other) != descriptor_id(name)
}

/// Whether the registry crate tells the names of a list apart: no two of
/// them have one identifier.
pub open spec fn told_apart(names: Seq<Seq<char>>) -> bool {
    forall|i: int, j: int|
        0 <= i < j < names.len() ==> descriptor_id(#[trigger] names[i]) != descriptor_id(
            #[trigger] names[j],
        )
}

/// Whether a registry that holds the families of some names takes the
/// families of a list of names, offered one after the other: it takes
/// each of them by what it held, and tells them apart.
pub open spec fn takes_all(held: Set<Seq<char>>, names: Seq<Seq<char>>) -> bool {
    &&& forall|i: int| 0 <= i < names.len() ==> takes(held, #[trigger] names[i])
    &&& told_apart(names)
}

/// The counts of a family that nothing was added to.
pub open spec fn no_counts() -> Map<u64, u64> {
    Map::new(|k: u64| true, |k: u64| 0u64)
}

/// The sum of two counts as a 64-bit counter keeps it.
pub open spec fn wrapping_sum(a: u64, b: u64) -> u64 {
    ((a + b) % 0x1_0000_0000_0000_0000) as u64
}

/// `IntCounterVec::new` with `Opts::new`. It makes the family where the
/// help text is not empty, the name is a metric name, and the label
/// names are label names that differ from each other, as `Desc::new`
/// tests them; the family then has that name and those label names, and
/// every child counts zero. Where it refuses, the message of its error
/// comes back.
#[verifier::external_body]
fn family_new(name: &str, help: &str, label_names: &Vec<String>) -> (r: Result<CounterVec, String>)
    ensures
        r is Ok <==> family_accepted(name@, help@, texts_of(label_names@)),
        r is Ok ==> family_name(r.unwrap()) == name@ && family_labels(r.unwrap()) == texts_of(
            label_names@,
        ) && counter_values(r.unwrap()) == no_counts(),
{
    let names: Vec<&str> = label_names.iter().map(|s| s.as_str()).collect();
    match prometheus::IntCounterVec::new(prometheus::Opts::new(name, help), &names) {
        Ok(inner) => Ok(CounterVec { inner }),
        Err(e) => Err(e.to_string()),
    }
}

/// `MetricVec::get_metric_with_label_values` followed by
/// `GenericCounter::inc_by`: with as many label values as the family has
/// label names, the child under the hash of the values grows by the
/// amount, wrapping at 64 bits, and the other children stay; with another
/// number of values nothing is counted.
#[verifier::external_body]
fn family_add(family: &mut CounterVec, labels: &Vec<String>, by: u64) -> (counted:
    bool)
    ensures
        counted == (labels@.len() == family_labels(*old(family)).len()),
        family_name(*final(family)) == family_name(*old(family)),
        family_labels(*final(family)) == family_labels(*old(family)),
        counter_values(*final(family)) == if counted {
            counter_values(*old(family)).insert(
                child_key(texts_of(labels@)),
                wrapping_sum(counter_values(*old(family))[child_key(texts_of(labels@))], by),
            )
        } else {
            counter_values(*old(family))
        },
{
    let values: Vec<&str> = labels.iter().map(|s| s.as_str()).collect();
    match family.inner.get_metric_with_label_values(&values) {
        Ok(child) => {
            child.inc_by(by);
            true
        },
        Err(_) => false,
    }
}

/// `MetricVec::get_metric_with_label_values` followed by
/// `GenericCounter::get`: the count of the child under the hash of the
/// label values, or nothing with another number of values than the
/// family has label names. A child that is asked for the first time is
/// made on the way, with the count of zero that the counts already say.
#[verifier::external_body]
fn family_get(family: &CounterVec, labels: &Vec<String>) -> (count: Option<u64>)
    ensures
        count == if labels@.len() == family_labels(*family).len() {
            Some(counter_values(*family)[child_key(texts_of(labels@))])
        } else {
            None
        },
{
    let values: Vec<&str> = labels.iter().map(|s| s.as_str()).collect();
    match family.inner.get_metric_with_label_values(&values) {
        Ok(child) => Some(child.get()),
        Err(_) => None,
    }
}

impl CounterVec {
    /// The counts of the children, by the hash of their label values.
    pub closed spec fn values(&self) -> Map<u64, u64> {
        counter_values(*self)
    }

    /// The label names of the family, in their order.
    pub closed spec fn label_names(&self) -> Seq<Seq<char>> {
        family_labels(*self)
    }

    /// The number of label values that the family takes.
    pub open spec fn labels(&self) -> nat {
        self.label_names().len()
    }

    /// The name of the family.
    pub closed spec fn name(&self) -> Seq<char> {
        family_name(*self)
    }

    /// The count kept for a list of label values.
    pub open spec fn count_of(&self, labels: Seq<Seq<char>>) -> u64 {
        self.values()[child_key(labels)]
    }

    /// Makes a family of a name, with a help text and label names, every
    /// count at zero. It fails with a registry failure where the help
    /// text is empty, the name is no metric name, one of the label
    /// names is no label name, or a label name occurs twice.
    pub fn new(name: &str, help: &str, label_names: &Vec<String>) -> (r: Result<CounterVec, Error>)
        ensures
            r is Ok <==> family_accepted(name@, help@, texts_of(label_names@)),
            r is Ok ==> r.unwrap().name() == name@ && r.unwrap().label_names() == texts_of(
                label_names@,
            ) && r.unwrap().values() == no_counts(),
            r is Err ==> r.unwrap_err() is PrometheusError,
    {
        match family_new(name, help, label_names) {
            Ok(family) => Ok(family),
            Err(message) => Err(Error::PrometheusError(message)),
        }
    }

    /// Adds `by` to the count kept for the label values. Nothing is
    /// counted, and `false` returned, when the number of values is not
    /// the number of labels of the family.
    pub fn add(&mut self, labels: &Vec<String>, by: u64) -> (counted: bool)
        ensures
            counted == (labels@.len() == old(self).labels()),
            final(self).name() == old(self).name(),
            final(self).label_names() == old(self).label_names(),
            final(self).values() == if counted {
                old(self).values().insert(
                    child_key(texts_of(labels@)),
                    wrapping_sum(old(self).count_of(texts_of(labels@)), by),
                )
            } else {
                old(self).values()
            },
    {
        family_add(self, labels, by)
    }

    /// The count kept for the label values, or nothing when the number
    /// of values is not the number of labels of the family.
    pub fn get(&self, labels: &Vec<String>) -> (count: Option<u64>)
        ensures
            count == if labels@.len() == self.labels() {
                Some(self.count_of(texts_of(labels@)))
            } else {
                None
            },
    {
        family_get(self, labels)
    }
}

#[verifier::external_type_specification]
#[verifier::external_body]
pub struct ExRegistry(prometheus::Registry);

#[verifier::external_type_specification]
#[verifier::external_body]
pub struct ExMetricFamily(prometheus::proto::MetricFamily);

/// `Registry::new`: a registry of its own, apart from the default one of
/// the process, which holds no family yet.
#[verifier::external_body]
fn registry_new() -> (registry: prometheus::Registry)
    ensures
        registered_names(registry) == Set::<Seq<char>>::empty(),
{
    prometheus::Registry::new()
}

/// `Registry::register` on a handle to the family. The registry takes
/// the family unless it holds a family whose name has the identifier of
/// this family's name, which is the hash that [`descriptor_id`] states.
/// Where it takes the family, it holds the name of the family from then
/// on; where it refuses, it holds what it held, and the message of its
/// error comes back.
#[verifier::external_body]
fn registry_register(registry: &mut prometheus::Registry, family: &CounterVec) -> (r: Result<
    (),
    String,
>)
    ensures
        r is Ok <==> forall|held: Seq<char>| #[trigger]
            registered_names(*old(registry)).contains(held) ==> descriptor_id(held)
                != descriptor_id(family_name(*family)),
        r is Ok ==> registered_names(*final(registry)) == registered_names(*old(registry)).insert(
            family_name(*family),
        ),
        r is Err ==> registered_names(*final(registry)) == registered_names(*old(registry)),
{
    match registry.register(Box::new(family.inner.clone())) {
        Ok(()) => Ok(()),
        Err(e) => Err(e.to_string()),
    }
}

/// `Registry::gather`: the families of the registry that have a child,
/// with the counts of their children. Each has the name of a family that
/// the registry holds, and they come sorted by name, none twice. Which
/// of the families have a child is not said.
#[verifier::external_body]
fn registry_gather(registry: &prometheus::Registry) -> (families: Vec<
    prometheus::proto::MetricFamily,
>)
    ensures
        forall|i: int|
            0 <= i < families@.len() ==> registered_names(*registry).contains(
                gathered_name(#[trigger] families@[i]),
            ),
        forall|i: int, j: int|
            0 <= i < j < families@.len() ==> precedes(
                gathered_name(#[trigger] families@[i]),
                gathered_name(#[trigger] families@[j]),
            ),
{
    registry.gather()
}

/// The registry that the scrape endpoint reads. It is kept by
/// `prometheus::Registry`.
#[derive(Debug)]
pub struct MetricRegistry {
    inner: prometheus::Registry,
}

impl MetricRegistry {
    /// The names of the families that the registry holds.
    pub closed spec fn families(&self) -> Set<Seq<char>> {
        registered_names(self.inner)
    }

    /// A registry that holds no family.
    pub fn new() -> (registry: MetricRegistry)
        ensures
            registry.families() == Set::<Seq<char>>::empty(),
    {
        MetricRegistry { inner: registry_new() }
    }

    /// Offers a family to the registry, which takes it unless it holds
    /// a family whose name has the identifier of this family's name; so
    /// it takes no name twice. Where the registry takes the family, it
    /// holds its name from then on; where it refuses, nothing changes.
    pub fn register(&mut self, family: &CounterVec) -> (r: Result<(), Error>)
        ensures
            r is Ok <==> takes(old(self).families(), family.name()),
            old(self).families().contains(family.name()) ==> r is Err,
            r is Ok ==> final(self).families() == old(self).families().insert(family.name()),
            r is Err ==> final(self).families() == old(self).families() && r.unwrap_err()
                is PrometheusError,
    {
        match registry_register(&mut self.inner, family) {
            Ok(()) => Ok(()),
            Err(message) => Err(Error::PrometheusError(message)),
        }
    }

    /// The families of the registry that have a child, with the counts
    /// of their children: each has the name of a family that the
    /// registry holds, and they come sorted by name, none twice. A
    /// family has a child once a count of it was added to or read.
    pub fn gather(&self) -> (families: Vec<prometheus::proto::MetricFamily>)
        ensures
            gathered_from(families@, self.families()),
    {
        registry_gather(&self.inner)
    }
}

} // verus!
