//! Prometheus metric families with integer values, and what they hold.
//!
//! A family keeps one series per key, where the key is the hash that
//! Prometheus computes from the label values. The families are written by the
//! collection core alone; whoever serves them only reads.
//!
//! A registry keeps the families registered with it by what their descriptors
//! say. A registry handle given to the collection core is taken to be the
//! only one through which families are registered while it is in use.

use vstd::prelude::*;

verus! {

#[verifier::external_type_specification]
#[verifier::external_body]
pub struct ExRegistryError(prometheus::Error);

#[verifier::external_type_specification]
#[verifier::external_body]
pub struct ExRegistry(prometheus::Registry);

/// A family of integer gauges: `prometheus::IntGaugeVec`.
#[verifier::external_body]
pub struct IntGaugeFamily {
    inner: prometheus::IntGaugeVec,
}

/// A family of integer counters: `prometheus::IntCounterVec`.
#[verifier::external_body]
pub struct IntCounterFamily {
    inner: prometheus::IntCounterVec,
}

/// The key under which a family keeps the series with the given label values:
/// the hash that `MetricVec` computes from them.
pub uninterp spec fn series_key(label_values: Seq<Seq<char>>) -> u64;

/// The series of a gauge family: the value of each, by key.
pub uninterp spec fn int_gauge_series(family: IntGaugeFamily) -> Map<u64, i64>;

/// The number of label values that every series of a gauge family takes.
pub uninterp spec fn int_gauge_arity(family: IntGaugeFamily) -> nat;

/// The series of a counter family: the value of each, by key.
pub uninterp spec fn int_counter_series(family: IntCounterFamily) -> Map<u64, u64>;

/// The number of label values that every series of a counter family takes.
pub uninterp spec fn int_counter_arity(family: IntCounterFamily) -> nat;

/// What a family's descriptor says of it: `Desc::id`, `Desc::dim_hash` and
/// `Desc::fq_name`.
pub struct FamilyDescriptor {
    /// The hash of the family's name.
    pub id: u64,
    /// The hash of the family's help text and label names.
    pub dimensions: u64,
    /// The family's name.
    pub name: Seq<char>,
}

/// What a registry keeps of what was registered with it.
pub struct RegistryView {
    /// The ids of the descriptors of all collectors held.
    pub descriptors: Set<u64>,
    /// The dimensions that each name was first seen with.
    pub dimensions: Map<Seq<char>, u64>,
    /// The ids of the collectors held; the id of a family is that of its
    /// descriptor.
    pub collectors: Set<u64>,
}

/// The descriptor of a gauge family.
pub uninterp spec fn int_gauge_descriptor(family: IntGaugeFamily) -> FamilyDescriptor;

/// The descriptor of a counter family.
pub uninterp spec fn int_counter_descriptor(family: IntCounterFamily) -> FamilyDescriptor;

/// The ids of the descriptors that a registry holds.
pub uninterp spec fn registry_descriptors(registry: prometheus::Registry) -> Set<u64>;

/// The dimensions that a registry has on record, by name.
pub uninterp spec fn registry_dimensions(registry: prometheus::Registry) -> Map<Seq<char>, u64>;

/// The ids of the collectors that a registry holds and gathers from.
pub uninterp spec fn registry_collectors(registry: prometheus::Registry) -> Set<u64>;

/// What a registry keeps.
pub open spec fn registry_view(registry: prometheus::Registry) -> RegistryView {
    RegistryView {
        descriptors: registry_descriptors(registry),
        dimensions: registry_dimensions(registry),
        collectors: registry_collectors(registry),
    }
}

impl RegistryView {
    /// Whether the name of `family` is on record with other dimensions.
    pub open spec fn contradicts(self, family: FamilyDescriptor) -> bool {
        self.dimensions.contains_key(family.name) && self.dimensions[family.name]
            != family.dimensions
    }

    /// Whether the registry takes `family`: its descriptor is not held yet,
    /// its name is not on record with other dimensions, and no collector is
    /// held under its id.
    pub open spec fn takes(self, family: FamilyDescriptor) -> bool {
        &&& !self.descriptors.contains(family.id)
        &&& !self.contradicts(family)
        &&& !self.collectors.contains(family.id)
    }

    /// What the registry keeps after `family` was offered to it. A family
    /// that is taken is held from then on. A family that is refused leaves
    /// the registry as it was, but for one case: where only the collector id
    /// stands in the way, the dimensions of the name are on record already.
    pub open spec fn offered(self, family: FamilyDescriptor) -> RegistryView {
        if self.descriptors.contains(family.id) || self.contradicts(family) {
            self
        } else if self.collectors.contains(family.id) {
            RegistryView {
                dimensions: self.dimensions.insert(family.name, family.dimensions),
                ..self
            }
        } else {
            RegistryView {
                descriptors: self.descriptors.insert(family.id),
                dimensions: self.dimensions.insert(family.name, family.dimensions),
                collectors: self.collectors.insert(family.id),
            }
        }
    }

    /// What comes of offering the families from place `from` on, one after
    /// the other, up to the first that is refused: what the registry keeps
    /// then, and whether all were taken.
    pub open spec fn offered_all(self, families: Seq<FamilyDescriptor>, from: int) -> (
        RegistryView,
        bool,
    )
        decreases families.len() - from,
    {
        if from < 0 || from >= families.len() {
            (self, true)
        } else if self.takes(families[from]) {
            self.offered(families[from]).offered_all(families, from + 1)
        } else {
            (self.offered(families[from]), false)
        }
    }
}

/// Offering families never makes a registry drop what it holds, and the
/// families that were taken are held afterwards.
pub proof fn lemma_taken_families_are_held(
    view: RegistryView,
    families: Seq<FamilyDescriptor>,
    from: int,
)
    requires
        0 <= from <= families.len(),
    ensures
        view.descriptors.subset_of(view.offered_all(families, from).0.descriptors),
        view.collectors.subset_of(view.offered_all(families, from).0.collectors),
        view.offered_all(families, from).1 ==> forall|i: int|
            from <= i < families.len() ==> {
                &&& view.offered_all(families, from).0.descriptors.contains(
                    (#[trigger] families[i]).id,
                )
                &&& view.offered_all(families, from).0.collectors.contains(families[i].id)
            },
    decreases families.len() - from,
{
    if from < families.len() {
        lemma_taken_families_are_held(view.offered(families[from]), families, from + 1);
    }
}

/// Families that a registry took are refused when they are offered again.
pub proof fn lemma_registering_twice_is_refused(view: RegistryView, families: Seq<FamilyDescriptor>)
    requires
        families.len() > 0,
        view.offered_all(families, 0).1,
    ensures
        !view.offered_all(families, 0).0.offered_all(families, 0).1,
{
    lemma_taken_families_are_held(view, families, 0);
    assert(view.offered_all(families, 0).0.descriptors.contains(families[0].id));
}

/// Label values as texts.
pub open spec fn texts(labels: Seq<&str>) -> Seq<Seq<char>> {
    labels.map_values(|s: &str| s@)
}

/// The value of the series at `key`, which is zero as long as the series does
/// not exist: a series starts at zero.
pub open spec fn counter_at(series: Map<u64, u64>, key: u64) -> u64 {
    if series.contains_key(key) {
        series[key]
    } else {
        0
    }
}

/// Whether the character is an ASCII letter.
pub open spec fn is_letter(c: char) -> bool {
    ('a' <= c && c <= 'z') || ('A' <= c && c <= 'Z')
}

/// Whether the character is an ASCII digit.
pub open spec fn is_digit(c: char) -> bool {
    '0' <= c && c <= '9'
}

/// Whether Prometheus takes the text as the name of a metric: a letter, an
/// underscore or a colon, followed by any of these and digits.
pub open spec fn is_metric_name(name: Seq<char>) -> bool {
    &&& name.len() > 0
    &&& is_letter(name[0]) || name[0] == '_' || name[0] == ':'
    &&& forall|i: int|
        0 < i < name.len() ==> is_letter(#[trigger] name[i]) || is_digit(name[i]) || name[i] == '_'
            || name[i] == ':'
}

/// Whether Prometheus takes the text as the name of a label: a letter or an
/// underscore, followed by any of these and digits.
pub open spec fn is_label_name(name: Seq<char>) -> bool {
    &&& name.len() > 0
    &&& is_letter(name[0]) || name[0] == '_'
    &&& forall|i: int|
        0 < i < name.len() ==> is_letter(#[trigger] name[i]) || is_digit(name[i]) || name[i] == '_'
}

/// Whether Prometheus makes a family of this description: the help text is
/// not empty, the name is a metric name, and the label names are label names
/// that differ from each other.
pub open spec fn describes_family(
    name: Seq<char>,
    help: Seq<char>,
    label_names: Seq<Seq<char>>,
) -> bool {
    &&& help.len() > 0
    &&& is_metric_name(name)
    &&& forall|i: int| 0 <= i < label_names.len() ==> is_label_name(#[trigger] label_names[i])
    &&& forall|i: int, j: int|
        0 <= i < j < label_names.len() ==> #[trigger] label_names[i] != #[trigger] label_names[j]
}

/// `IntGaugeVec::new` on `Opts::new(name, help)`: it makes the family where
/// the description is one that `Desc::new` takes, and fails otherwise. The
/// family has no series yet and takes as many label values as there are
/// label names.
#[verifier::external_body]
pub(crate) fn int_gauge_family(
    name: &str,
    help: &str,
    label_names: &Vec<&str>,
) -> (made: Result<IntGaugeFamily, prometheus::Error>)
    ensures
        made is Ok <==> describes_family(name@, help@, texts(label_names@)),
        made matches Ok(family) ==> int_gauge_series(family).dom() == Set::<u64>::empty(),
        made matches Ok(family) ==> int_gauge_arity(family) == label_names@.len(),
{
    let inner = prometheus::IntGaugeVec::new(prometheus::Opts::new(name, help), label_names)?;
    Ok(IntGaugeFamily { inner })
}

/// `IntCounterVec::new` on `Opts::new(name, help)`: it makes the family where
/// the description is one that `Desc::new` takes, and fails otherwise. The
/// family has no series yet and takes as many label values as there are
/// label names.
#[verifier::external_body]
pub(crate) fn int_counter_family(
    name: &str,
    help: &str,
    label_names: &Vec<&str>,
) -> (made: Result<IntCounterFamily, prometheus::Error>)
    ensures
        made is Ok <==> describes_family(name@, help@, texts(label_names@)),
        made matches Ok(family) ==> int_counter_series(family).dom() == Set::<u64>::empty(),
        made matches Ok(family) ==> int_counter_arity(family) == label_names@.len(),
{
    let inner = prometheus::IntCounterVec::new(prometheus::Opts::new(name, help), label_names)?;
    Ok(IntCounterFamily { inner })
}

/// `MetricVec::with_label_values` followed by `IntGauge::set`: the series
/// keyed by the label values holds `value` afterwards, whether it existed or
/// not, and no other series changes. With as many label values as the family
/// takes, `with_label_values` does not panic.
#[verifier::external_body]
pub(crate) fn int_gauge_set(family: &mut IntGaugeFamily, labels: &Vec<&str>, value: i64)
    requires
        labels@.len() == int_gauge_arity(*old(family)),
    ensures
        int_gauge_arity(*final(family)) == int_gauge_arity(*old(family)),
        int_gauge_series(*final(family)) == int_gauge_series(*old(family)).insert(
            series_key(texts(labels@)),
            value,
        ),
{
    family.inner.with_label_values(labels).set(value);
}

/// `MetricVec::with_label_values` followed by `IntCounter::get`: the value of
/// the series keyed by the label values. A series that did not exist is
/// created at zero; no other series changes.
#[verifier::external_body]
pub(crate) fn int_counter_get(family: &mut IntCounterFamily, labels: &Vec<&str>) -> (value: u64)
    requires
        labels@.len() == int_counter_arity(*old(family)),
    ensures
        int_counter_arity(*final(family)) == int_counter_arity(*old(family)),
        value == counter_at(int_counter_series(*old(family)), series_key(texts(labels@))),
        int_counter_series(*final(family)) == int_counter_series(*old(family)).insert(
            series_key(texts(labels@)),
            value,
        ),
{
    family.inner.with_label_values(labels).get()
}

/// `MetricVec::with_label_values` followed by `IntCounter::inc_by`: the
/// series keyed by the label values grows by `delta`, from zero if it did not
/// exist, and wraps around at 2^64 as the atomic addition underneath does; no
/// other series changes.
#[verifier::external_body]
pub(crate) fn int_counter_add(family: &mut IntCounterFamily, labels: &Vec<&str>, delta: u64)
    requires
        labels@.len() == int_counter_arity(*old(family)),
    ensures
        int_counter_arity(*final(family)) == int_counter_arity(*old(family)),
        int_counter_series(*final(family)) == int_counter_series(*old(family)).insert(
            series_key(texts(labels@)),
            ((counter_at(int_counter_series(*old(family)), series_key(texts(labels@))) + delta)
                % 0x1_0000_0000_0000_0000) as u64,
        ),
{
    family.inner.with_label_values(labels).inc_by(delta);
}

/// `Registry::register` on a handle to the gauge family: the registry takes
/// the family exactly where `RegistryView::takes` says so, and keeps afterwards
/// what `RegistryView::offered` says.
#[verifier::external_body]
pub(crate) fn register_int_gauges(
    registry: &mut prometheus::Registry,
    family: &IntGaugeFamily,
) -> (outcome: Result<(), prometheus::Error>)
    ensures
        outcome is Ok <==> registry_view(*old(registry)).takes(int_gauge_descriptor(*family)),
        registry_descriptors(*final(registry)) == registry_view(*old(registry)).offered(
            int_gauge_descriptor(*family),
        ).descriptors,
        registry_dimensions(*final(registry)) == registry_view(*old(registry)).offered(
            int_gauge_descriptor(*family),
        ).dimensions,
        registry_collectors(*final(registry)) == registry_view(*old(registry)).offered(
            int_gauge_descriptor(*family),
        ).collectors,
{
    registry.register(Box::new(family.inner.clone()))
}

/// `Registry::register` on a handle to the counter family: the registry
/// takes the family exactly where `RegistryView::takes` says so, and keeps
/// afterwards what `RegistryView::offered` says.
#[verifier::external_body]
pub(crate) fn register_int_counters(
    registry: &mut prometheus::Registry,
    family: &IntCounterFamily,
) -> (outcome: Result<(), prometheus::Error>)
    ensures
        outcome is Ok <==> registry_view(*old(registry)).takes(int_counter_descriptor(*family)),
        registry_descriptors(*final(registry)) == registry_view(*old(registry)).offered(
            int_counter_descriptor(*family),
        ).descriptors,
        registry_dimensions(*final(registry)) == registry_view(*old(registry)).offered(
            int_counter_descriptor(*family),
        ).dimensions,
        registry_collectors(*final(registry)) == registry_view(*old(registry)).offered(
            int_counter_descriptor(*family),
        ).collectors,
{
    registry.register(Box::new(family.inner.clone()))
}

} // verus!
