//! The integer metric families of the exporter and how a reading is written
//! into them.
//!
//! Every series of a device carries the device's three identity labels. The
//! two families with fractional values, fan speed and temperature, are not
//! kept here: see `gauge`.

use crate::counter::{counter_increment, increment_for, mirrored_after};
use crate::identity::{DeviceIdentity, LABEL_COUNT};
use crate::query::{MemoryInfo, Reading};
use crate::registry::{
    counter_at, describes_family, int_counter_add, int_counter_arity, int_counter_descriptor,
    int_counter_family, int_counter_get, int_counter_series, int_gauge_arity,
    int_gauge_descriptor, int_gauge_family, int_gauge_series, int_gauge_set, is_label_name,
    is_metric_name, register_int_counters, register_int_gauges, registry_view, series_key, texts,
    FamilyDescriptor, IntCounterFamily, IntGaugeFamily,
};
use vstd::prelude::*;

verus! {

/// The largest value an integer gauge holds.
pub const GAUGE_MAX: u64 = 0x7fff_ffff_ffff_ffff;

/// The integer families: six gauges and two counters.
pub struct Metrics {
    memory_free: IntGaugeFamily,
    memory_used: IntGaugeFamily,
    memory_total: IntGaugeFamily,
    performance_state: IntGaugeFamily,
    power_usage: IntGaugeFamily,
    power_limit: IntGaugeFamily,
    energy_used: IntCounterFamily,
    pci_replay: IntCounterFamily,
}

/// What the integer families hold: for each family the value of every series,
/// by series key.
pub struct MetricsView {
    /// `nvml_memory_free_bytes`
    pub memory_free: Map<u64, i64>,
    /// `nvml_memory_used_bytes`
    pub memory_used: Map<u64, i64>,
    /// `nvml_memory_total_bytes`
    pub memory_total: Map<u64, i64>,
    /// `nvml_performance_state`
    pub performance_state: Map<u64, i64>,
    /// `nvml_power_usage_current_mw`
    pub power_usage: Map<u64, i64>,
    /// `nvml_power_usage_max_mw`
    pub power_limit: Map<u64, i64>,
    /// `nvml_power_used_total_mj`
    pub energy_used: Map<u64, u64>,
    /// `nvml_pci_replay`
    pub pci_replay: Map<u64, u64>,
}

/// Where a counter series stands after a sample of `current`.
pub open spec fn mirrored(series: Map<u64, u64>, key: u64, current: u64) -> Map<u64, u64> {
    series.insert(key, mirrored_after(counter_at(series, key) as nat, current as nat) as u64)
}

impl MemoryInfo {
    /// Whether all three byte counts can be held by an integer gauge.
    pub open spec fn publishable(self) -> bool {
        self.free <= GAUGE_MAX && self.used <= GAUGE_MAX && self.total <= GAUGE_MAX
    }
}

impl Reading {
    /// Whether the reading can be published in full. Only a byte count above
    /// what an integer gauge holds cannot.
    pub open spec fn publishable(self) -> bool {
        self matches Reading::Memory(m) ==> m.publishable()
    }
}

impl MetricsView {
    /// Families without any series.
    pub open spec fn empty() -> MetricsView {
        MetricsView {
            memory_free: Map::empty(),
            memory_used: Map::empty(),
            memory_total: Map::empty(),
            performance_state: Map::empty(),
            power_usage: Map::empty(),
            power_limit: Map::empty(),
            energy_used: Map::empty(),
            pci_replay: Map::empty(),
        }
    }

    /// The families after the memory gauges of the series `key` were set one
    /// by one, free, used, total, up to the first byte count that a gauge
    /// cannot hold.
    pub open spec fn after_memory(self, key: u64, m: MemoryInfo) -> MetricsView {
        if m.free > GAUGE_MAX {
            self
        } else if m.used > GAUGE_MAX {
            MetricsView { memory_free: self.memory_free.insert(key, m.free as i64), ..self }
        } else if m.total > GAUGE_MAX {
            MetricsView {
                memory_free: self.memory_free.insert(key, m.free as i64),
                memory_used: self.memory_used.insert(key, m.used as i64),
                ..self
            }
        } else {
            MetricsView {
                memory_free: self.memory_free.insert(key, m.free as i64),
                memory_used: self.memory_used.insert(key, m.used as i64),
                memory_total: self.memory_total.insert(key, m.total as i64),
                ..self
            }
        }
    }

    /// The families after `reading` was published for the series `key`.
    /// A gauge takes the value read; a counter moves up to the value read and
    /// never down; fan speed and temperature are not held here, so they
    /// change nothing.
    pub open spec fn after(self, key: u64, reading: Reading) -> MetricsView {
        match reading {
            Reading::Memory(m) => self.after_memory(key, m),
            Reading::FanSpeed { .. } => self,
            Reading::Temperature(_) => self,
            Reading::PerformanceState(state) => MetricsView {
                performance_state: self.performance_state.insert(key, state.level() as i64),
                ..self
            },
            Reading::PowerUsage(milliwatts) => MetricsView {
                power_usage: self.power_usage.insert(key, milliwatts as i64),
                ..self
            },
            Reading::PowerLimit(milliwatts) => MetricsView {
                power_limit: self.power_limit.insert(key, milliwatts as i64),
                ..self
            },
            Reading::TotalEnergy(millijoules) => MetricsView {
                energy_used: mirrored(self.energy_used, key, millijoules),
                ..self
            },
            Reading::PcieReplays(replays) => MetricsView {
                pci_replay: mirrored(self.pci_replay, key, replays as u64),
                ..self
            },
        }
    }

    /// The families after each of `readings` was published for the series
    /// `key`, in order.
    pub open spec fn after_all(self, key: u64, readings: Seq<Reading>) -> MetricsView
        decreases readings.len(),
    {
        if readings.len() == 0 {
            self
        } else {
            self.after_all(key, readings.drop_last()).after(key, readings.last())
        }
    }
}

/// Whether two states of the families agree on the series `key`: in each
/// family the series exists in both or in neither, with the same value.
pub open spec fn same_series(a: MetricsView, b: MetricsView, key: u64) -> bool {
    &&& a.memory_free.contains_key(key) == b.memory_free.contains_key(key)
    &&& a.memory_free[key] == b.memory_free[key]
    &&& a.memory_used.contains_key(key) == b.memory_used.contains_key(key)
    &&& a.memory_used[key] == b.memory_used[key]
    &&& a.memory_total.contains_key(key) == b.memory_total.contains_key(key)
    &&& a.memory_total[key] == b.memory_total[key]
    &&& a.performance_state.contains_key(key) == b.performance_state.contains_key(key)
    &&& a.performance_state[key] == b.performance_state[key]
    &&& a.power_usage.contains_key(key) == b.power_usage.contains_key(key)
    &&& a.power_usage[key] == b.power_usage[key]
    &&& a.power_limit.contains_key(key) == b.power_limit.contains_key(key)
    &&& a.power_limit[key] == b.power_limit[key]
    &&& a.energy_used.contains_key(key) == b.energy_used.contains_key(key)
    &&& a.energy_used[key] == b.energy_used[key]
    &&& a.pci_replay.contains_key(key) == b.pci_replay.contains_key(key)
    &&& a.pci_replay[key] == b.pci_replay[key]
}

/// Whether no counter series stands lower in `after` than in `before`.
pub open spec fn counters_not_lowered(before: MetricsView, after: MetricsView) -> bool {
    forall|key: u64|
        #![trigger counter_at(after.energy_used, key)]
        #![trigger counter_at(after.pci_replay, key)]
        counter_at(before.energy_used, key) <= counter_at(after.energy_used, key) && counter_at(
            before.pci_replay,
            key,
        ) <= counter_at(after.pci_replay, key)
}

/// Publishing readings for one device leaves the series of every other key
/// as they were.
pub proof fn lemma_publishing_leaves_other_series(
    start: MetricsView,
    key: u64,
    readings: Seq<Reading>,
    other: u64,
)
    requires
        other != key,
    ensures
        same_series(start, start.after_all(key, readings), other),
    decreases readings.len(),
{
    if readings.len() > 0 {
        lemma_publishing_leaves_other_series(start, key, readings.drop_last(), other);
    }
}

/// Publishing never lowers a counter: whatever is read, and for whichever
/// device, every counter series stands afterwards at least where it stood.
pub proof fn lemma_publishing_never_lowers_counters(
    start: MetricsView,
    key: u64,
    readings: Seq<Reading>,
)
    ensures
        counters_not_lowered(start, start.after_all(key, readings)),
    decreases readings.len(),
{
    if readings.len() > 0 {
        let earlier = start.after_all(key, readings.drop_last());
        lemma_publishing_never_lowers_counters(start, key, readings.drop_last());
        let after = earlier.after(key, readings.last());
        assert forall|any: u64|
            counter_at(start.energy_used, any) <= counter_at(after.energy_used, any) && counter_at(
                start.pci_replay,
                any,
            ) <= counter_at(after.pci_replay, any) by {
            assert(counter_at(start.energy_used, any) <= counter_at(earlier.energy_used, any));
            assert(counter_at(start.pci_replay, any) <= counter_at(earlier.pci_replay, any));
        }
    }
}

/// A counter reading brings the device's counter series to the larger of
/// where it stood and what was read; while the hardware counter does not fall
/// below the published one, the series equals the hardware counter.
pub proof fn lemma_counter_reading_is_mirrored(start: MetricsView, key: u64, current: u64)
    ensures
        counter_at(start.after(key, Reading::TotalEnergy(current)).energy_used, key) == (if current
            >= counter_at(start.energy_used, key) {
            current
        } else {
            counter_at(start.energy_used, key)
        }),
        counter_at(start.after(key, Reading::TotalEnergy(current)).energy_used, key) - counter_at(
            start.energy_used,
            key,
        ) == increment_for(
            current as nat,
            counter_at(start.energy_used, key) as nat,
        ),
{
}

impl View for Metrics {
    type V = MetricsView;

    closed spec fn view(&self) -> MetricsView {
        MetricsView {
            memory_free: int_gauge_series(self.memory_free),
            memory_used: int_gauge_series(self.memory_used),
            memory_total: int_gauge_series(self.memory_total),
            performance_state: int_gauge_series(self.performance_state),
            power_usage: int_gauge_series(self.power_usage),
            power_limit: int_gauge_series(self.power_limit),
            energy_used: int_counter_series(self.energy_used),
            pci_replay: int_counter_series(self.pci_replay),
        }
    }
}

/// Brings a counter series up to the value the hardware reports: reads where
/// the series stands and adds the distance, if there is any.
fn mirror(family: &mut IntCounterFamily, labels: &Vec<&str>, current: u64)
    requires
        labels@.len() == int_counter_arity(*old(family)),
    ensures
        int_counter_arity(*final(family)) == int_counter_arity(*old(family)),
        int_counter_series(*final(family)) == mirrored(
            int_counter_series(*old(family)),
            series_key(texts(labels@)),
            current,
        ),
{
    let standing: u64 = int_counter_get(family, labels);
    let delta: u64 = counter_increment(current, standing);
    int_counter_add(family, labels, delta);
    assert(int_counter_series(*family) =~= mirrored(
        int_counter_series(*old(family)),
        series_key(texts(labels@)),
        current,
    ));
}

/// The names of the identity labels, in the order of the label values.
pub open spec fn identity_label_names() -> Seq<Seq<char>> {
    seq!["uuid"@, "name"@, "pci"@]
}

/// Every family of the catalog has a description that Prometheus takes.
proof fn lemma_catalog_is_taken()
    ensures
        describes_family("nvml_memory_free_bytes"@, "Free Memory"@, identity_label_names()),
        describes_family("nvml_memory_used_bytes"@, "Used Memory"@, identity_label_names()),
        describes_family("nvml_memory_total_bytes"@, "Total Memory"@, identity_label_names()),
        describes_family(
            "nvml_performance_state"@,
            "Performance State (between 15 (low) and 0 (high))"@,
            identity_label_names(),
        ),
        describes_family(
            "nvml_power_usage_current_mw"@,
            "Current power usage (mW)"@,
            identity_label_names(),
        ),
        describes_family(
            "nvml_power_usage_max_mw"@,
            "Enforced power limit (mW)"@,
            identity_label_names(),
        ),
        describes_family(
            "nvml_power_used_total_mj"@,
            "Energy used in total"@,
            identity_label_names(),
        ),
        describes_family("nvml_pci_replay"@, "PCIe replay counter"@, identity_label_names()),
{
    reveal_strlit("uuid");
    reveal_strlit("name");
    reveal_strlit("pci");
    reveal_strlit("nvml_memory_free_bytes");
    reveal_strlit("nvml_memory_used_bytes");
    reveal_strlit("nvml_memory_total_bytes");
    reveal_strlit("nvml_performance_state");
    reveal_strlit("nvml_power_usage_current_mw");
    reveal_strlit("nvml_power_usage_max_mw");
    reveal_strlit("nvml_power_used_total_mj");
    reveal_strlit("nvml_pci_replay");
    reveal_strlit("Free Memory");
    reveal_strlit("Used Memory");
    reveal_strlit("Total Memory");
    reveal_strlit("Performance State (between 15 (low) and 0 (high))");
    reveal_strlit("Current power usage (mW)");
    reveal_strlit("Enforced power limit (mW)");
    reveal_strlit("Energy used in total");
    reveal_strlit("PCIe replay counter");
    let labels = identity_label_names();
    assert(is_label_name(labels[0]));
    assert(is_label_name(labels[1]));
    assert(is_label_name(labels[2]));
    assert(labels[0][0] != labels[1][0]);
    assert(labels[0][0] != labels[2][0]);
    assert(labels[1][0] != labels[2][0]);
    assert(is_metric_name("nvml_memory_free_bytes"@));
    assert(is_metric_name("nvml_memory_used_bytes"@));
    assert(is_metric_name("nvml_memory_total_bytes"@));
    assert(is_metric_name("nvml_performance_state"@));
    assert(is_metric_name("nvml_power_usage_current_mw"@));
    assert(is_metric_name("nvml_power_usage_max_mw"@));
    assert(is_metric_name("nvml_power_used_total_mj"@));
    assert(is_metric_name("nvml_pci_replay"@));
}

impl Metrics {
    /// Whether every family takes the three identity labels.
    pub closed spec fn wf(&self) -> bool {
        &&& int_gauge_arity(self.memory_free) == LABEL_COUNT
        &&& int_gauge_arity(self.memory_used) == LABEL_COUNT
        &&& int_gauge_arity(self.memory_total) == LABEL_COUNT
        &&& int_gauge_arity(self.performance_state) == LABEL_COUNT
        &&& int_gauge_arity(self.power_usage) == LABEL_COUNT
        &&& int_gauge_arity(self.power_limit) == LABEL_COUNT
        &&& int_counter_arity(self.energy_used) == LABEL_COUNT
        &&& int_counter_arity(self.pci_replay) == LABEL_COUNT
    }

    /// Creates the eight families, each without any series. The names of the
    /// catalog are names that Prometheus takes, so this does not fail.
    pub fn new() -> (made: Result<Metrics, prometheus::Error>)
        ensures
            made is Ok,
            made matches Ok(metrics) ==> metrics.wf() && metrics@ == MetricsView::empty(),
    {
        let names: Vec<&str> = vec!["uuid", "name", "pci"];
        proof {
            lemma_catalog_is_taken();
            assert(texts(names@) =~= identity_label_names());
        }
        let memory_free = int_gauge_family("nvml_memory_free_bytes", "Free Memory", &names)?;
        let memory_used = int_gauge_family("nvml_memory_used_bytes", "Used Memory", &names)?;
        let memory_total = int_gauge_family("nvml_memory_total_bytes", "Total Memory", &names)?;
        let performance_state = int_gauge_family(
            "nvml_performance_state",
            "Performance State (between 15 (low) and 0 (high))",
            &names,
        )?;
        let power_usage = int_gauge_family(
            "nvml_power_usage_current_mw",
            "Current power usage (mW)",
            &names,
        )?;
        let power_limit = int_gauge_family(
            "nvml_power_usage_max_mw",
            "Enforced power limit (mW)",
            &names,
        )?;
        let energy_used = int_counter_family(
            "nvml_power_used_total_mj",
            "Energy used in total",
            &names,
        )?;
        let pci_replay = int_counter_family("nvml_pci_replay", "PCIe replay counter", &names)?;
        let metrics = Metrics {
            memory_free,
            memory_used,
            memory_total,
            performance_state,
            power_usage,
            power_limit,
            energy_used,
            pci_replay,
        };
        proof {
            let empty = MetricsView::empty();
            assert(metrics@.memory_free =~= empty.memory_free);
            assert(metrics@.memory_used =~= empty.memory_used);
            assert(metrics@.memory_total =~= empty.memory_total);
            assert(metrics@.performance_state =~= empty.performance_state);
            assert(metrics@.power_usage =~= empty.power_usage);
            assert(metrics@.power_limit =~= empty.power_limit);
            assert(metrics@.energy_used =~= empty.energy_used);
            assert(metrics@.pci_replay =~= empty.pci_replay);
        }
        Ok(metrics)
    }

    /// The descriptors of the eight families, in the order of the catalog.
    pub closed spec fn descriptors(&self) -> Seq<FamilyDescriptor> {
        seq![
            int_gauge_descriptor(self.memory_free),
            int_gauge_descriptor(self.memory_used),
            int_gauge_descriptor(self.memory_total),
            int_gauge_descriptor(self.performance_state),
            int_gauge_descriptor(self.power_usage),
            int_gauge_descriptor(self.power_limit),
            int_counter_descriptor(self.energy_used),
            int_counter_descriptor(self.pci_replay),
        ]
    }

    /// Registers the eight families with `registry`, in the order of the
    /// catalog, and stops at the first that the registry refuses.
    ///
    /// The result is `Ok` exactly where the registry takes every family in
    /// its turn; then it holds all eight afterwards. Otherwise the result is
    /// the registry's error, and the registry holds the families before the
    /// first that it refused.
    pub fn register(&self, registry: &mut prometheus::Registry) -> (outcome: Result<
        (),
        prometheus::Error,
    >)
        ensures
            outcome is Ok <==> registry_view(*old(registry)).offered_all(self.descriptors(), 0).1,
            registry_view(*final(registry)) == registry_view(*old(registry)).offered_all(
                self.descriptors(),
                0,
            ).0,
    {
        let ghost families = self.descriptors();
        let ghost start = registry_view(*registry);
        assert(families.len() == 8);
        match register_int_gauges(registry, &self.memory_free) {
            Ok(()) => {},
            Err(e) => {
                return Err(e);
            },
        }
        assert(start.offered_all(families, 0) == registry_view(*registry).offered_all(families, 1));
        match register_int_gauges(registry, &self.memory_used) {
            Ok(()) => {},
            Err(e) => {
                return Err(e);
            },
        }
        assert(start.offered_all(families, 0) == registry_view(*registry).offered_all(families, 2));
        match register_int_gauges(registry, &self.memory_total) {
            Ok(()) => {},
            Err(e) => {
                return Err(e);
            },
        }
        assert(start.offered_all(families, 0) == registry_view(*registry).offered_all(families, 3));
        match register_int_gauges(registry, &self.performance_state) {
            Ok(()) => {},
            Err(e) => {
                return Err(e);
            },
        }
        assert(start.offered_all(families, 0) == registry_view(*registry).offered_all(families, 4));
        match register_int_gauges(registry, &self.power_usage) {
            Ok(()) => {},
            Err(e) => {
                return Err(e);
            },
        }
        assert(start.offered_all(families, 0) == registry_view(*registry).offered_all(families, 5));
        match register_int_gauges(registry, &self.power_limit) {
            Ok(()) => {},
            Err(e) => {
                return Err(e);
            },
        }
        assert(start.offered_all(families, 0) == registry_view(*registry).offered_all(families, 6));
        match register_int_counters(registry, &self.energy_used) {
            Ok(()) => {},
            Err(e) => {
                return Err(e);
            },
        }
        assert(start.offered_all(families, 0) == registry_view(*registry).offered_all(families, 7));
        match register_int_counters(registry, &self.pci_replay) {
            Ok(()) => {},
            Err(e) => {
                return Err(e);
            },
        }
        assert(start.offered_all(families, 0) == registry_view(*registry).offered_all(families, 8));
        Ok(())
    }

    /// Sets the three memory gauges of a device, free, used, total, and stops
    /// before the first byte count that a gauge cannot hold.
    fn publish_memory(&mut self, labels: &Vec<&str>, m: &MemoryInfo) -> (published: bool)
        requires
            old(self).wf(),
            labels@.len() == LABEL_COUNT,
        ensures
            final(self).wf(),
            final(self)@ == old(self)@.after_memory(series_key(texts(labels@)), *m),
            published == m.publishable(),
    {
        if m.free > GAUGE_MAX {
            return false;
        }
        int_gauge_set(&mut self.memory_free, labels, m.free as i64);
        if m.used > GAUGE_MAX {
            return false;
        }
        int_gauge_set(&mut self.memory_used, labels, m.used as i64);
        if m.total > GAUGE_MAX {
            return false;
        }
        int_gauge_set(&mut self.memory_total, labels, m.total as i64);
        true
    }

    /// Publishes one reading for the device with the given identity.
    ///
    /// A gauge is set to the value read. A counter is brought up to the value
    /// read and left alone where the hardware reports less. Fan speed and
    /// temperature belong to gauges with fractional values and are not
    /// written here. The result says whether the reading was published in
    /// full; it was not where a byte count exceeds what a gauge holds.
    pub fn publish(&mut self, identity: &DeviceIdentity, reading: &Reading) -> (published: bool)
        requires
            old(self).wf(),
        ensures
            final(self).wf(),
            final(self)@ == old(self)@.after(identity.series(), *reading),
            published == reading.publishable(),
    {
        let labels = identity.labels();
        self.publish_under(&labels, reading)
    }

    /// Publishes one reading for the series with the given label values.
    pub(crate) fn publish_under(&mut self, labels: &Vec<&str>, reading: &Reading) -> (published:
        bool)
        requires
            old(self).wf(),
            labels@.len() == LABEL_COUNT,
        ensures
            final(self).wf(),
            final(self)@ == old(self)@.after(series_key(texts(labels@)), *reading),
            published == reading.publishable(),
    {
        match reading {
            Reading::Memory(m) => self.publish_memory(labels, m),
            Reading::FanSpeed { .. } => true,
            Reading::Temperature(_) => true,
            Reading::PerformanceState(state) => {
                int_gauge_set(&mut self.performance_state, labels, state.value());
                true
            },
            Reading::PowerUsage(milliwatts) => {
                int_gauge_set(&mut self.power_usage, labels, *milliwatts as i64);
                true
            },
            Reading::PowerLimit(milliwatts) => {
                int_gauge_set(&mut self.power_limit, labels, *milliwatts as i64);
                true
            },
            Reading::TotalEnergy(millijoules) => {
                mirror(&mut self.energy_used, labels, *millijoules);
                true
            },
            Reading::PcieReplays(replays) => {
                mirror(&mut self.pci_replay, labels, *replays as u64);
                true
            },
        }
    }
}

} // verus!
