//! The device handle and the sampling pass.
//!
//! A handle binds one device to its identity labels and to the number of fan
//! sensors found on it. A pass reads the telemetry of a device in a fixed
//! order and publishes each value as soon as it is read: memory, every fan,
//! temperature, performance state, power draw, power limit, energy, PCIe
//! replays. The first read that fails ends the pass; what was published
//! before stays published.

use crate::gauge::{
    decimal, gauge_of, gauge_views, gauges_of, ratio_gauges, RatioGauge, RatioMetric,
    FAN_SPEED_SCALE, TEMPERATURE_SCALE,
};
use crate::identity::{DeviceIdentity, LABEL_COUNT};
use crate::metrics::{mirrored, Metrics, MetricsView};
use crate::pstate::{
    lemma_with_level_inverts_level, PerformanceState, LOWEST_LEVEL, UNKNOWN_LEVEL,
};
use crate::query::{DeviceQuery, IdentityLabel, Query, Reading};
use crate::registry::{series_key, texts};
use vstd::prelude::*;

verus! {

/// No device is asked about more fan sensors than this.
pub const FAN_PROBE_LIMIT: u32 = 10_000;

/// The number of readings in a pass besides the fan speeds.
pub const FIXED_READINGS: u32 = 7;

/// Why a pass ended early.
#[derive(Debug)]
pub enum SampleError<E> {
    /// A read failed; the device's error is inside.
    Device(E),
    /// A byte count was read that exceeds what an integer gauge holds.
    OutOfRange,
}

/// What one pass over one device read.
#[derive(Debug)]
pub struct Pass {
    /// Every value read, in the order of reading. Each was published; where
    /// the pass ended on a byte count that did not fit, the last one was
    /// published only up to that byte count.
    pub readings: Vec<Reading>,
    /// The gauges with fractional values that the readings go to, for the
    /// caller to set.
    pub gauges: Vec<RatioGauge>,
}

/// What one pass over one device did.
#[derive(Debug)]
pub struct PassReport<E> {
    pub pass: Pass,
    /// Why the pass ended early, or `None` where it ran to its end.
    pub failure: Option<SampleError<E>>,
}

/// The number of readings in a complete pass over a device with `fan_count`
/// fans.
pub open spec fn plan_len(fan_count: nat) -> nat {
    fan_count + FIXED_READINGS as nat
}

/// The question at place `slot` of a pass over a device with `fan_count`
/// fans: memory first, then the fans by ascending index, then temperature,
/// performance state, power draw, power limit, energy and PCIe replays.
pub open spec fn query_at(slot: int, fan_count: nat) -> Query {
    if slot <= 0 {
        Query::Memory
    } else if slot <= fan_count {
        Query::FanSpeed((slot - 1) as u32)
    } else if slot == fan_count + 1 {
        Query::Temperature
    } else if slot == fan_count + 2 {
        Query::PerformanceState
    } else if slot == fan_count + 3 {
        Query::PowerUsage
    } else if slot == fan_count + 4 {
        Query::PowerLimit
    } else if slot == fan_count + 5 {
        Query::TotalEnergy
    } else {
        Query::PcieReplays
    }
}

/// Whether `reading` is of the kind that stands at place `slot` of a pass
/// over a device with `fan_count` fans.
pub open spec fn fits_slot(reading: Reading, slot: int, fan_count: nat) -> bool {
    0 <= slot < plan_len(fan_count) && reading.answers(query_at(slot, fan_count))
}

/// Whether `readings` is the beginning of a pass over a device with
/// `fan_count` fans.
pub open spec fn follows_plan(readings: Seq<Reading>, fan_count: nat) -> bool {
    &&& fan_count <= FAN_PROBE_LIMIT
    &&& readings.len() <= plan_len(fan_count)
    &&& forall|slot: int|
        0 <= slot < readings.len() ==> fits_slot(#[trigger] readings[slot], slot, fan_count)
}

/// Whether each of `readings` is something that `device` can answer to the
/// question at its place in the plan.
pub open spec fn answered<D: DeviceQuery>(
    device: D,
    readings: Seq<Reading>,
    fan_count: nat,
) -> bool {
    forall|slot: int|
        0 <= slot < readings.len() ==> device.may_answer(
            query_at(slot, fan_count),
            Ok(#[trigger] readings[slot]),
        )
}

/// Whether every one of `readings` can be published in full.
pub open spec fn all_publishable(readings: Seq<Reading>) -> bool {
    forall|slot: int| 0 <= slot < readings.len() ==> (#[trigger] readings[slot]).publishable()
}

/// Whether `readings` is what a pass over a device with `fan_count` fans
/// reads when it runs to its end: the whole plan, each reading publishable in
/// full.
pub open spec fn complete(readings: Seq<Reading>, fan_count: nat) -> bool {
    &&& follows_plan(readings, fan_count)
    &&& readings.len() == plan_len(fan_count)
    &&& all_publishable(readings)
}

/// Whether `readings` and `failure` can be the outcome of one pass over a
/// device with `fan_count` fans.
///
/// The readings are the beginning of the plan. Without a failure they are the
/// whole plan and each was published in full. After a failed read the plan
/// was cut short. After a byte count that did not fit, the reading that
/// holds it is the last one.
pub open spec fn consistent<E>(
    readings: Seq<Reading>,
    fan_count: nat,
    failure: Option<SampleError<E>>,
) -> bool {
    &&& follows_plan(readings, fan_count)
    &&& match failure {
        None => complete(readings, fan_count),
        Some(SampleError::Device(_)) => readings.len() < plan_len(fan_count) && all_publishable(
            readings,
        ),
        Some(SampleError::OutOfRange) => readings.len() > 0 && !readings.last().publishable()
            && all_publishable(readings.drop_last()),
    }
}

/// Whether `readings` and `failure` can be the outcome of one pass of
/// `device`, taken to have `fan_count` fans: the readings follow the plan,
/// each is something the device can answer at its place, and a failed read
/// is a failure that the device can answer to the question that comes next.
pub open spec fn pass_outcome<D: DeviceQuery>(
    device: D,
    fan_count: nat,
    readings: Seq<Reading>,
    failure: Option<SampleError<D::Error>>,
) -> bool {
    &&& consistent(readings, fan_count, failure)
    &&& answered(device, readings, fan_count)
    &&& match failure {
        Some(SampleError::Device(e)) => device.may_answer(
            query_at(readings.len() as int, fan_count),
            Err(e),
        ),
        _ => true,
    }
}

/// A pass in progress: what the families hold, seen from where they stood at
/// its start.
spec fn in_progress<D: DeviceQuery>(
    device: D,
    start: MetricsView,
    now: MetricsView,
    key: u64,
    readings: Seq<Reading>,
    fan_count: nat,
) -> bool {
    &&& follows_plan(readings, fan_count)
    &&& all_publishable(readings)
    &&& answered(device, readings, fan_count)
    &&& now == start.after_all(key, readings)
}

/// Takes the outcome of one read: logs and publishes the value, or reports why
/// the pass ends here.
fn advance<D: DeviceQuery>(
    metrics: &mut Metrics,
    labels: &Vec<&str>,
    readings: &mut Vec<Reading>,
    outcome: Result<Reading, D::Error>,
    Ghost(device): Ghost<D>,
    Ghost(start): Ghost<MetricsView>,
    Ghost(fan_count): Ghost<nat>,
) -> (failure: Option<SampleError<D::Error>>)
    requires
        old(metrics).wf(),
        labels@.len() == LABEL_COUNT,
        in_progress(
            device,
            start,
            old(metrics)@,
            series_key(texts(labels@)),
            old(readings)@,
            fan_count,
        ),
        old(readings)@.len() < plan_len(fan_count),
        device.may_answer(query_at(old(readings)@.len() as int, fan_count), outcome),
        outcome matches Ok(reading) ==> reading.answers(
            query_at(old(readings)@.len() as int, fan_count),
        ),
    ensures
        final(metrics).wf(),
        final(metrics)@ == start.after_all(series_key(texts(labels@)), final(readings)@),
        failure is None ==> final(readings)@.len() == old(readings)@.len() + 1,
        failure is None ==> in_progress(
            device,
            start,
            final(metrics)@,
            series_key(texts(labels@)),
            final(readings)@,
            fan_count,
        ),
        failure is Some ==> pass_outcome(device, fan_count, final(readings)@, failure),
{
    match outcome {
        Err(e) => Some(SampleError::Device(e)),
        Ok(reading) => {
            let published = metrics.publish_under(labels, &reading);
            readings.push(reading);
            assert(readings@.drop_last() =~= old(readings)@);
            assert forall|slot: int| 0 <= slot < readings@.len() implies device.may_answer(
                query_at(slot, fan_count),
                Ok(#[trigger] readings@[slot]),
            ) by {
                if slot < old(readings)@.len() {
                    assert(readings@[slot] == old(readings)@[slot]);
                }
            }
            if published {
                None
            } else {
                Some(SampleError::OutOfRange)
            }
        },
    }
}

/// Whether `device` can answer the question about the speed of fan `fan`
/// with a speed.
pub open spec fn fan_readable<D: DeviceQuery>(device: &D, fan: u32) -> bool {
    exists|percent: u32|
        #[trigger] device.may_answer(
            Query::FanSpeed(fan),
            Ok::<Reading, D::Error>(Reading::FanSpeed { fan, percent }),
        )
}

/// Whether `device` can answer the question about the speed of fan `fan`
/// with a failure.
pub open spec fn fan_unreadable<D: DeviceQuery>(device: &D, fan: u32) -> bool {
    exists|e: D::Error|
        #[trigger] device.may_answer(Query::FanSpeed(fan), Err::<Reading, D::Error>(e))
}

/// Whether `device` can fail with `e` when one of its identity texts is
/// read.
pub open spec fn identity_unreadable<D: DeviceQuery>(device: &D, e: D::Error) -> bool {
    ||| device.may_identify(IdentityLabel::Uuid, Err(e))
    ||| device.may_identify(IdentityLabel::Name, Err(e))
    ||| device.may_identify(IdentityLabel::PciBusId, Err(e))
}

/// One device with its identity labels and the number of its fan sensors.
pub struct MetricDevice<D: DeviceQuery> {
    device: D,
    identity: DeviceIdentity,
    fan_count: u32,
}

/// Counts fan sensors: asks whether fan 0, 1, 2 and so on can be read, and
/// stops at the first index that cannot, or at `FAN_PROBE_LIMIT`.
///
/// Every index below the count was found readable. Where the count lies
/// below the limit, the fan at the count was found unreadable.
pub fn probe_fan_count<F: Fn(u32) -> bool>(readable: F) -> (count: u32)
    requires
        forall|fan: u32| fan < FAN_PROBE_LIMIT ==> call_requires(readable, (fan,)),
    ensures
        count <= FAN_PROBE_LIMIT,
        forall|fan: u32| fan < count ==> call_ensures(readable, (fan,), true),
        count < FAN_PROBE_LIMIT ==> call_ensures(readable, (count,), false),
{
    let mut count: u32 = 0;
    while count < FAN_PROBE_LIMIT
        invariant
            count <= FAN_PROBE_LIMIT,
            forall|fan: u32| fan < FAN_PROBE_LIMIT ==> call_requires(readable, (fan,)),
            forall|fan: u32| fan < count ==> call_ensures(readable, (fan,), true),
        decreases FAN_PROBE_LIMIT - count,
    {
        if !readable(count) {
            return count;
        }
        count += 1;
    }
    count
}

impl<D: DeviceQuery> MetricDevice<D> {
    #[verifier::type_invariant]
    spec fn fan_count_is_bounded(&self) -> bool {
        self.fan_count <= FAN_PROBE_LIMIT
    }

    /// The number of fan sensors found when the handle was made.
    pub closed spec fn fans(&self) -> nat {
        self.fan_count as nat
    }

    /// The identity read when the handle was made.
    pub closed spec fn id(&self) -> DeviceIdentity {
        self.identity
    }

    /// The device that the handle is bound to.
    pub closed spec fn dev(&self) -> D {
        self.device
    }

    /// Whether the handle says of its device what the device said of itself:
    /// every fan below the fan count could be read, the fan at the fan count
    /// could not, unless the count stands at the limit, and the three
    /// identity texts are texts that the device gave.
    pub open spec fn faithful(&self) -> bool {
        &&& self.fans() <= FAN_PROBE_LIMIT
        &&& forall|fan: u32| fan < self.fans() ==> #[trigger] fan_readable(&self.dev(), fan)
        &&& self.fans() < FAN_PROBE_LIMIT ==> fan_unreadable(&self.dev(), self.fans() as u32)
        &&& self.dev().may_identify(IdentityLabel::Uuid, Ok(self.id().uuid@))
        &&& self.dev().may_identify(IdentityLabel::Name, Ok(self.id().name@))
        &&& self.dev().may_identify(IdentityLabel::PciBusId, Ok(self.id().pci_bus_id@))
    }

    /// Makes the handle of a device: counts its fan sensors, then reads its
    /// UUID, its name and its PCI bus id. Fails with the device's error if
    /// one of the three cannot be read, and only then.
    pub fn new(device: D) -> (made: Result<Self, D::Error>)
        ensures
            match made {
                Ok(handle) => handle.dev() == device && handle.faithful(),
                Err(e) => identity_unreadable(&device, e),
            },
    {
        let readable = |fan: u32| -> (found: bool)
            ensures
                found ==> fan_readable(&device, fan),
                !found ==> fan_unreadable(&device, fan),
            {
                match device.fan_speed(fan) {
                    Ok(percent) => {
                        assert(device.may_answer(
                            Query::FanSpeed(fan),
                            Ok::<Reading, D::Error>(Reading::FanSpeed { fan, percent }),
                        ));
                        true
                    },
                    Err(e) => {
                        assert(device.may_answer(
                            Query::FanSpeed(fan),
                            Err::<Reading, D::Error>(e),
                        ));
                        false
                    },
                }
            };
        let ghost probe = readable;
        let fan_count = probe_fan_count(readable);
        assert forall|fan: u32| fan < fan_count implies #[trigger] fan_readable(&device, fan) by {
            assert(call_ensures(probe, (fan,), true));
        }
        let uuid = match device.uuid() {
            Ok(text) => text,
            Err(e) => {
                return Err(e);
            },
        };
        let name = match device.name() {
            Ok(text) => text,
            Err(e) => {
                return Err(e);
            },
        };
        let pci_bus_id = match device.pci_bus_id() {
            Ok(text) => text,
            Err(e) => {
                return Err(e);
            },
        };
        Ok(MetricDevice { device, identity: DeviceIdentity { uuid, name, pci_bus_id }, fan_count })
    }

    /// The number of fan sensors found when the handle was made.
    pub fn fan_count(&self) -> (count: u32)
        ensures
            count == self.fans(),
            count <= FAN_PROBE_LIMIT,
    {
        proof {
            use_type_invariant(self);
        }
        self.fan_count
    }

    /// The identity read when the handle was made.
    pub fn identity(&self) -> (identity: &DeviceIdentity)
        ensures
            *identity == self.id(),
    {
        &self.identity
    }

    /// The label values of every series of this device: UUID, name, PCI bus
    /// id.
    pub fn labels(&self) -> (labels: Vec<&str>)
        ensures
            labels@.len() == LABEL_COUNT,
            texts(labels@) == self.id().label_values(),
    {
        self.identity.labels()
    }

    /// Reads the performance state and gives the integer it is published as:
    /// `0` (highest) to `15` (lowest), or `-1` for a state the driver does not
    /// name.
    pub fn performance_state(&self) -> (level: Result<i64, D::Error>)
        ensures
            match level {
                Ok(v) => UNKNOWN_LEVEL <= v <= LOWEST_LEVEL && self.dev().may_answer(
                    Query::PerformanceState,
                    Ok(Reading::PerformanceState(PerformanceState::with_level(v as int))),
                ),
                Err(e) => self.dev().may_answer(Query::PerformanceState, Err(e)),
            },
    {
        match self.device.performance_state() {
            Ok(state) => {
                proof {
                    lemma_with_level_inverts_level(state);
                }
                Ok(state.value())
            },
            Err(e) => Err(e),
        }
    }

    /// Runs one pass: reads the device's telemetry in the order of the plan
    /// and publishes each value as soon as it is read.
    ///
    /// The report lists what the device answered, question by question, up
    /// to the first failure. The integer families hold afterwards what they
    /// held before with every reading of the report published, in order, for
    /// this device's series; the gauges of the report are those that the fan
    /// speeds and the temperature among the readings go to. A pass without
    /// failure has read the whole plan, so it reports one fan speed for each
    /// fan index below the fan count, in ascending order.
    pub fn update(&self, metrics: &mut Metrics) -> (report: PassReport<D::Error>)
        requires
            old(metrics).wf(),
        ensures
            final(metrics).wf(),
            pass_outcome(self.dev(), self.fans(), report.pass.readings@, report.failure),
            final(metrics)@ == old(metrics)@.after_all(self.id().series(), report.pass.readings@),
            gauge_views(report.pass.gauges@) == gauges_of(
                self.id().label_values(),
                report.pass.readings@,
            ),
    {
        proof {
            use_type_invariant(self);
        }
        let labels = self.labels();
        let ghost start = metrics@;
        let ghost fans = self.fans();
        let mut readings: Vec<Reading> = Vec::new();
        let failure = self.read_and_publish(metrics, &labels, &mut readings);
        let gauges = ratio_gauges(&labels, &readings);
        PassReport { pass: Pass { readings, gauges }, failure }
    }

    fn read_and_publish(
        &self,
        metrics: &mut Metrics,
        labels: &Vec<&str>,
        readings: &mut Vec<Reading>,
    ) -> (failure: Option<SampleError<D::Error>>)
        requires
            old(metrics).wf(),
            labels@.len() == LABEL_COUNT,
            old(readings)@.len() == 0,
        ensures
            final(metrics).wf(),
            pass_outcome(self.dev(), self.fans(), final(readings)@, failure),
            final(metrics)@ == old(metrics)@.after_all(
                series_key(texts(labels@)),
                final(readings)@,
            ),
    {
        proof {
            use_type_invariant(self);
        }
        let ghost start = metrics@;
        let ghost fans = self.fans();
        let ghost key = series_key(texts(labels@));
        let ghost device = self.dev();
        assert(in_progress(device, start, metrics@, key, readings@, fans));

        let memory = match self.device.memory_info() {
            Ok(m) => Ok(Reading::Memory(m)),
            Err(e) => Err(e),
        };
        let failure = advance::<D>(
            metrics,
            labels,
            readings,
            memory,
            Ghost(device),
            Ghost(start),
            Ghost(fans),
        );
        if failure.is_some() {
            return failure;
        }
        let mut fan: u32 = 0;
        while fan < self.fan_count
            invariant
                fan <= self.fan_count,
                self.fan_count == fans,
                fans <= FAN_PROBE_LIMIT,
                labels@.len() == LABEL_COUNT,
                key == series_key(texts(labels@)),
                start == old(metrics)@,
                metrics.wf(),
                readings@.len() == fan + 1,
                device == self.dev(),
                in_progress(device, start, metrics@, key, readings@, fans),
            decreases self.fan_count - fan,
        {
            let speed = match self.device.fan_speed(fan) {
                Ok(percent) => Ok(Reading::FanSpeed { fan, percent }),
                Err(e) => Err(e),
            };
            let failure = advance::<D>(
                metrics,
                labels,
                readings,
                speed,
                Ghost(device),
                Ghost(start),
                Ghost(fans),
            );
            if failure.is_some() {
                return failure;
            }
            fan += 1;
        }
        let temperature = match self.device.temperature() {
            Ok(celsius) => Ok(Reading::Temperature(celsius)),
            Err(e) => Err(e),
        };
        let failure = advance::<D>(
            metrics,
            labels,
            readings,
            temperature,
            Ghost(device),
            Ghost(start),
            Ghost(fans),
        );
        if failure.is_some() {
            return failure;
        }
        let state = match self.device.performance_state() {
            Ok(state) => Ok(Reading::PerformanceState(state)),
            Err(e) => Err(e),
        };
        let failure = advance::<D>(
            metrics,
            labels,
            readings,
            state,
            Ghost(device),
            Ghost(start),
            Ghost(fans),
        );
        if failure.is_some() {
            return failure;
        }
        let usage = match self.device.power_usage() {
            Ok(milliwatts) => Ok(Reading::PowerUsage(milliwatts)),
            Err(e) => Err(e),
        };
        let failure = advance::<D>(
            metrics,
            labels,
            readings,
            usage,
            Ghost(device),
            Ghost(start),
            Ghost(fans),
        );
        if failure.is_some() {
            return failure;
        }
        let limit = match self.device.enforced_power_limit() {
            Ok(milliwatts) => Ok(Reading::PowerLimit(milliwatts)),
            Err(e) => Err(e),
        };
        let failure = advance::<D>(
            metrics,
            labels,
            readings,
            limit,
            Ghost(device),
            Ghost(start),
            Ghost(fans),
        );
        if failure.is_some() {
            return failure;
        }
        let energy = match self.device.total_energy_consumption() {
            Ok(millijoules) => Ok(Reading::TotalEnergy(millijoules)),
            Err(e) => Err(e),
        };
        let failure = advance::<D>(
            metrics,
            labels,
            readings,
            energy,
            Ghost(device),
            Ghost(start),
            Ghost(fans),
        );
        if failure.is_some() {
            return failure;
        }
        let replays = match self.device.pcie_replay_counter() {
            Ok(count) => Ok(Reading::PcieReplays(count)),
            Err(e) => Err(e),
        };
        advance::<D>(
            metrics,
            labels,
            readings,
            replays,
            Ghost(device),
            Ghost(start),
            Ghost(fans),
        )
    }
}

/// Publishing one more reading: the families after the first `n + 1`
/// readings are the families after the first `n` with the next one published.
pub proof fn lemma_after_all_unfolds(start: MetricsView, key: u64, readings: Seq<Reading>, n: int)
    requires
        0 <= n < readings.len(),
    ensures
        start.after_all(key, readings.take(n + 1)) == start.after_all(key, readings.take(n)).after(
            key,
            readings[n],
        ),
{
    let longer = readings.take(n + 1);
    assert(longer.drop_last() =~= readings.take(n));
    assert(longer.last() == readings[n]);
}

/// The gauges of a pass follow its plan: reading `i + 1` goes to gauge `i`,
/// so the first gauges are the fan speeds, labelled with the identity labels
/// and the fan index 0, 1, 2 and so on, and after the last fan comes the
/// temperature. A pass that ran to its end over a device with `fan_count`
/// fans lists exactly `fan_count` fan gauges and the temperature.
pub proof fn lemma_gauges_follow_the_plan(
    labels: Seq<Seq<char>>,
    readings: Seq<Reading>,
    fan_count: nat,
)
    requires
        follows_plan(readings, fan_count),
    ensures
        gauges_of(labels, readings).len() == (if readings.len() == 0 {
            0int
        } else if readings.len() <= fan_count + 1 {
            readings.len() - 1
        } else {
            fan_count + 1int
        }),
        forall|i: int|
            0 <= i < gauges_of(labels, readings).len() ==> gauge_of(labels, readings[i + 1])
                == Some(#[trigger] gauges_of(labels, readings)[i]),
        forall|i: int|
            0 <= i < gauges_of(labels, readings).len() && i < fan_count ==> {
                &&& (#[trigger] gauges_of(labels, readings)[i]).metric == RatioMetric::FanSpeed
                &&& gauges_of(labels, readings)[i].labels == labels.push(decimal(i as nat))
                &&& gauges_of(labels, readings)[i].denominator == FAN_SPEED_SCALE
            },
        gauges_of(labels, readings).len() == fan_count + 1 ==> {
            &&& gauges_of(labels, readings)[fan_count as int].metric == RatioMetric::Temperature
            &&& gauges_of(labels, readings)[fan_count as int].labels == labels
            &&& gauges_of(labels, readings)[fan_count as int].denominator == TEMPERATURE_SCALE
        },
    decreases readings.len(),
{
    if readings.len() > 0 {
        let earlier = readings.drop_last();
        assert(follows_plan(earlier, fan_count)) by {
            assert forall|slot: int| 0 <= slot < earlier.len() implies fits_slot(
                #[trigger] earlier[slot],
                slot,
                fan_count,
            ) by {
                assert(earlier[slot] == readings[slot]);
            }
        }
        lemma_gauges_follow_the_plan(labels, earlier, fan_count);
        let last = readings.len() - 1;
        assert(fits_slot(readings[last], last, fan_count));
        let before = gauges_of(labels, earlier);
        let all = gauges_of(labels, readings);
        assert forall|i: int| 0 <= i < before.len() implies all[i] == before[i] && readings[i + 1]
            == earlier[i + 1] by {}
    }
}

/// After a pass that ran to its end, the device's series hold what was read:
/// the gauges the values of the readings, unchanged, the performance state
/// as its level, and each counter the larger of where it stood and what was
/// read.
pub proof fn lemma_complete_pass_is_published(
    start: MetricsView,
    key: u64,
    readings: Seq<Reading>,
    fan_count: nat,
)
    requires
        complete(readings, fan_count),
    ensures
        ({
            let after = start.after_all(key, readings);
            let k = fan_count as int;
            &&& readings[0] is Memory
            &&& after.memory_free.contains_key(key)
            &&& after.memory_free[key] == readings[0]->Memory_0.free
            &&& after.memory_used.contains_key(key)
            &&& after.memory_used[key] == readings[0]->Memory_0.used
            &&& after.memory_total.contains_key(key)
            &&& after.memory_total[key] == readings[0]->Memory_0.total
            &&& readings[k + 2] is PerformanceState
            &&& after.performance_state.contains_key(key)
            &&& after.performance_state[key] == readings[k + 2]->PerformanceState_0.level()
            &&& readings[k + 3] is PowerUsage
            &&& after.power_usage.contains_key(key)
            &&& after.power_usage[key] == readings[k + 3]->PowerUsage_0
            &&& readings[k + 4] is PowerLimit
            &&& after.power_limit.contains_key(key)
            &&& after.power_limit[key] == readings[k + 4]->PowerLimit_0
            &&& readings[k + 5] is TotalEnergy
            &&& after.energy_used == mirrored(
                start.energy_used,
                key,
                readings[k + 5]->TotalEnergy_0,
            )
            &&& readings[k + 6] is PcieReplays
            &&& after.pci_replay == mirrored(
                start.pci_replay,
                key,
                readings[k + 6]->PcieReplays_0 as u64,
            )
        }),
{
    let k = fan_count as int;
    assert(fits_slot(readings[0], 0, fan_count));
    assert(readings[0].publishable());
    lemma_quiet_slots_change_nothing(start, key, readings, fan_count, k + 2);
    assert(fits_slot(readings[k + 2], k + 2, fan_count));
    assert(fits_slot(readings[k + 3], k + 3, fan_count));
    assert(fits_slot(readings[k + 4], k + 4, fan_count));
    assert(fits_slot(readings[k + 5], k + 5, fan_count));
    assert(fits_slot(readings[k + 6], k + 6, fan_count));
    lemma_after_all_unfolds(start, key, readings, k + 2);
    lemma_after_all_unfolds(start, key, readings, k + 3);
    lemma_after_all_unfolds(start, key, readings, k + 4);
    lemma_after_all_unfolds(start, key, readings, k + 5);
    lemma_after_all_unfolds(start, key, readings, k + 6);
    assert(readings.take(k + 7) =~= readings);
}

/// Up to the performance state a pass changes the families with its memory
/// reading alone: fan speeds and temperature are not held in them.
proof fn lemma_quiet_slots_change_nothing(
    start: MetricsView,
    key: u64,
    readings: Seq<Reading>,
    fan_count: nat,
    n: int,
)
    requires
        follows_plan(readings, fan_count),
        1 <= n <= readings.len(),
        n <= fan_count + 2,
    ensures
        start.after_all(key, readings.take(n)) == start.after(key, readings[0]),
    decreases n,
{
    if n == 1 {
        lemma_after_all_unfolds(start, key, readings, 0);
        assert(readings.take(0) =~= Seq::<Reading>::empty());
    } else {
        lemma_quiet_slots_change_nothing(start, key, readings, fan_count, n - 1);
        lemma_after_all_unfolds(start, key, readings, n - 1);
        assert(fits_slot(readings[n - 1], n - 1, fan_count));
    }
}

/// A pass ends on a byte count that does not fit only at its first reading:
/// nothing but the memory reading can fail to fit.
pub proof fn lemma_out_of_range_ends_at_memory<E>(
    readings: Seq<Reading>,
    fan_count: nat,
    failure: Option<SampleError<E>>,
)
    requires
        consistent(readings, fan_count, failure),
        failure == Some(SampleError::<E>::OutOfRange),
    ensures
        readings.len() == 1,
        readings[0] is Memory,
{
    let last = readings.len() - 1;
    assert(fits_slot(readings[last], last, fan_count));
}

/// The fan count of a faithful handle is the index of the first fan that
/// cannot be read, or the limit: if every fan below `first` can only be read
/// and fan `first` can only fail, the handle counts `first` fans, and
/// `FAN_PROBE_LIMIT` where `first` lies beyond it.
pub proof fn lemma_fan_count_is_first_unreadable<D: DeviceQuery>(
    handle: MetricDevice<D>,
    first: u32,
)
    requires
        handle.faithful(),
        forall|fan: u32| fan < first ==> !#[trigger] fan_unreadable(&handle.dev(), fan),
        !fan_readable(&handle.dev(), first),
    ensures
        handle.fans() == (if first < FAN_PROBE_LIMIT {
            first
        } else {
            FAN_PROBE_LIMIT
        }),
{
    if handle.fans() > first {
        assert(fan_readable(&handle.dev(), first));
    }
    if handle.fans() < first && handle.fans() < FAN_PROBE_LIMIT {
        assert(fan_unreadable(&handle.dev(), handle.fans() as u32));
    }
}

/// A device with only one possible answer to each question of the plan is
/// reported as it is: if `expected` lists those answers and each can be
/// published, the pass runs to its end and its readings are `expected`.
pub proof fn lemma_steady_device_is_reported<D: DeviceQuery>(
    device: D,
    fan_count: nat,
    expected: Seq<Reading>,
    readings: Seq<Reading>,
    failure: Option<SampleError<D::Error>>,
)
    requires
        pass_outcome(device, fan_count, readings, failure),
        expected.len() == plan_len(fan_count),
        all_publishable(expected),
        forall|slot: int, outcome: Result<Reading, D::Error>|
            0 <= slot < expected.len() && #[trigger] device.may_answer(
                query_at(slot, fan_count),
                outcome,
            ) ==> outcome == Ok::<Reading, D::Error>(expected[slot]),
    ensures
        failure is None,
        readings == expected,
{
    assert forall|slot: int| 0 <= slot < readings.len() implies readings[slot]
        == expected[slot] by {
        assert(device.may_answer(
            query_at(slot, fan_count),
            Ok::<Reading, D::Error>(readings[slot]),
        ));
    }
    match failure {
        Some(SampleError::OutOfRange) => {
            assert(expected[readings.len() - 1].publishable());
        },
        _ => {},
    }
    assert(readings =~= expected);
}

} // verus!
