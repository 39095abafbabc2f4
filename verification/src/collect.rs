//! Topology discovery and the sweep over all devices.

use crate::device::{identity_unreadable, pass_outcome, MetricDevice, Pass, SampleError};
use crate::gauge::{gauge_views, gauges_of};
use crate::metrics::{
    counters_not_lowered, lemma_publishing_leaves_other_series,
    lemma_publishing_never_lowers_counters, same_series, Metrics, MetricsView,
};
use crate::query::{DeviceQuery, DeviceSource, Reading};
use crate::registry::counter_at;
use vstd::prelude::*;

verus! {

/// Whether discovery on `source` can fail with `e`: as the outcome of asking
/// for the number of devices or for one of them, or of reading the identity
/// of a device that the source gave.
pub open spec fn discovery_fails<S: DeviceSource>(
    source: &S,
    e: <S::Device as DeviceQuery>::Error,
) -> bool {
    ||| source.may_count(Err(e))
    ||| exists|index: u32| #[trigger] source.may_yield(index, Err(e))
    ||| exists|index: u32, device: S::Device|
        #[trigger] source.may_yield(index, Ok(device)) && identity_unreadable(&device, e)
}

/// Enumerates the devices that are present and makes a handle for each.
///
/// Asks for the number of devices, then for the device at each index below
/// it, in ascending order, and then makes the handles in the same order.
/// Discovery is all or nothing: the first error of the source or of a device
/// is the result, and no handle is returned with it. Where it succeeds,
/// there are as many handles as the source counted, each bound to the device
/// that the source gave at its index and faithful to it.
pub fn discover<S: DeviceSource>(source: &S) -> (found: Result<
    Vec<MetricDevice<S::Device>>,
    <S::Device as DeviceQuery>::Error,
>)
    ensures
        match found {
            Ok(devices) => {
                &&& devices@.len() <= u32::MAX
                &&& source.may_count(Ok(devices@.len() as u32))
                &&& forall|i: int|
                    0 <= i < devices@.len() ==> {
                        &&& source.may_yield(i as u32, Ok((#[trigger] devices@[i]).dev()))
                        &&& devices@[i].faithful()
                    }
            },
            Err(e) => discovery_fails(source, e),
        },
{
    let count = match source.device_count() {
        Ok(count) => count,
        Err(e) => {
            return Err(e);
        },
    };
    let mut present: Vec<S::Device> = Vec::new();
    let mut index: u32 = 0;
    while index < count
        invariant
            index <= count,
            present@.len() == index,
            forall|i: int|
                0 <= i < present@.len() ==> source.may_yield(i as u32, Ok(#[trigger] present@[i])),
        decreases count - index,
    {
        match source.device_by_index(index) {
            Ok(device) => {
                present.push(device);
            },
            Err(e) => {
                assert(source.may_yield(index, Err(e)));
                return Err(e);
            },
        }
        index += 1;
    }
    let ghost given = present@;
    let mut devices: Vec<MetricDevice<S::Device>> = Vec::new();
    for device in it: present
        invariant
            it.seq() == given,
            devices@.len() == it.index(),
            forall|i: int|
                0 <= i < given.len() ==> source.may_yield(i as u32, Ok(#[trigger] given[i])),
            forall|i: int|
                0 <= i < devices@.len() ==> (#[trigger] devices@[i]).dev() == given[i]
                    && devices@[i].faithful(),
    {
        let ghost at = devices@.len() as int;
        match MetricDevice::new(device) {
            Ok(handle) => {
                devices.push(handle);
            },
            Err(e) => {
                assert(source.may_yield(at as u32, Ok(given[at])));
                assert(identity_unreadable(&given[at], e));
                return Err(e);
            },
        }
    }
    Ok(devices)
}

/// What a sweep over the devices did.
#[derive(Debug)]
pub struct Sweep<E> {
    /// What each pass read, in the order of the devices: one entry for each
    /// device up to and including the one whose pass failed, or for every
    /// device where none failed.
    pub passes: Vec<Pass>,
    /// Why the last pass ended early, or `None` where every pass ran to its
    /// end.
    pub failure: Option<SampleError<E>>,
}

/// The series keys of the devices, in order.
pub open spec fn series_of<D: DeviceQuery>(devices: Seq<MetricDevice<D>>) -> Seq<u64> {
    devices.map_values(|d: MetricDevice<D>| d.id().series())
}

/// What each pass read, in order.
pub open spec fn readings_of(passes: Seq<Pass>) -> Seq<Seq<Reading>> {
    passes.map_values(|p: Pass| p.readings@)
}

/// The families after the first `n` passes were published one after the
/// other, each for the series of its device.
pub open spec fn after_passes(
    start: MetricsView,
    keys: Seq<u64>,
    logs: Seq<Seq<Reading>>,
    n: nat,
) -> MetricsView
    decreases n,
{
    if n == 0 {
        start
    } else {
        after_passes(start, keys, logs, (n - 1) as nat).after_all(keys[n - 1], logs[n - 1])
    }
}

/// Runs one pass over every device, in the order of enumeration, and stops
/// after the first pass that fails.
///
/// Every pass but the last ran to its end, and so did the last where the
/// sweep reports no failure; then every device was sampled. Each pass lists
/// what its device answered and the gauges that its fan speeds and its
/// temperature go to. The integer families hold afterwards what they held
/// before with the readings of each pass published, pass after pass.
pub fn sample_all<D: DeviceQuery>(devices: &Vec<MetricDevice<D>>, metrics: &mut Metrics) -> (sweep:
    Sweep<D::Error>)
    requires
        old(metrics).wf(),
    ensures
        final(metrics).wf(),
        sweep.passes@.len() <= devices@.len(),
        sweep.failure is None ==> sweep.passes@.len() == devices@.len(),
        sweep.failure is Some ==> sweep.passes@.len() > 0,
        forall|i: int|
            0 <= i < sweep.passes@.len() - 1 ==> pass_outcome(
                devices@[i].dev(),
                devices@[i].fans(),
                (#[trigger] sweep.passes@[i]).readings@,
                None,
            ),
        sweep.passes@.len() > 0 ==> pass_outcome(
            devices@[sweep.passes@.len() - 1].dev(),
            devices@[sweep.passes@.len() - 1].fans(),
            sweep.passes@.last().readings@,
            sweep.failure,
        ),
        forall|i: int|
            0 <= i < sweep.passes@.len() ==> gauge_views((#[trigger] sweep.passes@[i]).gauges@)
                == gauges_of(devices@[i].id().label_values(), sweep.passes@[i].readings@),
        final(metrics)@ == after_passes(
            old(metrics)@,
            series_of(devices@),
            readings_of(sweep.passes@),
            sweep.passes@.len(),
        ),
{
    let mut passes: Vec<Pass> = Vec::new();
    let mut index: usize = 0;
    let ghost start = metrics@;
    let ghost keys = series_of(devices@);
    while index < devices.len()
        invariant
            index <= devices@.len(),
            passes@.len() == index,
            metrics.wf(),
            start == old(metrics)@,
            keys == series_of(devices@),
            forall|i: int|
                0 <= i < passes@.len() ==> pass_outcome(
                    devices@[i].dev(),
                    devices@[i].fans(),
                    (#[trigger] passes@[i]).readings@,
                    None,
                ),
            forall|i: int|
                0 <= i < passes@.len() ==> gauge_views((#[trigger] passes@[i]).gauges@)
                    == gauges_of(devices@[i].id().label_values(), passes@[i].readings@),
            metrics@ == after_passes(start, keys, readings_of(passes@), passes@.len()),
        decreases devices@.len() - index,
    {
        let ghost before = passes@;
        let report = devices[index].update(metrics);
        passes.push(report.pass);
        proof {
            lemma_after_passes_extends(
                start,
                keys,
                readings_of(before),
                readings_of(passes@),
                before.len(),
            );
        }
        index += 1;
        if report.failure.is_some() {
            return Sweep { passes, failure: report.failure };
        }
    }
    Sweep { passes, failure: None }
}

/// The first `n` passes publish the same whatever is logged after them.
proof fn lemma_after_passes_extends(
    start: MetricsView,
    keys: Seq<u64>,
    shorter: Seq<Seq<Reading>>,
    longer: Seq<Seq<Reading>>,
    n: nat,
)
    requires
        n <= shorter.len() <= longer.len(),
        forall|i: int| 0 <= i < shorter.len() ==> shorter[i] == longer[i],
    ensures
        after_passes(start, keys, shorter, n) == after_passes(start, keys, longer, n),
    decreases n,
{
    if n > 0 {
        lemma_after_passes_extends(start, keys, shorter, longer, (n - 1) as nat);
    }
}

/// A sweep never lowers a counter: every counter series stands after the
/// sweep at least where it stood before, whatever was read.
pub proof fn lemma_sweep_never_lowers_counters(
    start: MetricsView,
    keys: Seq<u64>,
    logs: Seq<Seq<Reading>>,
    n: nat,
)
    ensures
        counters_not_lowered(start, after_passes(start, keys, logs, n)),
    decreases n,
{
    if n > 0 {
        let earlier = after_passes(start, keys, logs, (n - 1) as nat);
        lemma_sweep_never_lowers_counters(start, keys, logs, (n - 1) as nat);
        lemma_publishing_never_lowers_counters(earlier, keys[n - 1], logs[n - 1]);
        let after = after_passes(start, keys, logs, n);
        assert forall|any: u64|
            counter_at(start.energy_used, any) <= counter_at(after.energy_used, any) && counter_at(
                start.pci_replay,
                any,
            ) <= counter_at(after.pci_replay, any) by {
            assert(counter_at(start.energy_used, any) <= counter_at(earlier.energy_used, any));
            assert(counter_at(earlier.energy_used, any) <= counter_at(after.energy_used, any));
            assert(counter_at(start.pci_replay, any) <= counter_at(earlier.pci_replay, any));
            assert(counter_at(earlier.pci_replay, any) <= counter_at(after.pci_replay, any));
        }
    }
}

/// The passes of a sweep do not disturb each other: where the devices have
/// different series keys, the series of device `i` are after the whole sweep
/// what they were right after the pass over device `i`.
pub proof fn lemma_later_passes_leave_series(
    start: MetricsView,
    keys: Seq<u64>,
    logs: Seq<Seq<Reading>>,
    n: nat,
    i: int,
)
    requires
        0 <= i < n <= keys.len(),
        forall|j: int| i < j < n ==> keys[j] != keys[i],
    ensures
        same_series(
            after_passes(start, keys, logs, (i + 1) as nat),
            after_passes(start, keys, logs, n),
            keys[i],
        ),
    decreases n,
{
    if n > i + 1 {
        lemma_later_passes_leave_series(start, keys, logs, (n - 1) as nat, i);
        lemma_publishing_leaves_other_series(
            after_passes(start, keys, logs, (n - 1) as nat),
            keys[n - 1],
            logs[n - 1],
            keys[i],
        );
    }
}

} // verus!
