//! When to enumerate the devices again.
//!
//! Discovery is expensive and the set of devices rarely changes. The time
//! between two discoveries therefore starts at 30 seconds, doubles after every
//! discovery that finds as many devices as the one before, up to one hour,
//! and falls back to 30 seconds as soon as the number of devices differs.
//!
//! The collection loop is a machine with two phases. In the discovery phase
//! the devices are enumerated. In the sampling phase every scrape request is
//! answered by one sweep over the devices, until the time set at discovery
//! has passed. Time is given in milliseconds since a moment of the caller's
//! choosing.

use vstd::arithmetic::power2::{lemma2_to64, lemma_pow2_strictly_increases, lemma_pow2_unfold, pow2};
use vstd::prelude::*;

verus! {

/// The refresh interval after a change of the device count, in seconds.
pub const INITIAL_REFRESH_SECS: u64 = 30;

/// The longest refresh interval, in seconds.
pub const MAX_REFRESH_SECS: u64 = 3600;

/// Milliseconds in a second.
pub const MILLIS_PER_SEC: u64 = 1000;

/// The refresh interval that follows `previous`: doubled and capped where the
/// device count stayed the same, back at the start where it changed.
pub open spec fn next_interval(previous: nat, changed: bool) -> nat {
    if changed {
        INITIAL_REFRESH_SECS as nat
    } else if 2 * previous < MAX_REFRESH_SECS {
        2 * previous
    } else {
        MAX_REFRESH_SECS as nat
    }
}

/// The refresh interval after a change of the device count followed by
/// `stable` discoveries without a change.
pub open spec fn backoff(stable: nat) -> nat
    decreases stable,
{
    if stable == 0 {
        INITIAL_REFRESH_SECS as nat
    } else {
        next_interval(backoff((stable - 1) as nat), false)
    }
}

/// The refresh interval and the device count on record after one discovery
/// for each of `counts`, in order, from the state of a new scheduler.
pub open spec fn after_discoveries(counts: Seq<nat>) -> (nat, nat)
    decreases counts.len(),
{
    if counts.len() == 0 {
        (INITIAL_REFRESH_SECS as nat, 0)
    } else {
        let (interval, recorded) = after_discoveries(counts.drop_last());
        (next_interval(interval, counts.last() != recorded), counts.last())
    }
}

/// The refresh interval that follows `previous_secs`: twice as long but at
/// most `MAX_REFRESH_SECS` where the device count did not change,
/// `INITIAL_REFRESH_SECS` where it did.
pub fn next_refresh_interval(previous_secs: u64, device_count_changed: bool) -> (next: u64)
    ensures
        next == next_interval(previous_secs as nat, device_count_changed),
        INITIAL_REFRESH_SECS <= previous_secs ==> INITIAL_REFRESH_SECS <= next <= MAX_REFRESH_SECS,
{
    if device_count_changed {
        INITIAL_REFRESH_SECS
    } else if previous_secs < MAX_REFRESH_SECS / 2 {
        2 * previous_secs
    } else {
        MAX_REFRESH_SECS
    }
}

/// The two phases of the collection loop.
#[derive(Clone, Copy, Debug, PartialEq, Eq, Structural)]
pub enum Phase {
    /// The devices are to be enumerated.
    Discovery,
    /// Scrape requests are answered with sweeps over the current devices.
    Sampling,
}

/// What the collection loop does next.
#[derive(Clone, Copy, Debug, PartialEq, Eq, Structural)]
pub enum Action {
    /// Initialise the device-query subsystem anew, enumerate the devices and
    /// report their number with `on_discovery`.
    Discover,
    /// Wait for the next scrape request, run one sweep over all devices
    /// while the request is held back, release it, and ask again.
    Sample,
}

/// The state of the collection loop.
pub struct Scheduler {
    interval_secs: u64,
    device_count: usize,
    deadline_ms: u64,
    phase: Phase,
}

/// The state of the collection loop as plain numbers.
pub struct SchedulerView {
    /// The refresh interval in force, in seconds.
    pub interval_secs: nat,
    /// The number of devices found by the latest discovery, zero before the
    /// first.
    pub device_count: nat,
    /// When the sampling phase ends, in milliseconds.
    pub deadline_ms: nat,
    pub phase: Phase,
}

/// A moment `interval_secs` after `now_ms`, or the last moment that can be
/// told where that lies beyond it.
pub open spec fn deadline_after(now_ms: nat, interval_secs: nat) -> nat {
    if now_ms + interval_secs * MILLIS_PER_SEC <= u64::MAX {
        now_ms + interval_secs * MILLIS_PER_SEC as nat
    } else {
        u64::MAX as nat
    }
}

impl SchedulerView {
    /// The state before the first discovery.
    pub open spec fn initial() -> SchedulerView {
        SchedulerView {
            interval_secs: INITIAL_REFRESH_SECS as nat,
            device_count: 0,
            deadline_ms: 0,
            phase: Phase::Discovery,
        }
    }

    /// The state after a discovery that found `device_count` devices at
    /// `now_ms`: the interval is adapted, the count is put on record, and the
    /// sampling phase begins and lasts for one interval.
    pub open spec fn discovered(self, device_count: nat, now_ms: nat) -> SchedulerView {
        let interval = next_interval(self.interval_secs, device_count != self.device_count);
        SchedulerView {
            interval_secs: interval,
            device_count: device_count,
            deadline_ms: deadline_after(now_ms, interval),
            phase: Phase::Sampling,
        }
    }

    /// Whether a sweep is due at `now_ms`: the sampling phase is on and its
    /// deadline lies ahead.
    pub open spec fn samples_at(self, now_ms: nat) -> bool {
        self.phase == Phase::Sampling && now_ms < self.deadline_ms
    }

    /// The state after the loop asked what to do at `now_ms`: the sampling
    /// phase ends once its deadline has passed.
    pub open spec fn polled(self, now_ms: nat) -> SchedulerView {
        if self.samples_at(now_ms) {
            self
        } else {
            SchedulerView { phase: Phase::Discovery, ..self }
        }
    }
}

impl View for Scheduler {
    type V = SchedulerView;

    closed spec fn view(&self) -> SchedulerView {
        SchedulerView {
            interval_secs: self.interval_secs as nat,
            device_count: self.device_count as nat,
            deadline_ms: self.deadline_ms as nat,
            phase: self.phase,
        }
    }
}

impl Scheduler {
    #[verifier::type_invariant]
    spec fn interval_is_bounded(&self) -> bool {
        INITIAL_REFRESH_SECS <= self.interval_secs <= MAX_REFRESH_SECS
    }

    /// The scheduler before the first discovery: the interval is
    /// `INITIAL_REFRESH_SECS`, no device is on record, and a discovery is
    /// due.
    pub fn new() -> (scheduler: Scheduler)
        ensures
            scheduler@ == SchedulerView::initial(),
    {
        Scheduler {
            interval_secs: INITIAL_REFRESH_SECS,
            device_count: 0,
            deadline_ms: 0,
            phase: Phase::Discovery,
        }
    }

    /// The refresh interval in force, in seconds: never less than
    /// `INITIAL_REFRESH_SECS`, never more than `MAX_REFRESH_SECS`.
    pub fn interval_secs(&self) -> (secs: u64)
        ensures
            secs == self@.interval_secs,
            INITIAL_REFRESH_SECS <= secs <= MAX_REFRESH_SECS,
    {
        proof {
            use_type_invariant(self);
        }
        self.interval_secs
    }

    /// The number of devices found by the latest discovery.
    pub fn device_count(&self) -> (count: usize)
        ensures
            count == self@.device_count,
    {
        self.device_count
    }

    /// When the sampling phase ends, in milliseconds.
    pub fn deadline_ms(&self) -> (deadline: u64)
        ensures
            deadline == self@.deadline_ms,
    {
        self.deadline_ms
    }

    /// The phase the loop is in.
    pub fn phase(&self) -> (phase: Phase)
        ensures
            phase == self@.phase,
    {
        self.phase
    }

    /// Takes the result of a discovery that ended at `now_ms`: adapts the
    /// refresh interval to whether the device count changed, records the
    /// count, sets the deadline one interval ahead and enters the sampling
    /// phase.
    pub fn on_discovery(&mut self, device_count: usize, now_ms: u64)
        ensures
            final(self)@ == old(self)@.discovered(device_count as nat, now_ms as nat),
    {
        proof {
            use_type_invariant(&*self);
        }
        let interval = next_refresh_interval(self.interval_secs, device_count != self.device_count);
        let span_ms: u64 = interval * MILLIS_PER_SEC;
        let deadline = if now_ms <= u64::MAX - span_ms {
            now_ms + span_ms
        } else {
            u64::MAX
        };
        self.interval_secs = interval;
        self.device_count = device_count;
        self.deadline_ms = deadline;
        self.phase = Phase::Sampling;
    }

    /// Says what the loop does at `now_ms`: a sweep while the sampling phase
    /// is on and its deadline lies ahead, a discovery otherwise. The
    /// sampling phase ends with the first answer that is not a sweep.
    pub fn poll(&mut self, now_ms: u64) -> (action: Action)
        ensures
            final(self)@ == old(self)@.polled(now_ms as nat),
            action == (if old(self)@.samples_at(now_ms as nat) {
                Action::Sample
            } else {
                Action::Discover
            }),
    {
        proof {
            use_type_invariant(&*self);
        }
        match self.phase {
            Phase::Sampling => {
                if now_ms < self.deadline_ms {
                    Action::Sample
                } else {
                    self.phase = Phase::Discovery;
                    Action::Discover
                }
            },
            Phase::Discovery => Action::Discover,
        }
    }
}

/// The refresh interval always lies between `INITIAL_REFRESH_SECS` and
/// `MAX_REFRESH_SECS`, whatever the devices did.
pub proof fn lemma_interval_is_bounded(counts: Seq<nat>)
    ensures
        INITIAL_REFRESH_SECS <= after_discoveries(counts).0 <= MAX_REFRESH_SECS,
        counts.len() > 0 ==> after_discoveries(counts).1 == counts.last(),
    decreases counts.len(),
{
    if counts.len() > 0 {
        lemma_interval_is_bounded(counts.drop_last());
    }
}

/// A discovery that finds another number of devices than the one before puts
/// the refresh interval back to `INITIAL_REFRESH_SECS`.
pub proof fn lemma_change_resets_interval(earlier: Seq<nat>, found: nat)
    requires
        found != after_discoveries(earlier).1,
    ensures
        after_discoveries(earlier.push(found)).0 == INITIAL_REFRESH_SECS,
{
    assert(earlier.push(found).drop_last() =~= earlier);
}

/// A discovery that finds as many devices as the one before doubles the
/// refresh interval, up to `MAX_REFRESH_SECS`.
pub proof fn lemma_stability_doubles_interval(earlier: Seq<nat>, found: nat)
    requires
        found == after_discoveries(earlier).1,
    ensures
        after_discoveries(earlier.push(found)).0 == next_interval(
            after_discoveries(earlier).0,
            false,
        ),
{
    assert(earlier.push(found).drop_last() =~= earlier);
}

/// After a change of the device count and `stable` further discoveries that
/// find the same count again, the refresh interval is `backoff(stable)`: 30,
/// 60, 120 and so on.
pub proof fn lemma_stable_run_backs_off(earlier: Seq<nat>, found: nat, stable: nat)
    requires
        found != after_discoveries(earlier).1,
    ensures
        after_discoveries(earlier + Seq::new(stable + 1, |i: int| found)).0 == backoff(stable),
        after_discoveries(earlier + Seq::new(stable + 1, |i: int| found)).1 == found,
    decreases stable,
{
    let run = earlier + Seq::new(stable + 1, |i: int| found);
    if stable == 0 {
        assert(run =~= earlier.push(found));
        lemma_change_resets_interval(earlier, found);
    } else {
        let shorter = earlier + Seq::new(stable, |i: int| found);
        lemma_stable_run_backs_off(earlier, found, (stable - 1) as nat);
        assert(shorter =~= earlier + Seq::new((stable - 1) as nat + 1, |i: int| found));
        assert(run =~= shorter.push(found));
        lemma_stability_doubles_interval(shorter, found);
    }
}

/// The backoff in closed form: 30 seconds times two to the number of stable
/// discoveries, capped at `MAX_REFRESH_SECS`.
pub proof fn lemma_backoff_closed_form(stable: nat)
    ensures
        backoff(stable) == (if INITIAL_REFRESH_SECS * pow2(stable) < MAX_REFRESH_SECS {
            INITIAL_REFRESH_SECS * pow2(stable)
        } else {
            MAX_REFRESH_SECS as int
        }),
    decreases stable,
{
    lemma2_to64();
    if stable > 0 {
        lemma_backoff_closed_form((stable - 1) as nat);
        lemma_pow2_unfold(stable);
        if stable > 7 {
            lemma_pow2_strictly_increases(7, stable);
            if stable > 8 {
                lemma_pow2_strictly_increases(7, (stable - 1) as nat);
            }
        }
    }
}

} // verus!
