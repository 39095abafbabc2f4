//! How a published counter follows a hardware counter.
//!
//! A published counter accepts increments only. Each sample therefore adds
//! the distance from the value published so far to the value the hardware
//! reports now. A series starts at zero, so the first sample publishes the
//! hardware value in full. Where the hardware reports less than what is
//! published (after a device reset), nothing is added: the published value
//! stays where it is until the hardware has caught up.

use vstd::prelude::*;

verus! {

/// What to add to a counter that stands at `mirrored` when the hardware
/// reports `current`.
pub open spec fn increment_for(current: nat, mirrored: nat) -> nat {
    if current >= mirrored {
        (current - mirrored) as nat
    } else {
        0
    }
}

/// Where a counter that stood at `mirrored` stands after a sample of
/// `current`: at the larger of the two.
pub open spec fn mirrored_after(mirrored: nat, current: nat) -> nat {
    mirrored + increment_for(current, mirrored)
}

/// Where a counter that stood at `start` stands after one sample for each of
/// `readings`, in order.
pub open spec fn mirrored_after_all(start: nat, readings: Seq<nat>) -> nat
    decreases readings.len(),
{
    if readings.len() == 0 {
        start
    } else {
        mirrored_after(mirrored_after_all(start, readings.drop_last()), readings.last())
    }
}

/// Whether no element of the sequence is smaller than the one before it.
pub open spec fn non_decreasing(readings: Seq<nat>) -> bool {
    forall|i: int, j: int| 0 <= i <= j < readings.len() ==> readings[i] <= readings[j]
}

/// The increment for one sample: the distance from `mirrored` up to
/// `current`, and zero where `current` lies below.
pub fn counter_increment(current: u64, mirrored: u64) -> (delta: u64)
    ensures
        delta == increment_for(current as nat, mirrored as nat),
        mirrored + delta == mirrored_after(mirrored as nat, current as nat),
        mirrored + delta <= u64::MAX,
{
    if current >= mirrored {
        current - mirrored
    } else {
        0
    }
}

/// A sample never lowers a counter, and leaves it at the larger of the
/// published and the reported value.
pub proof fn lemma_sample_never_lowers(mirrored: nat, current: nat)
    ensures
        mirrored_after(mirrored, current) >= mirrored,
        mirrored_after(mirrored, current) >= current,
        mirrored_after(mirrored, current) == mirrored || mirrored_after(mirrored, current)
            == current,
{
}

/// Over any sequence of samples the counter never decreases: after one more
/// sample it stands at least as high as before.
pub proof fn lemma_counter_is_monotonic(start: nat, readings: Seq<nat>, n: int)
    requires
        0 <= n <= readings.len(),
    ensures
        start <= mirrored_after_all(start, readings.take(n)) <= mirrored_after_all(
            start,
            readings,
        ),
    decreases readings.len() - n,
{
    lemma_run_is_at_least_start(start, readings.take(n));
    if n < readings.len() {
        lemma_counter_is_monotonic(start, readings, n + 1);
        let longer = readings.take(n + 1);
        assert(longer.drop_last() == readings.take(n));
        assert(longer.last() == readings[n]);
    } else {
        assert(readings.take(n) == readings);
    }
}

/// A counter never falls below where it started.
pub proof fn lemma_run_is_at_least_start(start: nat, readings: Seq<nat>)
    ensures
        start <= mirrored_after_all(start, readings),
    decreases readings.len(),
{
    if readings.len() > 0 {
        lemma_run_is_at_least_start(start, readings.drop_last());
    }
}

/// While the hardware counter does not decrease and does not start below the
/// published value, the published counter equals the hardware counter after
/// every sample.
pub proof fn lemma_counter_tracks_hardware(start: nat, readings: Seq<nat>)
    requires
        readings.len() > 0,
        non_decreasing(readings),
        start <= readings[0],
    ensures
        mirrored_after_all(start, readings) == readings.last(),
    decreases readings.len(),
{
    let earlier = readings.drop_last();
    if earlier.len() > 0 {
        assert(non_decreasing(earlier)) by {
            assert forall|i: int, j: int| 0 <= i <= j < earlier.len() implies earlier[i]
                <= earlier[j] by {
                assert(earlier[i] == readings[i] && earlier[j] == readings[j]);
            }
        }
        assert(earlier[0] == readings[0]);
        lemma_counter_tracks_hardware(start, earlier);
        assert(earlier.last() == readings[readings.len() - 2]);
        assert(readings[readings.len() - 2] <= readings[readings.len() - 1]);
    } else {
        assert(mirrored_after_all(start, earlier) == start);
    }
}

/// While the hardware counter does not decrease and does not start below the
/// published value, the first sample adds the distance from the published
/// value to the first reading, and every later sample adds the distance
/// between two consecutive readings.
pub proof fn lemma_increments_are_differences(start: nat, readings: Seq<nat>, n: int)
    requires
        non_decreasing(readings),
        0 <= n < readings.len(),
        start <= readings[0],
    ensures
        increment_for(readings[n], mirrored_after_all(start, readings.take(n))) == (if n == 0 {
            readings[0] - start
        } else {
            readings[n] - readings[n - 1]
        }),
{
    let earlier = readings.take(n);
    if n > 0 {
        assert(non_decreasing(earlier)) by {
            assert forall|i: int, j: int| 0 <= i <= j < earlier.len() implies earlier[i]
                <= earlier[j] by {
                assert(earlier[i] == readings[i] && earlier[j] == readings[j]);
            }
        }
        assert(earlier[0] == readings[0]);
        lemma_counter_tracks_hardware(start, earlier);
        assert(earlier.last() == readings[n - 1]);
    }
}

} // verus!
