use nvml_exporter::schedule::{
    next_refresh_interval, Action, Phase, Scheduler, INITIAL_REFRESH_SECS, MAX_REFRESH_SECS,
};

#[test]
fn refresh_constants_are_thirty_seconds_and_one_hour() {
    assert_eq!(INITIAL_REFRESH_SECS, 30);
    assert_eq!(MAX_REFRESH_SECS, 3600);
}

#[test]
fn unchanged_device_count_doubles_the_interval() {
    assert_eq!(next_refresh_interval(30, false), 60);
    assert_eq!(next_refresh_interval(60, false), 120);
    assert_eq!(next_refresh_interval(960, false), 1920);
}

#[test]
fn interval_is_capped_at_one_hour() {
    assert_eq!(next_refresh_interval(1920, false), 3600);
    assert_eq!(next_refresh_interval(1800, false), 3600);
    assert_eq!(next_refresh_interval(1799, false), 3598);
    assert_eq!(next_refresh_interval(3600, false), 3600);
    assert_eq!(next_refresh_interval(u64::MAX, false), 3600);
}

#[test]
fn changed_device_count_resets_the_interval() {
    assert_eq!(next_refresh_interval(30, true), 30);
    assert_eq!(next_refresh_interval(3600, true), 30);
    assert_eq!(next_refresh_interval(u64::MAX, true), 30);
}

#[test]
fn stable_topology_backs_off_to_one_hour() {
    let mut scheduler = Scheduler::new();
    let mut seen: Vec<u64> = Vec::new();
    for _ in 0..10 {
        scheduler.on_discovery(2, 0);
        seen.push(scheduler.interval_secs());
    }
    assert_eq!(seen, vec![30, 60, 120, 240, 480, 960, 1920, 3600, 3600, 3600]);
}

#[test]
fn count_change_resets_the_interval_at_that_phase() {
    let mut scheduler = Scheduler::new();
    let counts: [usize; 7] = [4, 4, 4, 3, 3, 4, 4];
    let mut seen: Vec<u64> = Vec::new();
    for count in counts {
        scheduler.on_discovery(count, 0);
        seen.push(scheduler.interval_secs());
    }
    assert_eq!(seen, vec![30, 60, 120, 30, 60, 30, 60]);
}

#[test]
fn first_discovery_without_devices_counts_as_unchanged() {
    let mut scheduler = Scheduler::new();
    scheduler.on_discovery(0, 0);
    assert_eq!(scheduler.interval_secs(), 60);
    assert_eq!(scheduler.device_count(), 0);
}

#[test]
fn new_scheduler_asks_for_discovery() {
    let mut scheduler = Scheduler::new();
    assert_eq!(scheduler.phase(), Phase::Discovery);
    assert_eq!(scheduler.interval_secs(), 30);
    assert_eq!(scheduler.device_count(), 0);
    assert_eq!(scheduler.poll(0), Action::Discover);
    assert_eq!(scheduler.poll(1_000_000), Action::Discover);
    assert_eq!(scheduler.phase(), Phase::Discovery);
}

#[test]
fn sampling_lasts_until_the_deadline() {
    let mut scheduler = Scheduler::new();
    scheduler.on_discovery(2, 1_000);
    assert_eq!(scheduler.phase(), Phase::Sampling);
    assert_eq!(scheduler.device_count(), 2);
    assert_eq!(scheduler.deadline_ms(), 31_000);
    assert_eq!(scheduler.poll(1_000), Action::Sample);
    assert_eq!(scheduler.poll(30_999), Action::Sample);
    assert_eq!(scheduler.phase(), Phase::Sampling);
    assert_eq!(scheduler.poll(31_000), Action::Discover);
    assert_eq!(scheduler.phase(), Phase::Discovery);
    assert_eq!(scheduler.poll(2_000), Action::Discover);
}

#[test]
fn deadline_moves_with_the_interval() {
    let mut scheduler = Scheduler::new();
    scheduler.on_discovery(1, 0);
    assert_eq!(scheduler.deadline_ms(), 30_000);
    scheduler.on_discovery(1, 30_000);
    assert_eq!(scheduler.deadline_ms(), 90_000);
    scheduler.on_discovery(1, 90_000);
    assert_eq!(scheduler.deadline_ms(), 210_000);
    scheduler.on_discovery(5, 210_000);
    assert_eq!(scheduler.deadline_ms(), 240_000);
}

#[test]
fn deadline_stops_at_the_last_moment_that_can_be_told() {
    let mut scheduler = Scheduler::new();
    scheduler.on_discovery(1, u64::MAX - 10);
    assert_eq!(scheduler.deadline_ms(), u64::MAX);
    assert_eq!(scheduler.poll(u64::MAX - 1), Action::Sample);
    assert_eq!(scheduler.poll(u64::MAX), Action::Discover);
}
