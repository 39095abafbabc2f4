use nvml_exporter::counter::counter_increment;

#[test]
fn first_sample_publishes_the_hardware_value_in_full() {
    assert_eq!(counter_increment(100, 0), 100);
}

#[test]
fn later_samples_publish_the_difference() {
    assert_eq!(counter_increment(140, 100), 40);
    assert_eq!(counter_increment(190, 140), 50);
}

#[test]
fn unchanged_hardware_counter_adds_nothing() {
    assert_eq!(counter_increment(140, 140), 0);
    assert_eq!(counter_increment(0, 0), 0);
}

#[test]
fn hardware_counter_below_published_value_adds_nothing() {
    assert_eq!(counter_increment(50, 190), 0);
    assert_eq!(counter_increment(0, u64::MAX), 0);
}

#[test]
fn increment_reaches_the_top_of_the_range() {
    assert_eq!(counter_increment(u64::MAX, 0), u64::MAX);
    assert_eq!(counter_increment(u64::MAX, 1), u64::MAX - 1);
}

#[test]
fn increments_follow_a_non_decreasing_hardware_counter() {
    let hardware: [u64; 4] = [100, 140, 140, 190];
    let mut published: u64 = 0;
    let mut increments: Vec<u64> = Vec::new();
    for reading in hardware {
        let delta = counter_increment(reading, published);
        published += delta;
        increments.push(delta);
        assert_eq!(published, reading);
    }
    assert_eq!(increments, vec![100, 40, 0, 50]);
}

#[test]
fn published_counter_never_decreases_across_a_reset() {
    let hardware: [u64; 5] = [100, 140, 10, 60, 150];
    let mut published: u64 = 0;
    let mut seen: Vec<u64> = Vec::new();
    for reading in hardware {
        published += counter_increment(reading, published);
        seen.push(published);
    }
    assert_eq!(seen, vec![100, 140, 140, 140, 150]);
}
