use nvml_exporter::pstate::{PerformanceState, HIGHEST_LEVEL, LOWEST_LEVEL, UNKNOWN_LEVEL};

fn all_states() -> Vec<PerformanceState> {
    vec![
        PerformanceState::Zero,
        PerformanceState::One,
        PerformanceState::Two,
        PerformanceState::Three,
        PerformanceState::Four,
        PerformanceState::Five,
        PerformanceState::Six,
        PerformanceState::Seven,
        PerformanceState::Eight,
        PerformanceState::Nine,
        PerformanceState::Ten,
        PerformanceState::Eleven,
        PerformanceState::Twelve,
        PerformanceState::Thirteen,
        PerformanceState::Fourteen,
        PerformanceState::Fifteen,
        PerformanceState::Unknown,
    ]
}

#[test]
fn numbered_states_map_to_their_number() {
    let states = all_states();
    for (number, state) in states.iter().take(16).enumerate() {
        assert_eq!(state.value(), number as i64);
    }
}

#[test]
fn unknown_state_maps_to_minus_one() {
    assert_eq!(PerformanceState::Unknown.value(), -1);
    assert_eq!(UNKNOWN_LEVEL, -1);
}

#[test]
fn level_bounds_are_zero_and_fifteen() {
    assert_eq!(PerformanceState::Zero.value(), HIGHEST_LEVEL);
    assert_eq!(PerformanceState::Fifteen.value(), LOWEST_LEVEL);
    assert_eq!(HIGHEST_LEVEL, 0);
    assert_eq!(LOWEST_LEVEL, 15);
}

#[test]
fn no_two_states_share_a_value() {
    let states = all_states();
    assert_eq!(states.len(), 17);
    for (i, a) in states.iter().enumerate() {
        for (j, b) in states.iter().enumerate() {
            if i != j {
                assert_ne!(a.value(), b.value());
            }
        }
    }
}

#[test]
fn every_value_from_zero_to_fifteen_is_taken() {
    let states = all_states();
    for wanted in 0..16i64 {
        let hits = states.iter().filter(|s| s.value() == wanted).count();
        assert_eq!(hits, 1);
    }
}
