use nvml_exporter::gauge::{
    decimal_label, ratio_gauge, ratio_gauges, RatioMetric, FAN_SPEED_SCALE, TEMPERATURE_SCALE,
};
use nvml_exporter::pstate::PerformanceState;
use nvml_exporter::query::{MemoryInfo, Reading};

fn identity() -> Vec<&'static str> {
    vec!["GPU-1234", "Test GPU", "0000:01:00.0"]
}

#[test]
fn decimal_label_of_single_digits() {
    for n in 0..10u32 {
        assert_eq!(decimal_label(n), format!("{}", n));
    }
}

#[test]
fn decimal_label_of_larger_numbers() {
    assert_eq!(decimal_label(10), "10");
    assert_eq!(decimal_label(99), "99");
    assert_eq!(decimal_label(100), "100");
    assert_eq!(decimal_label(9_999), "9999");
    assert_eq!(decimal_label(10_000), "10000");
    assert_eq!(decimal_label(1_020_304), "1020304");
    assert_eq!(decimal_label(u32::MAX), "4294967295");
}

#[test]
fn fan_speed_goes_to_the_fan_gauge_as_percent_over_hundred() {
    let labels = identity();
    let gauge = ratio_gauge(&labels, &Reading::FanSpeed { fan: 2, percent: 73 }).unwrap();
    assert_eq!(gauge.metric, RatioMetric::FanSpeed);
    assert_eq!(gauge.labels, vec!["GPU-1234", "Test GPU", "0000:01:00.0", "2"]);
    assert_eq!(gauge.numerator, 73);
    assert_eq!(gauge.denominator, 100);
    assert_eq!(FAN_SPEED_SCALE, 100);
    assert_eq!(gauge.numerator as f64 / gauge.denominator as f64, 0.73);
}

#[test]
fn temperature_goes_to_the_temperature_gauge_unscaled() {
    let labels = identity();
    let gauge = ratio_gauge(&labels, &Reading::Temperature(65)).unwrap();
    assert_eq!(gauge.metric, RatioMetric::Temperature);
    assert_eq!(gauge.labels, vec!["GPU-1234", "Test GPU", "0000:01:00.0"]);
    assert_eq!(gauge.numerator, 65);
    assert_eq!(gauge.denominator, 1);
    assert_eq!(TEMPERATURE_SCALE, 1);
    assert_eq!(gauge.numerator as f64 / gauge.denominator as f64, 65.0);
}

#[test]
fn integer_readings_have_no_ratio_gauge() {
    let labels = identity();
    let memory = MemoryInfo { free: 1, used: 2, total: 3 };
    assert!(ratio_gauge(&labels, &Reading::Memory(memory)).is_none());
    assert!(ratio_gauge(&labels, &Reading::PerformanceState(PerformanceState::Two)).is_none());
    assert!(ratio_gauge(&labels, &Reading::PowerUsage(5)).is_none());
    assert!(ratio_gauge(&labels, &Reading::PowerLimit(5)).is_none());
    assert!(ratio_gauge(&labels, &Reading::TotalEnergy(5)).is_none());
    assert!(ratio_gauge(&labels, &Reading::PcieReplays(5)).is_none());
}

#[test]
fn ratio_gauges_keep_the_order_of_the_readings() {
    let labels = identity();
    let readings = vec![
        Reading::Memory(MemoryInfo { free: 1, used: 2, total: 3 }),
        Reading::FanSpeed { fan: 0, percent: 40 },
        Reading::FanSpeed { fan: 1, percent: 55 },
        Reading::Temperature(70),
        Reading::PowerUsage(100),
    ];
    let gauges = ratio_gauges(&labels, &readings);
    assert_eq!(gauges.len(), 3);
    assert_eq!(gauges[0].metric, RatioMetric::FanSpeed);
    assert_eq!(gauges[0].labels[3], "0");
    assert_eq!(gauges[0].numerator, 40);
    assert_eq!(gauges[1].metric, RatioMetric::FanSpeed);
    assert_eq!(gauges[1].labels[3], "1");
    assert_eq!(gauges[1].numerator, 55);
    assert_eq!(gauges[2].metric, RatioMetric::Temperature);
    assert_eq!(gauges[2].labels.len(), 3);
    assert_eq!(gauges[2].numerator, 70);
}

#[test]
fn no_readings_give_no_gauges() {
    let labels = identity();
    assert!(ratio_gauges(&labels, &Vec::new()).is_empty());
}
