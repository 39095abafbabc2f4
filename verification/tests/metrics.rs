use nvml_exporter::identity::{DeviceIdentity, LABEL_COUNT};
use nvml_exporter::metrics::{Metrics, GAUGE_MAX};
use nvml_exporter::pstate::PerformanceState;
use nvml_exporter::query::{MemoryInfo, Reading};
use prometheus::Registry;

/// The value of the series of `family` whose labels are exactly `labels`
/// (name and value, in any order), as the registry exposes it.
fn exposed(registry: &Registry, family: &str, labels: &[(&str, &str)]) -> Option<f64> {
    for mf in registry.gather() {
        if mf.get_name() != family {
            continue;
        }
        for metric in mf.get_metric() {
            let pairs = metric.get_label();
            let same = pairs.len() == labels.len()
                && labels.iter().all(|(name, value)| {
                    pairs.iter().any(|p| p.get_name() == *name && p.get_value() == *value)
                });
            if same {
                let gauge = metric.get_gauge().get_value();
                let counter = metric.get_counter().get_value();
                return Some(gauge + counter);
            }
        }
    }
    None
}

fn series_count(registry: &Registry, family: &str) -> usize {
    registry
        .gather()
        .iter()
        .filter(|mf| mf.get_name() == family)
        .map(|mf| mf.get_metric().len())
        .sum()
}

fn registered() -> (Registry, Metrics) {
    let mut registry = Registry::new();
    let metrics = Metrics::new().unwrap();
    metrics.register(&mut registry).unwrap();
    (registry, metrics)
}

const GPU_A: [(&str, &str); 3] = [("uuid", "GPU-a"), ("name", "Alpha"), ("pci", "0000:01:00.0")];
const GPU_B: [(&str, &str); 3] = [("uuid", "GPU-b"), ("name", "Beta"), ("pci", "0000:02:00.0")];

fn gpu_a() -> DeviceIdentity {
    DeviceIdentity {
        uuid: format!("GPU-a"),
        name: format!("Alpha"),
        pci_bus_id: format!("0000:01:00.0"),
    }
}

fn gpu_b() -> DeviceIdentity {
    DeviceIdentity {
        uuid: format!("GPU-b"),
        name: format!("Beta"),
        pci_bus_id: format!("0000:02:00.0"),
    }
}

#[test]
fn every_series_takes_three_labels() {
    assert_eq!(LABEL_COUNT, 3);
    assert_eq!(gpu_a().labels(), vec!["GPU-a", "Alpha", "0000:01:00.0"]);
}

#[test]
fn series_carry_the_identity_under_uuid_name_and_pci() {
    let (registry, mut metrics) = registered();
    assert!(metrics.publish(&gpu_a(), &Reading::PowerUsage(1)));
    let families = registry.gather();
    let family = families.iter().find(|mf| mf.get_name() == "nvml_power_usage_current_mw").unwrap();
    let pairs = family.get_metric()[0].get_label();
    let mut seen: Vec<(String, String)> =
        pairs.iter().map(|p| (p.get_name().to_string(), p.get_value().to_string())).collect();
    seen.sort();
    assert_eq!(
        seen,
        vec![
            (format!("name"), format!("Alpha")),
            (format!("pci"), format!("0000:01:00.0")),
            (format!("uuid"), format!("GPU-a")),
        ]
    );
}

#[test]
fn catalog_has_the_eight_integer_families() {
    let (registry, mut metrics) = registered();
    let memory = MemoryInfo { free: 1, used: 2, total: 3 };
    assert!(metrics.publish(&gpu_a(), &Reading::Memory(memory)));
    assert!(metrics.publish(&gpu_a(), &Reading::PerformanceState(PerformanceState::One)));
    assert!(metrics.publish(&gpu_a(), &Reading::PowerUsage(1)));
    assert!(metrics.publish(&gpu_a(), &Reading::PowerLimit(1)));
    assert!(metrics.publish(&gpu_a(), &Reading::TotalEnergy(1)));
    assert!(metrics.publish(&gpu_a(), &Reading::PcieReplays(1)));
    let mut names: Vec<String> =
        registry.gather().iter().map(|mf| mf.get_name().to_string()).collect();
    names.sort();
    assert_eq!(
        names,
        vec![
            "nvml_memory_free_bytes",
            "nvml_memory_total_bytes",
            "nvml_memory_used_bytes",
            "nvml_pci_replay",
            "nvml_performance_state",
            "nvml_power_usage_current_mw",
            "nvml_power_usage_max_mw",
            "nvml_power_used_total_mj",
        ]
    );
}

#[test]
fn new_families_hold_no_series() {
    let (registry, _metrics) = registered();
    assert_eq!(series_count(&registry, "nvml_memory_free_bytes"), 0);
    assert_eq!(series_count(&registry, "nvml_power_used_total_mj"), 0);
    assert!(exposed(&registry, "nvml_memory_free_bytes", &GPU_A).is_none());
}

#[test]
fn registering_twice_is_refused() {
    let (mut registry, metrics) = registered();
    assert!(metrics.register(&mut registry).is_err());
}

#[test]
fn refusal_keeps_the_families_registered_before_it() {
    let mut registry = Registry::new();
    let foreign = prometheus::IntGaugeVec::new(
        prometheus::Opts::new("nvml_performance_state", "Somebody else's gauge"),
        &["uuid", "name", "pci"],
    )
    .unwrap();
    registry.register(Box::new(foreign)).unwrap();
    let mut metrics = Metrics::new().unwrap();
    assert!(metrics.register(&mut registry).is_err());
    let memory = MemoryInfo { free: 1, used: 2, total: 3 };
    assert!(metrics.publish(&gpu_a(), &Reading::Memory(memory)));
    assert!(metrics.publish(&gpu_a(), &Reading::PerformanceState(PerformanceState::One)));
    assert!(metrics.publish(&gpu_a(), &Reading::PowerUsage(5)));
    assert!(metrics.publish(&gpu_a(), &Reading::TotalEnergy(5)));
    assert_eq!(exposed(&registry, "nvml_memory_free_bytes", &GPU_A), Some(1.0));
    assert_eq!(exposed(&registry, "nvml_memory_used_bytes", &GPU_A), Some(2.0));
    assert_eq!(exposed(&registry, "nvml_memory_total_bytes", &GPU_A), Some(3.0));
    assert!(exposed(&registry, "nvml_performance_state", &GPU_A).is_none());
    assert!(exposed(&registry, "nvml_power_usage_current_mw", &GPU_A).is_none());
    assert!(exposed(&registry, "nvml_power_used_total_mj", &GPU_A).is_none());
}

#[test]
fn name_on_record_with_other_dimensions_is_refused() {
    let mut registry = Registry::new();
    let foreign = prometheus::IntGaugeVec::new(
        prometheus::Opts::new("nvml_memory_free_bytes", "Another help text"),
        &["uuid"],
    )
    .unwrap();
    registry.register(Box::new(foreign.clone())).unwrap();
    registry.unregister(Box::new(foreign)).unwrap();
    let mut metrics = Metrics::new().unwrap();
    assert!(metrics.register(&mut registry).is_err());
    let memory = MemoryInfo { free: 1, used: 2, total: 3 };
    assert!(metrics.publish(&gpu_a(), &Reading::Memory(memory)));
    assert!(registry.gather().is_empty());
}

#[test]
fn two_catalogs_go_to_two_registries() {
    let (first_registry, mut first) = registered();
    let (second_registry, mut second) = registered();
    assert!(first.publish(&gpu_a(), &Reading::PowerUsage(1)));
    assert!(second.publish(&gpu_a(), &Reading::PowerUsage(2)));
    assert_eq!(exposed(&first_registry, "nvml_power_usage_current_mw", &GPU_A), Some(1.0));
    assert_eq!(exposed(&second_registry, "nvml_power_usage_current_mw", &GPU_A), Some(2.0));
}

#[test]
fn memory_is_published_unchanged() {
    let (registry, mut metrics) = registered();
    let memory = MemoryInfo { free: 6_000_000_000, used: 2_000_000_000, total: 8_000_000_000 };
    assert!(metrics.publish(&gpu_a(), &Reading::Memory(memory)));
    assert_eq!(exposed(&registry, "nvml_memory_free_bytes", &GPU_A), Some(6_000_000_000.0));
    assert_eq!(exposed(&registry, "nvml_memory_used_bytes", &GPU_A), Some(2_000_000_000.0));
    assert_eq!(exposed(&registry, "nvml_memory_total_bytes", &GPU_A), Some(8_000_000_000.0));
}

#[test]
fn gauges_keep_the_last_value_written() {
    let (registry, mut metrics) = registered();
    assert!(metrics.publish(&gpu_a(), &Reading::PowerUsage(150_000)));
    assert!(metrics.publish(&gpu_a(), &Reading::PowerUsage(90_000)));
    assert_eq!(exposed(&registry, "nvml_power_usage_current_mw", &GPU_A), Some(90_000.0));
    assert_eq!(series_count(&registry, "nvml_power_usage_current_mw"), 1);
}

#[test]
fn power_values_are_published_in_milliwatts() {
    let (registry, mut metrics) = registered();
    assert!(metrics.publish(&gpu_a(), &Reading::PowerUsage(123_456)));
    assert!(metrics.publish(&gpu_a(), &Reading::PowerLimit(u32::MAX)));
    assert_eq!(exposed(&registry, "nvml_power_usage_current_mw", &GPU_A), Some(123_456.0));
    assert_eq!(exposed(&registry, "nvml_power_usage_max_mw", &GPU_A), Some(4_294_967_295.0));
}

#[test]
fn performance_state_is_published_as_its_level() {
    let (registry, mut metrics) = registered();
    assert!(metrics.publish(&gpu_a(), &Reading::PerformanceState(PerformanceState::Eight)));
    assert_eq!(exposed(&registry, "nvml_performance_state", &GPU_A), Some(8.0));
    assert!(metrics.publish(&gpu_a(), &Reading::PerformanceState(PerformanceState::Unknown)));
    assert_eq!(exposed(&registry, "nvml_performance_state", &GPU_A), Some(-1.0));
    assert!(metrics.publish(&gpu_a(), &Reading::PerformanceState(PerformanceState::Zero)));
    assert_eq!(exposed(&registry, "nvml_performance_state", &GPU_A), Some(0.0));
}

#[test]
fn energy_counter_follows_the_hardware_counter() {
    let (registry, mut metrics) = registered();
    let hardware: [u64; 4] = [100, 140, 140, 190];
    let mut seen: Vec<f64> = Vec::new();
    for reading in hardware {
        assert!(metrics.publish(&gpu_a(), &Reading::TotalEnergy(reading)));
        seen.push(exposed(&registry, "nvml_power_used_total_mj", &GPU_A).unwrap());
    }
    assert_eq!(seen, vec![100.0, 140.0, 140.0, 190.0]);
}

#[test]
fn replay_counter_follows_the_hardware_counter() {
    let (registry, mut metrics) = registered();
    assert!(metrics.publish(&gpu_a(), &Reading::PcieReplays(7)));
    assert_eq!(exposed(&registry, "nvml_pci_replay", &GPU_A), Some(7.0));
    assert!(metrics.publish(&gpu_a(), &Reading::PcieReplays(9)));
    assert_eq!(exposed(&registry, "nvml_pci_replay", &GPU_A), Some(9.0));
}

#[test]
fn counter_stays_where_it_is_when_the_hardware_reports_less() {
    let (registry, mut metrics) = registered();
    assert!(metrics.publish(&gpu_a(), &Reading::TotalEnergy(190)));
    assert!(metrics.publish(&gpu_a(), &Reading::TotalEnergy(20)));
    assert_eq!(exposed(&registry, "nvml_power_used_total_mj", &GPU_A), Some(190.0));
    assert!(metrics.publish(&gpu_a(), &Reading::TotalEnergy(189)));
    assert_eq!(exposed(&registry, "nvml_power_used_total_mj", &GPU_A), Some(190.0));
    assert!(metrics.publish(&gpu_a(), &Reading::TotalEnergy(200)));
    assert_eq!(exposed(&registry, "nvml_power_used_total_mj", &GPU_A), Some(200.0));
}

#[test]
fn counter_of_zero_creates_the_series() {
    let (registry, mut metrics) = registered();
    assert!(metrics.publish(&gpu_a(), &Reading::PcieReplays(0)));
    assert_eq!(exposed(&registry, "nvml_pci_replay", &GPU_A), Some(0.0));
}

#[test]
fn devices_do_not_share_series() {
    let (registry, mut metrics) = registered();
    assert!(metrics.publish(&gpu_a(), &Reading::PowerUsage(1)));
    assert!(metrics.publish(&gpu_b(), &Reading::PowerUsage(2)));
    assert!(metrics.publish(&gpu_a(), &Reading::TotalEnergy(10)));
    assert!(metrics.publish(&gpu_b(), &Reading::TotalEnergy(500)));
    assert_eq!(exposed(&registry, "nvml_power_usage_current_mw", &GPU_A), Some(1.0));
    assert_eq!(exposed(&registry, "nvml_power_usage_current_mw", &GPU_B), Some(2.0));
    assert_eq!(exposed(&registry, "nvml_power_used_total_mj", &GPU_A), Some(10.0));
    assert_eq!(exposed(&registry, "nvml_power_used_total_mj", &GPU_B), Some(500.0));
    assert_eq!(series_count(&registry, "nvml_power_usage_current_mw"), 2);
}

#[test]
fn fan_speed_and_temperature_are_not_written_to_integer_families() {
    let (registry, mut metrics) = registered();
    assert!(metrics.publish(&gpu_a(), &Reading::FanSpeed { fan: 0, percent: 73 }));
    assert!(metrics.publish(&gpu_a(), &Reading::Temperature(65)));
    assert!(registry.gather().iter().all(|mf| mf.get_metric().is_empty()));
}

#[test]
fn largest_byte_count_that_fits_is_published() {
    let (registry, mut metrics) = registered();
    let memory = MemoryInfo { free: GAUGE_MAX, used: 0, total: GAUGE_MAX };
    assert_eq!(GAUGE_MAX, i64::MAX as u64);
    assert!(metrics.publish(&gpu_a(), &Reading::Memory(memory)));
    assert_eq!(exposed(&registry, "nvml_memory_free_bytes", &GPU_A), Some(i64::MAX as f64));
    assert_eq!(exposed(&registry, "nvml_memory_used_bytes", &GPU_A), Some(0.0));
}

#[test]
fn free_bytes_out_of_range_publish_nothing() {
    let (registry, mut metrics) = registered();
    let memory = MemoryInfo { free: GAUGE_MAX + 1, used: 2, total: 3 };
    assert!(!metrics.publish(&gpu_a(), &Reading::Memory(memory)));
    assert!(exposed(&registry, "nvml_memory_free_bytes", &GPU_A).is_none());
    assert!(exposed(&registry, "nvml_memory_used_bytes", &GPU_A).is_none());
    assert!(exposed(&registry, "nvml_memory_total_bytes", &GPU_A).is_none());
}

#[test]
fn used_bytes_out_of_range_stop_after_free() {
    let (registry, mut metrics) = registered();
    let memory = MemoryInfo { free: 1, used: u64::MAX, total: 3 };
    assert!(!metrics.publish(&gpu_a(), &Reading::Memory(memory)));
    assert_eq!(exposed(&registry, "nvml_memory_free_bytes", &GPU_A), Some(1.0));
    assert!(exposed(&registry, "nvml_memory_used_bytes", &GPU_A).is_none());
    assert!(exposed(&registry, "nvml_memory_total_bytes", &GPU_A).is_none());
}

#[test]
fn total_bytes_out_of_range_stop_after_used() {
    let (registry, mut metrics) = registered();
    let memory = MemoryInfo { free: 1, used: 2, total: GAUGE_MAX + 1 };
    assert!(!metrics.publish(&gpu_a(), &Reading::Memory(memory)));
    assert_eq!(exposed(&registry, "nvml_memory_free_bytes", &GPU_A), Some(1.0));
    assert_eq!(exposed(&registry, "nvml_memory_used_bytes", &GPU_A), Some(2.0));
    assert!(exposed(&registry, "nvml_memory_total_bytes", &GPU_A).is_none());
}
