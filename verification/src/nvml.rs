//! NVML as the device-query subsystem.
//!
//! Every function of `nvml_wrapper` that the collection core needs is called
//! here and nowhere else. The driver answers for the hardware, so none of
//! these calls promises anything about its result.

use crate::pstate::PerformanceState;
use crate::query::{DeviceQuery, DeviceSource, MemoryInfo};
use nvml_wrapper::enum_wrappers::device::PerformanceState as Raw;
use nvml_wrapper::enum_wrappers::device::TemperatureSensor;
use nvml_wrapper::error::NvmlError;
use nvml_wrapper::{Device, Nvml};
use vstd::prelude::*;

verus! {

#[verifier::external_type_specification]
#[verifier::external_body]
pub struct ExNvml(Nvml);

#[verifier::external_type_specification]
#[verifier::external_body]
pub struct ExDevice<'nvml>(Device<'nvml>);

#[verifier::external_type_specification]
#[verifier::external_body]
pub struct ExNvmlError(NvmlError);

/// `Nvml::device_count`: the number of devices the driver sees, or its error.
#[verifier::external_body]
fn driver_device_count(nvml: &Nvml) -> Result<u32, NvmlError> {
    nvml.device_count()
}

/// `Nvml::device_by_index`: the driver's handle for the device at `index`, or
/// its error.
#[verifier::external_body]
fn driver_device_by_index<'nvml>(
    nvml: &'nvml Nvml,
    index: u32,
) -> Result<Device<'nvml>, NvmlError> {
    nvml.device_by_index(index)
}

/// `Device::uuid`: the device's UUID as the driver spells it, or its error.
#[verifier::external_body]
fn driver_uuid(device: &Device<'_>) -> Result<String, NvmlError> {
    device.uuid()
}

/// `Device::name`: the product name, or the driver's error.
#[verifier::external_body]
fn driver_name(device: &Device<'_>) -> Result<String, NvmlError> {
    device.name()
}

/// `Device::pci_info`: the `bus_id` field of what it returns, or the driver's
/// error.
#[verifier::external_body]
fn driver_pci_bus_id(device: &Device<'_>) -> Result<String, NvmlError> {
    device.pci_info().map(|info| info.bus_id)
}

/// `Device::memory_info`: the `free`, `used` and `total` fields of what it
/// returns, or the driver's error.
#[verifier::external_body]
fn driver_memory_info(device: &Device<'_>) -> Result<MemoryInfo, NvmlError> {
    device.memory_info().map(|m| MemoryInfo { free: m.free, used: m.used, total: m.total })
}

/// `Device::fan_speed`: the speed of one fan in percent, or the driver's
/// error.
#[verifier::external_body]
fn driver_fan_speed(device: &Device<'_>, fan: u32) -> Result<u32, NvmlError> {
    device.fan_speed(fan)
}

/// `Device::temperature` for the GPU die sensor: degrees Celsius, or the
/// driver's error.
#[verifier::external_body]
fn driver_temperature(device: &Device<'_>) -> Result<u32, NvmlError> {
    device.temperature(TemperatureSensor::Gpu)
}

/// `Device::performance_state`: the driver's state under the variant of the
/// same name, or the driver's error.
#[verifier::external_body]
fn driver_performance_state(device: &Device<'_>) -> Result<PerformanceState, NvmlError> {
    device.performance_state().map(|state| match state {
        Raw::Zero => PerformanceState::Zero, Raw::One => PerformanceState::One,
        Raw::Two => PerformanceState::Two, Raw::Three => PerformanceState::Three,
        Raw::Four => PerformanceState::Four, Raw::Five => PerformanceState::Five,
        Raw::Six => PerformanceState::Six, Raw::Seven => PerformanceState::Seven,
        Raw::Eight => PerformanceState::Eight, Raw::Nine => PerformanceState::Nine,
        Raw::Ten => PerformanceState::Ten, Raw::Eleven => PerformanceState::Eleven,
        Raw::Twelve => PerformanceState::Twelve, Raw::Thirteen => PerformanceState::Thirteen,
        Raw::Fourteen => PerformanceState::Fourteen, Raw::Fifteen => PerformanceState::Fifteen,
        Raw::Unknown => PerformanceState::Unknown,
    })
}

/// `Device::power_usage`: milliwatts, or the driver's error.
#[verifier::external_body]
fn driver_power_usage(device: &Device<'_>) -> Result<u32, NvmlError> {
    device.power_usage()
}

/// `Device::enforced_power_limit`: milliwatts, or the driver's error.
#[verifier::external_body]
fn driver_enforced_power_limit(device: &Device<'_>) -> Result<u32, NvmlError> {
    device.enforced_power_limit()
}

/// `Device::total_energy_consumption`: millijoules, or the driver's error.
#[verifier::external_body]
fn driver_total_energy_consumption(device: &Device<'_>) -> Result<u64, NvmlError> {
    device.total_energy_consumption()
}

/// `Device::pcie_replay_counter`: the replay count, or the driver's error.
#[verifier::external_body]
fn driver_pcie_replay_counter(device: &Device<'_>) -> Result<u32, NvmlError> {
    device.pcie_replay_counter()
}

/// One physical device, reached through NVML.
pub struct NvmlDevice<'nvml> {
    device: Device<'nvml>,
}

impl<'nvml> DeviceQuery for NvmlDevice<'nvml> {
    type Error = NvmlError;

    fn uuid(&self) -> (outcome: Result<String, NvmlError>) {
        driver_uuid(&self.device)
    }

    fn name(&self) -> (outcome: Result<String, NvmlError>) {
        driver_name(&self.device)
    }

    fn pci_bus_id(&self) -> (outcome: Result<String, NvmlError>) {
        driver_pci_bus_id(&self.device)
    }

    fn memory_info(&self) -> (outcome: Result<MemoryInfo, NvmlError>) {
        driver_memory_info(&self.device)
    }

    fn fan_speed(&self, fan: u32) -> (outcome: Result<u32, NvmlError>) {
        driver_fan_speed(&self.device, fan)
    }

    fn temperature(&self) -> (outcome: Result<u32, NvmlError>) {
        driver_temperature(&self.device)
    }

    fn performance_state(&self) -> (outcome: Result<PerformanceState, NvmlError>) {
        driver_performance_state(&self.device)
    }

    fn power_usage(&self) -> (outcome: Result<u32, NvmlError>) {
        driver_power_usage(&self.device)
    }

    fn enforced_power_limit(&self) -> (outcome: Result<u32, NvmlError>) {
        driver_enforced_power_limit(&self.device)
    }

    fn total_energy_consumption(&self) -> (outcome: Result<u64, NvmlError>) {
        driver_total_energy_consumption(&self.device)
    }

    fn pcie_replay_counter(&self) -> (outcome: Result<u32, NvmlError>) {
        driver_pcie_replay_counter(&self.device)
    }
}

/// An initialised NVML session as a source of devices.
pub struct NvmlSource<'nvml> {
    nvml: &'nvml Nvml,
}

impl<'nvml> NvmlSource<'nvml> {
    /// The session whose devices the source gives.
    pub closed spec fn session(&self) -> &Nvml {
        self.nvml
    }

    /// The devices of the given session.
    pub fn new(nvml: &'nvml Nvml) -> (source: Self)
        ensures
            source.session() == nvml,
    {
        NvmlSource { nvml }
    }
}

impl<'nvml> DeviceSource for NvmlSource<'nvml> {
    type Device = NvmlDevice<'nvml>;

    fn device_count(&self) -> (outcome: Result<u32, NvmlError>) {
        driver_device_count(self.nvml)
    }

    fn device_by_index(&self, index: u32) -> (outcome: Result<NvmlDevice<'nvml>, NvmlError>) {
        match driver_device_by_index(self.nvml, index) {
            Ok(device) => Ok(NvmlDevice { device }),
            Err(e) => Err(e),
        }
    }
}

} // verus!
