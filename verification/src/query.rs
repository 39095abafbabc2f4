//! The device-query interface: what the collection core asks of a device and
//! of the subsystem that enumerates devices.
//!
//! What a device answers is not up to the collection core. Each interface
//! therefore carries a relation that says which answers are possible, and
//! every read promises no more than that its answer is a possible one. The
//! relations hold of every answer unless an implementation says otherwise,
//! which is all that is known of hardware.

use crate::pstate::PerformanceState;
use vstd::prelude::*;

verus! {

/// Frame-buffer memory of a device, in bytes.
#[derive(Clone, Copy, Debug, PartialEq, Eq, Structural)]
pub struct MemoryInfo {
    pub free: u64,
    pub used: u64,
    pub total: u64,
}

/// One value read from a device, in the unit the device reports it in.
#[derive(Clone, Copy, Debug, PartialEq, Eq, Structural)]
pub enum Reading {
    /// Frame-buffer memory, in bytes.
    Memory(MemoryInfo),
    /// Speed of one fan, in percent of its maximum.
    FanSpeed { fan: u32, percent: u32 },
    /// Temperature of the GPU die, in degrees Celsius.
    Temperature(u32),
    PerformanceState(PerformanceState),
    /// Current power draw, in milliwatts.
    PowerUsage(u32),
    /// Power limit in force, in milliwatts.
    PowerLimit(u32),
    /// Energy consumed since the driver was loaded, in millijoules.
    TotalEnergy(u64),
    /// PCIe replays counted so far.
    PcieReplays(u32),
}

/// One question about the telemetry of a device.
#[derive(Clone, Copy, Debug, PartialEq, Eq, Structural)]
pub enum Query {
    Memory,
    /// The speed of the fan with the given index.
    FanSpeed(u32),
    Temperature,
    PerformanceState,
    PowerUsage,
    PowerLimit,
    TotalEnergy,
    PcieReplays,
}

/// One of the three texts that identify a device.
#[derive(Clone, Copy, Debug, PartialEq, Eq, Structural)]
pub enum IdentityLabel {
    Uuid,
    Name,
    PciBusId,
}

impl Reading {
    /// Whether the reading is of the kind that `query` asks for, and, for a
    /// fan speed, of the fan it asks about.
    pub open spec fn answers(self, query: Query) -> bool {
        match query {
            Query::Memory => self is Memory,
            Query::FanSpeed(asked) => self matches Reading::FanSpeed { fan, .. } && fan == asked,
            Query::Temperature => self is Temperature,
            Query::PerformanceState => self is PerformanceState,
            Query::PowerUsage => self is PowerUsage,
            Query::PowerLimit => self is PowerLimit,
            Query::TotalEnergy => self is TotalEnergy,
            Query::PcieReplays => self is PcieReplays,
        }
    }
}

/// The outcome of reading a text, with the text as a sequence of characters.
pub open spec fn text_of<E>(outcome: Result<String, E>) -> Result<Seq<char>, E> {
    match outcome {
        Ok(text) => Ok(text@),
        Err(e) => Err(e),
    }
}

/// The read operations of one device. Each read may fail on its own.
pub trait DeviceQuery {
    /// What a failed read reports.
    type Error;

    /// Whether reading the identity text `label` can have the given outcome.
    open spec fn may_identify(
        &self,
        label: IdentityLabel,
        outcome: Result<Seq<char>, Self::Error>,
    ) -> bool {
        true
    }

    /// Whether asking `query` can have the given outcome.
    open spec fn may_answer(&self, query: Query, outcome: Result<Reading, Self::Error>) -> bool {
        true
    }

    fn uuid(&self) -> (outcome: Result<String, Self::Error>)
        ensures
            self.may_identify(IdentityLabel::Uuid, text_of(outcome)),
    ;

    fn name(&self) -> (outcome: Result<String, Self::Error>)
        ensures
            self.may_identify(IdentityLabel::Name, text_of(outcome)),
    ;

    fn pci_bus_id(&self) -> (outcome: Result<String, Self::Error>)
        ensures
            self.may_identify(IdentityLabel::PciBusId, text_of(outcome)),
    ;

    fn memory_info(&self) -> (outcome: Result<MemoryInfo, Self::Error>)
        ensures
            self.may_answer(
                Query::Memory,
                match outcome {
                    Ok(memory) => Ok(Reading::Memory(memory)),
                    Err(e) => Err(e),
                },
            ),
    ;

    /// Speed of the fan with the given index, in percent of its maximum.
    fn fan_speed(&self, fan: u32) -> (outcome: Result<u32, Self::Error>)
        ensures
            self.may_answer(
                Query::FanSpeed(fan),
                match outcome {
                    Ok(percent) => Ok(Reading::FanSpeed { fan, percent }),
                    Err(e) => Err(e),
                },
            ),
    ;

    /// Temperature of the GPU die, in degrees Celsius.
    fn temperature(&self) -> (outcome: Result<u32, Self::Error>)
        ensures
            self.may_answer(
                Query::Temperature,
                match outcome {
                    Ok(celsius) => Ok(Reading::Temperature(celsius)),
                    Err(e) => Err(e),
                },
            ),
    ;

    fn performance_state(&self) -> (outcome: Result<PerformanceState, Self::Error>)
        ensures
            self.may_answer(
                Query::PerformanceState,
                match outcome {
                    Ok(state) => Ok(Reading::PerformanceState(state)),
                    Err(e) => Err(e),
                },
            ),
    ;

    /// Current power draw, in milliwatts.
    fn power_usage(&self) -> (outcome: Result<u32, Self::Error>)
        ensures
            self.may_answer(
                Query::PowerUsage,
                match outcome {
                    Ok(milliwatts) => Ok(Reading::PowerUsage(milliwatts)),
                    Err(e) => Err(e),
                },
            ),
    ;

    /// Power limit in force, in milliwatts.
    fn enforced_power_limit(&self) -> (outcome: Result<u32, Self::Error>)
        ensures
            self.may_answer(
                Query::PowerLimit,
                match outcome {
                    Ok(milliwatts) => Ok(Reading::PowerLimit(milliwatts)),
                    Err(e) => Err(e),
                },
            ),
    ;

    /// Energy consumed since the driver was loaded, in millijoules.
    fn total_energy_consumption(&self) -> (outcome: Result<u64, Self::Error>)
        ensures
            self.may_answer(
                Query::TotalEnergy,
                match outcome {
                    Ok(millijoules) => Ok(Reading::TotalEnergy(millijoules)),
                    Err(e) => Err(e),
                },
            ),
    ;

    fn pcie_replay_counter(&self) -> (outcome: Result<u32, Self::Error>)
        ensures
            self.may_answer(
                Query::PcieReplays,
                match outcome {
                    Ok(replays) => Ok(Reading::PcieReplays(replays)),
                    Err(e) => Err(e),
                },
            ),
    ;
}

/// The device-query subsystem at one point in time: how many devices are
/// present, and a handle for each index.
pub trait DeviceSource {
    type Device: DeviceQuery;

    /// Whether asking for the number of devices can have the given outcome.
    open spec fn may_count(
        &self,
        outcome: Result<u32, <Self::Device as DeviceQuery>::Error>,
    ) -> bool {
        true
    }

    /// Whether asking for the device at `index` can have the given outcome.
    open spec fn may_yield(
        &self,
        index: u32,
        outcome: Result<Self::Device, <Self::Device as DeviceQuery>::Error>,
    ) -> bool {
        true
    }

    fn device_count(&self) -> (outcome: Result<u32, <Self::Device as DeviceQuery>::Error>)
        ensures
            self.may_count(outcome),
    ;

    fn device_by_index(&self, index: u32) -> (outcome: Result<
        Self::Device,
        <Self::Device as DeviceQuery>::Error,
    >)
        ensures
            self.may_yield(index, outcome),
    ;
}

} // verus!
