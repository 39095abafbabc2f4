//! Collection core of a GPU telemetry exporter.
//!
//! The crate polls NVML devices and mirrors what it reads into Prometheus
//! metric families. Everything that decides something lives here and is
//! verified: which sensors a device has, in which order its telemetry is
//! read, how a reading becomes a series value, how counters follow the
//! hardware, and when the device set is enumerated again.
//!
//! - `identity`: what identifies a device and labels its series.
//! - `query`: the questions a device is asked and the answers it gives.
//! - `nvml`: NVML as the device behind those questions.
//! - `registry`: Prometheus families of integer series and what they hold.
//! - `metrics`: the catalog of integer families and how a reading is
//!   published.
//! - `gauge`: fan speed and temperature, which are published as ratios.
//! - `counter`: how a published counter follows a hardware counter.
//! - `pstate`: performance states and their published values.
//! - `device`: the device handle and the sampling pass.
//! - `collect`: discovery and the sweep over all devices.
//! - `schedule`: the adaptive refresh interval and the phases of the loop.

pub mod collect;
pub mod counter;
pub mod device;
pub mod gauge;
pub mod identity;
pub mod metrics;
pub mod nvml;
pub mod pstate;
pub mod query;
pub mod registry;
pub mod schedule;
