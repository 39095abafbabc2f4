//! The identity of a device.

use crate::registry::{series_key, texts};
use vstd::prelude::*;

verus! {

/// The number of identity labels on every series: `uuid`, `name`, `pci`.
pub const LABEL_COUNT: usize = 3;

/// What identifies a device, and labels every series that belongs to it.
#[derive(Clone, Debug)]
pub struct DeviceIdentity {
    pub uuid: String,
    pub name: String,
    pub pci_bus_id: String,
}

impl DeviceIdentity {
    /// The three label values, in the order `uuid`, `name`, `pci`.
    pub open spec fn label_values(&self) -> Seq<Seq<char>> {
        seq![self.uuid@, self.name@, self.pci_bus_id@]
    }

    /// The key of the device's series in every integer family.
    pub open spec fn series(&self) -> u64 {
        series_key(self.label_values())
    }

    /// The three label values, in the order `uuid`, `name`, `pci`.
    pub fn labels(&self) -> (labels: Vec<&str>)
        ensures
            labels@.len() == LABEL_COUNT,
            texts(labels@) == self.label_values(),
    {
        let labels: Vec<&str> = vec![
            self.uuid.as_str(),
            self.name.as_str(),
            self.pci_bus_id.as_str(),
        ];
        assert(texts(labels@) =~= self.label_values());
        labels
    }
}

} // verus!
