//! The discovery of devices.

use vstd::prelude::*;
use crate::registry::DeviceEntry;

pub mod history;
pub mod mdns;
pub mod usb;

verus! {

/// A device that was discovered.
#[derive(Debug)]
pub struct DiscoveredDevice {
    /// What the backend knows the device by.
    pub source_id: String,
    /// Name of the registered device.
    pub device_name: String,
    /// Entry of the registered device.
    pub entry: DeviceEntry,
    /// Network address, such as `192.168.1.100:8080`.
    pub address: Option<String>,
}

impl Clone for DiscoveredDevice {
    fn clone(&self) -> (r: Self)
        ensures
            r == *self,
    {
        DiscoveredDevice {
            source_id: self.source_id.clone(),
            device_name: self.device_name.clone(),
            entry: self.entry.clone(),
            address: match &self.address {
                Some(a) => Some(a.clone()),
                None => None,
            },
        }
    }
}

/// What a backend reports.
#[derive(Debug)]
pub enum DiscoveryEvent {
    Added(DiscoveredDevice),
    Removed { source_id: String },
}

/// A backend that discovers devices.
pub trait DiscoverySource: Send {
    /// The kind of the backend: `usb`, `mdns` and so on.
    fn backend_type(&self) -> &str;

    /// The devices that are there.
    fn enumerate(&mut self) -> Vec<DiscoveredDevice>;

    /// What has happened since the last look. Does not wait.
    fn poll(&mut self) -> Vec<DiscoveryEvent>;

    /// Whether a device is still there.
    fn device_still_exists(&self, source_id: &str) -> bool;

    /// Ends the backend.
    fn shutdown(&mut self);
}

} // verus!
