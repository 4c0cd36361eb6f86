//! USB devices.

use vstd::prelude::*;

verus! {

/// A USB device comes or goes.
#[derive(Debug)]
pub enum TransportEvent {
    UsbDeviceConnected(UsbDeviceInfo),
    UsbDeviceDisconnected { device_path: String },
}

/// What a USB device says of itself.
#[derive(Clone, Debug)]
pub struct UsbDeviceInfo {
    pub vid: u16,
    pub pid: u16,
    pub manufacturer: Option<String>,
    pub product: Option<String>,
    pub serial_number: Option<String>,
    pub device_path: String,
}

} // verus!
