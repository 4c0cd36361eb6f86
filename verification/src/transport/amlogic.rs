//! Native Antminer Amlogic control boards.
//!
//! The events are made up from the configuration: nothing is plugged in.

use crate::config::HashboardModel;
use vstd::prelude::*;

verus! {

/// A configured control board comes or goes.
#[derive(Debug)]
pub enum TransportEvent {
    /// A configured control board should be started.
    DeviceConnected(AmlogicDeviceInfo),
    /// A configured control board should be stopped.
    DeviceDisconnected { device_id: String },
}

/// A configured control board.
#[derive(Clone, Debug)]
pub struct AmlogicDeviceInfo {
    /// Unique identifier of this device.
    pub device_id: String,
    /// Hashboard model, which decides the board driver.
    pub model: HashboardModel,
}

} // verus!
