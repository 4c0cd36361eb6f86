//! Mining on the host's processor.

use vstd::prelude::*;

verus! {

/// A CPU miner comes or goes.
#[derive(Debug)]
pub enum TransportEvent {
    CpuDeviceConnected(CpuDeviceInfo),
    CpuDeviceDisconnected { device_id: String },
}

/// A configured CPU miner.
#[derive(Clone, Debug)]
pub struct CpuDeviceInfo {
    pub device_id: String,
    pub thread_count: usize,
    pub duty_percent: u8,
}

} // verus!
