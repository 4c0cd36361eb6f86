//! How boards come and go.

pub mod amlogic;
pub mod cpu;
pub mod usb;

use crate::transport::amlogic::TransportEvent as AmlogicTransportEvent;
use crate::transport::cpu::TransportEvent as CpuTransportEvent;
use crate::transport::usb::TransportEvent as UsbTransportEvent;
use vstd::prelude::*;

verus! {

/// An event of any transport.
#[derive(Debug)]
pub enum TransportEvent {
    Amlogic(AmlogicTransportEvent),
    Usb(UsbTransportEvent),
    Cpu(CpuTransportEvent),
}

} // verus!
