//! The state that the control interface shows.
//!
//! Readings are integers: temperatures in millionths of a degree Celsius,
//! voltages in microvolts, currents in milliamperes and powers in milliwatts.

use vstd::prelude::*;

verus! {

/// A fan.
#[derive(Clone, Debug, PartialEq, Eq)]
pub struct Fan {
    pub name: String,
    pub rpm: Option<u32>,
    pub percent: Option<u8>,
    pub target_percent: Option<u8>,
}

/// A temperature sensor.
#[derive(Clone, Debug, PartialEq, Eq)]
pub struct TemperatureSensor {
    pub name: String,
    pub microc: Option<i32>,
}

/// A power rail.
#[derive(Clone, Debug, PartialEq, Eq)]
pub struct PowerMeasurement {
    pub name: String,
    pub microvolts: Option<u32>,
    pub milliamps: Option<u32>,
    pub milliwatts: Option<u32>,
}

/// A hash thread.
#[derive(Clone, Debug, PartialEq, Eq)]
pub struct ThreadState {
    pub name: String,
    pub hashrate: u64,
    pub is_active: bool,
}

/// A hashboard behind a bridge.
#[derive(Clone, Debug, PartialEq, Eq)]
pub struct HashboardState {
    pub index: u8,
    pub serial_port: Option<String>,
    pub is_present: bool,
    pub is_active: bool,
    pub hashrate: u64,
}

/// A board.
#[derive(Clone, Debug, PartialEq, Eq)]
pub struct BoardState {
    pub name: String,
    pub model: String,
    pub serial: Option<String>,
    pub frequency_khz: Option<u32>,
    pub hashboard_count: Option<u8>,
    pub active_hashboard_count: Option<u8>,
    pub hashboards: Vec<HashboardState>,
    pub fans: Vec<Fan>,
    pub temperatures: Vec<TemperatureSensor>,
    pub powers: Vec<PowerMeasurement>,
    pub threads: Vec<ThreadState>,
}

/// A job source.
#[derive(Clone, Debug, PartialEq, Eq)]
pub struct SourceState {
    pub name: String,
    pub url: Option<String>,
    /// Difficulty of the cached job.
    pub difficulty: Option<u64>,
}

/// The miner.
#[derive(Clone, Debug, PartialEq, Eq)]
pub struct MinerState {
    pub uptime_secs: u64,
    pub hashrate: u64,
    pub shares_submitted: u64,
    pub best_difficulty: Option<u64>,
    pub paused: bool,
    pub boards: Vec<BoardState>,
    pub sources: Vec<SourceState>,
}

} // verus!
