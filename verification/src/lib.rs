//! The verified core of a Bitcoin mining firmware.

pub mod alarm;
pub mod api;
pub mod asic;
pub mod backplane;
pub mod board;
pub mod config;
pub mod daemon;
pub mod display;
pub mod job;
pub mod pow;
pub mod precision;
pub mod scheduler;
pub mod slots;
pub mod text;
pub mod transport;
pub mod types;
