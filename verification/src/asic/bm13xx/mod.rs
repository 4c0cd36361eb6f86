//! BM13xx chip chains.

pub mod bring_up;
pub mod chain;
pub mod chain_config;
pub mod chip_config;
pub mod protocol;
pub mod sequencer;
pub mod thread_v2;
pub mod topology;
