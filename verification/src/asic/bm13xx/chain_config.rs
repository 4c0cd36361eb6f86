//! What a board tells a hash thread about a chain.

use crate::asic::bm13xx::chip_config::ChipConfig;
use crate::asic::bm13xx::topology::TopologySpec;
use vstd::prelude::*;

verus! {

/// Configuration of a chain. The hardware interfaces that go with it are held by
/// whoever drives the thread.
#[derive(Debug)]
pub struct ChainConfig {
    /// Human-readable name for logging.
    pub name: String,
    /// Physical layout: routing and voltage domains.
    pub topology: TopologySpec,
    /// Chip configuration with the board's overrides.
    pub chip_config: ChipConfig,
}

} // verus!
