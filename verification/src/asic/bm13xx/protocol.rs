//! The commands and registers of BM13xx chips, as values.

use vstd::prelude::*;

verus! {

/// A chip clock frequency in kilohertz.
#[derive(Clone, Copy, Debug, PartialEq, Eq, PartialOrd, Ord, Hash, Structural)]
pub struct Frequency(pub u32);

/// PLL dividers as the chip takes them.
#[derive(Clone, Copy, Debug, PartialEq, Eq, Structural)]
pub struct PllConfig {
    /// 0x50 for a VCO of 2400 MHz and more, else 0x40.
    pub flag: u8,
    pub fb_div: u8,
    pub ref_div: u8,
    /// The two post dividers less one, in the two nibbles.
    pub post_div: u8,
}

/// The configuration with these dividers. The VCO runs at 25 MHz times the
/// feedback divider over the reference divider.
pub open spec fn pll_config(fb_div: u8, ref_div: u8, post_div: u8) -> PllConfig {
    PllConfig {
        flag: if 25 * fb_div >= 2400 * ref_div {
            0x50
        } else {
            0x40
        },
        fb_div,
        ref_div,
        post_div,
    }
}

impl PllConfig {
    /// Sets the VCO flag for the dividers.
    pub fn new(fb_div: u8, ref_div: u8, post_div: u8) -> (r: PllConfig)
        ensures
            r == pll_config(fb_div, ref_div, post_div),
    {
        let flag: u8 = if 25 * fb_div as u32 >= 2400 * ref_div as u32 {
            0x50
        } else {
            0x40
        };
        PllConfig { flag, fb_div, ref_div, post_div }
    }
}

/// Drive strength of a chip's outputs.
#[derive(Clone, Copy, Debug, PartialEq, Eq, Structural)]
pub enum IoDriverStrength {
    /// The default within a domain.
    Normal,
    /// For the chip that drives the next domain.
    DomainBoundary,
    /// An exact register value.
    Raw(u32),
}

/// Which nonces a chip reports.
#[derive(Clone, Copy, Debug, PartialEq, Eq, Structural)]
pub enum TicketMask {
    /// About one nonce for this many hashes.
    PerHashes(u128),
    /// Nonces whose hash has this many leading zero bits.
    ZeroBits(u8),
}

/// A register with its value.
#[derive(Clone, Copy, Debug, PartialEq, Eq, Structural)]
pub enum Register {
    ChipId { chip_id: u16, core_count: u8, address: u8 },
    VersionMask { rollable: u16 },
    InitControl { raw_value: u32 },
    MiscControl { raw_value: u32 },
    Core { raw_value: u32 },
    TicketMask(TicketMask),
    AnalogMux { raw_value: u32 },
    IoDriverStrength(IoDriverStrength),
    UartRelay { raw_value: u32 },
    NonceRange { raw_value: u32 },
    PllDivider(PllConfig),
}

/// A register without its value.
#[derive(Clone, Copy, Debug, PartialEq, Eq, Structural)]
pub enum RegisterAddress {
    ChipId,
}

/// A job in the format that carries the whole header.
#[derive(Clone, Copy, Debug, PartialEq, Eq)]
pub struct JobFullFormat {
    pub job_id: u8,
    pub num_midstates: u8,
    pub starting_nonce: u32,
    pub nbits: u32,
    pub ntime: u32,
    pub merkle_root: [u8; 32],
    pub prev_block_hash: [u8; 32],
    pub version: u32,
}

/// A command to the chain.
#[derive(Clone, Copy, Debug, PartialEq, Eq)]
pub enum Command {
    WriteRegister { broadcast: bool, chip_address: u8, register: Register },
    ReadRegister { broadcast: bool, chip_address: u8, register_address: RegisterAddress },
    SetChipAddress { chip_address: u8 },
    ChainInactive,
    JobFull { job_data: JobFullFormat },
}

/// What a chip sends.
#[derive(Clone, Copy, Debug, PartialEq, Eq)]
pub enum Response {
    Nonce { nonce: u32, job_id: u8, version: u16, midstate_num: u8, subcore_id: u8 },
    ReadRegister { chip_address: u8, register: Register },
}

} // verus!
