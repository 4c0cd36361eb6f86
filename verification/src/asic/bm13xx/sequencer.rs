//! Sequence generation for BM13xx chain initialization and operation.
//!
//! A sequence is a list of commands with the delay to keep after each. It is
//! plain data: the hash thread sends the commands, waits, and deals with what
//! goes wrong.

use crate::asic::bm13xx::chain::{Chain, ChipId};
use crate::asic::bm13xx::chip_config::{is_pll_for, ChainInitRegs, ChipConfig, UartRelayPerDomain};
use crate::asic::bm13xx::protocol::{
    pll_config, Command, Frequency, IoDriverStrength, PllConfig, Register, TicketMask,
};
use vstd::prelude::*;

verus! {

/// Where the frequency ramp starts, in kilohertz.
pub const INITIAL_KHZ: u32 = 56_250;

/// By how much the frequency ramp climbs at each step, in kilohertz.
pub const RAMP_STEP_KHZ: u32 = 6_250;

/// Time for PLLs to lock after a step of the ramp, in microseconds.
pub const RAMP_DELAY_US: u64 = 10_000;

/// Time for a chip's cores to settle after the chip is configured in a sequence
/// of its own, in microseconds.
pub const CORE_DELAY_US: u64 = 500_000;

/// The same where the whole configuration is one sequence.
pub const SHORT_CORE_DELAY_US: u64 = 50_000;

/// A command and how long to wait after it.
#[derive(Clone, Copy, Debug, PartialEq, Eq)]
pub struct Step {
    pub command: Command,
    /// In microseconds.
    pub wait_after: Option<u64>,
}

impl Step {
    /// A step with no delay.
    pub fn new(command: Command) -> (r: Step)
        ensures
            r == (Step { command, wait_after: None }),
    {
        Step { command, wait_after: None }
    }

    /// A step with a delay in microseconds.
    pub fn with_delay(command: Command, delay: u64) -> (r: Step)
        ensures
            r == (Step { command, wait_after: Some(delay) }),
    {
        Step { command, wait_after: Some(delay) }
    }
}

/// A register write to every chip.
pub open spec fn to_all(register: Register) -> Step {
    Step {
        command: Command::WriteRegister { broadcast: true, chip_address: 0, register },
        wait_after: None,
    }
}

/// A register write to one chip.
pub open spec fn to_one(chip_address: u8, register: Register) -> Step {
    Step {
        command: Command::WriteRegister { broadcast: false, chip_address, register },
        wait_after: None,
    }
}

/// A step with a delay.
pub open spec fn then_wait(step: Step, delay: u64) -> Step {
    Step { command: step.command, wait_after: Some(delay) }
}

/// Enables version rolling.
pub open spec fn version_mask() -> Register {
    Register::VersionMask { rollable: 0xFFFF }
}

/// Makes chips report about one nonce a second over the chain, at 83 GiH/s a
/// chip.
pub open spec fn scaled_ticket_mask(chip_count: nat) -> Register {
    Register::TicketMask(TicketMask::PerHashes((83 * 0x4000_0000 * chip_count) as u128))
}

/// The drive strength to broadcast: the family's own value, or else the chip's.
pub open spec fn io_driver_of(config: ChipConfig) -> Register {
    Register::IoDriverStrength(
        match config.init_regs.io_driver_broadcast_raw {
            Some(raw) => IoDriverStrength::Raw(raw),
            None => config.io_driver,
        },
    )
}

/// What prepares the chain and gives each chip its address.
pub open spec fn enumeration(init: ChainInitRegs, addresses: Seq<u8>) -> Seq<Step> {
    let version = then_wait(to_all(version_mask()), 5_000);
    seq![
        version,
        version,
        version,
        to_all(Register::InitControl { raw_value: init.init_control_broadcast }),
        to_all(Register::MiscControl { raw_value: init.misc_control_broadcast }),
        Step { command: Command::ChainInactive, wait_after: Some(10_000) },
    ] + addresses.map_values(
        |chip_address: u8|
            Step { command: Command::SetChipAddress { chip_address }, wait_after: Some(100) },
    )
}

/// What sets the drive strength at the end of the first `n` domains.
pub open spec fn domain_config(chain: Chain, n: int) -> Seq<Step> {
    Seq::new(
        n as nat,
        |domain: int|
            to_one(
                chain.chips@[chain.last_of(domain)].address,
                Register::IoDriverStrength(IoDriverStrength::DomainBoundary),
            ),
    )
}

/// What configures every chip alike, with a PLL setting of about 56 MHz last.
pub open spec fn broadcast_config(config: ChipConfig, chip_count: nat) -> Seq<Step> {
    seq![
        to_all(Register::Core { raw_value: config.init_regs.core_broadcast@[0] }),
        to_all(Register::Core { raw_value: config.init_regs.core_broadcast@[1] }),
        to_all(scaled_ticket_mask(chip_count)),
        to_all(Register::AnalogMux { raw_value: config.init_regs.analog_mux_broadcast }),
        to_all(io_driver_of(config)),
        to_all(Register::PllDivider(pll_config(0xDD, 2, 0x66))),
    ]
}

/// The relay settings of one domain: for its first and its last chip.
pub open spec fn relay_of(spec_: UartRelayPerDomain, chain: Chain, domain: int) -> Seq<Step> {
    let register = Register::UartRelay { raw_value: spec_.value(domain) as u32 };
    seq![
        to_one(chain.chips@[chain.first_of(domain)].address, register),
        to_one(chain.chips@[chain.last_of(domain)].address, register),
    ]
}

/// The relay settings of the domains below `n`, the farthest from the host
/// first.
pub open spec fn relay_config(spec_: UartRelayPerDomain, chain: Chain, n: nat) -> Seq<Step>
    decreases n,
{
    if n == 0 {
        Seq::<Step>::empty()
    } else {
        relay_of(spec_, chain, n - 1) + relay_config(spec_, chain, (n - 1) as nat)
    }
}

/// The relay settings at domain boundaries, where the family has them.
pub open spec fn relay_steps(config: ChipConfig, chain: Chain) -> Seq<Step> {
    match config.init_regs.uart_relay_perdomain {
        Some(spec_) => relay_config(spec_, chain, chain.domain_count as nat),
        None => Seq::<Step>::empty(),
    }
}

/// What configures one chip, and then waits.
pub open spec fn chip_config_of(init: ChainInitRegs, address: u8, delay: u64) -> Seq<Step> {
    (match init.uart_relay_perchip {
        Some(raw_value) => seq![to_one(address, Register::UartRelay { raw_value })],
        None => Seq::<Step>::empty(),
    }) + seq![
        to_one(address, Register::InitControl { raw_value: init.init_control_perchip }),
        to_one(address, Register::MiscControl { raw_value: init.misc_control_perchip }),
        to_one(address, Register::Core { raw_value: init.core_perchip@[0] }),
        to_one(address, Register::Core { raw_value: init.core_perchip@[1] }),
        then_wait(to_one(address, Register::Core { raw_value: init.core_perchip@[2] }), delay),
    ]
}

/// What configures each chip in turn.
pub open spec fn per_chip_config(init: ChainInitRegs, addresses: Seq<u8>, delay: u64) -> Seq<
    Step,
>
    decreases addresses.len(),
{
    if addresses.len() == 0 {
        Seq::<Step>::empty()
    } else {
        per_chip_config(init, addresses.drop_last(), delay) + chip_config_of(
            init,
            addresses.last(),
            delay,
        )
    }
}

/// What starts hashing.
pub open spec fn start_hashing(config: ChipConfig) -> Seq<Step> {
    seq![
        to_all(Register::NonceRange { raw_value: config.nonce_range }),
        to_all(version_mask()),
    ]
}

/// What configures the chips, all in one sequence.
pub open spec fn full_config(config: ChipConfig, chain: Chain) -> Seq<Step> {
    broadcast_config(config, chain.chips@.len()) + relay_steps(config, chain) + per_chip_config(
        config.init_regs,
        chain.addresses(),
        SHORT_CORE_DELAY_US,
    ) + start_hashing(config)
}

/// The ticket mask that follows the per-chip configuration, where the board has
/// one.
pub open spec fn final_ticket_mask(config: ChipConfig) -> Seq<Step> {
    match config.post_perchip_ticket_zero_bits {
        Some(zero_bits) => seq![to_all(Register::TicketMask(TicketMask::ZeroBits(zero_bits)))],
        None => Seq::<Step>::empty(),
    }
}

/// What configures the chips before the ramp.
pub open spec fn broadcast_phase(config: ChipConfig, chain: Chain) -> Seq<Step> {
    broadcast_config(config, chain.chips@.len()) + relay_steps(config, chain)
}

/// What configures the chips one by one and starts them.
pub open spec fn per_chip_phase(config: ChipConfig, addresses: Seq<u8>) -> Seq<Step> {
    per_chip_config(config.init_regs, addresses, CORE_DELAY_US) + start_hashing(config)
        + final_ticket_mask(config)
}

/// Appends a register write to every chip.
fn push_all(steps: &mut Vec<Step>, register: Register)
    ensures
        final(steps)@ == old(steps)@.push(to_all(register)),
{
    steps.push(
        Step::new(Command::WriteRegister { broadcast: true, chip_address: 0x00, register }),
    );
}

/// Appends a register write to one chip.
fn push_one(steps: &mut Vec<Step>, chip_address: u8, register: Register)
    ensures
        final(steps)@ == old(steps)@.push(to_one(chip_address, register)),
{
    steps.push(Step::new(Command::WriteRegister { broadcast: false, chip_address, register }));
}

/// Appends what configures every chip alike.
fn push_broadcast_config(steps: &mut Vec<Step>, config: &ChipConfig, chain: &Chain)
    ensures
        final(steps)@ == old(steps)@ + broadcast_config(*config, chain.chips@.len()),
{
    let ghost before = steps@;
    let init = &config.init_regs;
    push_all(steps, Register::Core { raw_value: init.core_broadcast[0] });
    push_all(steps, Register::Core { raw_value: init.core_broadcast[1] });
    let hashes: u128 = 83 * 0x4000_0000 * chain.chip_count() as u128;
    push_all(steps, Register::TicketMask(TicketMask::PerHashes(hashes)));
    push_all(steps, Register::AnalogMux { raw_value: init.analog_mux_broadcast });
    let io_driver = match init.io_driver_broadcast_raw {
        Some(raw) => IoDriverStrength::Raw(raw),
        None => config.io_driver,
    };
    push_all(steps, Register::IoDriverStrength(io_driver));
    push_all(steps, Register::PllDivider(PllConfig::new(0xDD, 2, 0x66)));
    assert(steps@ =~= before + broadcast_config(*config, chain.chips@.len()));
}

/// Appends the relay settings at domain boundaries.
fn push_relay_steps(steps: &mut Vec<Step>, config: &ChipConfig, chain: &Chain)
    requires
        chain.wf(),
        config.init_regs.uart_relay_perdomain is Some ==> (chain.domain_count == 0
            || chain.chips_per_domain > 0),
    ensures
        final(steps)@ == old(steps)@ + relay_steps(*config, *chain),
{
    let ghost before = steps@;
    if let Some(relay) = config.init_regs.uart_relay_perdomain {
        let mut left: usize = chain.domain_count;
        while left > 0
            invariant
                chain.wf(),
                chain.domain_count == 0 || chain.chips_per_domain > 0,
                left <= chain.domain_count,
                steps@ + relay_config(relay, *chain, left as nat) == before + relay_config(
                    relay,
                    *chain,
                    chain.domain_count as nat,
                ),
            decreases left,
        {
            let ghost prior = steps@;
            let domain: usize = left - 1;
            let raw_value: u32 = relay.value_for(domain);
            let first: ChipId = chain.domain_first(domain);
            let last: ChipId = chain.domain_last(domain);
            push_one(steps, chain.chip(first).address, Register::UartRelay { raw_value });
            push_one(steps, chain.chip(last).address, Register::UartRelay { raw_value });
            assert(steps@ =~= prior + relay_of(relay, *chain, domain as int));
            assert(prior + (relay_of(relay, *chain, domain as int) + relay_config(
                relay,
                *chain,
                domain as nat,
            )) =~= steps@ + relay_config(relay, *chain, domain as nat));
            left = domain;
        }
        assert(steps@ + relay_config(relay, *chain, 0) =~= steps@);
    }
    assert(steps@ =~= before + relay_steps(*config, *chain));
}

/// Appends what configures each chip in turn.
fn push_per_chip_config(
    steps: &mut Vec<Step>,
    init: &ChainInitRegs,
    chain: &Chain,
    delay: u64,
)
    ensures
        final(steps)@ == old(steps)@ + per_chip_config(*init, chain.addresses(), delay),
{
    let ghost before = steps@;
    let ghost addresses = chain.addresses();
    let mut i: usize = 0;
    while i < chain.chips.len()
        invariant
            i <= chain.chips@.len(),
            addresses == chain.addresses(),
            steps@ == before + per_chip_config(*init, addresses.take(i as int), delay),
        decreases chain.chips@.len() - i,
    {
        let ghost prior = steps@;
        let address: u8 = chain.chips[i].address;
        if let Some(raw_value) = init.uart_relay_perchip {
            push_one(steps, address, Register::UartRelay { raw_value });
        }
        push_one(steps, address, Register::InitControl { raw_value: init.init_control_perchip });
        push_one(steps, address, Register::MiscControl { raw_value: init.misc_control_perchip });
        push_one(steps, address, Register::Core { raw_value: init.core_perchip[0] });
        push_one(steps, address, Register::Core { raw_value: init.core_perchip[1] });
        steps.push(
            Step::with_delay(
                Command::WriteRegister {
                    broadcast: false,
                    chip_address: address,
                    register: Register::Core { raw_value: init.core_perchip[2] },
                },
                delay,
            ),
        );
        assert(steps@ =~= prior + chip_config_of(*init, address, delay));
        assert(addresses.take(i + 1).drop_last() =~= addresses.take(i as int));
        assert(addresses.take(i + 1).last() == address);
        assert(steps@ =~= before + (per_chip_config(
            *init,
            addresses.take(i as int),
            delay,
        ) + chip_config_of(*init, address, delay)));
        i = i + 1;
    }
    assert(addresses.take(i as int) =~= addresses);
}

/// Appends what starts hashing.
fn push_start_hashing(steps: &mut Vec<Step>, config: &ChipConfig)
    ensures
        final(steps)@ == old(steps)@ + start_hashing(*config),
{
    let ghost before = steps@;
    push_all(steps, Register::NonceRange { raw_value: config.nonce_range });
    push_all(steps, Register::VersionMask { rollable: 0xFFFF });
    assert(steps@ =~= before + start_hashing(*config));
}

/// Builds command sequences for a chip configuration.
///
/// A board that needs other commands than a default sequence replaces it by a
/// function of the chain and the chip configuration. The parameters say where
/// enumeration, domain configuration and register configuration come from.
#[derive(Debug)]
pub struct Sequencer<E = Standard, D = Standard, R = Standard> {
    pub chip_config: ChipConfig,
    pub enumeration_fn: E,
    pub domain_config_fn: D,
    pub reg_config_fn: R,
}

/// A sequence is built as usual.
#[derive(Clone, Copy, Debug)]
pub struct Standard;

/// A sequence is built by a function of the chain and the chip configuration.
#[derive(Debug)]
pub struct Custom<F>(pub F);

/// The frequencies of a ramp to a target: from the initial frequency up in even
/// steps, and last the target. There is none if the target is not above the
/// initial frequency.
pub open spec fn ramp_frequencies(target_khz: u32) -> Seq<Frequency> {
    if target_khz <= INITIAL_KHZ {
        Seq::<Frequency>::empty()
    } else {
        Seq::new(
            ramp_len(target_khz),
            |i: int|
                if i == ramp_len(target_khz) - 1 {
                    Frequency(target_khz)
                } else {
                    Frequency((INITIAL_KHZ + i * RAMP_STEP_KHZ) as u32)
                },
        )
    }
}

/// How many steps a ramp takes: one for each multiple of the step below the
/// target, and one for the target.
pub open spec fn ramp_len(target_khz: u32) -> nat {
    ((target_khz - INITIAL_KHZ + RAMP_STEP_KHZ - 1) / (RAMP_STEP_KHZ as int) + 1) as nat
}

/// Whether a step sets every chip's PLL for a frequency and waits for it to
/// lock.
pub open spec fn sets_frequency(config: ChipConfig, step: Step, freq: Frequency) -> bool {
    exists|pll: PllConfig| #[trigger]
        is_pll_for(config.pll_params, freq.0, pll) && step == then_wait(
            to_all(Register::PllDivider(pll)),
            RAMP_DELAY_US,
        )
}

/// The target of a ramp, no higher than the chip allows.
pub open spec fn ramp_target(config: ChipConfig, target: Frequency) -> u32 {
    if target.0 < config.max_freq.0 {
        target.0
    } else {
        config.max_freq.0
    }
}

impl Sequencer {
    /// A sequencer with default sequences.
    pub fn new(chip_config: ChipConfig) -> (r: Sequencer)
        ensures
            r.chip_config == chip_config,
    {
        Sequencer {
            chip_config,
            enumeration_fn: Standard,
            domain_config_fn: Standard,
            reg_config_fn: Standard,
        }
    }
}

impl<E, D, R> Sequencer<E, D, R> {
    /// Replaces the enumeration sequence.
    pub fn with_enumeration<F: Fn(&Chain, &ChipConfig) -> Vec<Step>>(self, f: F) -> (r: Sequencer<
        Custom<F>,
        D,
        R,
    >)
        ensures
            r.chip_config == self.chip_config,
            r.enumeration_fn == Custom(f),
            r.domain_config_fn == self.domain_config_fn,
            r.reg_config_fn == self.reg_config_fn,
    {
        Sequencer {
            chip_config: self.chip_config,
            enumeration_fn: Custom(f),
            domain_config_fn: self.domain_config_fn,
            reg_config_fn: self.reg_config_fn,
        }
    }

    /// Replaces the domain configuration sequence.
    pub fn with_domain_config<F: Fn(&Chain, &ChipConfig) -> Vec<Step>>(
        self,
        f: F,
    ) -> (r: Sequencer<E, Custom<F>, R>)
        ensures
            r.chip_config == self.chip_config,
            r.enumeration_fn == self.enumeration_fn,
            r.domain_config_fn == Custom(f),
            r.reg_config_fn == self.reg_config_fn,
    {
        Sequencer {
            chip_config: self.chip_config,
            enumeration_fn: self.enumeration_fn,
            domain_config_fn: Custom(f),
            reg_config_fn: self.reg_config_fn,
        }
    }

    /// Replaces the register configuration sequence.
    pub fn with_reg_config<F: Fn(&Chain, &ChipConfig) -> Vec<Step>>(self, f: F) -> (r: Sequencer<
        E,
        D,
        Custom<F>,
    >)
        ensures
            r.chip_config == self.chip_config,
            r.enumeration_fn == self.enumeration_fn,
            r.domain_config_fn == self.domain_config_fn,
            r.reg_config_fn == Custom(f),
    {
        Sequencer {
            chip_config: self.chip_config,
            enumeration_fn: self.enumeration_fn,
            domain_config_fn: self.domain_config_fn,
            reg_config_fn: Custom(f),
        }
    }

    /// The chip configuration.
    pub fn chip_config(&self) -> (r: &ChipConfig)
        ensures
            *r == self.chip_config,
    {
        &self.chip_config
    }

    /// What configures every chip alike, before the frequency ramp: the cores,
    /// the ticket mask, the analog mux, the drive strength and an initial PLL
    /// setting. The relay settings come here too, while the chain still runs at
    /// its slow baud rate.
    pub fn build_reg_config_broadcast(&self, chain: &Chain) -> (r: Vec<Step>)
        requires
            chain.wf(),
            self.chip_config.init_regs.uart_relay_perdomain is Some ==> (chain.domain_count == 0
                || chain.chips_per_domain > 0),
        ensures
            r@ == broadcast_phase(self.chip_config, *chain),
    {
        let mut steps: Vec<Step> = Vec::new();
        push_broadcast_config(&mut steps, &self.chip_config, chain);
        push_relay_steps(&mut steps, &self.chip_config, chain);
        assert(steps@ =~= broadcast_config(self.chip_config, chain.chips@.len()) + relay_steps(
            self.chip_config,
            *chain,
        ));
        steps
    }

    /// What enables the hashing cores of each chip in turn, with half a second
    /// after each chip.
    pub fn build_reg_config_perchip(&self, chain: &Chain) -> (r: Vec<Step>)
        ensures
            r@ == per_chip_phase(self.chip_config, chain.addresses()),
    {
        let mut steps: Vec<Step> = Vec::new();
        push_per_chip_config(&mut steps, &self.chip_config.init_regs, chain, CORE_DELAY_US);
        push_start_hashing(&mut steps, &self.chip_config);
        if let Some(zero_bits) = self.chip_config.post_perchip_ticket_zero_bits {
            push_all(&mut steps, Register::TicketMask(TicketMask::ZeroBits(zero_bits)));
        }
        assert(steps@ =~= per_chip_config(
            self.chip_config.init_regs,
            chain.addresses(),
            CORE_DELAY_US,
        ) + start_hashing(self.chip_config) + final_ticket_mask(self.chip_config));
        steps
    }

    fn default_enumeration(&self, chain: &Chain) -> (r: Vec<Step>)
        ensures
            r@ == enumeration(self.chip_config.init_regs, chain.addresses()),
    {
        let init = &self.chip_config.init_regs;
        let mut steps: Vec<Step> = Vec::new();
        let version = Step::with_delay(
            Command::WriteRegister {
                broadcast: true,
                chip_address: 0x00,
                register: Register::VersionMask { rollable: 0xFFFF },
            },
            5_000,
        );
        // Three times, so that every chip receives it.
        steps.push(version);
        steps.push(version);
        steps.push(version);
        push_all(
            &mut steps,
            Register::InitControl { raw_value: init.init_control_broadcast },
        );
        push_all(
            &mut steps,
            Register::MiscControl { raw_value: init.misc_control_broadcast },
        );
        steps.push(Step::with_delay(Command::ChainInactive, 10_000));
        let ghost addresses = chain.addresses();
        let mut i: usize = 0;
        assert(steps@ =~= enumeration(*init, addresses.take(0)));
        while i < chain.chips.len()
            invariant
                i <= chain.chips@.len(),
                addresses == chain.addresses(),
                steps@ == enumeration(*init, addresses.take(i as int)),
            decreases chain.chips@.len() - i,
        {
            steps.push(
                Step::with_delay(
                    Command::SetChipAddress { chip_address: chain.chips[i].address },
                    100,
                ),
            );
            i = i + 1;
            assert(steps@ =~= enumeration(*init, addresses.take(i as int)));
        }
        assert(addresses.take(i as int) =~= addresses);
        steps
    }

    fn default_domain_config(&self, chain: &Chain) -> (r: Vec<Step>)
        requires
            chain.wf(),
            chain.domain_count == 0 || chain.chips_per_domain > 0,
        ensures
            r@ == domain_config(*chain, chain.domain_count as int),
    {
        let mut steps: Vec<Step> = Vec::new();
        let mut domain: usize = 0;
        while domain < chain.domain_count
            invariant
                chain.wf(),
                chain.domain_count == 0 || chain.chips_per_domain > 0,
                domain <= chain.domain_count,
                steps@ =~= domain_config(*chain, domain as int),
            decreases chain.domain_count - domain,
        {
            let last: ChipId = chain.domain_last(domain);
            push_one(
                &mut steps,
                chain.chip(last).address,
                Register::IoDriverStrength(IoDriverStrength::DomainBoundary),
            );
            domain = domain + 1;
        }
        steps
    }

    fn default_reg_config(&self, chain: &Chain) -> (r: Vec<Step>)
        requires
            chain.wf(),
            self.chip_config.init_regs.uart_relay_perdomain is Some ==> (chain.domain_count == 0
                || chain.chips_per_domain > 0),
        ensures
            r@ == full_config(self.chip_config, *chain),
    {
        let mut steps: Vec<Step> = Vec::new();
        push_broadcast_config(&mut steps, &self.chip_config, chain);
        push_relay_steps(&mut steps, &self.chip_config, chain);
        push_per_chip_config(
            &mut steps,
            &self.chip_config.init_regs,
            chain,
            SHORT_CORE_DELAY_US,
        );
        push_start_hashing(&mut steps, &self.chip_config);
        assert(steps@ =~= full_config(self.chip_config, *chain));
        steps
    }

    /// Appends the step that sets a frequency.
    fn push_frequency(&self, steps: &mut Vec<(Frequency, Step)>, freq: Frequency)
        ensures
            final(steps)@.len() == old(steps)@.len() + 1,
            final(steps)@.take(old(steps)@.len() as int) == old(steps)@,
            final(steps)@.last().0 == freq,
            sets_frequency(self.chip_config, final(steps)@.last().1, freq),
    {
        let pll = self.chip_config.calculate_pll(freq);
        let step = Step::with_delay(
            Command::WriteRegister {
                broadcast: true,
                chip_address: 0x00,
                register: Register::PllDivider(pll),
            },
            RAMP_DELAY_US,
        );
        let ghost before = steps@;
        steps.push((freq, step));
        assert(steps@.take(before.len() as int) =~= before);
        assert(is_pll_for(self.chip_config.pll_params, freq.0, pll));
    }

    /// The steps that ramp the frequency up to a target, or to the chip's
    /// maximum where that is lower, each with its frequency so that the voltage
    /// can be raised along.
    pub fn build_frequency_ramp(&self, target: Frequency) -> (r: Vec<(Frequency, Step)>)
        ensures
            r@.len() == ramp_frequencies(ramp_target(self.chip_config, target)).len(),
            forall|i: int|
                0 <= i < r@.len() ==> (#[trigger] r@[i]).0 == ramp_frequencies(
                    ramp_target(self.chip_config, target),
                )[i] && sets_frequency(self.chip_config, r@[i].1, r@[i].0),
    {
        let mut steps: Vec<(Frequency, Step)> = Vec::new();
        let max: u32 = self.chip_config.max_freq.0;
        let target_khz: u32 = if target.0 < max {
            target.0
        } else {
            max
        };
        if target_khz <= INITIAL_KHZ {
            return steps;
        }
        let ghost freqs = ramp_frequencies(target_khz);
        let mut current: u64 = INITIAL_KHZ as u64;
        while current < target_khz as u64
            invariant
                INITIAL_KHZ < target_khz,
                freqs == ramp_frequencies(target_khz),
                current == INITIAL_KHZ + steps@.len() * RAMP_STEP_KHZ,
                current < target_khz + RAMP_STEP_KHZ,
                forall|i: int|
                    0 <= i < steps@.len() ==> (#[trigger] steps@[i]).0 == freqs[i]
                        && sets_frequency(self.chip_config, steps@[i].1, steps@[i].0),
            decreases target_khz + RAMP_STEP_KHZ - current,
        {
            let ghost before = steps@;
            let freq = Frequency(current as u32);
            self.push_frequency(&mut steps, freq);
            assert forall|i: int| 0 <= i < steps@.len() implies (#[trigger] steps@[i]).0 == freqs[i]
                && sets_frequency(self.chip_config, steps@[i].1, steps@[i].0) by {
                if i < before.len() {
                    assert(steps@[i] == steps@.take(before.len() as int)[i]);
                    assert(before[i] == steps@[i]);
                }
            }
            current = current + RAMP_STEP_KHZ as u64;
        }
        let ghost before = steps@;
        assert(before.len() + 1 == freqs.len());
        self.push_frequency(&mut steps, Frequency(target_khz));
        assert forall|i: int| 0 <= i < steps@.len() implies (#[trigger] steps@[i]).0 == freqs[i]
            && sets_frequency(self.chip_config, steps@[i].1, steps@[i].0) by {
            if i < before.len() {
                assert(steps@[i] == steps@.take(before.len() as int)[i]);
                assert(before[i] == steps@[i]);
            }
        }
        steps
    }
}

impl<D, R> Sequencer<Standard, D, R> {
    /// What makes the chain inactive and gives each chip its address.
    pub fn build_enumeration(&self, chain: &Chain) -> (r: Vec<Step>)
        ensures
            r@ == enumeration(self.chip_config.init_regs, chain.addresses()),
    {
        self.default_enumeration(chain)
    }
}

impl<F: Fn(&Chain, &ChipConfig) -> Vec<Step>, D, R> Sequencer<Custom<F>, D, R> {
    /// What the board's own function gives in place of the usual enumeration.
    pub fn build_enumeration(&self, chain: &Chain) -> (r: Vec<Step>)
        requires
            call_requires(self.enumeration_fn.0, (chain, &self.chip_config)),
        ensures
            call_ensures(self.enumeration_fn.0, (chain, &self.chip_config), r),
    {
        (self.enumeration_fn.0)(chain, &self.chip_config)
    }
}

impl<E, R> Sequencer<E, Standard, R> {
    /// What sets the drive strength of the chips at domain boundaries.
    pub fn build_domain_config(&self, chain: &Chain) -> (r: Vec<Step>)
        requires
            chain.wf(),
            chain.domain_count == 0 || chain.chips_per_domain > 0,
        ensures
            r@ == domain_config(*chain, chain.domain_count as int),
    {
        self.default_domain_config(chain)
    }
}

impl<F: Fn(&Chain, &ChipConfig) -> Vec<Step>, E, R> Sequencer<E, Custom<F>, R> {
    /// What the board's own function gives in place of the usual domain
    /// configuration.
    pub fn build_domain_config(&self, chain: &Chain) -> (r: Vec<Step>)
        requires
            call_requires(self.domain_config_fn.0, (chain, &self.chip_config)),
        ensures
            call_ensures(self.domain_config_fn.0, (chain, &self.chip_config), r),
    {
        (self.domain_config_fn.0)(chain, &self.chip_config)
    }
}

impl<E, D> Sequencer<E, D, Standard> {
    /// What configures the chips, all in one sequence.
    pub fn build_reg_config(&self, chain: &Chain) -> (r: Vec<Step>)
        requires
            chain.wf(),
            self.chip_config.init_regs.uart_relay_perdomain is Some ==> (chain.domain_count == 0
                || chain.chips_per_domain > 0),
        ensures
            r@ == full_config(self.chip_config, *chain),
    {
        self.default_reg_config(chain)
    }
}

impl<F: Fn(&Chain, &ChipConfig) -> Vec<Step>, E, D> Sequencer<E, D, Custom<F>> {
    /// What the board's own function gives in place of the usual register
    /// configuration.
    pub fn build_reg_config(&self, chain: &Chain) -> (r: Vec<Step>)
        requires
            call_requires(self.reg_config_fn.0, (chain, &self.chip_config)),
        ensures
            call_ensures(self.reg_config_fn.0, (chain, &self.chip_config), r),
    {
        (self.reg_config_fn.0)(chain, &self.chip_config)
    }
}

/// A ramp starts at the initial frequency, ends at its target, and climbs by
/// at most one step at a time.
pub proof fn law_ramp_climbs(target_khz: u32)
    requires
        target_khz > INITIAL_KHZ,
    ensures
        ({
            let freqs = ramp_frequencies(target_khz);
            &&& freqs.len() >= 2
            &&& freqs[0] == Frequency(INITIAL_KHZ)
            &&& freqs.last() == Frequency(target_khz)
            &&& forall|i: int, j: int|
                #![trigger freqs[i], freqs[j]]
                0 <= i && j == i + 1 && j < freqs.len() ==> freqs[i].0 < freqs[j].0 <= freqs[i].0
                    + RAMP_STEP_KHZ
        }),
{
}

/// Every chip of the chain is addressed, in order, and nothing else is.
pub proof fn law_enumeration_addresses(init: ChainInitRegs, addresses: Seq<u8>)
    ensures
        ({
            let steps = enumeration(init, addresses);
            &&& steps.len() == 6 + addresses.len()
            &&& forall|i: int|
                0 <= i < steps.len() ==> ((#[trigger] steps[i]).command is SetChipAddress <==> i
                    >= 6)
            &&& forall|i: int|
                0 <= i < addresses.len() ==> (#[trigger] steps[6 + i]).command
                    == (Command::SetChipAddress { chip_address: addresses[i] })
        }),
{
}

/// The registers that a sequence writes to the chip at an address, and to it
/// alone, in order.
pub open spec fn writes_to(steps: Seq<Step>, address: u8) -> Seq<Register>
    decreases steps.len(),
{
    if steps.len() == 0 {
        Seq::<Register>::empty()
    } else {
        let earlier = writes_to(steps.drop_last(), address);
        match steps.last().command {
            Command::WriteRegister { broadcast, chip_address, register } => if !broadcast
                && chip_address == address {
                earlier.push(register)
            } else {
                earlier
            },
            _ => earlier,
        }
    }
}

/// The registers that a sequence writes to every chip, in order.
pub open spec fn writes_to_all(steps: Seq<Step>) -> Seq<Register>
    decreases steps.len(),
{
    if steps.len() == 0 {
        Seq::<Register>::empty()
    } else {
        let earlier = writes_to_all(steps.drop_last());
        match steps.last().command {
            Command::WriteRegister { broadcast, register, .. } => if broadcast {
                earlier.push(register)
            } else {
                earlier
            },
            _ => earlier,
        }
    }
}

proof fn lemma_writes_sum(a: Seq<Step>, b: Seq<Step>, address: u8)
    ensures
        writes_to(a + b, address) == writes_to(a, address) + writes_to(b, address),
        writes_to_all(a + b) == writes_to_all(a) + writes_to_all(b),
    decreases b.len(),
{
    if b.len() == 0 {
        assert(a + b =~= a);
    } else {
        lemma_writes_sum(a, b.drop_last(), address);
        assert((a + b).drop_last() =~= a + b.drop_last());
        assert((a + b).last() == b.last());
    }
    assert(writes_to(a + b, address) =~= writes_to(a, address) + writes_to(b, address));
    assert(writes_to_all(a + b) =~= writes_to_all(a) + writes_to_all(b));
}

/// A sequence of one step more.
proof fn lemma_writes_push(steps: Seq<Step>, step: Step, address: u8)
    ensures
        writes_to(steps.push(step), address) == match step.command {
            Command::WriteRegister { broadcast, chip_address, register } => if !broadcast
                && chip_address == address {
                writes_to(steps, address).push(register)
            } else {
                writes_to(steps, address)
            },
            _ => writes_to(steps, address),
        },
        writes_to_all(steps.push(step)) == match step.command {
            Command::WriteRegister { broadcast, register, .. } => if broadcast {
                writes_to_all(steps).push(register)
            } else {
                writes_to_all(steps)
            },
            _ => writes_to_all(steps),
        },
{
    assert(steps.push(step).drop_last() =~= steps);
    assert(steps.push(step).last() == step);
}

/// What one chip is written while it is configured: its relay setting, where the
/// family has one per chip, then the two control registers, and then the three
/// values that start its cores.
pub open spec fn chip_registers(init: ChainInitRegs) -> Seq<Register> {
    let relay = match init.uart_relay_perchip {
        Some(raw_value) => seq![Register::UartRelay { raw_value }],
        None => Seq::<Register>::empty(),
    };
    relay.push(Register::InitControl { raw_value: init.init_control_perchip }).push(
        Register::MiscControl { raw_value: init.misc_control_perchip },
    ).push(Register::Core { raw_value: init.core_perchip@[0] }).push(
        Register::Core { raw_value: init.core_perchip@[1] },
    ).push(Register::Core { raw_value: init.core_perchip@[2] })
}

/// The registers of one chip say what they are: after an optional relay setting,
/// the family's values for the two control registers and for the cores, all
/// three of them in order.
proof fn lemma_chip_writes(init: ChainInitRegs, address: u8, delay: u64, other: u8)
    ensures
        writes_to(chip_config_of(init, address, delay), other) == if other == address {
            chip_registers(init)
        } else {
            Seq::<Register>::empty()
        },
        writes_to_all(chip_config_of(init, address, delay)) == Seq::<Register>::empty(),
{
    let all = chip_config_of(init, address, delay);
    let n = all.len() as int;
    assert(all.take(0) =~= Seq::<Step>::empty());
    let none = all.take(0);
    assert(writes_to(none, other) =~= Seq::<Register>::empty());
    assert(writes_to_all(none) =~= Seq::<Register>::empty());
    assert(all.take(1) =~= all.take(0).push(all[0]));
    lemma_writes_push(all.take(0), all[0], other);
    assert(all.take(2) =~= all.take(1).push(all[1]));
    lemma_writes_push(all.take(1), all[1], other);
    assert(all.take(3) =~= all.take(2).push(all[2]));
    lemma_writes_push(all.take(2), all[2], other);
    assert(all.take(4) =~= all.take(3).push(all[3]));
    lemma_writes_push(all.take(3), all[3], other);
    assert(all.take(5) =~= all.take(4).push(all[4]));
    lemma_writes_push(all.take(4), all[4], other);
    if init.uart_relay_perchip is Some {
        assert(all.take(6) =~= all.take(5).push(all[5]));
        lemma_writes_push(all.take(5), all[5], other);
    }
    assert(all.take(n) =~= all);
    if other == address {
        assert(writes_to(all, other) =~= chip_registers(init));
    }
}

/// No two chips have the same address.
pub open spec fn all_distinct(addresses: Seq<u8>) -> bool {
    forall|i: int, j: int|
        0 <= i < addresses.len() && 0 <= j < addresses.len() && i != j ==> addresses[i]
            != addresses[j]
}

proof fn lemma_per_chip_writes(init: ChainInitRegs, addresses: Seq<u8>, delay: u64, address: u8)
    requires
        all_distinct(addresses),
    ensures
        writes_to(per_chip_config(init, addresses, delay), address) == if addresses.contains(
            address,
        ) {
            chip_registers(init)
        } else {
            Seq::<Register>::empty()
        },
        writes_to_all(per_chip_config(init, addresses, delay)) == Seq::<Register>::empty(),
    decreases addresses.len(),
{
    if addresses.len() > 0 {
        let rest = addresses.drop_last();
        let last = addresses.last();
        lemma_per_chip_writes(init, rest, delay, address);
        lemma_chip_writes(init, last, delay, address);
        lemma_writes_sum(
            per_chip_config(init, rest, delay),
            chip_config_of(init, last, delay),
            address,
        );
        if rest.contains(address) {
            let i = choose|i: int| 0 <= i < rest.len() && rest[i] == address;
            assert(addresses[i] == address && addresses[addresses.len() - 1] == last);
            assert(addresses.contains(address));
        } else if addresses.contains(address) {
            let i = choose|i: int| 0 <= i < addresses.len() && addresses[i] == address;
            if i < rest.len() {
                assert(rest[i] == address);
            }
        }
        if last == address {
            assert(addresses[addresses.len() - 1] == address);
            assert(addresses.contains(address));
        }
        assert(chip_registers(init) + Seq::<Register>::empty() =~= chip_registers(init));
        assert(Seq::<Register>::empty() + chip_registers(init) =~= chip_registers(init));
        assert(Seq::<Register>::empty() + Seq::<Register>::empty() =~= Seq::<Register>::empty());
    }
}

/// In the per-chip configuration each chip is written the family's values and
/// nothing else: a relay setting where there is one, then InitControl and
/// MiscControl, and then the three Core values in their order, which start the
/// cores. What no chip answers to is not written. Every chip is written the nonce
/// range and the full version mask, and last the board's ticket mask if it has
/// one.
pub proof fn law_each_chip_is_configured(config: ChipConfig, addresses: Seq<u8>, address: u8)
    requires
        all_distinct(addresses),
    ensures
        ({
            let init = config.init_regs;
            let steps = per_chip_phase(config, addresses);
            let own = writes_to(steps, address);
            let n = own.len() as int;
            &&& !addresses.contains(address) ==> n == 0
            &&& addresses.contains(address) ==> {
                &&& n == if init.uart_relay_perchip is Some {
                    6int
                } else {
                    5
                }
                &&& init.uart_relay_perchip matches Some(relay) ==> own[0] == (
                Register::UartRelay { raw_value: relay })
                &&& own[n - 5] == (Register::InitControl { raw_value: init.init_control_perchip })
                &&& own[n - 4] == (Register::MiscControl { raw_value: init.misc_control_perchip })
                &&& own[n - 3] == (Register::Core { raw_value: init.core_perchip@[0] })
                &&& own[n - 2] == (Register::Core { raw_value: init.core_perchip@[1] })
                &&& own[n - 1] == (Register::Core { raw_value: init.core_perchip@[2] })
            }
            &&& writes_to_all(steps).len() == if config.post_perchip_ticket_zero_bits is Some {
                3int
            } else {
                2
            }
            &&& writes_to_all(steps)[0] == (Register::NonceRange { raw_value: config.nonce_range })
            &&& writes_to_all(steps)[1] == (Register::VersionMask { rollable: 0xFFFF })
            &&& config.post_perchip_ticket_zero_bits matches Some(bits) ==> writes_to_all(steps)[2]
                == Register::TicketMask(TicketMask::ZeroBits(bits))
        }),
{
    let chips = per_chip_config(config.init_regs, addresses, CORE_DELAY_US);
    let start = start_hashing(config);
    let mask = final_ticket_mask(config);
    lemma_per_chip_writes(config.init_regs, addresses, CORE_DELAY_US, address);
    lemma_writes_sum(chips, start, address);
    lemma_writes_sum(chips + start, mask, address);
    let none = Seq::<Step>::empty();
    assert(writes_to(none, address) =~= Seq::<Register>::empty());
    assert(writes_to_all(none) =~= Seq::<Register>::empty());
    assert(start =~= none.push(start[0]).push(start[1]));
    lemma_writes_push(none, start[0], address);
    lemma_writes_push(none.push(start[0]), start[1], address);
    if config.post_perchip_ticket_zero_bits is Some {
        assert(mask =~= none.push(mask[0]));
        lemma_writes_push(none, mask[0], address);
    }
}

/// Configuring the chips in one sequence writes each chip the same as the
/// per-chip configuration does, after what the relay settings write to it.
pub proof fn law_one_sequence_configures_alike(config: ChipConfig, chain: Chain, address: u8)
    requires
        all_distinct(chain.addresses()),
    ensures
        writes_to(full_config(config, chain), address) == writes_to(
            broadcast_phase(config, chain),
            address,
        ) + writes_to(per_chip_phase(config, chain.addresses()), address),
        writes_to_all(full_config(config, chain)) == writes_to_all(
            broadcast_phase(config, chain),
        ) + seq![
            Register::NonceRange { raw_value: config.nonce_range },
            Register::VersionMask { rollable: 0xFFFF },
        ],
{
    let init = config.init_regs;
    let addresses = chain.addresses();
    let first = broadcast_config(config, chain.chips@.len());
    let relays = relay_steps(config, chain);
    let short = per_chip_config(init, addresses, SHORT_CORE_DELAY_US);
    let long = per_chip_config(init, addresses, CORE_DELAY_US);
    let start = start_hashing(config);
    let mask = final_ticket_mask(config);
    lemma_per_chip_writes(init, addresses, SHORT_CORE_DELAY_US, address);
    lemma_per_chip_writes(init, addresses, CORE_DELAY_US, address);
    lemma_writes_sum(first, relays, address);
    lemma_writes_sum(first + relays, short, address);
    lemma_writes_sum(first + relays + short, start, address);
    lemma_writes_sum(long, start, address);
    lemma_writes_sum(long + start, mask, address);
    let none = Seq::<Step>::empty();
    assert(writes_to(none, address) =~= Seq::<Register>::empty());
    assert(start =~= none.push(start[0]).push(start[1]));
    lemma_writes_push(none, start[0], address);
    lemma_writes_push(none.push(start[0]), start[1], address);
    assert(writes_to_all(none) =~= Seq::<Register>::empty());
    if config.post_perchip_ticket_zero_bits is Some {
        assert(mask =~= none.push(mask[0]));
        lemma_writes_push(none, mask[0], address);
    }
    assert(writes_to_all(start) =~= seq![
        Register::NonceRange { raw_value: config.nonce_range },
        Register::VersionMask { rollable: 0xFFFF },
    ]);
    assert(writes_to_all(full_config(config, chain)) =~= writes_to_all(
        broadcast_phase(config, chain),
    ) + writes_to_all(start));
    assert(writes_to(full_config(config, chain), address) =~= writes_to(
        broadcast_phase(config, chain),
        address,
    ) + writes_to(per_chip_phase(config, addresses), address));
}

proof fn lemma_relay_broadcasts_nothing(spec_: UartRelayPerDomain, chain: Chain, n: nat)
    ensures
        writes_to_all(relay_config(spec_, chain, n)) == Seq::<Register>::empty(),
    decreases n,
{
    if n > 0 {
        let one = relay_of(spec_, chain, n - 1);
        let none = Seq::<Step>::empty();
        lemma_relay_broadcasts_nothing(spec_, chain, (n - 1) as nat);
        lemma_writes_sum(one, relay_config(spec_, chain, (n - 1) as nat), 0);
        assert(writes_to_all(none) =~= Seq::<Register>::empty());
        assert(one =~= none.push(one[0]).push(one[1]));
        lemma_writes_push(none, one[0], 0);
        lemma_writes_push(none.push(one[0]), one[1], 0);
        assert(Seq::<Register>::empty() + Seq::<Register>::empty() =~= Seq::<Register>::empty());
    }
}

/// What every chip is written before the ramp: both Core values of the family, a
/// ticket mask for about one nonce a second at 83 GiH/s a chip, the analog mux,
/// the drive strength, and a PLL setting of 25 MHz times 221 over 2, which is
/// divided by seven twice.
pub proof fn law_every_chip_is_configured(config: ChipConfig, chain: Chain)
    ensures
        ({
            let init = config.init_regs;
            let all = writes_to_all(broadcast_phase(config, chain));
            &&& all.len() == 6
            &&& all[0] == (Register::Core { raw_value: init.core_broadcast@[0] })
            &&& all[1] == (Register::Core { raw_value: init.core_broadcast@[1] })
            &&& all[2] matches Register::TicketMask(TicketMask::PerHashes(hashes)) && hashes == 89_120_571_392
                * chain.chips@.len()
            &&& all[3] == (Register::AnalogMux { raw_value: init.analog_mux_broadcast })
            &&& init.io_driver_broadcast_raw matches Some(raw) ==> all[4]
                == Register::IoDriverStrength(IoDriverStrength::Raw(raw))
            &&& init.io_driver_broadcast_raw is None ==> all[4] == Register::IoDriverStrength(
                config.io_driver,
            )
            &&& all[5] matches Register::PllDivider(pll) && pll == (PllConfig {
                flag: 0x50,
                fb_div: 221,
                ref_div: 2,
                post_div: 0x66,
            })
        }),
{
    let first = broadcast_config(config, chain.chips@.len());
    let relays = relay_steps(config, chain);
    let none = Seq::<Step>::empty();
    assert(writes_to_all(none) =~= Seq::<Register>::empty());
    if let Some(spec_) = config.init_regs.uart_relay_perdomain {
        lemma_relay_broadcasts_nothing(spec_, chain, chain.domain_count as nat);
    }
    lemma_writes_sum(first, relays, 0);
    assert(first.take(0) =~= none);
    assert forall|i: int| 0 <= i < 6 implies #[trigger] first.take(i + 1) == first.take(i).push(
        first[i],
    ) by {
        assert(first.take(i + 1) =~= first.take(i).push(first[i]));
    }
    lemma_writes_push(first.take(0), first[0], 0);
    lemma_writes_push(first.take(1), first[1], 0);
    lemma_writes_push(first.take(2), first[2], 0);
    lemma_writes_push(first.take(3), first[3], 0);
    lemma_writes_push(first.take(4), first[4], 0);
    lemma_writes_push(first.take(5), first[5], 0);
    assert(first.take(1) == first.take(0).push(first[0]));
    assert(first.take(2) == first.take(1).push(first[1]));
    assert(first.take(3) == first.take(2).push(first[2]));
    assert(first.take(4) == first.take(3).push(first[3]));
    assert(first.take(5) == first.take(4).push(first[4]));
    assert(first.take(6) == first.take(5).push(first[5]));
    assert(first.take(6) =~= first);
    let count: usize = chain.chips.len();
    assert(chain.chips@.len() == count);
    let all = writes_to_all(broadcast_phase(config, chain));
    assert(all =~= writes_to_all(first));
    assert(all[2] == scaled_ticket_mask(count as nat));
    assert(83 * 0x4000_0000 * count == 89_120_571_392 * count);
}

/// The steps of one chip take as many places as those of every other, and only
/// the last of them is followed by a wait.
pub proof fn law_chips_take_turns(init: ChainInitRegs, addresses: Seq<u8>, delay: u64, i: int, k: int)
    requires
        0 <= i < addresses.len(),
        0 <= k < if init.uart_relay_perchip is Some {
            6int
        } else {
            5
        },
    ensures
        ({
            let steps = per_chip_config(init, addresses, delay);
            let n = if init.uart_relay_perchip is Some {
                6int
            } else {
                5
            };
            &&& steps.len() == n * addresses.len()
            &&& steps[n * i + k].command matches Command::WriteRegister {
                broadcast,
                chip_address,
                ..
            } && !broadcast && chip_address == addresses[i]
            &&& steps[n * i + k].wait_after == if k == n - 1 {
                Some(delay)
            } else {
                None
            }
        }),
    decreases addresses.len(),
{
    let n = if init.uart_relay_perchip is Some {
        6int
    } else {
        5
    };
    let steps = per_chip_config(init, addresses, delay);
    let rest = addresses.drop_last();
    let last = chip_config_of(init, addresses.last(), delay);
    assert(steps == per_chip_config(init, rest, delay) + last);
    assert(last.len() == n);
    if rest.len() > 0 {
        let j = if i < rest.len() {
            i
        } else {
            0
        };
        law_chips_take_turns(init, rest, delay, j, k);
    } else {
        assert(per_chip_config(init, rest, delay).len() == 0);
    }
    assert(n * addresses.len() == n * rest.len() + n) by (nonlinear_arith)
        requires
            addresses.len() == rest.len() + 1,
    ;
    if i < rest.len() {
        assert(n * i + n <= n * rest.len()) by (nonlinear_arith)
            requires
                i + 1 <= rest.len(),
                n >= 0,
        ;
        assert(0 <= n * i) by (nonlinear_arith)
            requires
                i >= 0,
                n >= 0,
        ;
        assert(rest[i] == addresses[i]);
    } else {
        assert(steps[n * i + k] == last[k]);
    }
}

/// A chip that has been configured is left alone for half a second while its
/// cores start, and for a tenth of that where one sequence does it all.
pub proof fn law_cores_get_time(config: ChipConfig, chain: Chain, i: int)
    requires
        0 <= i < chain.chips@.len(),
    ensures
        ({
            let n = if config.init_regs.uart_relay_perchip is Some {
                6int
            } else {
                5
            };
            let before = 6 + relay_steps(config, chain).len();
            &&& per_chip_phase(config, chain.addresses())[n * i + n - 1].wait_after == Some(
                500_000u64,
            )
            &&& full_config(config, chain)[before + n * i + n - 1].wait_after == Some(50_000u64)
        }),
{
    let init = config.init_regs;
    let n = if init.uart_relay_perchip is Some {
        6int
    } else {
        5
    };
    let addresses = chain.addresses();
    law_chips_take_turns(init, addresses, CORE_DELAY_US, i, n - 1);
    law_chips_take_turns(init, addresses, SHORT_CORE_DELAY_US, i, n - 1);
    assert(0 <= n * i && n * i + n <= n * addresses.len()) by (nonlinear_arith)
        requires
            0 <= i,
            i + 1 <= addresses.len(),
            n >= 0,
    ;
    let before = 6 + relay_steps(config, chain).len();
    let at = n * i + (n - 1);
    assert(per_chip_phase(config, addresses)[at] == per_chip_config(
        init,
        addresses,
        CORE_DELAY_US,
    )[at]);
    assert(full_config(config, chain)[before + at] == per_chip_config(
        init,
        addresses,
        SHORT_CORE_DELAY_US,
    )[at]);
}

/// Before any chip is addressed the whole chain is told the version mask three
/// times, then the family's two control values, and then to be inactive, with
/// time to settle after each mask and after the chain has fallen silent.
pub proof fn law_enumeration_prepares_the_chain(init: ChainInitRegs, addresses: Seq<u8>)
    ensures
        ({
            let steps = enumeration(init, addresses);
            let mask = Command::WriteRegister {
                broadcast: true,
                chip_address: 0,
                register: Register::VersionMask { rollable: 0xFFFF },
            };
            &&& forall|i: int|
                0 <= i < 3 ==> (#[trigger] steps[i]).command == mask && steps[i].wait_after == Some(
                    5_000u64,
                )
            &&& steps[3].command matches Command::WriteRegister { broadcast: b, register: r, .. }
                && b && r == (Register::InitControl { raw_value: init.init_control_broadcast })
            &&& steps[4].command matches Command::WriteRegister { broadcast: b, register: r, .. }
                && b && r == (Register::MiscControl { raw_value: init.misc_control_broadcast })
            &&& steps[5].command is ChainInactive
            &&& steps[5].wait_after == Some(10_000u64)
            &&& forall|i: int|
                0 <= i < steps.len() && (#[trigger] steps[i]).command is ChainInactive ==> i == 5
            &&& forall|i: int|
                6 <= i < steps.len() ==> (#[trigger] steps[i]).wait_after == Some(100u64)
        }),
{
}

/// At each domain's far end the chip that drives the next domain, and no other,
/// gets the drive strength for a boundary.
pub proof fn law_domain_ends_are_configured(chain: Chain, domain: int)
    requires
        0 <= domain < chain.domain_count,
    ensures
        ({
            let steps = domain_config(chain, chain.domain_count as int);
            let end = domain * chain.chips_per_domain + chain.chips_per_domain - 1;
            &&& steps.len() == chain.domain_count
            &&& steps[domain].command == (Command::WriteRegister {
                broadcast: false,
                chip_address: chain.chips@[end].address,
                register: Register::IoDriverStrength(IoDriverStrength::DomainBoundary),
            })
        }),
{
    assert((domain + 1) * chain.chips_per_domain == domain * chain.chips_per_domain
        + chain.chips_per_domain) by (nonlinear_arith);
}

/// The value of a relay setting spells its bytes.
proof fn lemma_relay_bytes(spec_: UartRelayPerDomain, domain: int)
    ensures
        relay_bytes(spec_, domain, spec_.value(domain) as u32),
{
    let byte1 = (spec_.byte1_base - domain * spec_.byte1_step) % 256;
    assert(0 <= byte1 < 256);
    let v = spec_.byte0 + 0x100 * byte1 + 0x1_0000 * spec_.byte2 + 0x100_0000 * spec_.byte3;
    assert(v == spec_.value(domain));
    assert(0 <= v <= u32::MAX);
}

/// Relay settings go to the first and to the last chip of every domain, the
/// farthest domain first. The second byte falls by the same step from each domain
/// to the next one out, modulo 256; the others are the same for all.
pub proof fn law_relay_settings(spec_: UartRelayPerDomain, chain: Chain, n: nat, domain: int)
    requires
        0 <= domain < n,
    ensures
        ({
            let steps = relay_config(spec_, chain, n);
            let at = 2 * (n - 1 - domain);
            let first = domain * chain.chips_per_domain;
            let last = first + chain.chips_per_domain - 1;
            &&& steps.len() == 2 * n
            &&& sets_relay(spec_, domain, steps[at], chain.chips@[first].address)
            &&& sets_relay(spec_, domain, steps[at + 1], chain.chips@[last].address)
        }),
    decreases n,
{
    let steps = relay_config(spec_, chain, n);
    let head = relay_of(spec_, chain, n - 1);
    let tail = relay_config(spec_, chain, (n - 1) as nat);
    assert(steps == head + tail);
    assert(head.len() == 2);
    assert((domain + 1) * chain.chips_per_domain == domain * chain.chips_per_domain
        + chain.chips_per_domain) by (nonlinear_arith);
    let at = 2 * (n - 1 - domain);
    if domain < n - 1 {
        law_relay_settings(spec_, chain, (n - 1) as nat, domain);
        assert(steps[at] == tail[at - 2]);
        assert(steps[at + 1] == tail[at - 1]);
    } else {
        if n > 1 {
            law_relay_settings(spec_, chain, (n - 1) as nat, 0);
        } else {
            assert(tail.len() == 0);
        }
        lemma_relay_bytes(spec_, domain);
        assert(steps[at] == head[0]);
        assert(steps[at + 1] == head[1]);
    }
}

/// Whether a step writes a domain's relay setting to the chip at an address, and
/// to no other.
pub open spec fn sets_relay(
    spec_: UartRelayPerDomain,
    domain: int,
    step: Step,
    address: u8,
) -> bool {
    match step.command {
        Command::WriteRegister { broadcast, chip_address, register } => match register {
            Register::UartRelay { raw_value } => !broadcast && chip_address == address
                && step.wait_after is None && relay_bytes(spec_, domain, raw_value),
            _ => false,
        },
        _ => false,
    }
}

/// Whether a value spells a domain's relay setting, lowest byte first.
pub open spec fn relay_bytes(spec_: UartRelayPerDomain, domain: int, value: u32) -> bool {
    &&& value % 256 == spec_.byte0
    &&& (value / 256) % 256 == (spec_.byte1_base - domain * spec_.byte1_step) % 256
    &&& (value / 0x1_0000) % 256 == spec_.byte2
    &&& value / 0x100_0000 == spec_.byte3
}

/// Every step of a ramp but the last is 6.25 MHz above the one before, from
/// 56.25 MHz on; each broadcasts the PLL setting that comes closest and then
/// leaves ten milliseconds for it to lock.
pub proof fn law_ramp_steps(config: ChipConfig, target_khz: u32, i: int, step: Step)
    requires
        target_khz > 56_250,
        0 <= i < ramp_frequencies(target_khz).len(),
        sets_frequency(config, step, ramp_frequencies(target_khz)[i]),
    ensures
        ({
            let freqs = ramp_frequencies(target_khz);
            &&& i + 1 < freqs.len() ==> freqs[i].0 == 56_250 + 6_250 * i
            &&& i + 1 == freqs.len() ==> freqs[i].0 == target_khz
            &&& step.wait_after == Some(10_000u64)
            &&& exists|pll: PllConfig| #[trigger]
                is_pll_for(config.pll_params, freqs[i].0, pll) && step.command == (
                Command::WriteRegister {
                    broadcast: true,
                    chip_address: 0,
                    register: Register::PllDivider(pll),
                })
        }),
{
    let pll = choose|pll: PllConfig| #[trigger]
        is_pll_for(config.pll_params, ramp_frequencies(target_khz)[i].0, pll) && step == then_wait(
            to_all(Register::PllDivider(pll)),
            RAMP_DELAY_US,
        );
    assert(is_pll_for(config.pll_params, ramp_frequencies(target_khz)[i].0, pll));
}

/// There is nothing to ramp to a frequency that the chips run at already, or to
/// one below it.
pub proof fn law_no_ramp_down(target_khz: u32)
    ensures
        ramp_frequencies(target_khz).len() == 0 <==> target_khz <= 56_250,
{
}

/// A ramp never goes beyond what the chip allows, nor beyond what was asked for.
pub proof fn law_ramp_target(config: ChipConfig, target: Frequency)
    ensures
        ramp_target(config, target) <= target.0,
        ramp_target(config, target) <= config.max_freq.0,
        ramp_target(config, target) == target.0 || ramp_target(config, target)
            == config.max_freq.0,
{
}

} // verus!
