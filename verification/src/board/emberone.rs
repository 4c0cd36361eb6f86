//! EmberOne: twelve BM1362 chips behind a USB bridge.
//!
//! The bridge has one management channel and one ASIC channel. Three pins
//! control the chips' reset, their power and the power of their serial lines. A
//! TPS546 regulator feeds the chain.

use crate::api::types::BoardState;
use crate::asic::bm13xx::chain_config::ChainConfig;
use crate::asic::bm13xx::chip_config::{bm1362, is_bm1362};
use crate::asic::bm13xx::topology::TopologySpec;
use crate::board::{
    identity_state, info_of, is_identity_state, serial_text, short_name, short_name_text,
    BoardError, BoardInfo,
};
use crate::text::{cuts, decimal, is_text, push_decimal, push_text, shorter, utf8_len};
use vstd::prelude::*;

verus! {

/// Chips on the board, each in a voltage domain of its own.
pub const CHIP_COUNT: usize = 12;

/// Reset of the chips, active low.
pub const ASIC_RESET_PIN: u8 = 0;

/// Power of the chips, active high.
pub const POWER_ENABLE_PIN: u8 = 1;

/// Power of the serial lines, active high.
pub const IO_POWER_ENABLE_PIN: u8 = 2;

/// Speed of the management bus.
pub const I2C_HERTZ: u32 = 100_000;

/// Core voltage set at initialization, in millivolts.
pub const DEFAULT_VOUT_MILLIVOLTS: u16 = 3_040;

/// How far the core voltage may be read off before the operator is warned, in
/// millivolts.
pub const VOUT_TOLERANCE_MILLIVOLTS: u16 = 200;

/// Settings of a TPS546 regulator. Voltages are in millivolts, currents in
/// milliamperes, and limits relative to the output voltage in hundredths of it.
#[derive(Clone, Copy, Debug, PartialEq, Eq)]
pub struct Tps546Config {
    pub phase: u8,
    pub frequency_switch_khz: u16,
    pub vin_on: u16,
    pub vin_off: u16,
    pub vin_uv_warn_limit: u16,
    pub vin_ov_fault_limit: u16,
    pub vin_ov_fault_response: u8,
    /// In thousandths.
    pub vout_scale_loop: u16,
    pub vout_min: u16,
    pub vout_max: u16,
    pub vout_command: u16,
    pub vout_ov_fault_limit: u8,
    pub vout_ov_warn_limit: u8,
    pub vout_margin_high: u8,
    pub vout_margin_low: u8,
    pub vout_uv_warn_limit: u8,
    pub vout_uv_fault_limit: u8,
    pub iout_oc_warn_limit: u32,
    pub iout_oc_fault_limit: u32,
    pub iout_oc_fault_response: u8,
    /// In degrees Celsius.
    pub ot_warn_limit: u16,
    pub ot_fault_limit: u16,
    pub ot_fault_response: u8,
    pub ton_delay: u8,
    pub ton_rise: u8,
    pub ton_max_fault_limit: u8,
    pub ton_max_fault_response: u8,
    pub toff_delay: u8,
    pub toff_fall: u8,
    pub pin_detect_override: u16,
    pub vout_ov_fault_response: Option<u8>,
    pub vout_uv_fault_response: Option<u8>,
    pub compensation_config: Option<[u8; 5]>,
    pub power_stage_config: Option<u8>,
    pub telemetry_config: Option<[u8; 6]>,
    pub iout_cal_gain: Option<u16>,
    pub iout_cal_offset: Option<u16>,
}

/// The regulator's settings: a 12 V input and an output between 3 V and 4 V.
pub fn power_config() -> (r: Tps546Config)
    ensures
        is_power_config(r),
{
    let compensation: [u8; 5] = [0x13, 0x20, 0xC6, 0x19, 0xC6];
    let telemetry: [u8; 6] = [0x03, 0x03, 0x03, 0x03, 0x03, 0x00];
    assert(compensation@ =~= seq![0x13u8, 0x20, 0xC6, 0x19, 0xC6]);
    assert(telemetry@ =~= seq![3u8, 3, 3, 3, 3, 0]);
    Tps546Config {
        // All phases.
        phase: 0xFF,
        frequency_switch_khz: 325,
        vin_on: 11_000,
        vin_off: 10_500,
        // Off, since the regulator misreports it.
        vin_uv_warn_limit: 0,
        vin_ov_fault_limit: 14_000,
        // Shut down at once, then six retries.
        vin_ov_fault_response: 0xB7,
        vout_scale_loop: 125,
        vout_min: 3_000,
        vout_max: 4_000,
        vout_command: 3_500,
        vout_ov_fault_limit: 125,
        vout_ov_warn_limit: 116,
        vout_margin_high: 110,
        vout_margin_low: 90,
        vout_uv_warn_limit: 90,
        vout_uv_fault_limit: 75,
        iout_oc_warn_limit: 50_000,
        iout_oc_fault_limit: 55_000,
        iout_oc_fault_response: 0xC0,
        ot_warn_limit: 105,
        ot_fault_limit: 145,
        ot_fault_response: 0xFF,
        ton_delay: 0,
        ton_rise: 3,
        ton_max_fault_limit: 0,
        ton_max_fault_response: 0x3B,
        toff_delay: 0,
        toff_fall: 0,
        pin_detect_override: 0x0000,
        vout_ov_fault_response: Some(0xB7),
        vout_uv_fault_response: Some(0xB7),
        compensation_config: Some(compensation),
        power_stage_config: Some(0x70),
        telemetry_config: Some(telemetry),
        iout_cal_gain: Some(0xC880),
        iout_cal_offset: Some(0xE000),
    }
}

/// A pin of the board.
#[derive(Clone, Copy, Debug, PartialEq, Eq, Structural)]
pub enum BoardPin {
    Reset,
    PowerEnable,
    IoPowerEnable,
}

impl BoardPin {
    /// The pin's number on the bridge.
    pub fn number(self) -> (r: u8)
        ensures
            r == match self {
                BoardPin::Reset => ASIC_RESET_PIN,
                BoardPin::PowerEnable => POWER_ENABLE_PIN,
                BoardPin::IoPowerEnable => IO_POWER_ENABLE_PIN,
            },
    {
        match self {
            BoardPin::Reset => ASIC_RESET_PIN,
            BoardPin::PowerEnable => POWER_ENABLE_PIN,
            BoardPin::IoPowerEnable => IO_POWER_ENABLE_PIN,
        }
    }
}

/// A step of the work on the board's hardware.
#[derive(Clone, Copy, Debug, PartialEq, Eq, Structural)]
pub enum BoardStep {
    GetPin { pin: BoardPin },
    WritePin { pin: BoardPin, high: bool },
    SetI2cFrequency { hertz: u32 },
    /// Send the regulator its settings.
    InitRegulator,
    SetVout { millivolts: u16 },
    ClearFaults,
    EnableOutput,
    DisableOutput,
    /// For the log alone.
    ReadVout,
    /// For the log alone.
    DumpRegulator,
    Wait { ms: u64 },
}

/// The steps of initialization. The chips are held in reset while the regulator
/// is set up.
pub open spec fn initialization() -> Seq<BoardStep> {
    seq![
        BoardStep::GetPin { pin: BoardPin::Reset },
        BoardStep::GetPin { pin: BoardPin::PowerEnable },
        BoardStep::GetPin { pin: BoardPin::IoPowerEnable },
        BoardStep::WritePin { pin: BoardPin::Reset, high: false },
        BoardStep::WritePin { pin: BoardPin::PowerEnable, high: true },
        BoardStep::WritePin { pin: BoardPin::IoPowerEnable, high: true },
        BoardStep::SetI2cFrequency { hertz: I2C_HERTZ },
    ] + power_initialization()
}

/// The steps that bring the regulator up.
pub open spec fn power_initialization() -> Seq<BoardStep> {
    seq![
        BoardStep::InitRegulator,
        BoardStep::Wait { ms: 100 },
        BoardStep::SetVout { millivolts: DEFAULT_VOUT_MILLIVOLTS },
        BoardStep::ClearFaults,
        BoardStep::EnableOutput,
        BoardStep::Wait { ms: 500 },
        BoardStep::ReadVout,
        BoardStep::DumpRegulator,
    ]
}

/// The steps that let the chips run.
pub open spec fn enabling() -> Seq<BoardStep> {
    seq![
        BoardStep::WritePin { pin: BoardPin::PowerEnable, high: true },
        BoardStep::Wait { ms: 250 },
        BoardStep::WritePin { pin: BoardPin::Reset, high: true },
    ]
}

/// The steps that stop the chips.
pub open spec fn disabling() -> Seq<BoardStep> {
    seq![
        BoardStep::WritePin { pin: BoardPin::Reset, high: false },
        BoardStep::WritePin { pin: BoardPin::PowerEnable, high: false },
        BoardStep::WritePin { pin: BoardPin::IoPowerEnable, high: false },
    ]
}

/// The steps that bring the regulator up.
pub fn init_power_controller() -> (r: Vec<BoardStep>)
    ensures
        r@ == power_initialization(),
{
    vec![
        BoardStep::InitRegulator,
        BoardStep::Wait { ms: 100 },
        // The core voltage of the initial PLL frequency.
        BoardStep::SetVout { millivolts: DEFAULT_VOUT_MILLIVOLTS },
        BoardStep::ClearFaults,
        BoardStep::EnableOutput,
        BoardStep::Wait { ms: 500 },
        BoardStep::ReadVout,
        BoardStep::DumpRegulator,
    ]
}

/// The steps of initialization.
pub fn initialize() -> (r: Vec<BoardStep>)
    ensures
        r@ == initialization(),
{
    let mut steps: Vec<BoardStep> = vec![
        BoardStep::GetPin { pin: BoardPin::Reset },
        BoardStep::GetPin { pin: BoardPin::PowerEnable },
        BoardStep::GetPin { pin: BoardPin::IoPowerEnable },
        BoardStep::WritePin { pin: BoardPin::Reset, high: false },
        // The regulator needs this to turn on.
        BoardStep::WritePin { pin: BoardPin::PowerEnable, high: true },
        BoardStep::WritePin { pin: BoardPin::IoPowerEnable, high: true },
        BoardStep::SetI2cFrequency { hertz: I2C_HERTZ },
    ];
    let mut power = init_power_controller();
    steps.append(&mut power);
    steps
}

/// The steps that let the chips run: power first, then out of reset.
pub fn enable() -> (r: Vec<BoardStep>)
    ensures
        r@ == enabling(),
{
    vec![
        BoardStep::WritePin { pin: BoardPin::PowerEnable, high: true },
        BoardStep::Wait { ms: 250 },
        BoardStep::WritePin { pin: BoardPin::Reset, high: true },
    ]
}

/// The steps that stop the chips: into reset first, then power off.
pub fn disable() -> (r: Vec<BoardStep>)
    ensures
        r@ == disabling(),
{
    vec![
        BoardStep::WritePin { pin: BoardPin::Reset, high: false },
        BoardStep::WritePin { pin: BoardPin::PowerEnable, high: false },
        BoardStep::WritePin { pin: BoardPin::IoPowerEnable, high: false },
    ]
}

/// The steps of a shutdown, none of which ends it by failing.
pub fn shutdown(has_regulator: bool) -> (r: Vec<BoardStep>)
    ensures
        r@ == if has_regulator {
            seq![BoardStep::DisableOutput, BoardStep::DumpRegulator]
        } else {
            Seq::<BoardStep>::empty()
        },
{
    if has_regulator {
        vec![BoardStep::DisableOutput, BoardStep::DumpRegulator]
    } else {
        Vec::new()
    }
}

/// What a step that must succeed could not do; none for a step that may fail.
pub open spec fn obstacle(step: BoardStep) -> Option<Seq<char>> {
    match step {
        BoardStep::GetPin { pin: BoardPin::Reset } => Some("Failed to get reset pin: "@),
        BoardStep::GetPin { pin: BoardPin::PowerEnable } => Some(
            "Failed to get power enable pin: "@,
        ),
        BoardStep::GetPin { pin: BoardPin::IoPowerEnable } => Some(
            "Failed to get IO power enable pin: "@,
        ),
        BoardStep::WritePin { pin: BoardPin::Reset, high: false } => Some(
            "Failed to assert reset: "@,
        ),
        BoardStep::WritePin { pin: BoardPin::Reset, high: true } => Some(
            "Failed to release reset: "@,
        ),
        BoardStep::WritePin { pin: BoardPin::PowerEnable, high: true } => Some(
            "Failed to enable power: "@,
        ),
        BoardStep::WritePin { pin: BoardPin::PowerEnable, high: false } => Some(
            "Failed to disable power: "@,
        ),
        BoardStep::WritePin { pin: BoardPin::IoPowerEnable, high: true } => Some(
            "Failed to enable IO power: "@,
        ),
        BoardStep::WritePin { pin: BoardPin::IoPowerEnable, high: false } => Some(
            "Failed to disable IO power: "@,
        ),
        BoardStep::SetI2cFrequency { .. } => Some("Failed to set I2C frequency: "@),
        BoardStep::InitRegulator => Some("Failed to initialize TPS546 power controller: "@),
        BoardStep::SetVout { .. } => Some("Failed to set core voltage: "@),
        BoardStep::ClearFaults => Some("Failed to clear faults: "@),
        BoardStep::EnableOutput => Some("Failed to enable output: "@),
        BoardStep::DisableOutput | BoardStep::ReadVout | BoardStep::DumpRegulator | BoardStep::Wait {
            ..
        } => None,
    }
}

/// What is added to the reason for a step's failure.
pub open spec fn hint(step: BoardStep) -> Seq<char> {
    if step is InitRegulator {
        ". Is input voltage connected?"@
    } else {
        Seq::<char>::empty()
    }
}

/// What is said when a step fails. Where nothing is, the work goes on.
pub fn fail_step(step: BoardStep, why: &str) -> (r: Option<String>)
    ensures
        r is Some <==> obstacle(step) is Some,
        r matches Some(text) ==> text@ == obstacle(step)->0 + why@ + hint(step),
{
    let start: &str = match step {
        BoardStep::GetPin { pin } => match pin {
            BoardPin::Reset => "Failed to get reset pin: ",
            BoardPin::PowerEnable => "Failed to get power enable pin: ",
            BoardPin::IoPowerEnable => "Failed to get IO power enable pin: ",
        },
        BoardStep::WritePin { pin, high } => match pin {
            BoardPin::Reset => if high {
                "Failed to release reset: "
            } else {
                "Failed to assert reset: "
            },
            BoardPin::PowerEnable => if high {
                "Failed to enable power: "
            } else {
                "Failed to disable power: "
            },
            BoardPin::IoPowerEnable => if high {
                "Failed to enable IO power: "
            } else {
                "Failed to disable IO power: "
            },
        },
        BoardStep::SetI2cFrequency { .. } => "Failed to set I2C frequency: ",
        BoardStep::InitRegulator => "Failed to initialize TPS546 power controller: ",
        BoardStep::SetVout { .. } => "Failed to set core voltage: ",
        BoardStep::ClearFaults => "Failed to clear faults: ",
        BoardStep::EnableOutput => "Failed to enable output: ",
        BoardStep::DisableOutput | BoardStep::ReadVout | BoardStep::DumpRegulator | BoardStep::Wait {
            ..
        } => {
            return None;
        },
    };
    let mut text = String::new();
    push_text(&mut text, start);
    push_text(&mut text, why);
    match step {
        BoardStep::InitRegulator => {
            push_text(&mut text, ". Is input voltage connected?");
        },
        _ => {},
    }
    assert(text@ =~= obstacle(step)->0 + why@ + hint(step));
    Some(text)
}

/// The pins' levels, true for high.
pub struct PinLevels {
    pub reset: bool,
    pub power: bool,
    pub io_power: bool,
}

/// The pins' levels after a step.
pub open spec fn levels_after(levels: PinLevels, step: BoardStep) -> PinLevels {
    match step {
        BoardStep::WritePin { pin: BoardPin::Reset, high } => PinLevels { reset: high, ..levels },
        BoardStep::WritePin { pin: BoardPin::PowerEnable, high } => PinLevels {
            power: high,
            ..levels
        },
        BoardStep::WritePin { pin: BoardPin::IoPowerEnable, high } => PinLevels {
            io_power: high,
            ..levels
        },
        _ => levels,
    }
}

/// The pins' levels after steps.
pub open spec fn levels_after_all(levels: PinLevels, steps: Seq<BoardStep>) -> PinLevels
    decreases steps.len(),
{
    if steps.len() == 0 {
        levels
    } else {
        levels_after(levels_after_all(levels, steps.drop_last()), steps.last())
    }
}

proof fn lemma_levels_step(levels: PinLevels, steps: Seq<BoardStep>, n: int)
    requires
        0 < n <= steps.len(),
    ensures
        levels_after_all(levels, steps.take(n)) == levels_after(
            levels_after_all(levels, steps.take(n - 1)),
            steps[n - 1],
        ),
{
    assert(steps.take(n).drop_last() =~= steps.take(n - 1));
}

/// Whatever the pins' levels were: after initialization the chips are in reset
/// with all power on, and they were in reset whenever initialization turned
/// power on and from then on.
pub proof fn law_initialization_holds_reset(levels: PinLevels, n: int)
    requires
        4 <= n <= initialization().len(),
    ensures
        !levels_after_all(levels, initialization().take(n)).reset,
        levels_after_all(levels, initialization()) == (PinLevels {
            reset: false,
            power: true,
            io_power: true,
        }),
        forall|i: int|
            0 <= i < 4 ==> !(#[trigger] initialization()[i] matches BoardStep::WritePin {
                pin: BoardPin::PowerEnable,
                ..
            }),
{
    let steps = initialization();
    assert(steps.take(0) =~= Seq::<BoardStep>::empty());
    lemma_levels_step(levels, steps, 1);
    lemma_levels_step(levels, steps, 2);
    lemma_levels_step(levels, steps, 3);
    lemma_levels_step(levels, steps, 4);
    lemma_levels_step(levels, steps, 5);
    lemma_levels_step(levels, steps, 6);
    lemma_levels_step(levels, steps, 7);
    lemma_levels_step(levels, steps, 8);
    lemma_levels_step(levels, steps, 9);
    lemma_levels_step(levels, steps, 10);
    lemma_levels_step(levels, steps, 11);
    lemma_levels_step(levels, steps, 12);
    lemma_levels_step(levels, steps, 13);
    lemma_levels_step(levels, steps, 14);
    lemma_levels_step(levels, steps, 15);
    assert(steps.len() == 15);
    assert(steps.take(15) =~= steps);
}

/// Whatever the pins' levels were: enabling powers the chips and takes them out
/// of reset, in that order, and leaves the serial lines' power as it was;
/// disabling turns everything off, and the chips are in reset before power goes.
pub proof fn law_enable_and_disable(levels: PinLevels)
    ensures
        levels_after_all(levels, enabling()) == (PinLevels {
            reset: true,
            power: true,
            io_power: levels.io_power,
        }),
        levels_after_all(levels, enabling().take(2)) == (PinLevels { power: true, ..levels }),
        levels_after_all(levels, disabling()) == (PinLevels {
            reset: false,
            power: false,
            io_power: false,
        }),
        levels_after_all(levels, disabling().take(1)) == (PinLevels { reset: false, ..levels }),
{
    let on = enabling();
    let off = disabling();
    assert(on.take(0) =~= Seq::<BoardStep>::empty());
    assert(off.take(0) =~= Seq::<BoardStep>::empty());
    lemma_levels_step(levels, on, 1);
    lemma_levels_step(levels, on, 2);
    lemma_levels_step(levels, on, 3);
    lemma_levels_step(levels, off, 1);
    lemma_levels_step(levels, off, 2);
    lemma_levels_step(levels, off, 3);
    assert(on.take(3) =~= on);
    assert(off.take(3) =~= off);
}

/// Whether the core voltage that is read back is off the requested one by so
/// much that the operator is warned. The tolerance itself is too much: in single
/// precision both 3.24 - 3.04 and 3.04 - 2.84 come out above 0.2.
pub fn vout_is_off(millivolts: u16) -> (r: bool)
    ensures
        r == is_off(millivolts),
{
    if millivolts >= DEFAULT_VOUT_MILLIVOLTS {
        millivolts - DEFAULT_VOUT_MILLIVOLTS >= VOUT_TOLERANCE_MILLIVOLTS
    } else {
        DEFAULT_VOUT_MILLIVOLTS - millivolts >= VOUT_TOLERANCE_MILLIVOLTS
    }
}

/// The pins that the board holds until a hash thread takes them.
#[derive(Clone, Copy, Debug, PartialEq, Eq, Structural)]
pub struct HeldPins {
    pub reset: bool,
    pub power_enable: bool,
    pub io_power_enable: bool,
}

/// What is said of the first pin that is missing.
pub open spec fn missing_pin(held: HeldPins) -> Option<Seq<char>> {
    if !held.reset {
        Some("Reset pin not initialized"@)
    } else if !held.power_enable {
        Some("Power enable pin not initialized"@)
    } else if !held.io_power_enable {
        Some("IO power enable pin not initialized"@)
    } else {
        None
    }
}

impl HeldPins {
    /// Takes the pins for a hash thread, in order, up to the first that is
    /// missing.
    pub fn take_all(&mut self) -> (r: Result<(), BoardError>)
        ensures
            pins_taken(*old(self), r, *final(self)),
    {
        if !self.reset {
            return Err(BoardError::InitializationFailed("Reset pin not initialized".to_string()));
        }
        self.reset = false;
        if !self.power_enable {
            return Err(
                BoardError::InitializationFailed("Power enable pin not initialized".to_string()),
            );
        }
        self.power_enable = false;
        if !self.io_power_enable {
            return Err(
                BoardError::InitializationFailed("IO power enable pin not initialized".to_string()),
            );
        }
        self.io_power_enable = false;
        Ok(())
    }
}

/// The chain of the board, named after the first eight bytes of its serial
/// number.
pub fn chain_config(serial: &Option<String>) -> (r: ChainConfig)
    requires
        *serial matches Some(s) ==> cuts(s@, shorter(8, utf8_len(s@))),
    ensures
        short_name_text("EmberOne"@, *serial, r.name@),
        r.topology == (TopologySpec {
            domain_count: CHIP_COUNT,
            chips_per_domain: 1,
            domain_config: false,
        }),
        is_bm1362(r.chip_config),
{
    ChainConfig {
        name: short_name("EmberOne", serial),
        topology: TopologySpec::individual_domains(CHIP_COUNT, false),
        chip_config: bm1362(),
    }
}

/// What the board says of itself.
pub fn board_info(serial: &Option<String>) -> (r: BoardInfo)
    ensures
        r.model@ == "EmberOne"@,
        r.firmware_version is None,
        r.serial_number == *serial,
{
    info_of("EmberOne", serial)
}

/// Whether a USB device is an EmberOne.
pub fn matches_device(manufacturer: &Option<String>, product: &Option<String>) -> (r: bool)
    ensures
        r == (*manufacturer matches Some(m) && m@ == "256F"@ && (*product matches Some(p) && p@
            == "EmberOne00"@)),
{
    is_text(manufacturer, "256F") && is_text(product, "EmberOne00")
}

/// The management port and the ASIC port of the bridge. There must be exactly
/// two.
pub fn split_ports(ports: &Vec<String>) -> (r: Result<(String, String), String>)
    ensures
        r is Ok <==> ports@.len() == 2,
        r matches Ok((control, data)) ==> control == ports@[0] && data == ports@[1],
        r matches Err(why) ==> why@ == "EmberOne requires exactly 2 serial ports, found "@
            + decimal(ports@.len()),
{
    let count: usize = ports.len();
    if count != 2 {
        let mut why = String::new();
        push_text(&mut why, "EmberOne requires exactly 2 serial ports, found ");
        push_decimal(&mut why, count as u64);
        assert(why@ =~= "EmberOne requires exactly 2 serial ports, found "@ + decimal(ports@.len()));
        return Err(why);
    }
    Ok((ports[0].clone(), ports[1].clone()))
}

/// The state of a board that has just been found.
pub fn initial_state(serial: Option<String>) -> (r: BoardState)
    ensures
        is_identity_state(r, "emberone-"@ + serial_text(serial), "EmberOne"@, serial),
{
    identity_state("emberone-", "EmberOne", serial)
}

/// Whether an output voltage is not what it was set to.
pub open spec fn is_off(millivolts: u16) -> bool {
    !(-VOUT_TOLERANCE_MILLIVOLTS < millivolts - DEFAULT_VOUT_MILLIVOLTS < VOUT_TOLERANCE_MILLIVOLTS)
}

/// An output is off when it is 0.2 V or more away from 3.04 V, either way.
pub proof fn law_vout_is_off(millivolts: u16)
    ensures
        is_off(millivolts) <==> millivolts <= 2_840 || millivolts >= 3_240,
{
}

/// What handing the pins on comes to.
pub open spec fn pins_taken(
    before: HeldPins,
    r: Result<(), BoardError>,
    after: HeldPins,
) -> bool {
    &&& r is Ok <==> missing_pin(before) is None
    &&& r matches Err(e) ==> e matches BoardError::InitializationFailed(why) && Some(why@)
        == missing_pin(before)
    &&& !after.reset
    &&& after.power_enable == (before.power_enable && !before.reset)
    &&& after.io_power_enable == (before.io_power_enable && !(before.reset
        && before.power_enable))
}

/// All three pins are handed on, or the first that is missing is named; those
/// after it stay.
pub proof fn law_pins_are_handed_on(before: HeldPins, r: Result<(), BoardError>, after: HeldPins)
    requires
        pins_taken(before, r, after),
    ensures
        r is Ok <==> before.reset && before.power_enable && before.io_power_enable,
        r is Ok ==> !after.reset && !after.power_enable && !after.io_power_enable,
        !before.reset ==> after.power_enable == before.power_enable && after.io_power_enable
            == before.io_power_enable,
        before.reset && !before.power_enable ==> after.io_power_enable == before.io_power_enable,
        !after.reset,
{
}

/// Which steps must succeed: all that set or fetch something before the output
/// is on. Reading the regulator, switching it off and waiting need not.
pub proof fn law_fatal_steps(step: BoardStep)
    ensures
        obstacle(step) is None <==> step is DisableOutput || step is ReadVout
            || step is DumpRegulator || step is Wait,
{
}

/// The regulator is set up, its voltage set to 3.04 V and its faults cleared
/// before its output is switched on.
pub proof fn law_regulator_comes_up(i: int, j: int)
    requires
        0 <= i < power_initialization().len(),
        0 <= j < power_initialization().len(),
    ensures
        power_initialization()[j] == BoardStep::EnableOutput && (
        power_initialization()[i] is InitRegulator || power_initialization()[i] is SetVout
            || power_initialization()[i] is ClearFaults) ==> i < j,
        power_initialization()[i] matches BoardStep::SetVout { millivolts } ==> millivolts == 3_040,
        power_initialization().contains(BoardStep::InitRegulator),
        power_initialization().contains(BoardStep::SetVout { millivolts: 3_040 }),
        power_initialization().contains(BoardStep::ClearFaults),
        power_initialization().contains(BoardStep::EnableOutput),
        initialization().len() == 7 + power_initialization().len(),
        initialization().skip(7) == power_initialization(),
{
    let steps = power_initialization();
    assert(steps[0] == BoardStep::InitRegulator);
    assert(steps[2] == (BoardStep::SetVout { millivolts: 3_040 }));
    assert(steps[3] == BoardStep::ClearFaults);
    assert(steps[4] == BoardStep::EnableOutput);
    assert(initialization().skip(7) =~= steps);
}

/// How the regulator is set up.
pub open spec fn is_power_config(
    r: Tps546Config,
) -> bool {
    &&& r.phase == 0xFF
    &&& r.frequency_switch_khz == 325
    &&& r.vin_on == 11_000 && r.vin_off == 10_500
    &&& r.vin_uv_warn_limit == 0 && r.vin_ov_fault_limit == 14_000
    &&& r.vin_ov_fault_response == 0xB7
    &&& r.vout_scale_loop == 125
    &&& r.vout_min == 3_000 && r.vout_max == 4_000 && r.vout_command == 3_500
    &&& r.vout_ov_fault_limit == 125 && r.vout_ov_warn_limit == 116
    &&& r.vout_margin_high == 110 && r.vout_margin_low == 90
    &&& r.vout_uv_warn_limit == 90 && r.vout_uv_fault_limit == 75
    &&& r.iout_oc_warn_limit == 50_000 && r.iout_oc_fault_limit == 55_000
    &&& r.iout_oc_fault_response == 0xC0
    &&& r.ot_warn_limit == 105 && r.ot_fault_limit == 145 && r.ot_fault_response == 0xFF
    &&& r.ton_delay == 0 && r.ton_rise == 3
    &&& r.ton_max_fault_limit == 0 && r.ton_max_fault_response == 0x3B
    &&& r.toff_delay == 0 && r.toff_fall == 0
    &&& r.pin_detect_override == 0
    &&& r.vout_ov_fault_response == Some(0xB7u8) && r.vout_uv_fault_response == Some(0xB7u8)
    &&& r.compensation_config matches Some(c) && c@ == seq![0x13u8, 0x20, 0xC6, 0x19, 0xC6]
    &&& r.power_stage_config == Some(0x70u8)
    &&& r.telemetry_config matches Some(t) && t@ == seq![3u8, 3, 3, 3, 3, 0]
    &&& r.iout_cal_gain == Some(0xC880u16) && r.iout_cal_offset == Some(0xE000u16)
}

/// The regulator's limits enclose what it is asked to do: it switches off below
/// where it switches on, its output is commanded within its range, and each
/// warning comes before the fault that it warns of.
pub proof fn law_power_limits(r: Tps546Config)
    requires
        is_power_config(r),
    ensures
        r.vin_off < r.vin_on < r.vin_ov_fault_limit,
        r.vout_min <= r.vout_command <= r.vout_max,
        r.vout_min <= DEFAULT_VOUT_MILLIVOLTS <= r.vout_max,
        r.vout_uv_fault_limit < r.vout_uv_warn_limit <= r.vout_margin_low < 100,
        100 < r.vout_margin_high < r.vout_ov_warn_limit < r.vout_ov_fault_limit,
        r.iout_oc_warn_limit < r.iout_oc_fault_limit,
        r.ot_warn_limit < r.ot_fault_limit,
{
}

} // verus!
