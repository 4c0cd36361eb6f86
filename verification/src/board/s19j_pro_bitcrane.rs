//! An S19j Pro hashboard behind a Bitcrane v3 bridge.
//!
//! One hashboard of 126 BM1362 chips in 42 voltage domains, on the bridge's
//! first ASIC channel. An APW12 supply feeds it.

use crate::api::types::{BoardState, MinerState, TemperatureSensor};
use crate::asic::bm13xx::chain_config::ChainConfig;
use crate::asic::bm13xx::chip_config::{bm1362, is_bm1362};
use crate::asic::bm13xx::topology::TopologySpec;
use crate::board::s19j_pro::{
    fan_states, shown_fans, split_ports as split_bridge_ports, FanReading, SensorReading,
    DEFAULT_VOUT_MICROVOLTS, DISPLAY_UPDATE_INTERVAL,
};
use crate::board::{
    identity_state, info_of, is_identity_state, serial_text, short_name, short_name_text,
    BoardError, BoardInfo,
};
use crate::text::{cuts, decimal, is_text, push_text, shorter, utf8_len};
use vstd::prelude::*;

verus! {

/// Fan speed, in percent. Fans are not controlled by temperature.
pub const FAN_PERCENT: u8 = 50;

pub const DOMAIN_COUNT: usize = 42;

pub const CHIPS_PER_DOMAIN: usize = 3;

/// A step of the work on the board's hardware.
#[derive(Clone, Copy, Debug, PartialEq, Eq, Structural)]
pub enum BoardStep {
    /// Write the reset pin. It is active low.
    WriteReset { high: bool },
    SetPsuEnabled { on: bool },
    ConfigureWatchdog { value: u8 },
    SetVoltage { microvolts: u32 },
    /// For the log alone.
    MeasureVoltage,
    /// Set every fan.
    SetFans { percent: u8 },
    Wait { ms: u64 },
}

/// The steps of initialization. The chips are in reset before the supply is
/// switched on.
pub open spec fn initialization() -> Seq<BoardStep> {
    seq![
        BoardStep::WriteReset { high: false },
        BoardStep::SetPsuEnabled { on: true },
        BoardStep::Wait { ms: 500 },
        BoardStep::ConfigureWatchdog { value: 0 },
        BoardStep::SetVoltage { microvolts: DEFAULT_VOUT_MICROVOLTS },
        BoardStep::Wait { ms: 2000 },
        BoardStep::MeasureVoltage,
        BoardStep::SetFans { percent: FAN_PERCENT },
    ]
}

/// The steps of initialization.
pub fn initialize() -> (r: Vec<BoardStep>)
    ensures
        r@ == initialization(),
{
    vec![
        BoardStep::WriteReset { high: false },
        BoardStep::SetPsuEnabled { on: true },
        BoardStep::Wait { ms: 500 },
        // Off.
        BoardStep::ConfigureWatchdog { value: 0 },
        BoardStep::SetVoltage { microvolts: DEFAULT_VOUT_MICROVOLTS },
        // A long chain takes time to power up.
        BoardStep::Wait { ms: 2000 },
        BoardStep::MeasureVoltage,
        BoardStep::SetFans { percent: FAN_PERCENT },
    ]
}

/// What a step that must succeed could not do; none for a step that may fail.
pub open spec fn obstacle(step: BoardStep) -> Option<Seq<char>> {
    match step {
        BoardStep::WriteReset { high: false } => Some("Failed to assert reset: "@),
        BoardStep::WriteReset { high: true } => Some("Failed to release reset: "@),
        BoardStep::SetPsuEnabled { on: true } => Some("Failed to enable PSU: "@),
        BoardStep::SetPsuEnabled { on: false } => None,
        BoardStep::ConfigureWatchdog { .. } => Some("Failed to configure PSU watchdog: "@),
        BoardStep::SetVoltage { .. } => Some("Failed to set PSU voltage: "@),
        BoardStep::MeasureVoltage | BoardStep::SetFans { .. } | BoardStep::Wait { .. } => None,
    }
}

/// What is said when a step of initialization, or of enabling or disabling the
/// chips, fails. Where nothing is, the work goes on.
pub fn fail_step(step: BoardStep, why: &str) -> (r: Option<String>)
    ensures
        r is Some <==> obstacle(step) is Some,
        r matches Some(text) ==> text@ == obstacle(step)->0 + why@,
{
    let start: &str = match step {
        BoardStep::WriteReset { high } => if high {
            "Failed to release reset: "
        } else {
            "Failed to assert reset: "
        },
        BoardStep::SetPsuEnabled { on } => if on {
            "Failed to enable PSU: "
        } else {
            return None;
        },
        BoardStep::ConfigureWatchdog { .. } => "Failed to configure PSU watchdog: ",
        BoardStep::SetVoltage { .. } => "Failed to set PSU voltage: ",
        BoardStep::MeasureVoltage | BoardStep::SetFans { .. } | BoardStep::Wait { .. } => {
            return None;
        },
    };
    let mut text = String::new();
    push_text(&mut text, start);
    push_text(&mut text, why);
    assert(text@ =~= obstacle(step)->0 + why@);
    Some(text)
}

/// The steps that let the chips run. All of them come out of reset before they
/// are counted.
pub fn enable() -> (r: Vec<BoardStep>)
    ensures
        r@ == seq![BoardStep::WriteReset { high: true }, BoardStep::Wait { ms: 2000 }],
{
    vec![BoardStep::WriteReset { high: true }, BoardStep::Wait { ms: 2000 }]
}

/// The steps that stop the chips.
pub fn disable() -> (r: Vec<BoardStep>)
    ensures
        r@ == seq![BoardStep::WriteReset { high: false }],
{
    vec![BoardStep::WriteReset { high: false }]
}

/// The parts that the board holds.
#[derive(Clone, Copy, Debug, PartialEq, Eq, Structural)]
pub struct HeldParts {
    /// Until a hash thread takes it.
    pub reset_pin: bool,
    pub psu: bool,
    /// Until the telemetry task takes them.
    pub temp_sensors: bool,
}

/// The steps of a shutdown.
pub open spec fn shutting_down(held: HeldParts) -> Seq<BoardStep> {
    seq![BoardStep::SetFans { percent: 0 }] + (if held.reset_pin {
        seq![BoardStep::WriteReset { high: false }]
    } else {
        Seq::<BoardStep>::empty()
    }) + (if held.psu {
        seq![BoardStep::SetPsuEnabled { on: false }]
    } else {
        Seq::<BoardStep>::empty()
    })
}

impl HeldParts {
    /// The steps of a shutdown, none of which ends it by failing: fans off, the
    /// chips into reset if the board still holds the pin, and the supply off if
    /// there is one.
    pub fn shutdown(&self) -> (r: Vec<BoardStep>)
        ensures
            r@ == shutting_down(*self),
    {
        let mut steps: Vec<BoardStep> = vec![BoardStep::SetFans { percent: 0 }];
        if self.reset_pin {
            steps.push(BoardStep::WriteReset { high: false });
        }
        if self.psu {
            steps.push(BoardStep::SetPsuEnabled { on: false });
        }
        assert(steps@ =~= shutting_down(*self));
        steps
    }

    /// Takes the reset pin for a hash thread.
    pub fn take_reset_pin(&mut self) -> (r: Result<(), BoardError>)
        ensures
            r is Ok <==> old(self).reset_pin,
            r matches Err(e) ==> e matches BoardError::InitializationFailed(why) && why@
                == "Reset pin not initialized"@,
            *final(self) == (HeldParts { reset_pin: false, ..*old(self) }),
    {
        let held: bool = self.reset_pin;
        self.reset_pin = false;
        if held {
            Ok(())
        } else {
            Err(BoardError::InitializationFailed("Reset pin not initialized".to_string()))
        }
    }

    /// Takes the temperature sensors for the telemetry task.
    pub fn take_temp_sensors(&mut self) -> (r: Result<(), BoardError>)
        ensures
            r is Ok <==> old(self).temp_sensors,
            r matches Err(e) ==> e matches BoardError::InitializationFailed(why) && why@
                == "Temperature sensors not initialized"@,
            *final(self) == (HeldParts { temp_sensors: false, ..*old(self) }),
    {
        let held: bool = self.temp_sensors;
        self.temp_sensors = false;
        if held {
            Ok(())
        } else {
            Err(BoardError::InitializationFailed("Temperature sensors not initialized".to_string()))
        }
    }
}

/// However the board shuts down: if it has a supply, the supply is switched off,
/// and it is the last thing that is done.
pub proof fn law_shutdown_cuts_power(held: HeldParts)
    ensures
        held.psu ==> shutting_down(held).last() == (BoardStep::SetPsuEnabled { on: false }),
        forall|i: int|
            0 <= i < shutting_down(held).len() ==> (#[trigger] shutting_down(held)[i])
                != (BoardStep::SetPsuEnabled { on: true }) && shutting_down(held)[i]
                != (BoardStep::WriteReset { high: true }),
{
}

/// The chain of the board, named after the first eight bytes of its serial
/// number.
pub fn chain_config(serial: &Option<String>) -> (r: ChainConfig)
    requires
        *serial matches Some(s) ==> cuts(s@, shorter(8, utf8_len(s@))),
    ensures
        short_name_text("S19jProBitcrane"@, *serial, r.name@),
        r.topology == (TopologySpec {
            domain_count: DOMAIN_COUNT,
            chips_per_domain: CHIPS_PER_DOMAIN,
            domain_config: false,
        }),
        r.topology.chips() == 126,
        is_bm1362(r.chip_config),
{
    ChainConfig {
        name: short_name("S19jProBitcrane", serial),
        topology: TopologySpec::uniform_domains(DOMAIN_COUNT, CHIPS_PER_DOMAIN, false),
        chip_config: bm1362(),
    }
}

/// What the board says of itself.
pub fn board_info(serial: &Option<String>) -> (r: BoardInfo)
    ensures
        r.model@ == "S19j Pro (Bitcrane v3)"@,
        r.firmware_version is None,
        r.serial_number == *serial,
{
    info_of("S19j Pro (Bitcrane v3)", serial)
}

/// Whether a USB device is such a bridge.
pub fn matches_device(manufacturer: &Option<String>, product: &Option<String>) -> (r: bool)
    ensures
        r == (*manufacturer matches Some(m) && m@ == "256F"@ && (*product matches Some(p) && p@
            == "bitcrane_S19jpro"@)),
{
    is_text(manufacturer, "256F") && is_text(product, "bitcrane_S19jpro")
}

/// The management port and the first ASIC port of the bridge. There must be
/// exactly four ports.
pub fn split_ports(ports: &Vec<String>) -> (r: Result<(String, String), String>)
    ensures
        r is Ok <==> ports@.len() == 4,
        r matches Ok((control, data)) ==> control == ports@[0] && data == ports@[1],
        r matches Err(why) ==> why@ == "S19j Pro requires exactly 4 serial ports, found "@
            + decimal(ports@.len()),
{
    match split_bridge_ports(ports) {
        Ok(split) => Ok((split.control, split.data[0].clone())),
        Err(why) => Err(why),
    }
}

/// The state of a board that has just been found.
pub fn initial_state(serial: Option<String>) -> (r: BoardState)
    ensures
        is_identity_state(
            r,
            "s19jpro-bitcrane-"@ + serial_text(serial),
            "S19j Pro (Bitcrane v3)"@,
            serial,
        ),
{
    identity_state("s19jpro-bitcrane-", "S19j Pro (Bitcrane v3)", serial)
}

/// The telemetry task's count of cycles.
#[derive(Clone, Copy, Debug, PartialEq, Eq, Structural)]
pub struct Telemetry {
    pub cycle_count: u32,
}

/// The sensors, as the API shows them.
pub open spec fn shown_sensors(sensors: Seq<SensorReading>) -> Seq<TemperatureSensor> {
    sensors.map_values(|s: SensorReading| TemperatureSensor { name: s.name, microc: s.microc })
}

impl Telemetry {
    /// No cycle yet.
    pub fn new() -> (r: Telemetry)
        ensures
            r.cycle_count == 0,
    {
        Telemetry { cycle_count: 0 }
    }

    /// One telemetry cycle: puts the readings into the board's state. In every
    /// fifth cycle, from the first on, the bridge's display is to show the
    /// returned hashrate: the miner's, or 0 where that is not known.
    pub fn cycle(
        &mut self,
        state: &mut BoardState,
        sensors: &Vec<SensorReading>,
        fans: &Vec<FanReading>,
        miner: &Option<MinerState>,
    ) -> (r: Option<u64>)
        ensures
            cycled(*old(self), *old(state), sensors@, fans@, *miner, r, *final(self), *final(state)),
    {
        let mut temperatures: Vec<TemperatureSensor> = Vec::new();
        let mut i: usize = 0;
        while i < sensors.len()
            invariant
                i <= sensors@.len(),
                temperatures@ =~= shown_sensors(sensors@).take(i as int),
            decreases sensors@.len() - i,
        {
            temperatures.push(
                TemperatureSensor { name: sensors[i].name.clone(), microc: sensors[i].microc },
            );
            i = i + 1;
        }
        assert(shown_sensors(sensors@).take(i as int) =~= shown_sensors(sensors@));
        state.temperatures = temperatures;
        state.fans = fan_states(fans, FAN_PERCENT);
        let shows: bool = self.cycle_count % DISPLAY_UPDATE_INTERVAL == 0;
        self.cycle_count =
        if self.cycle_count == u32::MAX {
            0
        } else {
            self.cycle_count + 1
        };
        if shows {
            match miner {
                Some(miner) => Some(miner.hashrate),
                None => Some(0),
            }
        } else {
            None
        }
    }
}

/// What a cycle of telemetry publishes and shows.
pub open spec fn cycled(
    before: Telemetry,
    board: BoardState,
    sensors: Seq<SensorReading>,
    fans: Seq<FanReading>,
    miner: Option<MinerState>,
    r: Option<u64>,
    after: Telemetry,
    state: BoardState,
) -> bool {
    &&& state == (BoardState {
        temperatures: state.temperatures,
        fans: state.fans,
        ..board
    })
    &&& state.temperatures@ == shown_sensors(sensors)
    &&& state.fans@ == shown_fans(fans, FAN_PERCENT)
    &&& r is Some <==> before.cycle_count % DISPLAY_UPDATE_INTERVAL == 0
    &&& r matches Some(hashrate) ==> hashrate == match miner {
        Some(miner) => miner.hashrate,
        None => 0,
    }
    &&& after.cycle_count == if before.cycle_count == u32::MAX {
        0
    } else {
        before.cycle_count + 1
    }
}

/// A cycle publishes each sensor and each fan as it was read, with the fans' set
/// speed of 50 %, and leaves all else; every fifth one shows the miner's rate.
pub proof fn law_telemetry_cycle(
    before: Telemetry,
    board: BoardState,
    sensors: Seq<SensorReading>,
    fans: Seq<FanReading>,
    miner: Option<MinerState>,
    r: Option<u64>,
    after: Telemetry,
    state: BoardState,
    i: int,
)
    requires
        cycled(before, board, sensors, fans, miner, r, after, state),
    ensures
        state.temperatures@.len() == sensors.len(),
        0 <= i < sensors.len() ==> state.temperatures@[i].name == sensors[i].name
            && state.temperatures@[i].microc == sensors[i].microc,
        state.fans@.len() == fans.len(),
        0 <= i < fans.len() ==> state.fans@[i].name == fans[i].name && state.fans@[i].rpm
            == fans[i].rpm && state.fans@[i].target_percent == Some(50u8),
        state.name == board.name,
        state.model == board.model,
        state.serial == board.serial,
        state.powers == board.powers,
        state.threads == board.threads,
        state.hashboards == board.hashboards,
        r is Some <==> before.cycle_count % 5 == 0,
        r is Some && miner is Some ==> r->0 == miner->0.hashrate,
        r is Some && miner is None ==> r->0 == 0,
        before.cycle_count < u32::MAX ==> after.cycle_count == before.cycle_count + 1,
{
}

/// A shutdown stops the fans first, holds the hashboard in reset exactly when its
/// pin is still held, and switches the supply off exactly when there is one.
pub proof fn law_shutdown_order(held: HeldParts)
    ensures
        ({
            let steps = shutting_down(held);
            &&& steps[0] == (BoardStep::SetFans { percent: 0 })
            &&& held.reset_pin ==> steps[1] == (BoardStep::WriteReset { high: false })
            &&& held.psu ==> steps[steps.len() - 1] == (BoardStep::SetPsuEnabled { on: false })
            &&& steps.len() == 1 + (if held.reset_pin {
                1int
            } else {
                0
            }) + (if held.psu {
                1int
            } else {
                0
            })
        }),
{
}

/// Which steps must succeed: the reset line, switching the supply on, its
/// watchdog and its voltage.
pub proof fn law_fatal_steps(step: BoardStep)
    ensures
        obstacle(step) is Some <==> step is WriteReset || step is ConfigureWatchdog
            || step is SetVoltage || step == (BoardStep::SetPsuEnabled { on: true }),
{
}

/// The hashboard is held in reset all through the start, and the supply is on
/// before its voltage is set.
pub proof fn law_initialization_holds_reset(i: int, j: int)
    requires
        0 <= i < initialization().len(),
        0 <= j < initialization().len(),
    ensures
        initialization()[0] == (BoardStep::WriteReset { high: false }),
        initialization()[i] != (BoardStep::WriteReset { high: true }),
        initialization()[i] == (BoardStep::SetPsuEnabled { on: true }) && initialization()[j] is SetVoltage
            ==> 0 < i < j,
        initialization()[j] matches BoardStep::SetVoltage { microvolts } ==> microvolts
            == 12_600_000,
        initialization()[j] matches BoardStep::SetFans { percent } ==> percent == 50,
        initialization().contains(BoardStep::SetPsuEnabled { on: true }),
        initialization().contains(BoardStep::SetVoltage { microvolts: 12_600_000 }),
        initialization().contains(BoardStep::SetFans { percent: 50 }),
{
    let steps = initialization();
    assert(steps[1] == (BoardStep::SetPsuEnabled { on: true }));
    assert(steps[4] == (BoardStep::SetVoltage { microvolts: 12_600_000 }));
    assert(steps[7] == (BoardStep::SetFans { percent: 50 }));
}

} // verus!
