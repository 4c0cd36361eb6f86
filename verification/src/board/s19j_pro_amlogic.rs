//! S19j Pro on a native Antminer Amlogic control board.
//!
//! GPIO, PWM, I2C and the serial ports belong to the program around this module.

use crate::api::types::{BoardState, Fan, PowerMeasurement, TemperatureSensor, ThreadState};
use crate::asic::bm13xx::chain_config::ChainConfig;
use crate::asic::bm13xx::chip_config::{bm1362, is_bm1362};
use crate::asic::bm13xx::topology::TopologySpec;
use crate::asic::hash_thread::{HashThreadCapabilities, HashThreadStatus};
use crate::board::s19j_pro::{limited, round_half_up};
use crate::board::{identity_state, info_of, is_identity_state, BoardError, BoardInfo};
use crate::config::{
    AmlogicControlBoardConfig, AmlogicFanConfig, AmlogicFanControlConfig, AmlogicHashboardConfig,
    AmlogicHealthGateConfig,
};
use crate::text::{
    decimal, hex_at_least_two, hex_byte, push_decimal, push_hex_at_least_two, push_hex_byte,
    push_text, same_text,
};
use vstd::prelude::*;

verus! {

/// Time between two telemetry cycles, in milliseconds.
pub const TELEMETRY_INTERVAL_MS: u32 = 2_000;

/// Range of the supply, in microvolts.
pub const SUPPLY_MIN_MICROVOLTS: u32 = 12_000_000;

pub const SUPPLY_MAX_MICROVOLTS: u32 = 15_000_000;

/// How far a voltage that is read back may be off, in microvolts.
pub const READBACK_TOLERANCE_MICROVOLTS: u32 = 150_000;

/// How often a response of the supply is read.
pub const PSU_MAX_RESPONSE_ATTEMPTS: u8 = 3;

/// Identifies the control board: by its configured name, or by the default.
pub fn device_id(config: &AmlogicControlBoardConfig) -> (r: String)
    ensures
        r@ == device_id_of(*config),
{
    match &config.board_name {
        Some(name) => name.clone(),
        None => "s19jpro-amlogic".to_string(),
    }
}

/// Identifies the control board.
pub open spec fn device_id_of(config: AmlogicControlBoardConfig) -> Seq<char> {
    match config.board_name {
        Some(name) => name@,
        None => "s19jpro-amlogic"@,
    }
}

/// What a presence pin reads.
#[derive(Debug)]
pub enum Presence {
    Present,
    Missing,
    /// The pin could not be set up or read.
    Failed(String),
}

/// What came of looking at a presence pin.
#[derive(Debug)]
pub enum DetectReading {
    SetupFailed(String),
    ReadFailed(String),
    Value(u8),
}

/// What a presence pin tells.
pub fn is_hashboard_present(reading: DetectReading) -> (r: Presence)
    ensures
        presence_is(reading, r),
{
    match reading {
        DetectReading::SetupFailed(why) => {
            let mut text = String::new();
            push_text(&mut text, "Failed to configure detect GPIO: ");
            push_text(&mut text, why.as_str());
            assert(text@ =~= "Failed to configure detect GPIO: "@ + why@);
            Presence::Failed(text)
        },
        DetectReading::ReadFailed(why) => {
            let mut text = String::new();
            push_text(&mut text, "Failed to read detect GPIO: ");
            push_text(&mut text, why.as_str());
            assert(text@ =~= "Failed to read detect GPIO: "@ + why@);
            Presence::Failed(text)
        },
        DetectReading::Value(value) => if value != 0 {
            Presence::Present
        } else {
            Presence::Missing
        },
    }
}

/// How the choice of a hashboard ends.
pub enum Selection {
    /// The hashboard at this position.
    Chosen(int),
    NoneConfigured,
    NonePresent,
    /// The hashboard at this position is missing, which is fatal.
    FatallyMissing(int),
    /// The presence of the hashboard at this position could not be read.
    Unreadable(int),
}

/// Whether it is fatal that a hashboard is missing.
pub open spec fn missing_is_fatal(
    gate: AmlogicHealthGateConfig,
    hashboard: AmlogicHashboardConfig,
) -> bool {
    gate.fail_on_missing_expected_hashboard || hashboard.required
}

/// Whether the hashboard at a position ends the choice.
pub open spec fn ends_choice(
    config: AmlogicControlBoardConfig,
    presence: Seq<Presence>,
    i: int,
) -> bool {
    presence[i] is Failed || (presence[i] is Missing && missing_is_fatal(
        config.startup.health_gate,
        config.hashboards@[i],
    ))
}

/// Whether the choice of a hashboard ends this way. Hashboards are looked at in
/// order; the first that ends the choice does so, and if none does, the first
/// that is present is chosen.
pub open spec fn selects(
    config: AmlogicControlBoardConfig,
    presence: Seq<Presence>,
    selection: Selection,
) -> bool {
    let n = config.hashboards@.len() as int;
    match selection {
        Selection::NoneConfigured => n == 0,
        Selection::Chosen(i) => {
            &&& 0 <= i < n
            &&& presence[i] is Present
            &&& forall|j: int| 0 <= j < n ==> !#[trigger] ends_choice(config, presence, j)
            &&& forall|j: int| 0 <= j < i ==> !((#[trigger] presence[j]) is Present)
        },
        Selection::NonePresent => {
            &&& n > 0
            &&& forall|j: int|
                0 <= j < n ==> !#[trigger] ends_choice(config, presence, j) && !(
                presence[j] is Present)
        },
        Selection::FatallyMissing(i) => {
            &&& 0 <= i < n
            &&& presence[i] is Missing
            &&& ends_choice(config, presence, i)
            &&& forall|j: int| 0 <= j < i ==> !#[trigger] ends_choice(config, presence, j)
        },
        Selection::Unreadable(i) => {
            &&& 0 <= i < n
            &&& presence[i] is Failed
            &&& forall|j: int| 0 <= j < i ==> !#[trigger] ends_choice(config, presence, j)
        },
    }
}

/// Chooses the hashboard to run, by what the presence pins read in order.
pub fn select_hashboard(config: &AmlogicControlBoardConfig, presence: &Vec<Presence>) -> (r: Result<
    usize,
    BoardError,
>)
    requires
        presence@.len() == config.hashboards@.len(),
    ensures
        hashboard_selected(*config, presence@, r),
{
    let n: usize = config.hashboards.len();
    if n == 0 {
        return Err(
            BoardError::InitializationFailed(
                "Amlogic config has no configured hashboards".to_string(),
            ),
        );
    }
    let mut first: Option<usize> = None;
    let mut i: usize = 0;
    while i < n
        invariant
            i <= n == config.hashboards@.len() == presence@.len(),
            n > 0,
            forall|j: int| 0 <= j < i ==> !#[trigger] ends_choice(*config, presence@, j),
            match first {
                Some(k) => k < i && presence@[k as int] is Present && forall|j: int|
                    0 <= j < k ==> !((#[trigger] presence@[j]) is Present),
                None => forall|j: int| 0 <= j < i ==> !((#[trigger] presence@[j]) is Present),
            },
        decreases n - i,
    {
        match &presence[i] {
            Presence::Failed(why) => {
                assert(selects(*config, presence@, Selection::Unreadable(i as int)));
                return Err(BoardError::HardwareControl(why.clone()));
            },
            Presence::Missing => {
                if config.startup.health_gate.fail_on_missing_expected_hashboard
                    || config.hashboards[i].required {
                    let mut why = String::new();
                    push_text(&mut why, "Configured hashboard ");
                    push_decimal(&mut why, config.hashboards[i].index as u64);
                    push_text(&mut why, " is missing");
                    assert(why@ =~= "Configured hashboard "@ + decimal(
                        config.hashboards@[i as int].index as nat,
                    ) + " is missing"@);
                    assert(selects(*config, presence@, Selection::FatallyMissing(i as int)));
                    return Err(BoardError::InitializationFailed(why));
                }
            },
            Presence::Present => {
                if first.is_none() {
                    first = Some(i);
                }
            },
        }
        i = i + 1;
    }
    match first {
        Some(k) => Ok(k),
        None => {
            assert forall|j: int| 0 <= j < n implies !#[trigger] ends_choice(*config, presence@, j)
                && !(presence@[j] is Present) by {}
            Err(
                BoardError::InitializationFailed(
                    "No configured hashboards are present".to_string(),
                ),
            )
        },
    }
}

/// Whether this is the error of the first sensor that was not read.
pub open spec fn unread_sensor_error(sensors: Seq<TemperatureSensor>, error: BoardError) -> bool {
    &&& error matches BoardError::InitializationFailed(why)
    &&& exists|i: int| {
        &&& 0 <= i < sensors.len()
        &&& (#[trigger] sensors[i]).microc is None
        &&& forall|j: int| 0 <= j < i ==> (#[trigger] sensors[j]).microc is Some
        &&& why@ == "Temperature health gate failed for "@ + sensors[i].name@
    }
}

/// Checks that every temperature sensor was read.
pub fn check_temperatures(sensors: &Vec<TemperatureSensor>) -> (r: Result<(), BoardError>)
    ensures
        r is Ok <==> all_read(sensors@),
        r matches Err(e) ==> unread_sensor_error(sensors@, e),
{
    let mut i: usize = 0;
    while i < sensors.len()
        invariant
            i <= sensors@.len(),
            forall|j: int| 0 <= j < i ==> (#[trigger] sensors@[j]).microc is Some,
        decreases sensors@.len() - i,
    {
        if sensors[i].microc.is_none() {
            let mut why = String::new();
            push_text(&mut why, "Temperature health gate failed for ");
            push_text(&mut why, sensors[i].name.as_str());
            assert(why@ =~= "Temperature health gate failed for "@ + sensors@[i as int].name@);
            return Err(BoardError::InitializationFailed(why));
        }
        i = i + 1;
    }
    Ok(())
}

/// The error of a hashboard whose EEPROM could not be decoded.
pub fn eeprom_failure(index: u8, why: &str) -> (r: BoardError)
    ensures
        r matches BoardError::InitializationFailed(text) && text@
            == "EEPROM health gate failed for hashboard "@ + decimal(index as nat) + ": "@ + why@,
{
    let mut text = String::new();
    push_text(&mut text, "EEPROM health gate failed for hashboard ");
    push_decimal(&mut text, index as u64);
    push_text(&mut text, ": ");
    push_text(&mut text, why);
    assert(text@ =~= "EEPROM health gate failed for hashboard "@ + decimal(index as nat) + ": "@
        + why@);
    BoardError::InitializationFailed(text)
}

/// The error of an EEPROM whose device could not be opened.
pub fn eeprom_open_failure(device: &str, why: &str) -> (r: BoardError)
    ensures
        r matches BoardError::InitializationFailed(text) && text@
            == "Failed to open EEPROM I2C device "@ + device@ + ": "@ + why@,
{
    let mut text = String::new();
    push_text(&mut text, "Failed to open EEPROM I2C device ");
    push_text(&mut text, device);
    push_text(&mut text, ": ");
    push_text(&mut text, why);
    assert(text@ =~= "Failed to open EEPROM I2C device "@ + device@ + ": "@ + why@);
    BoardError::InitializationFailed(text)
}

/// The error of an EEPROM that could not be read even byte by byte.
pub fn eeprom_byte_failure(offset: u16, index: u8, why: &str) -> (r: BoardError)
    ensures
        r matches BoardError::InitializationFailed(text) && text@ == "Failed to read EEPROM byte "@
            + decimal(offset as nat) + " on hashboard "@ + decimal(index as nat) + ": "@ + why@,
{
    let mut text = String::new();
    push_text(&mut text, "Failed to read EEPROM byte ");
    push_decimal(&mut text, offset as u64);
    push_text(&mut text, " on hashboard ");
    push_decimal(&mut text, index as u64);
    push_text(&mut text, ": ");
    push_text(&mut text, why);
    assert(text@ =~= "Failed to read EEPROM byte "@ + decimal(offset as nat) + " on hashboard "@
        + decimal(index as nat) + ": "@ + why@);
    BoardError::InitializationFailed(text)
}

/// What came of reading a hashboard's EEPROM.
#[derive(Debug)]
pub enum EepromReading {
    Unreadable(BoardError),
    Undecodable(String),
    /// The board's serial number.
    Decoded(String),
}

/// Whether every sensor was read.
pub open spec fn all_read(sensors: Seq<TemperatureSensor>) -> bool {
    forall|i: int| 0 <= i < sensors.len() ==> (#[trigger] sensors[i]).microc is Some
}

/// Whether the EEPROM lets mining start.
pub open spec fn eeprom_passes(gate: AmlogicHealthGateConfig, eeprom: EepromReading) -> bool {
    !gate.read_eeprom_before_mining || eeprom is Decoded
}

/// The checks before mining starts, as far as they are asked for: the EEPROM can
/// be read and decoded, and every temperature sensor can be read. They give the
/// board's serial number and the temperatures.
pub fn perform_health_gate(
    gate: &AmlogicHealthGateConfig,
    index: u8,
    eeprom: EepromReading,
    temperatures: Result<Vec<TemperatureSensor>, BoardError>,
) -> (r: Result<(Option<String>, Vec<TemperatureSensor>), BoardError>)
    ensures
        gate_judged(*gate, index, eeprom, temperatures, r),
{
    let serial: Option<String> = if gate.read_eeprom_before_mining {
        match eeprom {
            EepromReading::Unreadable(e) => {
                return Err(e);
            },
            EepromReading::Undecodable(why) => {
                return Err(eeprom_failure(index, why.as_str()));
            },
            EepromReading::Decoded(serial) => Some(serial),
        }
    } else {
        None
    };
    if gate.read_temperatures_before_mining {
        match temperatures {
            Ok(sensors) => match check_temperatures(&sensors) {
                Ok(()) => Ok((serial, sensors)),
                Err(e) => Err(e),
            },
            Err(e) => Err(e),
        }
    } else {
        Ok((serial, Vec::new()))
    }
}

/// The PWM channel that drives a fan.
#[derive(Clone, Copy, Debug, PartialEq, Eq, Structural)]
pub struct PwmChannel {
    pub chip: u32,
    pub channel: u32,
}

/// The channel of a fan.
pub open spec fn channel_of(fan: AmlogicFanConfig) -> PwmChannel {
    PwmChannel { chip: fan.pwm_chip, channel: fan.pwm_channel }
}

/// The channels of the fans, each once, in the order in which they first occur.
pub open spec fn channels_of(fans: Seq<AmlogicFanConfig>) -> Seq<PwmChannel>
    decreases fans.len(),
{
    if fans.len() == 0 {
        Seq::<PwmChannel>::empty()
    } else {
        let rest = channels_of(fans.drop_last());
        if rest.contains(channel_of(fans.last())) {
            rest
        } else {
            rest.push(channel_of(fans.last()))
        }
    }
}

/// The channels to configure so that every fan is, each once.
pub fn fan_channels(fans: &Vec<AmlogicFanConfig>) -> (r: Vec<PwmChannel>)
    ensures
        r@ == channels_of(fans@),
{
    let mut channels: Vec<PwmChannel> = Vec::new();
    let mut i: usize = 0;
    while i < fans.len()
        invariant
            i <= fans@.len(),
            channels@ == channels_of(fans@.take(i as int)),
        decreases fans@.len() - i,
    {
        let channel = PwmChannel { chip: fans[i].pwm_chip, channel: fans[i].pwm_channel };
        assert(fans@.take(i + 1).drop_last() =~= fans@.take(i as int));
        if !has_channel(&channels, channel) {
            channels.push(channel);
        }
        i = i + 1;
    }
    assert(fans@.take(i as int) =~= fans@);
    channels
}

fn has_channel(channels: &Vec<PwmChannel>, channel: PwmChannel) -> (r: bool)
    ensures
        r == channels@.contains(channel),
{
    let mut i: usize = 0;
    while i < channels.len()
        invariant
            i <= channels@.len(),
            forall|j: int| 0 <= j < i ==> channels@[j] != channel,
        decreases channels@.len() - i,
    {
        if channels[i] == channel {
            return true;
        }
        i = i + 1;
    }
    false
}

/// Every fan's channel is configured, and none twice.
pub proof fn law_fan_channels(fans: Seq<AmlogicFanConfig>)
    ensures
        channels_of(fans).no_duplicates(),
        forall|i: int|
            0 <= i < fans.len() ==> channels_of(fans).contains(channel_of(#[trigger] fans[i])),
    decreases fans.len(),
{
    if fans.len() > 0 {
        let rest = channels_of(fans.drop_last());
        law_fan_channels(fans.drop_last());
        let all = channels_of(fans);
        assert forall|i: int| 0 <= i < fans.len() implies all.contains(
            channel_of(#[trigger] fans[i]),
        ) by {
            if i < fans.len() - 1 {
                assert(fans.drop_last()[i] == fans[i]);
                let k = choose|k: int| 0 <= k < rest.len() && rest[k] == channel_of(fans[i]);
                assert(all[k] == rest[k]);
            } else if !rest.contains(channel_of(fans.last())) {
                assert(all[rest.len() as int] == channel_of(fans.last()));
            }
        }
    }
}

/// The fans, as the API shows them.
pub open spec fn is_fan_state(fan: Fan, config: AmlogicFanConfig, percent: u8, rpm: Option<u32>) -> bool {
    &&& fan.name@ == "fan"@ + decimal(config.index as nat)
    &&& fan.rpm == rpm
    &&& fan.percent == Some(percent)
    &&& fan.target_percent == Some(percent)
}

/// The state of a fan.
fn fan_state(config: &AmlogicFanConfig, percent: u8, rpm: Option<u32>) -> (r: Fan)
    ensures
        is_fan_state(r, *config, percent, rpm),
{
    let mut name = String::new();
    push_text(&mut name, "fan");
    push_decimal(&mut name, config.index as u64);
    assert(name@ =~= "fan"@ + decimal(config.index as nat));
    Fan { name, rpm, percent: Some(percent), target_percent: Some(percent) }
}

/// The fans as the API shows them before they turn.
pub fn build_fan_state(fans: &Vec<AmlogicFanConfig>, percent: u8) -> (r: Vec<Fan>)
    ensures
        r@.len() == fans@.len(),
        forall|i: int|
            0 <= i < r@.len() ==> is_fan_state(#[trigger] r@[i], fans@[i], percent, None),
{
    let mut states: Vec<Fan> = Vec::new();
    let mut i: usize = 0;
    while i < fans.len()
        invariant
            i <= fans@.len(),
            states@.len() == i,
            forall|k: int|
                0 <= k < i ==> is_fan_state(#[trigger] states@[k], fans@[k], percent, None),
        decreases fans@.len() - i,
    {
        states.push(fan_state(&fans[i], percent, None));
        i = i + 1;
    }
    states
}

/// The fans as the API shows them, with their measured speeds.
pub fn read_fan_states(
    fans: &Vec<AmlogicFanConfig>,
    percent: u8,
    rpms: &Vec<Option<u32>>,
) -> (r: Vec<Fan>)
    requires
        rpms@.len() == fans@.len(),
    ensures
        fans_shown(fans@, percent, rpms@, r@),
{
    let mut states: Vec<Fan> = Vec::new();
    let mut i: usize = 0;
    while i < fans.len()
        invariant
            i <= fans@.len() == rpms@.len(),
            states@.len() == i,
            forall|k: int|
                0 <= k < i ==> is_fan_state(#[trigger] states@[k], fans@[k], percent, rpms@[k]),
        decreases fans@.len() - i,
    {
        states.push(fan_state(&fans[i], percent, rpms[i]));
        i = i + 1;
    }
    states
}

/// The error of an address that has more than seven bits.
pub open spec fn bad_address_text(address: u16) -> Seq<char> {
    "invalid 7-bit I2C address: 0x"@ + hex_at_least_two(address as nat)
}

/// Checks that an address has seven bits.
pub fn validate_i2c_address(address: u16) -> (r: Result<u16, BoardError>)
    ensures
        r is Ok <==> address <= 0x7F,
        r matches Ok(a) ==> a == address,
        r matches Err(e) ==> e matches BoardError::InitializationFailed(why) && why@
            == bad_address_text(address),
{
    if address > 0x7F {
        let mut why = String::new();
        push_text(&mut why, "invalid 7-bit I2C address: 0x");
        push_hex_at_least_two(&mut why, address);
        assert(why@ =~= bad_address_text(address));
        return Err(BoardError::InitializationFailed(why));
    }
    Ok(address)
}

/// The error of a hashboard slot that does not exist.
pub open spec fn bad_index_text(index: u8) -> Seq<char> {
    "invalid hashboard index: "@ + decimal(index as nat)
}

fn bad_index(index: u8) -> (r: BoardError)
    ensures
        r matches BoardError::InitializationFailed(why) && why@ == bad_index_text(index),
{
    let mut why = String::new();
    push_text(&mut why, "invalid hashboard index: ");
    push_decimal(&mut why, index as u64);
    assert(why@ =~= bad_index_text(index));
    BoardError::InitializationFailed(why)
}

/// The addresses of a slot's temperature sensors.
pub open spec fn slot_sensors(index: u8) -> Seq<u16> {
    if index == 0 {
        seq![0x4E, 0x4A]
    } else if index == 1 {
        seq![0x4D, 0x49]
    } else {
        seq![0x48, 0x4C]
    }
}

/// The addresses of a slot's temperature sensors.
pub fn tmp75_addresses(board_index: u8) -> (r: Result<Vec<u16>, BoardError>)
    ensures
        r is Ok <==> board_index < 3,
        r matches Ok(addresses) ==> addresses@ == slot_sensors(board_index),
        r matches Err(e) ==> e matches BoardError::InitializationFailed(why) && why@
            == bad_index_text(board_index),
{
    match board_index {
        0 => {
            let r: Vec<u16> = vec![0x4E, 0x4A];
            assert(r@ =~= slot_sensors(0));
            Ok(r)
        },
        1 => {
            let r: Vec<u16> = vec![0x4D, 0x49];
            assert(r@ =~= slot_sensors(1));
            Ok(r)
        },
        2 => {
            let r: Vec<u16> = vec![0x48, 0x4C];
            assert(r@ =~= slot_sensors(2));
            Ok(r)
        },
        _ => Err(bad_index(board_index)),
    }
}

/// The address of a slot's EEPROM.
pub open spec fn slot_eeprom(index: u8) -> u16 {
    if index == 0 {
        0x52
    } else if index == 1 {
        0x51
    } else {
        0x50
    }
}

/// The address of a slot's EEPROM.
pub fn eeprom_address(board_index: u8) -> (r: Result<u16, BoardError>)
    ensures
        r is Ok <==> board_index < 3,
        r matches Ok(address) ==> address == slot_eeprom(board_index),
        r matches Err(e) ==> e matches BoardError::InitializationFailed(why) && why@
            == bad_index_text(board_index),
{
    match board_index {
        0 => Ok(0x52),
        1 => Ok(0x51),
        2 => Ok(0x50),
        _ => Err(bad_index(board_index)),
    }
}

/// No two sensors and EEPROMs of the three slots share an address.
pub proof fn law_slot_addresses_distinct(i: u8, j: u8, a: int, b: int)
    requires
        i < 3,
        j < 3,
        0 <= a < 2,
        0 <= b < 2,
    ensures
        (i, a) != (j, b) ==> slot_sensors(i)[a] != slot_sensors(j)[b],
        i != j ==> slot_eeprom(i) != slot_eeprom(j),
        slot_sensors(i)[a] != slot_eeprom(j),
        slot_sensors(i)[a] <= 0x7F && slot_eeprom(i) <= 0x7F,
{
}

/// The addresses of a hashboard's temperature sensors: those configured, which
/// must be valid, or else those of its slot.
pub fn configured_tmp75_addresses(hashboard: &AmlogicHashboardConfig) -> (r: Result<
    Vec<u16>,
    BoardError,
>)
    ensures
        sensors_located(*hashboard, r),
{
    let configured = &hashboard.temp_sensor_addresses;
    if configured.len() == 0 {
        return tmp75_addresses(hashboard.index);
    }
    let mut addresses: Vec<u16> = Vec::new();
    let mut i: usize = 0;
    while i < configured.len()
        invariant
            *configured == hashboard.temp_sensor_addresses,
            configured@.len() > 0,
            i <= configured@.len(),
            addresses@ =~= configured@.take(i as int),
            forall|j: int| 0 <= j < i ==> (#[trigger] configured@[j]) <= 0x7F,
        decreases configured@.len() - i,
    {
        match validate_i2c_address(configured[i]) {
            Ok(address) => addresses.push(address),
            Err(e) => {
                assert(configured@[i as int] > 0x7F);
                return Err(e);
            },
        }
        i = i + 1;
    }
    assert(configured@.take(i as int) =~= configured@);
    Ok(addresses)
}

/// The address of a hashboard's EEPROM: the one configured, which must be valid,
/// or else that of its slot.
pub fn configured_eeprom_address(hashboard: &AmlogicHashboardConfig) -> (r: Result<u16, BoardError>)
    ensures
        eeprom_located(*hashboard, r),
{
    match hashboard.eeprom_address {
        Some(address) => validate_i2c_address(address),
        None => eeprom_address(hashboard.index),
    }
}

/// The temperature in a sensor's register, in millionths of a degree: a twelve
/// bit number in two's complement, in the register's high bits, of sixteenths of
/// a degree.
pub open spec fn tmp75_microc(raw: u16) -> int {
    let steps = raw as int / 16;
    62_500 * if steps >= 0x800 {
        steps - 0x1000
    } else {
        steps
    }
}

/// The temperature in a sensor's register, in millionths of a degree.
pub fn decode_tmp75(raw: u16) -> (r: i32)
    ensures
        r == tmp75_microc(raw),
{
    let steps: i32 = (raw / 16) as i32;
    if steps >= 0x800 {
        62_500 * (steps - 0x1000)
    } else {
        62_500 * steps
    }
}

/// The name of a hashboard's sensor.
pub open spec fn sensor_name(index: u8, sensor: nat) -> Seq<char> {
    "HB"@ + decimal(index as nat) + "-Temp"@ + decimal(sensor)
}

/// The error of a sensor that could not be read.
pub open spec fn sensor_failure_text(index: u8, sensor: nat, why: Seq<char>) -> Seq<char> {
    "Failed to read TMP75 sensor "@ + decimal(sensor) + " on hashboard "@ + decimal(index as nat)
        + ": "@ + why
}

/// The temperatures of a hashboard, by what its sensors' registers read. All of
/// them must have been read.
pub fn read_temperatures(hashboard: &AmlogicHashboardConfig, raws: &Vec<Result<u16, String>>) -> (r:
    Result<Vec<TemperatureSensor>, BoardError>)
    ensures
        temperatures_read(hashboard.index, raws@, r),
{
    let mut sensors: Vec<TemperatureSensor> = Vec::new();
    let mut i: usize = 0;
    while i < raws.len()
        invariant
            i <= raws@.len(),
            sensors@.len() == i,
            forall|j: int| 0 <= j < i ==> (#[trigger] raws@[j]) is Ok,
            forall|j: int|
                0 <= j < i ==> (#[trigger] sensors@[j]).name@ == sensor_name(
                    hashboard.index,
                    j as nat,
                ) && sensors@[j].microc == Some(tmp75_microc(raws@[j]->Ok_0) as i32),
        decreases raws@.len() - i,
    {
        match &raws[i] {
            Ok(raw) => {
                let mut name = String::new();
                push_text(&mut name, "HB");
                push_decimal(&mut name, hashboard.index as u64);
                push_text(&mut name, "-Temp");
                push_decimal(&mut name, i as u64);
                assert(name@ =~= sensor_name(hashboard.index, i as nat));
                sensors.push(TemperatureSensor { name, microc: Some(decode_tmp75(*raw)) });
            },
            Err(why) => {
                let mut text = String::new();
                push_text(&mut text, "Failed to read TMP75 sensor ");
                push_decimal(&mut text, i as u64);
                push_text(&mut text, " on hashboard ");
                push_decimal(&mut text, hashboard.index as u64);
                push_text(&mut text, ": ");
                push_text(&mut text, why.as_str());
                assert(text@ =~= sensor_failure_text(hashboard.index, i as nat, why@));
                assert(raws@[i as int] is Err);
                return Err(BoardError::InitializationFailed(text));
            },
        }
        i = i + 1;
    }
    Ok(sensors)
}

/// The rate of a thread: what it measures, or else its estimate.
pub fn thread_hashrate_value(
    status: &HashThreadStatus,
    capabilities: &HashThreadCapabilities,
) -> (r: u64)
    ensures
        r == if status.hashrate.0 > 0 {
            status.hashrate.0
        } else {
            capabilities.hashrate_estimate.0
        },
{
    if status.hashrate.0 > 0 {
        status.hashrate.0
    } else {
        capabilities.hashrate_estimate.0
    }
}

/// Whether the thread state at a position is the first of that name.
pub open spec fn first_named(threads: Seq<ThreadState>, name: Seq<char>, i: int) -> bool {
    &&& 0 <= i < threads.len()
    &&& threads[i].name@ == name
    &&& forall|j: int| 0 <= j < i ==> (#[trigger] threads[j]).name@ != name
}

/// Whether there is a thread state of that name.
pub open spec fn is_named(threads: Seq<ThreadState>, name: Seq<char>) -> bool {
    exists|i: int| 0 <= i < threads.len() && (#[trigger] threads[i]).name@ == name
}

/// Updates a thread's state in a list, or adds it.
pub fn sync_thread_state(threads: &mut Vec<ThreadState>, state: ThreadState)
    ensures
        thread_synced(old(threads)@, state, final(threads)@),
{
    let ghost before = threads@;
    let mut i: usize = 0;
    while i < threads.len()
        invariant
            before == old(threads)@,
            threads@ == before,
            i <= threads@.len(),
            forall|j: int| 0 <= j < i ==> (#[trigger] before[j]).name@ != state.name@,
        decreases threads@.len() - i,
    {
        if same_text(threads[i].name.as_str(), state.name.as_str()) {
            assert(first_named(before, state.name@, i as int));
            threads.set(i, state);
            return;
        }
        i = i + 1;
    }
    threads.push(state);
}

/// The state of a thread: active as the caller says, or else as it reports.
pub fn thread_state(
    name: String,
    status: &HashThreadStatus,
    capabilities: &HashThreadCapabilities,
    is_active_override: Option<bool>,
) -> (r: ThreadState)
    ensures
        thread_state_is(name, *status, *capabilities, is_active_override, r),
{
    ThreadState {
        name,
        hashrate: thread_hashrate_value(status, capabilities),
        is_active: match is_active_override {
            Some(active) => active,
            None => status.is_active,
        },
    }
}

/// The highest temperature that sensors report.
pub open spec fn peak_of(sensors: Seq<TemperatureSensor>) -> Option<i32>
    decreases sensors.len(),
{
    if sensors.len() == 0 {
        None
    } else {
        match (peak_of(sensors.drop_last()), sensors.last().microc) {
            (Some(a), Some(b)) => Some(
                if a >= b {
                    a
                } else {
                    b
                },
            ),
            (Some(a), None) => Some(a),
            (None, b) => b,
        }
    }
}

/// The highest temperature that sensors report.
pub fn peak_temperature(sensors: &Vec<TemperatureSensor>) -> (r: Option<i32>)
    ensures
        r == peak_of(sensors@),
{
    let mut peak: Option<i32> = None;
    let mut i: usize = 0;
    while i < sensors.len()
        invariant
            i <= sensors@.len(),
            peak == peak_of(sensors@.take(i as int)),
        decreases sensors@.len() - i,
    {
        assert(sensors@.take(i + 1).drop_last() =~= sensors@.take(i as int));
        peak =
        match (peak, sensors[i].microc) {
            (Some(a), Some(b)) => if a >= b {
                Some(a)
            } else {
                Some(b)
            },
            (Some(a), None) => Some(a),
            (None, b) => b,
        };
        i = i + 1;
    }
    assert(sensors@.take(i as int) =~= sensors@);
    peak
}

/// The fan controller.
#[derive(Clone, Copy, Debug, PartialEq, Eq, Structural)]
pub struct AmlogicFanController {
    pub config: AmlogicFanControlConfig,
    pub baseline_percent: u8,
    pub previous_microc: Option<i32>,
    /// In millionths of a degree times milliseconds.
    pub integral: i64,
}

/// The interval that the controller reckons with: at least a millisecond.
pub open spec fn control_interval(interval_ms: u32) -> int {
    if interval_ms < 1 {
        1
    } else {
        interval_ms as int
    }
}

/// The largest integral either way.
pub open spec fn integral_limit(config: AmlogicFanControlConfig) -> int {
    1_000_000 * config.integral_limit_milli
}

/// The integral after a sample. Only time between two samples counts, so the
/// first sample adds nothing.
pub open spec fn next_integral(c: AmlogicFanController, microc: i32, interval_ms: u32) -> int {
    match c.previous_microc {
        None => c.integral as int,
        Some(_) => limited(
            c.integral + (microc - c.config.target_microc) * control_interval(interval_ms),
            -integral_limit(c.config),
            integral_limit(c.config),
        ),
    }
}

/// The controller's output in units of `1e-12 / interval` percent: the baseline,
/// and the gains times the error, its integral and its rate of change.
pub open spec fn pid_output(c: AmlogicFanController, microc: i32, interval_ms: u32) -> int {
    let ms = control_interval(interval_ms);
    let change = match c.previous_microc {
        Some(previous) => microc - previous,
        None => 0,
    };
    1_000_000_000_000 * (c.baseline_percent * ms) + 1_000 * ((c.config.kp_milli * (microc
        - c.config.target_microc)) * ms) + (c.config.ki_milli * next_integral(
        c,
        microc,
        interval_ms,
    )) * ms + 1_000_000 * (c.config.kd_milli * change)
}

/// The fan speed that the controller asks for.
pub open spec fn fan_target(
    c: AmlogicFanController,
    peak: Option<i32>,
    interval_ms: u32,
) -> int {
    if !c.config.enabled {
        c.baseline_percent as int
    } else {
        match peak {
            None => c.config.max_percent as int,
            Some(microc) => {
                let output = pid_output(c, microc, interval_ms);
                let unit = 1_000_000_000_000 * control_interval(interval_ms);
                limited(
                    if output < 0 {
                        0
                    } else {
                        round_half_up(output, unit)
                    },
                    c.config.min_percent as int,
                    c.config.max_percent as int,
                )
            },
        }
    }
}

impl AmlogicFanController {
    /// The configured speeds are in order where they count, and the integral is
    /// within its limit.
    pub open spec fn wf(&self) -> bool {
        &&& self.config.enabled ==> self.config.min_percent <= self.config.max_percent
        &&& -integral_limit(self.config) <= self.integral <= integral_limit(self.config)
    }

    /// A controller that has seen nothing.
    pub fn new(config: &AmlogicControlBoardConfig) -> (r: AmlogicFanController)
        requires
            config.startup.fan_control.enabled ==> config.startup.fan_control.min_percent
                <= config.startup.fan_control.max_percent,
        ensures
            r.wf(),
            controller_made(*config, r),
    {
        AmlogicFanController {
            config: config.startup.fan_control,
            baseline_percent: config.startup.default_fan_percent,
            previous_microc: None,
            integral: 0,
        }
    }

    /// Whether the controller does anything.
    pub fn is_enabled(&self) -> (r: bool)
        ensures
            r == self.config.enabled,
    {
        self.config.enabled
    }

    /// The fan speed for what the sensors report. Without a temperature the fans
    /// run at their maximum.
    pub fn target_percent(
        &mut self,
        temperatures: &Vec<TemperatureSensor>,
        interval_ms: u32,
    ) -> (r: u8)
        requires
            old(self).wf(),
        ensures
            final(self).wf(),
            fans_controlled(*old(self), temperatures@, interval_ms, r, *final(self)),
    {
        if !self.config.enabled {
            return self.baseline_percent;
        }
        let microc: i32 = match peak_temperature(temperatures) {
            Some(microc) => microc,
            None => {
                self.previous_microc = None;
                self.integral = 0;
                return self.config.max_percent;
            },
        };
        let ghost c = *self;
        let ms: i128 = if interval_ms < 1 {
            1
        } else {
            interval_ms as i128
        };
        let error: i128 = microc as i128 - self.config.target_microc as i128;
        assert(-0x1_0000_0000 * 0x1_0000_0000 <= error * ms <= 0x1_0000_0000 * 0x1_0000_0000)
            by (nonlinear_arith)
            requires
                -0x1_0000_0000 <= error <= 0x1_0000_0000,
                0 <= ms <= 0x1_0000_0000,
        ;
        let limit: i128 = 1_000_000 * self.config.integral_limit_milli as i128;
        let integral: i128 = match self.previous_microc {
            None => self.integral as i128,
            Some(_) => {
                let sum: i128 = self.integral as i128 + error * ms;
                if sum < -limit {
                    -limit
                } else if sum > limit {
                    limit
                } else {
                    sum
                }
            },
        };
        let change: i128 = match self.previous_microc {
            Some(previous) => microc as i128 - previous as i128,
            None => 0,
        };
        assert(integral == next_integral(c, microc, interval_ms));
        self.integral = integral as i64;
        self.previous_microc = Some(microc);

        let kp: i128 = self.config.kp_milli as i128;
        let ki: i128 = self.config.ki_milli as i128;
        let kd: i128 = self.config.kd_milli as i128;
        let baseline: i128 = self.baseline_percent as i128;
        proof {
            lemma_product_bound(kp as int, error as int, 0x8000_0000, 0x1_0000_0000);
            lemma_product_bound(kd as int, change as int, 0x8000_0000, 0x1_0000_0000);
            lemma_product_bound(ki as int, integral as int, 0x8000_0000, 0x10_0000_0000_0000);
            lemma_product_bound(baseline as int, ms as int, 0x100, 0x1_0000_0000);
            lemma_product_bound(
                kp * error,
                ms as int,
                0x8000_0000_0000_0000int,
                0x1_0000_0000,
            );
            lemma_product_bound(
                ki * integral,
                ms as int,
                0x8_0000_0000_0000_0000_0000int,
                0x1_0000_0000,
            );
        }
        let output: i128 = 1_000_000_000_000 * (baseline * ms) + 1_000 * ((kp * error) * ms) + (ki
            * integral) * ms + 1_000_000 * (kd * change);
        assert(output == pid_output(c, microc, interval_ms));
        let unit: i128 = 1_000_000_000_000 * ms;
        let rounded: i128 = if output < 0 {
            0
        } else {
            (2 * output + unit) / (2 * unit)
        };
        assert(output >= 0 ==> rounded == round_half_up(output as int, unit as int)) by {
            if output >= 0 {
                assert(rounded == (2 * output + unit) / (2 * unit));
            }
        }
        if rounded < self.config.min_percent as i128 {
            self.config.min_percent
        } else if rounded > self.config.max_percent as i128 {
            self.config.max_percent
        } else {
            rounded as u8
        }
    }
}

proof fn lemma_product_bound(x: int, y: int, a: int, b: int)
    requires
        -a <= x <= a,
        -b <= y <= b,
        0 <= a,
        0 <= b,
    ensures
        -(a * b) <= x * y <= a * b,
{
    assert(-(a * b) <= x * y <= a * b) by (nonlinear_arith)
        requires
            -a <= x <= a,
            -b <= y <= b,
            0 <= a,
            0 <= b,
    ;
}

/// An enabled controller stays within the configured speeds, and without a
/// temperature it asks for the highest.
pub proof fn law_fan_speeds_limited(
    c: AmlogicFanController,
    peak: Option<i32>,
    interval_ms: u32,
)
    requires
        c.wf(),
        c.config.enabled,
    ensures
        c.config.min_percent <= fan_target(c, peak, interval_ms) <= c.config.max_percent,
        peak is None ==> fan_target(c, peak, interval_ms) == c.config.max_percent,
{
}

/// What a telemetry cycle carries over to the next.
#[derive(Debug)]
pub struct NativeTelemetry {
    pub controller: AmlogicFanController,
    pub applied_percent: u8,
}

impl NativeTelemetry {
    /// The fan speed to set, if it is another than the one that is applied.
    pub fn cycle(&mut self, temperatures: &Vec<TemperatureSensor>) -> (r: Option<u8>)
        requires
            old(self).controller.wf(),
        ensures
            final(self).controller.wf(),
            native_cycled(*old(self), temperatures@, r, *final(self)),
    {
        let target: u8 = self.controller.target_percent(temperatures, TELEMETRY_INTERVAL_MS);
        if target != self.applied_percent {
            Some(target)
        } else {
            None
        }
    }

    /// Books a fan speed that was set.
    pub fn applied(&mut self, percent: u8)
        ensures
            final(self).applied_percent == percent,
            final(self).controller == old(self).controller,
    {
        self.applied_percent = percent;
    }
}

/// A supply voltage brought into the supply's range.
pub fn clamp_supply(microvolts: u32) -> (r: u32)
    ensures
        r == supply_of(microvolts),
{
    if microvolts < SUPPLY_MIN_MICROVOLTS {
        SUPPLY_MIN_MICROVOLTS
    } else if microvolts > SUPPLY_MAX_MICROVOLTS {
        SUPPLY_MAX_MICROVOLTS
    } else {
        microvolts
    }
}

/// Whether a voltage that is read back shows that the supply took the requested
/// one, though its response was not understood.
pub fn accepts_readback(requested: u32, readback: u32) -> (r: bool)
    ensures
        r == readback_accepted(requested, readback),
{
    if readback >= requested {
        readback - requested <= READBACK_TOLERANCE_MICROVOLTS
    } else {
        requested - readback <= READBACK_TOLERANCE_MICROVOLTS
    }
}

/// How a response of the supply is being read, byte by byte.
#[derive(Debug)]
pub enum FrameReader {
    /// Looking for the preamble or for a refusal.
    Seek,
    /// The preamble's second byte comes next.
    Preamble,
    /// The length comes next.
    Length,
    /// These bytes have come, and as many more are to come.
    Body { response: Vec<u8>, remaining: u8 },
    /// The response is complete.
    Done { response: Vec<u8> },
    /// The preamble was followed by this byte.
    BadPreamble { second: u8 },
    /// The length does not even cover itself.
    BadLength,
}

/// How a response is being read, as contracts speak of it.
pub enum ReaderView {
    Seek,
    Preamble,
    Length,
    Body(Seq<u8>, u8),
    Done(Seq<u8>),
    BadPreamble(u8),
    BadLength,
}

impl View for FrameReader {
    type V = ReaderView;

    open spec fn view(&self) -> ReaderView {
        match self {
            FrameReader::Seek => ReaderView::Seek,
            FrameReader::Preamble => ReaderView::Preamble,
            FrameReader::Length => ReaderView::Length,
            FrameReader::Body { response, remaining } => ReaderView::Body(response@, *remaining),
            FrameReader::Done { response } => ReaderView::Done(response@),
            FrameReader::BadPreamble { second } => ReaderView::BadPreamble(*second),
            FrameReader::BadLength => ReaderView::BadLength,
        }
    }
}

/// The reader after one more byte. A complete or broken reader takes no more.
pub open spec fn fed(reader: ReaderView, byte: u8, nak: u8) -> ReaderView {
    match reader {
        ReaderView::Seek => if byte == nak {
            ReaderView::Done(seq![nak])
        } else if byte == 0x55 {
            ReaderView::Preamble
        } else {
            ReaderView::Seek
        },
        ReaderView::Preamble => if byte == 0xAA {
            ReaderView::Length
        } else {
            ReaderView::BadPreamble(byte)
        },
        ReaderView::Length => if byte == 0 {
            ReaderView::BadLength
        } else if byte == 1 {
            ReaderView::Done(seq![0x55u8, 0xAA, 1])
        } else {
            ReaderView::Body(seq![0x55u8, 0xAA, byte], (byte - 1) as u8)
        },
        ReaderView::Body(response, remaining) => if remaining <= 1 {
            ReaderView::Done(response.push(byte))
        } else {
            ReaderView::Body(response.push(byte), (remaining - 1) as u8)
        },
        _ => reader,
    }
}

/// The reader after more bytes.
pub open spec fn fed_all(reader: ReaderView, bytes: Seq<u8>, nak: u8) -> ReaderView
    decreases bytes.len(),
{
    if bytes.len() == 0 {
        reader
    } else {
        fed(fed_all(reader, bytes.drop_last(), nak), bytes.last(), nak)
    }
}

/// Why a response is no frame, if it is none.
pub open spec fn frame_problem(reader: FrameReader) -> Option<Seq<char>> {
    match reader {
        FrameReader::BadPreamble { second } => Some(
            "invalid preamble continuation: 0x"@ + hex_byte(second),
        ),
        FrameReader::BadLength => Some("response length underflow"@),
        _ => None,
    }
}

impl FrameReader {
    /// Why a response is no frame, if it is none.
    pub fn problem(&self) -> (r: Option<String>)
        ensures
            match r {
                Some(text) => frame_problem(*self) == Some(text@),
                None => frame_problem(*self) is None,
            },
    {
        match self {
            FrameReader::BadPreamble { second } => {
                let mut text = String::new();
                push_text(&mut text, "invalid preamble continuation: 0x");
                push_hex_byte(&mut text, *second);
                assert(text@ =~= "invalid preamble continuation: 0x"@ + hex_byte(*second));
                Some(text)
            },
            FrameReader::BadLength => Some("response length underflow".to_string()),
            _ => None,
        }
    }

    /// Takes one more byte. `nak` is the byte with which the supply refuses.
    pub fn feed(self, byte: u8, nak: u8) -> (r: FrameReader)
        ensures
            r@ == fed(self@, byte, nak),
    {
        match self {
            FrameReader::Seek => if byte == nak {
                let response: Vec<u8> = vec![nak];
                assert(response@ =~= seq![nak]);
                FrameReader::Done { response }
            } else if byte == 0x55 {
                FrameReader::Preamble
            } else {
                FrameReader::Seek
            },
            FrameReader::Preamble => if byte == 0xAA {
                FrameReader::Length
            } else {
                FrameReader::BadPreamble { second: byte }
            },
            FrameReader::Length => if byte == 0 {
                FrameReader::BadLength
            } else {
                let response: Vec<u8> = vec![0x55, 0xAA, byte];
                assert(response@ =~= seq![0x55u8, 0xAA, byte]);
                if byte == 1 {
                    FrameReader::Done { response }
                } else {
                    FrameReader::Body { response, remaining: byte - 1 }
                }
            },
            FrameReader::Body { response, remaining } => {
                let mut response = response;
                response.push(byte);
                if remaining <= 1 {
                    FrameReader::Done { response }
                } else {
                    FrameReader::Body { response, remaining: remaining - 1 }
                }
            },
            other => other,
        }
    }
}

/// A frame with this body, which is at most 254 bytes long.
pub open spec fn frame_with(body: Seq<u8>) -> Seq<u8> {
    seq![0x55u8, 0xAA, (body.len() + 1) as u8] + body
}

/// A frame is read as it was sent, however many bytes of noise come before it,
/// as long as none of them begins a frame or refuses.
pub proof fn law_frame_read_back(noise: Seq<u8>, body: Seq<u8>, nak: u8)
    requires
        body.len() <= 254,
        nak != 0x55,
        forall|i: int| 0 <= i < noise.len() ==> (#[trigger] noise[i]) != 0x55 && noise[i] != nak,
    ensures
        fed_all(ReaderView::Seek, noise + frame_with(body), nak) == ReaderView::Done(
            frame_with(body),
        ),
{
    let frame = frame_with(body);
    lemma_noise_skipped(noise, nak);
    let s1 = noise.push(0x55);
    let s2 = s1.push(0xAA);
    let s3 = s2.push((body.len() + 1) as u8);
    assert(s1.drop_last() =~= noise);
    assert(s2.drop_last() =~= s1);
    assert(s3.drop_last() =~= s2);
    assert(s1.last() == 0x55 && s2.last() == 0xAA && s3.last() == (body.len() + 1) as u8);
    assert(fed_all(ReaderView::Seek, s1, nak) == ReaderView::Preamble);
    assert(fed_all(ReaderView::Seek, s2, nak) == ReaderView::Length);
    assert(noise + frame =~= s3 + body);
    if body.len() > 0 {
        lemma_body_read(s3, body, body.len() as int, nak);
        assert(body.take(body.len() as int) =~= body);
    } else {
        assert(s3 + body =~= s3);
        assert(frame =~= seq![0x55u8, 0xAA, 1]);
    }
}

proof fn lemma_noise_skipped(noise: Seq<u8>, nak: u8)
    requires
        forall|i: int| 0 <= i < noise.len() ==> (#[trigger] noise[i]) != 0x55 && noise[i] != nak,
    ensures
        fed_all(ReaderView::Seek, noise, nak) == ReaderView::Seek,
    decreases noise.len(),
{
    if noise.len() > 0 {
        lemma_noise_skipped(noise.drop_last(), nak);
        assert(noise[noise.len() - 1] == noise.last());
    }
}

proof fn lemma_body_read(head: Seq<u8>, body: Seq<u8>, k: int, nak: u8)
    requires
        0 <= k <= body.len() <= 254,
        body.len() > 0,
        fed_all(ReaderView::Seek, head, nak) == ReaderView::Body(
            seq![0x55u8, 0xAA, (body.len() + 1) as u8],
            body.len() as u8,
        ),
    ensures
        fed_all(ReaderView::Seek, head + body.take(k), nak) == if k == body.len() {
            ReaderView::Done(frame_with(body))
        } else {
            ReaderView::Body(
                seq![0x55u8, 0xAA, (body.len() + 1) as u8] + body.take(k),
                (body.len() - k) as u8,
            )
        },
    decreases k,
{
    let first = seq![0x55u8, 0xAA, (body.len() + 1) as u8];
    if k == 0 {
        assert(head + body.take(0) =~= head);
        assert(first + body.take(0) =~= first);
    } else {
        lemma_body_read(head, body, k - 1, nak);
        let all = head + body.take(k);
        assert(all.drop_last() =~= head + body.take(k - 1));
        assert(all.last() == body[k - 1]);
        assert((first + body.take(k - 1)).push(body[k - 1]) =~= first + body.take(k));
        if k == body.len() {
            assert(first + body.take(k) =~= frame_with(body));
        }
    }
}

/// What came of reading a response.
#[derive(Debug)]
pub enum PsuReply {
    Refused,
    /// A frame for this command.
    Frame { command: u8, payload: Vec<u8> },
    /// A frame that could not be parsed, or a read that failed.
    Broken(String),
}

/// How an exchange with the supply goes on.
#[derive(Debug)]
pub enum ExchangeStep {
    /// Wait, and read again.
    Retry,
    /// The supply answered with this payload.
    Answered { payload: Vec<u8> },
    /// The supply did not answer.
    Failed { why: String },
}

/// An exchange with the supply whose command has been sent.
#[derive(Debug)]
pub struct PsuExchange {
    pub command: u8,
    pub attempts_left: u8,
}

/// Why a reply was not the answer.
pub open spec fn reply_problem(reply: PsuReply, command: u8) -> Seq<char> {
    match reply {
        PsuReply::Refused => "PSU returned NAK"@,
        PsuReply::Frame { command: other, .. } => "unexpected PSU response command 0x"@ + hex_byte(
            other,
        ) + " for request 0x"@ + hex_byte(command),
        PsuReply::Broken(why) => why@,
    }
}

impl PsuExchange {
    /// An exchange whose command has just been sent.
    pub fn new(command: u8) -> (r: PsuExchange)
        ensures
            r.command == command,
            r.attempts_left == PSU_MAX_RESPONSE_ATTEMPTS,
    {
        PsuExchange { command, attempts_left: PSU_MAX_RESPONSE_ATTEMPTS }
    }

    /// Takes a reply. A frame for the command is the answer; after anything else
    /// the response is read again, three times in all, and the last problem is
    /// reported.
    pub fn on_reply(&mut self, reply: PsuReply) -> (r: ExchangeStep)
        requires
            old(self).attempts_left > 0,
        ensures
            reply_taken(*old(self), reply, r, *final(self)),
    {
        self.attempts_left = self.attempts_left - 1;
        let mut why = String::new();
        match &reply {
            PsuReply::Frame { command, payload: _ } => {
                if *command == self.command {
                    return match reply {
                        PsuReply::Frame { command: _, payload } => ExchangeStep::Answered {
                            payload,
                        },
                        _ => ExchangeStep::Retry,
                    };
                }
                push_text(&mut why, "unexpected PSU response command 0x");
                push_hex_byte(&mut why, *command);
                push_text(&mut why, " for request 0x");
                push_hex_byte(&mut why, self.command);
            },
            PsuReply::Refused => push_text(&mut why, "PSU returned NAK"),
            PsuReply::Broken(text) => push_text(&mut why, text.as_str()),
        }
        assert(why@ =~= reply_problem(reply, self.command));
        if self.attempts_left > 0 {
            ExchangeStep::Retry
        } else {
            ExchangeStep::Failed { why }
        }
    }
}

/// Where the bring-up of power and cooling is.
#[derive(Clone, Copy, Debug, PartialEq, Eq, Structural)]
pub enum PowerPhase {
    /// Fans are being set.
    Fans,
    /// Every hashboard is being held in reset.
    Resets,
    /// The supply is being switched on.
    Enable,
    /// It settles.
    Settle,
    /// Its watchdog is being configured, which shows whether it can be talked to.
    Watchdog,
    /// Its voltage is being set.
    Voltage,
    /// Its voltage is being measured.
    Measure,
    /// It is on; whether it can be talked to is known.
    Done { online: bool },
    /// It could not be brought up.
    Failed,
}

/// The phase that follows one that succeeded or failed. A supply that cannot be
/// talked to is left at what it gives; a measurement may fail.
pub open spec fn next_power_phase(phase: PowerPhase, ok: bool) -> PowerPhase {
    match phase {
        PowerPhase::Fans => if ok {
            PowerPhase::Resets
        } else {
            PowerPhase::Failed
        },
        PowerPhase::Resets => if ok {
            PowerPhase::Enable
        } else {
            PowerPhase::Failed
        },
        PowerPhase::Enable => if ok {
            PowerPhase::Settle
        } else {
            PowerPhase::Failed
        },
        PowerPhase::Settle => PowerPhase::Watchdog,
        PowerPhase::Watchdog => if ok {
            PowerPhase::Voltage
        } else {
            PowerPhase::Done { online: false }
        },
        PowerPhase::Voltage => if ok {
            PowerPhase::Measure
        } else {
            PowerPhase::Failed
        },
        PowerPhase::Measure => PowerPhase::Done { online: true },
        _ => phase,
    }
}

impl PowerPhase {
    /// The phase that follows.
    pub fn advance(self, ok: bool) -> (r: PowerPhase)
        ensures
            r == next_power_phase(self, ok),
    {
        match self {
            PowerPhase::Fans => if ok {
                PowerPhase::Resets
            } else {
                PowerPhase::Failed
            },
            PowerPhase::Resets => if ok {
                PowerPhase::Enable
            } else {
                PowerPhase::Failed
            },
            PowerPhase::Enable => if ok {
                PowerPhase::Settle
            } else {
                PowerPhase::Failed
            },
            PowerPhase::Settle => PowerPhase::Watchdog,
            PowerPhase::Watchdog => if ok {
                PowerPhase::Voltage
            } else {
                PowerPhase::Done { online: false }
            },
            PowerPhase::Voltage => if ok {
                PowerPhase::Measure
            } else {
                PowerPhase::Failed
            },
            PowerPhase::Measure => PowerPhase::Done { online: true },
            other => other,
        }
    }
}

/// The phase after outcomes, from the first phase on.
pub open spec fn phase_after(outcomes: Seq<bool>) -> PowerPhase
    decreases outcomes.len(),
{
    if outcomes.len() == 0 {
        PowerPhase::Fans
    } else {
        next_power_phase(phase_after(outcomes.drop_last()), outcomes.last())
    }
}

/// The supply is not switched on before the fans run and every hashboard is in
/// reset, and it counts as reachable only once its voltage has been set.
pub proof fn law_power_comes_last(outcomes: Seq<bool>)
    ensures
        match phase_after(outcomes) {
            PowerPhase::Fans => outcomes.len() == 0,
            PowerPhase::Resets => outcomes.len() == 1 && outcomes[0],
            PowerPhase::Failed => true,
            PowerPhase::Done { online } => {
                &&& outcomes.len() >= 5 && outcomes[0] && outcomes[1] && outcomes[2]
                &&& online ==> outcomes.len() >= 7 && outcomes[4] && outcomes[5]
            },
            PowerPhase::Enable => outcomes.len() == 2 && outcomes[0] && outcomes[1],
            PowerPhase::Settle => outcomes.len() == 3 && outcomes[0] && outcomes[1] && outcomes[2],
            PowerPhase::Watchdog => outcomes.len() == 4 && outcomes[0] && outcomes[1]
                && outcomes[2],
            PowerPhase::Voltage => outcomes.len() == 5 && outcomes[0] && outcomes[1]
                && outcomes[2] && outcomes[4],
            PowerPhase::Measure => outcomes.len() == 6 && outcomes[0] && outcomes[1]
                && outcomes[2] && outcomes[4] && outcomes[5],
        },
    decreases outcomes.len(),
{
    if outcomes.len() > 0 {
        law_power_comes_last(outcomes.drop_last());
    }
}

/// A step of the work on the control board's hardware.
#[derive(Clone, Copy, Debug, PartialEq, Eq, Structural)]
pub enum HardwareStep {
    /// Hold a hashboard in reset.
    AssertReset { index: u8, gpio: u32 },
    SetPwm { channel: PwmChannel, percent: u8 },
    SetPsuEnabled { on: bool },
    Wait { ms: u64 },
}

/// The reset of a hashboard.
pub open spec fn reset_of(hashboard: AmlogicHashboardConfig) -> HardwareStep {
    HardwareStep::AssertReset { index: hashboard.index, gpio: hashboard.reset_gpio }
}

/// The steps that hold every configured hashboard in reset.
pub open spec fn reset_steps(config: AmlogicControlBoardConfig) -> Seq<HardwareStep> {
    config.hashboards@.map_values(|h: AmlogicHashboardConfig| reset_of(h)).push(
        HardwareStep::Wait { ms: config.startup.reset_assert_ms },
    )
}

/// The steps that hold every configured hashboard in reset.
pub fn assert_all_resets(config: &AmlogicControlBoardConfig) -> (r: Vec<HardwareStep>)
    ensures
        r@ == reset_steps(*config),
{
    let mut steps: Vec<HardwareStep> = Vec::new();
    let ghost resets = config.hashboards@.map_values(|h: AmlogicHashboardConfig| reset_of(h));
    let mut i: usize = 0;
    while i < config.hashboards.len()
        invariant
            i <= config.hashboards@.len(),
            resets == config.hashboards@.map_values(|h: AmlogicHashboardConfig| reset_of(h)),
            steps@ =~= resets.take(i as int),
        decreases config.hashboards@.len() - i,
    {
        let hashboard = &config.hashboards[i];
        steps.push(
            HardwareStep::AssertReset { index: hashboard.index, gpio: hashboard.reset_gpio },
        );
        i = i + 1;
    }
    steps.push(HardwareStep::Wait { ms: config.startup.reset_assert_ms });
    assert(steps@ =~= reset_steps(*config));
    steps
}

/// The steps that set every fan.
pub open spec fn fan_steps(fans: Seq<AmlogicFanConfig>, percent: u8) -> Seq<HardwareStep> {
    channels_of(fans).map_values(|c: PwmChannel| HardwareStep::SetPwm { channel: c, percent })
}

/// The steps that set every fan. A channel that drives several is set once.
pub fn configure_fans(config: &AmlogicControlBoardConfig, percent: u8) -> (r: Vec<HardwareStep>)
    ensures
        r@ == fan_steps(config.fans@, percent),
{
    let channels = fan_channels(&config.fans);
    let ghost wanted = fan_steps(config.fans@, percent);
    let mut steps: Vec<HardwareStep> = Vec::new();
    let mut i: usize = 0;
    while i < channels.len()
        invariant
            i <= channels@.len(),
            channels@ == channels_of(config.fans@),
            wanted == fan_steps(config.fans@, percent),
            steps@ =~= wanted.take(i as int),
        decreases channels@.len() - i,
    {
        steps.push(HardwareStep::SetPwm { channel: channels[i], percent });
        i = i + 1;
    }
    assert(wanted.take(i as int) =~= wanted);
    steps
}

/// The steps of a shutdown.
pub open spec fn shutting_down(config: AmlogicControlBoardConfig) -> Seq<HardwareStep> {
    (reset_steps(config) + fan_steps(config.fans@, 0)).push(
        HardwareStep::SetPsuEnabled { on: false },
    )
}

/// The steps of a shutdown. The first that fails ends it.
pub fn shutdown(config: &AmlogicControlBoardConfig) -> (r: Vec<HardwareStep>)
    ensures
        r@ == shutting_down(*config),
{
    let mut steps = assert_all_resets(config);
    let mut fans = configure_fans(config, 0);
    steps.append(&mut fans);
    steps.push(HardwareStep::SetPsuEnabled { on: false });
    assert(steps@ =~= shutting_down(*config));
    steps
}

/// A shutdown puts every configured hashboard in reset, and switching the supply
/// off is the last step.
pub proof fn law_shutdown_resets_hashboards(config: AmlogicControlBoardConfig, i: int)
    requires
        0 <= i < config.hashboards@.len(),
    ensures
        shutting_down(config)[i] == reset_of(config.hashboards@[i]),
        shutting_down(config).last() == (HardwareStep::SetPsuEnabled { on: false }),
{
}

/// What is said when a step fails. A wait does not.
pub open spec fn step_failure(step: HardwareStep, why: Seq<char>) -> Option<Seq<char>> {
    match step {
        HardwareStep::AssertReset { index, .. } => Some(
            "Failed to assert reset for hashboard "@ + decimal(index as nat) + ": "@ + why,
        ),
        HardwareStep::SetPwm { channel, .. } => Some(
            "Failed to configure pwmchip"@ + decimal(channel.chip as nat) + "/pwm"@ + decimal(
                channel.channel as nat,
            ) + ": "@ + why,
        ),
        HardwareStep::SetPsuEnabled { on: true } => Some("Failed to enable PSU: "@ + why),
        HardwareStep::SetPsuEnabled { on: false } => Some("Failed to disable PSU: "@ + why),
        HardwareStep::Wait { .. } => None,
    }
}

/// The error of a step that failed.
pub fn fail_step(step: HardwareStep, why: &str) -> (r: Option<BoardError>)
    ensures
        match r {
            Some(e) => e matches BoardError::HardwareControl(text) && step_failure(step, why@)
                == Some(text@),
            None => step_failure(step, why@) is None,
        },
{
    let mut text = String::new();
    match step {
        HardwareStep::AssertReset { index, .. } => {
            push_text(&mut text, "Failed to assert reset for hashboard ");
            push_decimal(&mut text, index as u64);
            push_text(&mut text, ": ");
        },
        HardwareStep::SetPwm { channel, .. } => {
            push_text(&mut text, "Failed to configure pwmchip");
            push_decimal(&mut text, channel.chip as u64);
            push_text(&mut text, "/pwm");
            push_decimal(&mut text, channel.channel as u64);
            push_text(&mut text, ": ");
        },
        HardwareStep::SetPsuEnabled { on } => if on {
            push_text(&mut text, "Failed to enable PSU: ")
        } else {
            push_text(&mut text, "Failed to disable PSU: ")
        },
        HardwareStep::Wait { .. } => {
            return None;
        },
    }
    push_text(&mut text, why);
    assert(step_failure(step, why@)->0 =~= text@);
    Some(BoardError::HardwareControl(text))
}

/// The reading in the supply's answer to a measurement: its first two bytes.
pub fn measured_bytes(payload: &Vec<u8>) -> (r: Result<(u8, u8), String>)
    ensures
        r is Ok <==> payload@.len() >= 2,
        r matches Ok((high, low)) ==> high == payload@[0] && low == payload@[1],
        r matches Err(why) ==> why@ == "missing ADC payload from PSU"@,
{
    if payload.len() < 2 {
        Err("missing ADC payload from PSU".to_string())
    } else {
        Ok((payload[0], payload[1]))
    }
}

/// The setting in the supply's answer about its target: its first byte.
pub fn target_byte(payload: &Vec<u8>) -> (r: Result<u8, String>)
    ensures
        r is Ok <==> payload@.len() >= 1,
        r matches Ok(dac) ==> dac == payload@[0],
        r matches Err(why) ==> why@ == "missing DAC payload from PSU"@,
{
    if payload.len() < 1 {
        Err("missing DAC payload from PSU".to_string())
    } else {
        Ok(payload[0])
    }
}

/// The serial number of the board: that of its EEPROM, or its id.
pub open spec fn serial_of(
    config: AmlogicControlBoardConfig,
    board_serial: Option<String>,
) -> Seq<char> {
    match board_serial {
        Some(serial) => serial@,
        None => device_id_of(config),
    }
}

fn serial_number(config: &AmlogicControlBoardConfig, board_serial: &Option<String>) -> (r: String)
    ensures
        r@ == serial_of(*config, *board_serial),
{
    match board_serial {
        Some(serial) => serial.clone(),
        None => device_id(config),
    }
}

/// What the board says of itself.
pub fn board_info(config: &AmlogicControlBoardConfig, board_serial: &Option<String>) -> (r:
    BoardInfo)
    ensures
        r.model@ == "S19j Pro (Amlogic control board)"@,
        r.firmware_version is None,
        r.serial_number matches Some(serial) && serial@ == serial_of(*config, *board_serial),
{
    info_of("S19j Pro (Amlogic control board)", &Some(serial_number(config, board_serial)))
}

/// The state of a board that has just been configured.
pub fn initial_state(config: &AmlogicControlBoardConfig) -> (r: BoardState)
    ensures
        r.serial matches Some(serial) && serial@ == device_id_of(*config),
        is_identity_state(
            r,
            device_id_of(*config),
            "S19j Pro (Amlogic control board)"@,
            r.serial,
        ),
{
    let serial = Some(device_id(config));
    let state = identity_state("", "S19j Pro (Amlogic control board)", serial);
    proof {
        reveal_strlit("");
        assert(""@ + device_id_of(*config) =~= device_id_of(*config));
    }
    state
}

/// The chain of a hashboard: 42 voltage domains of three BM1362 chips.
pub fn chain_config(index: u8) -> (r: ChainConfig)
    ensures
        r.name@ == "S19jProAmlogic-HB"@ + decimal(index as nat),
        r.topology == (TopologySpec {
            domain_count: 42,
            chips_per_domain: 3,
            domain_config: false,
        }),
        r.topology.chips() == 126,
        is_bm1362(r.chip_config),
{
    ChainConfig {
        name: chain_name(index),
        topology: TopologySpec::uniform_domains(42, 3, false),
        chip_config: bm1362(),
    }
}

/// Brings a board's state up to date when its hash thread has been created. The
/// thread is not active yet, and its rate is an estimate.
pub fn publish_thread(
    state: &mut BoardState,
    config: &AmlogicControlBoardConfig,
    board_serial: &Option<String>,
    thread: ThreadState,
)
    ensures
        *final(state) == (BoardState {
            serial: final(state).serial,
            threads: final(state).threads,
            ..*old(state)
        }),
        final(state).serial matches Some(serial) && serial@ == serial_of(*config, *board_serial),
        final(state).threads@ == seq![thread],
{
    state.serial = Some(serial_number(config, board_serial));
    state.threads = vec![thread];
    assert(state.threads@ =~= seq![thread]);
}

/// The name of the chain of a hashboard.
fn chain_name(index: u8) -> (r: String)
    ensures
        r@ == "S19jProAmlogic-HB"@ + decimal(index as nat),
{
    let mut name = String::new();
    push_text(&mut name, "S19jProAmlogic-HB");
    push_decimal(&mut name, index as u64);
    assert(name@ =~= "S19jProAmlogic-HB"@ + decimal(index as nat));
    name
}

/// The rail of the control board's supply.
fn supply_rail(microvolts: Option<u32>) -> (r: PowerMeasurement)
    ensures
        is_supply_rail(r, microvolts),
{
    PowerMeasurement {
        name: "apw12".to_string(),
        microvolts,
        milliamps: None,
        milliwatts: None,
    }
}

/// Whether this is the rail of the control board's supply.
pub open spec fn is_supply_rail(rail: PowerMeasurement, microvolts: Option<u32>) -> bool {
    &&& rail.name@ == "apw12"@
    &&& rail.microvolts == microvolts
    &&& rail.milliamps is None
    &&& rail.milliwatts is None
}

/// Brings a board's state up to date after its initialization.
pub fn publish_initialized(
    state: &mut BoardState,
    config: &AmlogicControlBoardConfig,
    board_serial: &Option<String>,
    temperatures: Vec<TemperatureSensor>,
    fans: Vec<Fan>,
    microvolts: Option<u32>,
)
    ensures
        board_published(*old(state), *config, *board_serial, temperatures, fans, microvolts, *final(state)),
{
    state.name = device_id(config);
    state.model = "S19j Pro (Amlogic control board)".to_string();
    state.serial = Some(serial_number(config, board_serial));
    state.temperatures = temperatures;
    state.fans = fans;
    state.powers = vec![supply_rail(microvolts)];
}

/// Brings a board's state up to date after a telemetry cycle.
pub fn publish_cycle(
    state: &mut BoardState,
    temperatures: Vec<TemperatureSensor>,
    fans: Vec<Fan>,
    microvolts: Option<u32>,
    threads: Vec<ThreadState>,
)
    ensures
        cycle_published(*old(state), temperatures, fans, microvolts, threads, *final(state)),
{
    state.temperatures = temperatures;
    state.fans = fans;
    state.powers = vec![supply_rail(microvolts)];
    state.threads = threads;
}

/// Which hashboard is chosen, or why none is.
pub open spec fn hashboard_selected(
    config: AmlogicControlBoardConfig,
    presence: Seq<Presence>,
    r: Result<usize, BoardError>,
) -> bool {
    &&& match r {
        Ok(i) => selects(config, presence, Selection::Chosen(i as int)),
        Err(BoardError::InitializationFailed(why)) => {
            ||| selects(config, presence, Selection::NoneConfigured) && why@
                == "Amlogic config has no configured hashboards"@
            ||| selects(config, presence, Selection::NonePresent) && why@
                == "No configured hashboards are present"@
            ||| exists|i: int| #[trigger]
                selects(config, presence, Selection::FatallyMissing(i)) && why@
                    == "Configured hashboard "@ + decimal(
                    config.hashboards@[i].index as nat,
                ) + " is missing"@
        },
        Err(BoardError::HardwareControl(why)) => exists|i: int| #[trigger]
            selects(config, presence, Selection::Unreadable(i)) && presence[i]->Failed_0@
                == why@,
    }
}

/// Whether a hashboard passes its health gate, with what was read of it.
pub open spec fn gate_judged(
    gate: AmlogicHealthGateConfig,
    index: u8,
    eeprom: EepromReading,
    temperatures: Result<Vec<TemperatureSensor>, BoardError>,
    r: Result<(Option<String>, Vec<TemperatureSensor>), BoardError>,
) -> bool {
    &&& r is Ok <==> eeprom_passes(gate, eeprom) && (gate.read_temperatures_before_mining ==> (
    temperatures matches Ok(sensors) && all_read(sensors@)))
    &&& r matches Ok((serial, sensors)) ==> {
        &&& if gate.read_eeprom_before_mining {
            serial == Some(eeprom->Decoded_0)
        } else {
            serial is None
        }
        &&& if gate.read_temperatures_before_mining {
            temperatures == Ok::<_, BoardError>(sensors)
        } else {
            sensors@.len() == 0
        }
    }
    &&& r matches Err(e) ==> if !eeprom_passes(gate, eeprom) {
        match eeprom {
            EepromReading::Unreadable(why) => e == why,
            EepromReading::Undecodable(why) => e matches BoardError::InitializationFailed(text)
                && text@ == "EEPROM health gate failed for hashboard "@ + decimal(index as nat)
                + ": "@ + why@,
            EepromReading::Decoded(_) => false,
        }
    } else {
        match temperatures {
            Err(why) => e == why,
            Ok(sensors) => unread_sensor_error(sensors@, e),
        }
    }
}

/// Where the temperature sensors of a hashboard are.
pub open spec fn sensors_located(
    hashboard: AmlogicHashboardConfig,
    r: Result<Vec<u16>, BoardError>,
) -> bool {
    &&& hashboard.temp_sensor_addresses@.len() > 0 ==> {
        let configured = hashboard.temp_sensor_addresses@;
        &&& r is Ok <==> forall|i: int|
            0 <= i < configured.len() ==> (#[trigger] configured[i]) <= 0x7F
        &&& r matches Ok(addresses) ==> addresses@ == configured
        &&& r matches Err(e) ==> e matches BoardError::InitializationFailed(why) && exists|
            i: int,
        | {
            &&& 0 <= i < configured.len()
            &&& (#[trigger] configured[i]) > 0x7F
            &&& forall|j: int| 0 <= j < i ==> (#[trigger] configured[j]) <= 0x7F
            &&& why@ == bad_address_text(configured[i])
        }
    }
    &&& hashboard.temp_sensor_addresses@.len() == 0 ==> {
        &&& r is Ok <==> hashboard.index < 3
        &&& r matches Ok(addresses) ==> addresses@ == slot_sensors(hashboard.index)
        &&& r matches Err(e) ==> e matches BoardError::InitializationFailed(why) && why@
            == bad_index_text(hashboard.index)
    }
}

/// What readings of a hashboard's sensors come to.
pub open spec fn temperatures_read(
    index: u8,
    raws: Seq<Result<u16, String>>,
    r: Result<Vec<TemperatureSensor>, BoardError>,
) -> bool {
    &&& r is Ok <==> forall|i: int| 0 <= i < raws.len() ==> (#[trigger] raws[i]) is Ok
    &&& r matches Ok(sensors) ==> {
        &&& sensors@.len() == raws.len()
        &&& forall|i: int|
            0 <= i < sensors@.len() ==> (#[trigger] sensors@[i]).name@ == sensor_name(
                index,
                i as nat,
            ) && sensors@[i].microc == Some(tmp75_microc(raws[i]->Ok_0) as i32)
    }
    &&& r matches Err(e) ==> e matches BoardError::InitializationFailed(text) && exists|i: int| {
        &&& 0 <= i < raws.len()
        &&& (#[trigger] raws[i]) is Err
        &&& forall|j: int| 0 <= j < i ==> (#[trigger] raws[j]) is Ok
        &&& text@ == sensor_failure_text(index, i as nat, raws[i]->Err_0@)
    }
}

/// What publishing a thread's state changes.
pub open spec fn thread_synced(
    before: Seq<ThreadState>,
    state: ThreadState,
    after: Seq<ThreadState>,
) -> bool {
    &&& is_named(before, state.name@) ==> exists|i: int| #[trigger]
        first_named(before, state.name@, i) && after == before.update(i, state)
    &&& !is_named(before, state.name@) ==> after == before.push(state)
}

/// What the fans are set to, and what the controller remembers.
pub open spec fn fans_controlled(
    before: AmlogicFanController,
    temperatures: Seq<TemperatureSensor>,
    interval_ms: u32,
    r: u8,
    after: AmlogicFanController,
) -> bool {
    &&& after.config == before.config
    &&& after.baseline_percent == before.baseline_percent
    &&& r == fan_target(before, peak_of(temperatures), interval_ms)
    &&& !before.config.enabled ==> after == before
    &&& before.config.enabled ==> after.previous_microc == peak_of(temperatures)
    &&& before.config.enabled ==> after.integral == match peak_of(temperatures) {
        Some(microc) => next_integral(before, microc, interval_ms),
        None => 0,
    }
}

/// What a cycle of telemetry decides.
pub open spec fn native_cycled(
    before: NativeTelemetry,
    temperatures: Seq<TemperatureSensor>,
    r: Option<u8>,
    after: NativeTelemetry,
) -> bool {
    &&& after.applied_percent == before.applied_percent
    &&& after.controller.config == before.controller.config
    &&& after.controller.baseline_percent == before.controller.baseline_percent
    &&& !before.controller.config.enabled ==> (after.controller
        == before.controller)
    &&& before.controller.config.enabled ==> {
        &&& after.controller.previous_microc == peak_of(temperatures)
        &&& after.controller.integral == match peak_of(temperatures) {
            Some(microc) => next_integral(
                before.controller,
                microc,
                TELEMETRY_INTERVAL_MS,
            ),
            None => 0,
        }
    }
    &&& ({
        let target = fan_target(
            before.controller,
            peak_of(temperatures),
            TELEMETRY_INTERVAL_MS,
        );
        r == if target == before.applied_percent {
            None
        } else {
            Some(target as u8)
        }
    })
}

/// What a reply of the supply comes to.
pub open spec fn reply_taken(
    before: PsuExchange,
    reply: PsuReply,
    r: ExchangeStep,
    after: PsuExchange,
) -> bool {
    &&& after.command == before.command
    &&& after.attempts_left == before.attempts_left - 1
    &&& match r {
        ExchangeStep::Answered { payload } => reply == (PsuReply::Frame {
            command: before.command,
            payload,
        }),
        ExchangeStep::Retry => before.attempts_left > 1 && !(reply matches
            PsuReply::Frame { command, .. } && command == before.command),
        ExchangeStep::Failed { why } => {
            &&& before.attempts_left == 1
            &&& !(reply matches PsuReply::Frame { command, .. } && command == before.command)
            &&& why@ == reply_problem(reply, before.command)
        },
    }
}

/// What a cycle publishes of the board.
pub open spec fn cycle_published(
    before: BoardState,
    temperatures: Vec<TemperatureSensor>,
    fans: Vec<Fan>,
    microvolts: Option<u32>,
    threads: Vec<ThreadState>,
    after: BoardState,
) -> bool {
    &&& after == (BoardState {
        temperatures,
        fans,
        powers: after.powers,
        threads,
        ..before
    })
    &&& after.powers@.len() == 1
    &&& is_supply_rail(after.powers@[0], microvolts)
}

/// What is published of a board that is up.
pub open spec fn board_published(
    before: BoardState,
    config: AmlogicControlBoardConfig,
    board_serial: Option<String>,
    temperatures: Vec<TemperatureSensor>,
    fans: Vec<Fan>,
    microvolts: Option<u32>,
    after: BoardState,
) -> bool {
    &&& after == (BoardState {
        name: after.name,
        model: after.model,
        serial: after.serial,
        temperatures,
        fans,
        powers: after.powers,
        ..before
    })
    &&& after.name@ == device_id_of(config)
    &&& after.model@ == "S19j Pro (Amlogic control board)"@
    &&& after.serial matches Some(serial) && serial@ == serial_of(config, board_serial)
    &&& after.powers@.len() == 1
    &&& is_supply_rail(after.powers@[0], microvolts)
}

/// The supply voltage that is set for one that is asked for.
pub open spec fn supply_of(microvolts: u32) -> int {
    limited(microvolts as int, SUPPLY_MIN_MICROVOLTS as int, SUPPLY_MAX_MICROVOLTS as int)
}

/// Whether the voltage read back will do for the one asked for.
pub open spec fn readback_accepted(requested: u32, readback: u32) -> bool {
    -READBACK_TOLERANCE_MICROVOLTS <= readback - requested <= READBACK_TOLERANCE_MICROVOLTS
}

/// A hashboard is chosen exactly when every one could be read, none is missing
/// that must not be, and one is present: the first of those. Then no other could
/// have been chosen. Otherwise the first that could not be read, or is missing and
/// must not be, is the reason.
pub proof fn law_first_present_hashboard_is_chosen(
    config: AmlogicControlBoardConfig,
    presence: Seq<Presence>,
    r: Result<usize, BoardError>,
    i: int,
)
    requires
        hashboard_selected(config, presence, r),
        presence.len() == config.hashboards@.len(),
        0 <= i < presence.len(),
    ensures
        r matches Ok(k) ==> {
            &&& k < presence.len()
            &&& presence[k as int] is Present
            &&& i < k ==> presence[i] is Missing
            &&& !(presence[i] is Failed)
            &&& presence[i] is Missing ==> !config.hashboards@[i].required
                && !config.startup.health_gate.fail_on_missing_expected_hashboard
        },
        presence[i] is Present && (forall|j: int|
            0 <= j < presence.len() ==> !((#[trigger] presence[j]) is Failed) && (
            presence[j] is Missing ==> !config.hashboards@[j].required
                && !config.startup.health_gate.fail_on_missing_expected_hashboard)) ==> r is Ok,
        r matches Err(BoardError::HardwareControl(why)) ==> exists|j: int|
            0 <= j < presence.len() && (#[trigger] presence[j]) is Failed && presence[j]->Failed_0@
                == why@,
        (forall|j: int|
            0 <= j < i ==> !((#[trigger] presence[j]) is Failed) && (presence[j] is Missing
                ==> !config.hashboards@[j].required
                && !config.startup.health_gate.fail_on_missing_expected_hashboard)) ==> {
            &&& presence[i] is Failed ==> (r matches Err(BoardError::HardwareControl(why)) && why@
                == presence[i]->Failed_0@)
            &&& presence[i] is Missing && (config.hashboards@[i].required
                || config.startup.health_gate.fail_on_missing_expected_hashboard) ==> (
            r matches Err(BoardError::InitializationFailed(why)) && why@
                == "Configured hashboard "@ + decimal(config.hashboards@[i].index as nat)
                + " is missing"@)
        },
{
    if forall|j: int|
        0 <= j < i ==> !((#[trigger] presence[j]) is Failed) && (presence[j] is Missing
            ==> !config.hashboards@[j].required
            && !config.startup.health_gate.fail_on_missing_expected_hashboard) {
        assert(forall|j: int| 0 <= j < i ==> !ends_choice(config, presence, j));
        if ends_choice(config, presence, i) {
            match r {
                Ok(k) => {
                    assert(selects(config, presence, Selection::Chosen(k as int)));
                },
                Err(BoardError::HardwareControl(why)) => {
                    let k = choose|k: int| #[trigger]
                        selects(config, presence, Selection::Unreadable(k))
                            && presence[k]->Failed_0@ == why@;
                    assert(ends_choice(config, presence, k));
                    assert(k == i);
                },
                Err(BoardError::InitializationFailed(why)) => {
                    if selects(config, presence, Selection::NonePresent) {
                        assert(!ends_choice(config, presence, i));
                    } else {
                        let k = choose|k: int| #[trigger]
                            selects(config, presence, Selection::FatallyMissing(k)) && why@
                                == "Configured hashboard "@ + decimal(
                                config.hashboards@[k].index as nat,
                            ) + " is missing"@;
                        assert(ends_choice(config, presence, k));
                        assert(k == i);
                    }
                },
            }
        }
    }
    if r is Ok {
        let k = r->Ok_0 as int;
        assert(!ends_choice(config, presence, i));
        assert(!ends_choice(config, presence, k));
    }
    if presence[i] is Present && (forall|j: int|
        0 <= j < presence.len() ==> !((#[trigger] presence[j]) is Failed) && (
        presence[j] is Missing ==> !config.hashboards@[j].required
            && !config.startup.health_gate.fail_on_missing_expected_hashboard)) {
        assert(forall|j: int| 0 <= j < presence.len() ==> !ends_choice(config, presence, j));
        assert(!ends_choice(config, presence, i));
    }
}

/// A hashboard passes its health gate when every check that is asked for passes:
/// its memory can be read and decoded, and each of its sensors gives a reading.
/// What was read is handed on, and a check that is not asked for cannot fail.
pub proof fn law_health_gate(
    gate: AmlogicHealthGateConfig,
    index: u8,
    eeprom: EepromReading,
    temperatures: Result<Vec<TemperatureSensor>, BoardError>,
    r: Result<(Option<String>, Vec<TemperatureSensor>), BoardError>,
    i: int,
)
    requires
        gate_judged(gate, index, eeprom, temperatures, r),
    ensures
        r is Ok && gate.read_eeprom_before_mining ==> (eeprom matches EepromReading::Decoded(serial)
            && r->Ok_0.0 == Some(serial)),
        r is Ok && !gate.read_eeprom_before_mining ==> r->Ok_0.0 is None,
        r is Ok && gate.read_temperatures_before_mining ==> (temperatures matches Ok(sensors)
            && r->Ok_0.1 == sensors && (0 <= i < sensors@.len() ==> sensors@[i].microc is Some)),
        r is Ok && !gate.read_temperatures_before_mining ==> r->Ok_0.1@.len() == 0,
        !gate.read_eeprom_before_mining && !gate.read_temperatures_before_mining ==> r is Ok,
        gate.read_eeprom_before_mining && !(eeprom is Decoded) ==> r is Err,
        gate.read_temperatures_before_mining && (temperatures matches Ok(sensors) && 0 <= i
            < sensors@.len() && sensors@[i].microc is None) ==> r is Err,
        gate.read_temperatures_before_mining && (gate.read_eeprom_before_mining
            ==> eeprom is Decoded) && (temperatures matches Ok(sensors) && 0 <= i < sensors@.len()
            && sensors@[i].microc is None && (forall|k: int|
            0 <= k < i ==> (#[trigger] sensors@[k]).microc is Some)) ==> (
        r matches Err(BoardError::InitializationFailed(why)) && why@
            == "Temperature health gate failed for "@ + temperatures->Ok_0@[i].name@),
{
    if gate.read_temperatures_before_mining && (gate.read_eeprom_before_mining
        ==> eeprom is Decoded) && (temperatures matches Ok(sensors) && 0 <= i < sensors@.len()
        && sensors@[i].microc is None && (forall|k: int|
        0 <= k < i ==> (#[trigger] sensors@[k]).microc is Some)) {
        let sensors = temperatures->Ok_0@;
        assert(!all_read(sensors));
        let error = r->Err_0;
        assert(unread_sensor_error(sensors, error));
        let why = error->InitializationFailed_0;
        let first = choose|j: int| {
            &&& 0 <= j < sensors.len()
            &&& (#[trigger] sensors[j]).microc is None
            &&& forall|k: int| 0 <= k < j ==> (#[trigger] sensors[k]).microc is Some
            &&& why@ == "Temperature health gate failed for "@ + sensors[j].name@
        };
        assert(first == i);
    }
}

/// The highest reading of the sensors: none reads more, and one reads just that;
/// there is none when no sensor could be read.
pub proof fn law_peak_temperature(sensors: Seq<TemperatureSensor>, i: int)
    ensures
        0 <= i < sensors.len() ==> (sensors[i].microc matches Some(microc) ==> peak_of(
            sensors,
        ) is Some && peak_of(sensors)->0 >= microc),
        peak_of(sensors) matches Some(top) ==> exists|k: int|
            0 <= k < sensors.len() && (#[trigger] sensors[k]).microc == Some(top),
    decreases sensors.len(),
{
    if sensors.len() > 0 {
        let rest = sensors.drop_last();
        law_peak_temperature(rest, i);
        assert(sensors[sensors.len() - 1] == sensors.last());
        if 0 <= i < rest.len() {
            assert(rest[i] == sensors[i]);
        }
        if peak_of(sensors) is Some && peak_of(rest) == peak_of(sensors) {
            let k = choose|k: int|
                0 <= k < rest.len() && (#[trigger] rest[k]).microc == peak_of(sensors);
            assert(sensors[k].microc == peak_of(sensors));
        }
    }
}

/// The fans run at the baseline, and more or less by the gains: for each degree
/// off the target, for each degree-second added up, and for each degree a second
/// of change; rounded to the nearest percent and kept within the limits. The
/// gains are in thousandths.
pub proof fn law_fans_follow_temperature(c: AmlogicFanController, microc: i32, interval_ms: u32)
    requires
        c.config.enabled,
        c.config.min_percent <= c.config.max_percent,
    ensures
        ({
            let percent = fan_target(c, Some(microc), interval_ms);
            let ms = if interval_ms == 0 {
                1int
            } else {
                interval_ms as int
            };
            let error = microc - c.config.target_microc;
            let limit = 1_000_000 * c.config.integral_limit_milli;
            let added = c.integral + error * ms;
            let held = if c.previous_microc is None {
                c.integral as int
            } else if added < -limit {
                -limit
            } else if added > limit {
                limit
            } else {
                added
            };
            let change = if c.previous_microc is Some {
                microc - c.previous_microc->0
            } else {
                0
            };
            let exact = 1_000_000_000_000 * (c.baseline_percent * ms) + 1_000 * ((c.config.kp_milli
                * error) * ms) + (c.config.ki_milli * held) * ms + 1_000_000 * (c.config.kd_milli
                * change);
            let unit = 1_000_000_000_000 * ms;
            &&& c.config.min_percent <= percent <= c.config.max_percent
            &&& percent > c.config.min_percent ==> 2 * (unit * percent) <= 2 * exact + unit
            &&& percent < c.config.max_percent ==> 2 * exact + unit < 2 * (unit * percent) + 2
                * unit
        }),
{
    let ms = control_interval(interval_ms);
    let exact = pid_output(c, microc, interval_ms);
    let unit = 1_000_000_000_000 * ms;
    let low = c.config.min_percent as int;
    let high = c.config.max_percent as int;
    let p = round_half_up(exact, unit);
    let n = 2 * exact + unit;
    vstd::arithmetic::div_mod::lemma_fundamental_div_mod(n, 2 * unit);
    vstd::arithmetic::div_mod::lemma_mod_bound(n, 2 * unit);
    assert((2 * unit) * p == 2 * (unit * p)) by (nonlinear_arith);
    assert(p <= low ==> unit * p <= unit * low) by (nonlinear_arith)
        requires
            unit > 0,
    ;
    assert(p >= high ==> unit * p >= unit * high) by (nonlinear_arith)
        requires
            unit > 0,
    ;
    let percent = fan_target(c, Some(microc), interval_ms);
    if exact < 0 {
        assert(percent == low);
        assert(unit * low >= 0) by (nonlinear_arith)
            requires
                unit > 0,
                low >= 0,
        ;
    }
}

/// What the controller remembers: the peak that it saw, and how far off the
/// temperature was over the time since the first reading, within the limit;
/// without a reading it starts over. One that is not enabled stays at the
/// baseline and remembers nothing.
pub proof fn law_fan_controller_remembers(
    before: AmlogicFanController,
    temperatures: Seq<TemperatureSensor>,
    interval_ms: u32,
    r: u8,
    after: AmlogicFanController,
)
    requires
        fans_controlled(before, temperatures, interval_ms, r, after),
    ensures
        !before.config.enabled ==> r == before.baseline_percent && after == before,
        before.config.enabled && peak_of(temperatures) is None ==> r == before.config.max_percent
            && after.integral == 0 && after.previous_microc is None,
        before.config.enabled ==> (peak_of(temperatures) matches Some(microc) ==> {
            let ms = if interval_ms == 0 {
                1int
            } else {
                interval_ms as int
            };
            let limit = 1_000_000 * before.config.integral_limit_milli;
            let added = before.integral + (microc - before.config.target_microc) * ms;
            &&& after.previous_microc == Some(microc)
            &&& before.previous_microc is None ==> after.integral == before.integral
            &&& before.previous_microc is Some && -limit <= added <= limit ==> after.integral
                == added
            &&& before.previous_microc is Some && added > limit ==> after.integral == limit
            &&& before.previous_microc is Some && added < -limit && limit >= 0 ==> after.integral
                == -limit
        }),
        after.config == before.config,
        after.baseline_percent == before.baseline_percent,
{
}

/// A cycle of telemetry sets the fans anew exactly when the controller wants
/// another speed than they run at, every two seconds.
pub proof fn law_fans_set_when_changed(
    before: NativeTelemetry,
    temperatures: Seq<TemperatureSensor>,
    r: Option<u8>,
    after: NativeTelemetry,
)
    requires
        before.controller.wf(),
        native_cycled(before, temperatures, r, after),
    ensures
        ({
            let target = fan_target(before.controller, peak_of(temperatures), 2_000);
            &&& r is None <==> target == before.applied_percent
            &&& r matches Some(percent) ==> percent == target
            &&& after.applied_percent == before.applied_percent
            &&& after.controller.config == before.controller.config
            &&& after.controller.baseline_percent == before.controller.baseline_percent
            &&& before.controller.config.enabled ==> after.controller.previous_microc == peak_of(
                temperatures,
            )
        }),
{
}

/// The upper twelve bits of a reading are a signed number of sixteenths of a
/// degree.
pub proof fn law_tmp75_reading(raw: u16)
    ensures
        raw < 0x8000 ==> 16 * tmp75_microc(raw) <= 62_500 * raw < 16 * (tmp75_microc(raw) + 62_500),
        raw >= 0x8000 ==> 16 * tmp75_microc(raw) <= 62_500 * (raw - 0x1_0000) < 16 * (tmp75_microc(
            raw,
        ) + 62_500),
        tmp75_microc(raw) % 62_500 == 0,
{
}

/// Readings become sensors one by one, each under its number, with the
/// temperature that its bits spell; one that failed fails them all, and the first
/// such is named.
pub proof fn law_temperatures_are_read(
    index: u8,
    raws: Seq<Result<u16, String>>,
    r: Result<Vec<TemperatureSensor>, BoardError>,
    i: int,
)
    requires
        temperatures_read(index, raws, r),
        0 <= i < raws.len(),
    ensures
        raws[i] is Err ==> r is Err,
        r matches Ok(sensors) ==> {
            &&& sensors@.len() == raws.len()
            &&& raws[i] matches Ok(raw) && sensors@[i].microc == Some(tmp75_microc(raw) as i32)
            &&& sensors@[i].name@ == "HB"@ + decimal(index as nat) + "-Temp"@ + decimal(i as nat)
        },
        (forall|k: int| 0 <= k < raws.len() ==> (#[trigger] raws[k]) is Ok) ==> r is Ok,
        raws[i] is Err && (forall|k: int| 0 <= k < i ==> (#[trigger] raws[k]) is Ok) ==> (
        r matches Err(BoardError::InitializationFailed(text)) && text@ == sensor_failure_text(
            index,
            i as nat,
            raws[i]->Err_0@,
        )),
{
    if raws[i] is Err && (forall|k: int| 0 <= k < i ==> (#[trigger] raws[k]) is Ok) {
        let text = r->Err_0->InitializationFailed_0;
        let first = choose|j: int| {
            &&& 0 <= j < raws.len()
            &&& (#[trigger] raws[j]) is Err
            &&& forall|k: int| 0 <= k < j ==> (#[trigger] raws[k]) is Ok
            &&& text@ == sensor_failure_text(index, j as nat, raws[j]->Err_0@)
        };
        assert(first == i);
    }
}

/// Sensors that are configured are used as they are, if each has an address of
/// seven bits; those of a slot are used where none are configured.
pub proof fn law_configured_sensors_are_used(
    hashboard: AmlogicHashboardConfig,
    r: Result<Vec<u16>, BoardError>,
    i: int,
)
    requires
        sensors_located(hashboard, r),
    ensures
        ({
            let configured = hashboard.temp_sensor_addresses@;
            &&& configured.len() > 0 ==> (r matches Ok(addresses) ==> addresses@ == configured)
            &&& configured.len() > 0 && 0 <= i < configured.len() && configured[i] > 0x7F
                ==> r is Err
            &&& configured.len() > 0 && (forall|k: int|
                0 <= k < configured.len() ==> (#[trigger] configured[k]) <= 0x7F) ==> r is Ok
            &&& 0 <= i < configured.len() && configured[i] > 0x7F && (forall|k: int|
                0 <= k < i ==> (#[trigger] configured[k]) <= 0x7F) ==> (
            r matches Err(BoardError::InitializationFailed(why)) && why@ == bad_address_text(
                configured[i],
            ))
            &&& configured.len() == 0 && hashboard.index >= 3 ==> r is Err
            &&& configured.len() == 0 && hashboard.index < 3 ==> (r matches Ok(addresses)
                && addresses@.len() == 2 && addresses@ == slot_sensors(hashboard.index))
        }),
{
    let configured = hashboard.temp_sensor_addresses@;
    if 0 <= i < configured.len() && configured[i] > 0x7F && (forall|k: int|
        0 <= k < i ==> (#[trigger] configured[k]) <= 0x7F) {
        let why = r->Err_0->InitializationFailed_0;
        let first = choose|j: int| {
            &&& 0 <= j < configured.len()
            &&& (#[trigger] configured[j]) > 0x7F
            &&& forall|k: int| 0 <= k < j ==> (#[trigger] configured[k]) <= 0x7F
            &&& why@ == bad_address_text(configured[j])
        };
        assert(first == i);
    }
}

/// Publishing a thread's state replaces the one under its name and leaves all
/// others; a thread that is not there yet comes last.
pub proof fn law_thread_state_is_synced(
    before: Seq<ThreadState>,
    state: ThreadState,
    after: Seq<ThreadState>,
    i: int,
)
    requires
        thread_synced(before, state, after),
        0 <= i < before.len(),
    ensures
        before[i].name@ != state.name@ ==> after[i] == before[i],
        before[i].name@ == state.name@ && (forall|j: int|
            0 <= j < i ==> (#[trigger] before[j]).name@ != state.name@) ==> after[i] == state,
        (forall|j: int| 0 <= j < before.len() ==> (#[trigger] before[j]).name@ != state.name@)
            ==> after == before.push(state),
        (exists|j: int| 0 <= j < before.len() && (#[trigger] before[j]).name@ == state.name@)
            ==> after.len() == before.len(),
        after.contains(state),
{
    if is_named(before, state.name@) {
        let k = choose|k: int| #[trigger]
            first_named(before, state.name@, k) && after == before.update(k, state);
        assert(after[k] == state);
    } else {
        assert(after[before.len() as int] == state);
        if before[i].name@ == state.name@ {
            assert(is_named(before, state.name@));
        }
    }
}

/// A supply voltage is kept between 12 V and 15 V, and one within is used as it
/// is.
pub proof fn law_supply_is_clamped(microvolts: u32)
    ensures
        12_000_000 <= supply_of(microvolts) <= 15_000_000,
        12_000_000 <= microvolts <= 15_000_000 ==> supply_of(microvolts) == microvolts,
        microvolts < 12_000_000 ==> supply_of(microvolts) == 12_000_000,
        microvolts > 15_000_000 ==> supply_of(microvolts) == 15_000_000,
{
}

/// A readback is accepted when it is no more than 0.15 V off, either way.
pub proof fn law_readback_tolerance(requested: u32, readback: u32)
    ensures
        readback_accepted(requested, readback) == readback_accepted(readback, requested),
        requested <= readback ==> (readback_accepted(requested, readback) <==> readback - requested
            <= 150_000),
{
}

/// After any noise, a refusal is read as such; what follows the first byte of a
/// preamble must be the second; and a frame that claims no length is refused.
pub proof fn law_reader_refuses(noise: Seq<u8>, second: u8, nak: u8)
    requires
        nak != 0x55,
        forall|i: int| 0 <= i < noise.len() ==> (#[trigger] noise[i]) != 0x55 && noise[i] != nak,
    ensures
        fed_all(ReaderView::Seek, noise.push(nak), nak) == ReaderView::Done(seq![nak]),
        second != 0xAA ==> fed_all(ReaderView::Seek, noise.push(0x55).push(second), nak)
            == ReaderView::BadPreamble(second),
        fed_all(ReaderView::Seek, noise.push(0x55).push(0xAA).push(0), nak)
            == ReaderView::BadLength,
{
    lemma_noise_skipped(noise, nak);
    assert(noise.push(nak).drop_last() =~= noise);
    let one = noise.push(0x55u8);
    assert(one.drop_last() =~= noise);
    assert(fed_all(ReaderView::Seek, one, nak) == ReaderView::Preamble);
    assert(one.push(second).drop_last() =~= one);
    let two = one.push(0xAAu8);
    assert(two.drop_last() =~= one);
    assert(fed_all(ReaderView::Seek, two, nak) == ReaderView::Length);
    assert(two.push(0u8).drop_last() =~= two);
}

/// A reader that is done, or has failed, takes no byte any more.
pub proof fn law_reader_stops(reader: ReaderView, byte: u8, nak: u8)
    requires
        reader is Done || reader is BadPreamble || reader is BadLength,
    ensures
        fed(reader, byte, nak) == reader,
{
}

/// Only an answer to the command that was sent ends an exchange well, with what
/// it carries. Anything else is asked again, until the third reply, which fails.
pub proof fn law_exchange_takes_its_own_answer(
    before: PsuExchange,
    reply: PsuReply,
    r: ExchangeStep,
    after: PsuExchange,
)
    requires
        before.attempts_left > 0,
        reply_taken(before, reply, r, after),
    ensures
        ({
            let own = reply matches PsuReply::Frame { command, .. } && command == before.command;
            &&& own ==> (r matches ExchangeStep::Answered { payload } && payload
                == reply->Frame_payload)
            &&& !own && before.attempts_left > 1 ==> r is Retry
            &&& !own && before.attempts_left == 1 ==> r is Failed
            &&& after.command == before.command
            &&& after.attempts_left == before.attempts_left - 1
        }),
{
}

/// Powering up goes on as long as all goes well, through seven phases, and ends
/// online. It fails when the fans, the resets, the supply's switch or its voltage
/// fail, and at nothing else; without a watchdog's answer it ends offline.
pub proof fn law_power_up_in_order(ok: bool)
    ensures
        next_power_phase(PowerPhase::Fans, true) == PowerPhase::Resets,
        next_power_phase(PowerPhase::Resets, true) == PowerPhase::Enable,
        next_power_phase(PowerPhase::Enable, true) == PowerPhase::Settle,
        next_power_phase(PowerPhase::Settle, ok) == PowerPhase::Watchdog,
        next_power_phase(PowerPhase::Watchdog, true) == PowerPhase::Voltage,
        next_power_phase(PowerPhase::Voltage, true) == PowerPhase::Measure,
        next_power_phase(PowerPhase::Measure, ok) == (PowerPhase::Done { online: true }),
        next_power_phase(PowerPhase::Watchdog, false) == (PowerPhase::Done { online: false }),
        forall|phase: PowerPhase| #[trigger]
            next_power_phase(phase, false) == PowerPhase::Failed <==> phase == PowerPhase::Fans
                || phase == PowerPhase::Resets || phase == PowerPhase::Enable || phase
                == PowerPhase::Voltage || phase == PowerPhase::Failed,
        forall|phase: PowerPhase| #[trigger]
            next_power_phase(phase, true) == PowerPhase::Failed <==> phase == PowerPhase::Failed,
{
}

/// Fans are set by channel, each channel once, all to the speed asked for.
pub proof fn law_every_fan_channel_is_set(fans: Seq<AmlogicFanConfig>, percent: u8, i: int, k: int)
    requires
        0 <= i < fans.len(),
        0 <= k < fan_steps(fans, percent).len(),
    ensures
        fan_steps(fans, percent).contains(
            HardwareStep::SetPwm {
                channel: PwmChannel { chip: fans[i].pwm_chip, channel: fans[i].pwm_channel },
                percent,
            },
        ),
        fan_steps(fans, percent)[k] matches HardwareStep::SetPwm { percent: p, .. } && p == percent,
        fan_steps(fans, percent).no_duplicates(),
{
    law_fan_channels(fans);
    let channels = channels_of(fans);
    let steps = fan_steps(fans, percent);
    assert(channels.contains(channel_of(fans[i])));
    let j = choose|j: int| 0 <= j < channels.len() && channels[j] == channel_of(fans[i]);
    assert(steps[j] == (HardwareStep::SetPwm { channel: channel_of(fans[i]), percent }));
    assert forall|a: int, b: int| 0 <= a < steps.len() && 0 <= b < steps.len() && a != b implies
        steps[a] != steps[b] by {
        assert(channels[a] != channels[b]);
    }
}

/// A shutdown holds each hashboard in reset by its own pin, in order, waits as
/// long as is configured, stops every fan, and then switches the supply off.
pub proof fn law_shutdown_order(config: AmlogicControlBoardConfig, i: int, k: int)
    requires
        0 <= i < config.hashboards@.len(),
        0 <= k < channels_of(config.fans@).len(),
    ensures
        ({
            let steps = shutting_down(config);
            let n = config.hashboards@.len() as int;
            let m = channels_of(config.fans@).len() as int;
            &&& steps.len() == n + 1 + m + 1
            &&& steps[i] == (HardwareStep::AssertReset {
                index: config.hashboards@[i].index,
                gpio: config.hashboards@[i].reset_gpio,
            })
            &&& steps[n] == (HardwareStep::Wait { ms: config.startup.reset_assert_ms })
            &&& steps[n + 1 + k] == (HardwareStep::SetPwm {
                channel: channels_of(config.fans@)[k],
                percent: 0,
            })
            &&& steps[n + 1 + m] == (HardwareStep::SetPsuEnabled { on: false })
        }),
{
}

/// What a cycle publishes of the board: what was read of it, and nothing else
/// changes.
pub proof fn law_cycle_is_published(
    before: BoardState,
    temperatures: Vec<TemperatureSensor>,
    fans: Vec<Fan>,
    microvolts: Option<u32>,
    threads: Vec<ThreadState>,
    after: BoardState,
)
    requires
        cycle_published(before, temperatures, fans, microvolts, threads, after),
    ensures
        after.temperatures == temperatures,
        after.fans == fans,
        after.threads == threads,
        after.powers@.len() == 1,
        after.powers@[0].microvolts == microvolts,
        after.powers@[0].milliamps is None && after.powers@[0].milliwatts is None,
        after.name == before.name,
        after.model == before.model,
        after.serial == before.serial,
        after.hashboards == before.hashboards,
        after.frequency_khz == before.frequency_khz,
{
}

/// What is published once the board is up: its identity, by the hashboard's own
/// serial number where that was read, and what was read of it.
pub proof fn law_initialized_board_is_published(
    before: BoardState,
    config: AmlogicControlBoardConfig,
    board_serial: Option<String>,
    temperatures: Vec<TemperatureSensor>,
    fans: Vec<Fan>,
    microvolts: Option<u32>,
    after: BoardState,
)
    requires
        board_published(
            before,
            config,
            board_serial,
            temperatures,
            fans,
            microvolts,
            after,
        ),
    ensures
        after.temperatures == temperatures,
        after.fans == fans,
        after.powers@.len() == 1,
        after.powers@[0].microvolts == microvolts,
        after.threads == before.threads,
        board_serial matches Some(own) ==> (after.serial matches Some(serial) && serial@ == own@),
        board_serial is None ==> (config.board_name matches Some(name) ==> (
        after.serial matches Some(serial) && serial@ == name@)),
        config.board_name matches Some(name) ==> after.name@ == name@,
{
}

/// A thread as the board shows it.
pub open spec fn thread_state_is(
    name: String,
    status: HashThreadStatus,
    capabilities: HashThreadCapabilities,
    is_active_override: Option<bool>,
    r: ThreadState,
) -> bool {
    &&& r.name == name
    &&& r.hashrate == if status.hashrate.0 > 0 {
        status.hashrate.0
    } else {
        capabilities.hashrate_estimate.0
    }
    &&& r.is_active == match is_active_override {
        Some(active) => active,
        None => status.is_active,
    }
}

/// The fans as the board shows them.
pub open spec fn fans_shown(
    fans: Seq<AmlogicFanConfig>,
    percent: u8,
    rpms: Seq<Option<u32>>,
    r: Seq<Fan>,
) -> bool {
    &&& r.len() == fans.len()
    &&& forall|i: int|
        0 <= i < r.len() ==> is_fan_state(#[trigger] r[i], fans[i], percent, rpms[i])
}

/// A thread is shown at the rate that it reports, or the one that it claims while
/// it reports none, and as active as it is unless that is overridden.
pub proof fn law_thread_is_shown(
    name: String,
    status: HashThreadStatus,
    capabilities: HashThreadCapabilities,
    is_active_override: Option<bool>,
    r: ThreadState,
)
    requires
        thread_state_is(name, status, capabilities, is_active_override, r),
    ensures
        r.name == name,
        status.hashrate.0 > 0 ==> r.hashrate == status.hashrate.0,
        status.hashrate.0 == 0 ==> r.hashrate == capabilities.hashrate_estimate.0,
        is_active_override is None ==> r.is_active == status.is_active,
        is_active_override matches Some(active) ==> r.is_active == active,
{
}

/// Each fan is shown under its number, at the speed that was read of it and the
/// one that it is set to.
pub proof fn law_fans_are_shown(
    fans: Seq<AmlogicFanConfig>,
    percent: u8,
    rpms: Seq<Option<u32>>,
    r: Seq<Fan>,
    i: int,
)
    requires
        fans_shown(fans, percent, rpms, r),
        0 <= i < fans.len(),
    ensures
        r.len() == fans.len(),
        r[i].name@ == "fan"@ + decimal(fans[i].index as nat),
        r[i].rpm == rpms[i],
        r[i].percent == Some(percent),
        r[i].target_percent == Some(percent),
{
    assert(is_fan_state(r[i], fans[i], percent, rpms[i]));
}

/// Every step of the hardware but a wait can fail, and then tells why.
pub proof fn law_fatal_steps(step: HardwareStep, why: Seq<char>)
    ensures
        step_failure(step, why) is None <==> step is Wait,
        step_failure(step, why) matches Some(text) ==> text.len() >= why.len() && text.skip(
            text.len() - why.len(),
        ) == why,
{
    if let Some(text) = step_failure(step, why) {
        assert(text.skip(text.len() - why.len()) =~= why);
    }
}

/// What a detect pin says of a hashboard.
pub open spec fn presence_is(
    reading: DetectReading,
    r: Presence,
) -> bool {
    &&& match reading {
        DetectReading::SetupFailed(why) => r matches Presence::Failed(text) && text@
            == "Failed to configure detect GPIO: "@ + why@,
        DetectReading::ReadFailed(why) => r matches Presence::Failed(text) && text@
            == "Failed to read detect GPIO: "@ + why@,
        DetectReading::Value(value) => if value != 0 {
            r is Present
        } else {
            r is Missing
        },
    }
}

/// Where the memory of a hashboard is.
pub open spec fn eeprom_located(
    hashboard: AmlogicHashboardConfig,
    r: Result<u16, BoardError>,
) -> bool {
    &&& match hashboard.eeprom_address {
        Some(address) => {
            &&& r is Ok <==> address <= 0x7F
            &&& r matches Ok(a) ==> a == address
            &&& r matches Err(e) ==> e matches BoardError::InitializationFailed(why) && why@
                == bad_address_text(address)
        },
        None => {
            &&& r is Ok <==> hashboard.index < 3
            &&& r matches Ok(a) ==> a == slot_eeprom(hashboard.index)
            &&& r matches Err(e) ==> e matches BoardError::InitializationFailed(why) && why@
                == bad_index_text(hashboard.index)
        },
    }
}

/// The controller that a board starts with.
pub open spec fn controller_made(
    config: AmlogicControlBoardConfig,
    r: AmlogicFanController,
) -> bool {
    &&& r.config == config.startup.fan_control
    &&& r.baseline_percent == config.startup.default_fan_percent
    &&& r.previous_microc is None
    &&& r.integral == 0
}

/// A hashboard is present when its pin is not at zero; when the pin cannot be
/// set up or read it is neither there nor missing.
pub proof fn law_detect_pin(reading: DetectReading, r: Presence)
    requires
        presence_is(reading, r),
    ensures
        reading matches DetectReading::Value(value) ==> (r is Present <==> value != 0) && (
        r is Missing <==> value == 0),
        r is Failed <==> !(reading is Value),
        reading matches DetectReading::SetupFailed(why) ==> (r matches Presence::Failed(text)
            && text@ == "Failed to configure detect GPIO: "@ + why@),
        reading matches DetectReading::ReadFailed(why) ==> (r matches Presence::Failed(text)
            && text@ == "Failed to read detect GPIO: "@ + why@),
{
}

/// A memory address that is configured is used if it has seven bits; where none
/// is configured the slot's own is used.
pub proof fn law_configured_memory_is_used(
    hashboard: AmlogicHashboardConfig,
    r: Result<u16, BoardError>,
)
    requires
        eeprom_located(hashboard, r),
    ensures
        hashboard.eeprom_address matches Some(address) ==> {
            &&& address <= 0x7F ==> r == Ok::<u16, BoardError>(address)
            &&& address > 0x7F ==> r is Err
        },
        hashboard.eeprom_address is None ==> {
            &&& hashboard.index < 3 ==> r == Ok::<u16, BoardError>(slot_eeprom(hashboard.index))
            &&& hashboard.index >= 3 ==> r is Err
        },
{
}

/// A controller starts with the board's settings, at the board's default speed,
/// and has seen nothing yet.
pub proof fn law_controller_is_made(config: AmlogicControlBoardConfig, r: AmlogicFanController)
    requires
        controller_made(config, r),
    ensures
        r.config == config.startup.fan_control,
        r.baseline_percent == config.startup.default_fan_percent,
        r.previous_microc is None,
        r.integral == 0,
{
}

} // verus!
