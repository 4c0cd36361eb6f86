//! S19j Pro hashboards behind a Bitcrane v3 bridge.
//!
//! The bridge has one management channel and three ASIC channels for three
//! hashboards. They are one board with shared power and cooling, and one hash
//! thread per populated channel.

use crate::api::types::{
    BoardState, Fan, HashboardState, PowerMeasurement, TemperatureSensor, ThreadState,
};
use crate::asic::bm13xx::chain_config::ChainConfig;
use crate::asic::bm13xx::chip_config::{bm1362, is_bm1362};
use crate::asic::bm13xx::topology::TopologySpec;
use crate::asic::hash_thread::HashThreadStatus;
use crate::board::{info_of, push_serial, serial_text, BoardError, BoardInfo};
use crate::text::{decimal, is_text, push_decimal, push_text};
use crate::types::lemma_filter_next;
use vstd::prelude::*;

verus! {

pub const HASHBOARD_COUNT: usize = 3;

/// Target frequency of the chips, in kilohertz.
pub const TARGET_KHZ: u32 = 500_000;

/// Time between two telemetry cycles, in milliseconds.
pub const TELEMETRY_INTERVAL_MS: u32 = 2_000;

/// Telemetry cycles between two updates of the bridge's display.
pub const DISPLAY_UPDATE_INTERVAL: u32 = 5;

pub const FAN_MIN_PERCENT: u8 = 45;

/// Fan speed while no temperature is known.
pub const FAN_FAILSAFE_PERCENT: u8 = 80;

pub const FAN_MAX_PERCENT: u8 = 100;

pub const FAN_TARGET_MICROC: i64 = 62_000_000;

/// From here on fans run at full speed.
pub const FAN_FULL_SPEED_MICROC: i64 = 68_000_000;

/// From here on the operator is warned.
pub const FAN_MAX_MICROC: i64 = 70_000_000;

/// Largest integral of the fan controller, in millionths of a degree times
/// milliseconds: 40 degree-seconds.
pub const FAN_INTEGRAL_MAX: i64 = 40_000_000_000;

/// Supply voltage set at initialization, in microvolts.
pub const DEFAULT_VOUT_MICROVOLTS: u32 = 12_600_000;

/// A pin of the bridge.
#[derive(Clone, Copy, Debug, PartialEq, Eq, Structural)]
pub enum BitcraneGpioPin {
    Rst0,
    Rst1,
    Rst2,
    Plug0,
    Plug1,
    Plug2,
}

/// The reset pin of a hashboard.
pub open spec fn reset_pin(index: u8) -> BitcraneGpioPin {
    if index == 0 {
        BitcraneGpioPin::Rst0
    } else if index == 1 {
        BitcraneGpioPin::Rst1
    } else {
        BitcraneGpioPin::Rst2
    }
}

/// The presence pin of a hashboard.
pub open spec fn plug_pin(index: u8) -> BitcraneGpioPin {
    if index == 0 {
        BitcraneGpioPin::Plug0
    } else if index == 1 {
        BitcraneGpioPin::Plug1
    } else {
        BitcraneGpioPin::Plug2
    }
}

/// The reset pin of a hashboard.
pub fn reset_pin_for_index(index: u8) -> (r: BitcraneGpioPin)
    requires
        index < 3,
    ensures
        r == reset_pin(index),
{
    match index {
        0 => BitcraneGpioPin::Rst0,
        1 => BitcraneGpioPin::Rst1,
        _ => BitcraneGpioPin::Rst2,
    }
}

/// The presence pin of a hashboard.
pub fn plug_pin_for_index(index: u8) -> (r: BitcraneGpioPin)
    requires
        index < 3,
    ensures
        r == plug_pin(index),
{
    match index {
        0 => BitcraneGpioPin::Plug0,
        1 => BitcraneGpioPin::Plug1,
        _ => BitcraneGpioPin::Plug2,
    }
}

/// No pin serves two purposes.
pub proof fn law_pins_distinct(i: u8, j: u8)
    requires
        i < 3,
        j < 3,
    ensures
        reset_pin(i) != plug_pin(j),
        i != j ==> reset_pin(i) != reset_pin(j) && plug_pin(i) != plug_pin(j),
{
}

/// A count that fits a byte, saturating.
pub fn hashboard_count_u8(count: usize) -> (r: u8)
    ensures
        r == if count > 255 {
            255
        } else {
            count as int
        },
{
    if count > 255 {
        255
    } else {
        count as u8
    }
}

/// The rate that a thread reports.
pub fn effective_hashrate(status: &HashThreadStatus) -> (r: u64)
    ensures
        r == status.hashrate.0,
{
    status.hashrate.0
}

/// A hashboard channel.
#[derive(Debug)]
pub struct S19jProHashboard {
    pub index: u8,
    pub data_port_path: String,
    /// Whether its reset pin has been set up.
    pub has_reset_pin: bool,
    pub is_present: bool,
    pub is_active: bool,
}

impl S19jProHashboard {
    /// The hashboard as the API shows it.
    pub open spec fn shown(&self, hashrate: u64) -> HashboardState {
        HashboardState {
            index: self.index,
            serial_port: Some(self.data_port_path),
            is_present: self.is_present,
            is_active: self.is_active,
            hashrate,
        }
    }

    /// The hashboard as the API shows it.
    pub fn state(&self, hashrate: u64) -> (r: HashboardState)
        ensures
            r == self.shown(hashrate),
    {
        HashboardState {
            index: self.index,
            serial_port: Some(self.data_port_path.clone()),
            is_present: self.is_present,
            is_active: self.is_active,
            hashrate,
        }
    }
}

/// What a presence pin reads.
#[derive(Clone, Copy, Debug, PartialEq, Eq, Structural)]
pub enum PlugReading {
    High,
    Low,
    Failed,
}

/// Whether a hashboard is present, by its pin; where the pin cannot be read, as
/// `otherwise` says.
pub fn judge_plug(reading: PlugReading, otherwise: bool) -> (r: bool)
    ensures
        r == plug_says(reading, otherwise),
{
    match reading {
        PlugReading::High => true,
        PlugReading::Low => false,
        PlugReading::Failed => otherwise,
    }
}

/// Whether a USB device is such a bridge.
pub fn matches_device(manufacturer: &Option<String>, product: &Option<String>) -> (r: bool)
    ensures
        r == (*manufacturer matches Some(m) && (m@ == "256F"@ || m@ == "OSMU"@) && (
        *product matches Some(p) && (p@ == "bitcrane_S19jpro"@ || p@ == "bitcrane3"@))),
{
    (is_text(manufacturer, "256F") || is_text(manufacturer, "OSMU")) && (is_text(
        product,
        "bitcrane_S19jpro",
    ) || is_text(product, "bitcrane3"))
}

/// The ports of a bridge: one for management and one per hashboard.
#[derive(Debug)]
pub struct BridgePorts {
    pub control: String,
    pub data: Vec<String>,
}

/// Tells the ports of a bridge apart. There must be exactly four.
pub fn split_ports(ports: &Vec<String>) -> (r: Result<BridgePorts, String>)
    ensures
        r is Ok <==> ports@.len() == HASHBOARD_COUNT + 1,
        r matches Ok(split) ==> split.control == ports@[0] && split.data@ == ports@.skip(1),
        r matches Err(why) ==> why@ == "S19j Pro requires exactly 4 serial ports, found "@
            + decimal(ports@.len()),
{
    let count: usize = ports.len();
    if count != HASHBOARD_COUNT + 1 {
        let mut why = String::new();
        push_text(&mut why, "S19j Pro requires exactly 4 serial ports, found ");
        push_decimal(&mut why, count as u64);
        assert(why@ =~= "S19j Pro requires exactly 4 serial ports, found "@ + decimal(ports@.len()));
        return Err(why);
    }
    let mut data: Vec<String> = Vec::new();
    let mut i: usize = 1;
    while i < count
        invariant
            1 <= i <= count == ports@.len(),
            data@ =~= ports@.subrange(1, i as int),
        decreases count - i,
    {
        data.push(ports[i].clone());
        i = i + 1;
    }
    assert(ports@.subrange(1, count as int) =~= ports@.skip(1));
    Ok(BridgePorts { control: ports[0].clone(), data })
}

/// Hashboards behind these ports, none of them present yet. They are numbered
/// from zero, modulo 256.
pub open spec fn fresh_hashboards(ports: Seq<String>) -> Seq<S19jProHashboard> {
    Seq::new(
        ports.len(),
        |i: int|
            S19jProHashboard {
                index: (i % 256) as u8,
                data_port_path: ports[i],
                has_reset_pin: false,
                is_present: false,
                is_active: false,
            },
    )
}

/// Hashboards behind these ports, none of them present yet.
pub fn new_hashboards(ports: Vec<String>) -> (r: Vec<S19jProHashboard>)
    ensures
        r@ == fresh_hashboards(ports@),
{
    let mut hashboards: Vec<S19jProHashboard> = Vec::new();
    let mut i: usize = 0;
    while i < ports.len()
        invariant
            i <= ports@.len(),
            hashboards@ =~= fresh_hashboards(ports@).take(i as int),
        decreases ports@.len() - i,
    {
        hashboards.push(
            S19jProHashboard {
                index: (i % 256) as u8,
                data_port_path: ports[i].clone(),
                has_reset_pin: false,
                is_present: false,
                is_active: false,
            },
        );
        i = i + 1;
    }
    assert(fresh_hashboards(ports@).take(i as int) =~= fresh_hashboards(ports@));
    hashboards
}

/// A step of the board's initialization.
#[derive(Clone, Copy, Debug, PartialEq, Eq, Structural)]
pub enum BoardStep {
    /// Hold a hashboard in reset.
    AssertReset { index: u8 },
    /// Read whether it is present; if that fails, it is taken to be.
    ReadPlug { index: u8 },
    EnablePsu,
    DisablePsu,
    ConfigureWatchdog { value: u8 },
    SetVoltage { microvolts: u32 },
    /// For the log alone.
    MeasureVoltage,
    SetFans { percent: u8 },
    Wait { ms: u64 },
}

/// The steps that hold the first `n` hashboards in reset and look for them.
pub open spec fn hold_steps(n: nat) -> Seq<BoardStep>
    decreases n,
{
    if n == 0 {
        Seq::<BoardStep>::empty()
    } else {
        hold_steps((n - 1) as nat) + seq![
            BoardStep::AssertReset { index: (n - 1) as u8 },
            BoardStep::ReadPlug { index: (n - 1) as u8 },
        ]
    }
}

/// The steps that bring power and cooling up.
pub open spec fn power_steps() -> Seq<BoardStep> {
    seq![
        BoardStep::EnablePsu,
        BoardStep::Wait { ms: 500 },
        BoardStep::ConfigureWatchdog { value: 0 },
        BoardStep::SetVoltage { microvolts: DEFAULT_VOUT_MICROVOLTS },
        BoardStep::Wait { ms: 2000 },
        BoardStep::MeasureVoltage,
        BoardStep::SetFans { percent: FAN_FAILSAFE_PERCENT },
    ]
}

/// The steps of the board's initialization: every hashboard is held in reset
/// before the supply is switched on.
pub fn initialization_steps(hashboard_count: u8) -> (r: Vec<BoardStep>)
    ensures
        r@ == initialization(hashboard_count),
{
    let mut steps: Vec<BoardStep> = Vec::new();
    let mut i: u8 = 0;
    while i < hashboard_count
        invariant
            i <= hashboard_count,
            steps@ == hold_steps(i as nat),
        decreases hashboard_count - i,
    {
        let ghost before = steps@;
        steps.push(BoardStep::AssertReset { index: i });
        steps.push(BoardStep::ReadPlug { index: i });
        assert(steps@ =~= before + seq![
            BoardStep::AssertReset { index: i },
            BoardStep::ReadPlug { index: i },
        ]);
        i = i + 1;
    }
    let ghost held = steps@;
    steps.push(BoardStep::EnablePsu);
    steps.push(BoardStep::Wait { ms: 500 });
    steps.push(BoardStep::ConfigureWatchdog { value: 0 });
    steps.push(BoardStep::SetVoltage { microvolts: DEFAULT_VOUT_MICROVOLTS });
    steps.push(BoardStep::Wait { ms: 2000 });
    steps.push(BoardStep::MeasureVoltage);
    steps.push(BoardStep::SetFans { percent: FAN_FAILSAFE_PERCENT });
    assert(steps@ =~= held + power_steps());
    steps
}

/// The error with which a failed step ends the initialization, if it does.
pub open spec fn step_failure(step: BoardStep, why: Seq<char>) -> Option<Seq<char>> {
    match step {
        BoardStep::AssertReset { index } => Some(
            "Failed to assert reset for HB"@ + decimal(index as nat) + ": "@ + why,
        ),
        BoardStep::EnablePsu => Some("Failed to enable PSU: "@ + why),
        BoardStep::ConfigureWatchdog { .. } => Some("Failed to configure PSU watchdog: "@ + why),
        BoardStep::SetVoltage { .. } => Some("Failed to set PSU voltage: "@ + why),
        _ => None,
    }
}

/// The error with which a failed step ends the initialization. Steps whose
/// failure is only logged have none.
pub fn fail_step(step: BoardStep, why: &str) -> (r: Option<BoardError>)
    ensures
        match r {
            Some(e) => e matches BoardError::InitializationFailed(text) && step_failure(step, why@)
                == Some(text@),
            None => step_failure(step, why@) is None,
        },
{
    let mut text = String::new();
    match step {
        BoardStep::AssertReset { index } => {
            push_text(&mut text, "Failed to assert reset for HB");
            push_decimal(&mut text, index as u64);
            push_text(&mut text, ": ");
        },
        BoardStep::EnablePsu => push_text(&mut text, "Failed to enable PSU: "),
        BoardStep::ConfigureWatchdog { .. } => push_text(
            &mut text,
            "Failed to configure PSU watchdog: ",
        ),
        BoardStep::SetVoltage { .. } => push_text(&mut text, "Failed to set PSU voltage: "),
        _ => {
            return None;
        },
    }
    push_text(&mut text, why);
    assert(step_failure(step, why@)->0 =~= text@);
    Some(BoardError::InitializationFailed(text))
}

/// While the supply is being switched on, every hashboard has been put in
/// reset.
pub proof fn law_resets_before_power(hashboard_count: u8, index: u8)
    requires
        index < hashboard_count,
    ensures
        ({
            let held = hold_steps(hashboard_count as nat);
            &&& held.contains(BoardStep::AssertReset { index })
            &&& !held.contains(BoardStep::EnablePsu)
            &&& (held + power_steps())[held.len() as int] == BoardStep::EnablePsu
        }),
{
    lemma_hold_steps(hashboard_count as nat, index);
    let held = hold_steps(hashboard_count as nat);
    assert((held + power_steps())[held.len() as int] == power_steps()[0]);
}

proof fn lemma_hold_steps(n: nat, index: u8)
    requires
        n <= 256,
    ensures
        index < n ==> hold_steps(n).contains(BoardStep::AssertReset { index }),
        !hold_steps(n).contains(BoardStep::EnablePsu),
    decreases n,
{
    if n > 0 {
        let rest = hold_steps((n - 1) as nat);
        let own = seq![
            BoardStep::AssertReset { index: (n - 1) as u8 },
            BoardStep::ReadPlug { index: (n - 1) as u8 },
        ];
        lemma_hold_steps((n - 1) as nat, index);
        let all = rest + own;
        if index < n - 1 {
            let i = choose|i: int|
                0 <= i < rest.len() && rest[i] == (BoardStep::AssertReset { index });
            assert(all[i] == rest[i]);
        } else if index == n - 1 {
            assert(all[rest.len() as int] == own[0]);
        }
        if all.contains(BoardStep::EnablePsu) {
            let i = choose|i: int| 0 <= i < all.len() && all[i] == BoardStep::EnablePsu;
            if i < rest.len() {
                assert(rest[i] == BoardStep::EnablePsu);
            } else {
                assert(all[i] == own[i - rest.len()]);
            }
        }
    }
}

/// The fan controller.
#[derive(Clone, Copy, Debug, PartialEq, Eq, Structural)]
pub struct FanPidController {
    /// In millionths of a degree times milliseconds.
    pub integral: i64,
    /// In millionths of a degree.
    pub previous_error: Option<i64>,
}

/// `n / d` rounded to the nearest, halves up, for `n` that is not negative.
pub open spec fn round_half_up(n: int, d: int) -> int {
    (2 * n + d) / (2 * d)
}

/// The larger of two numbers.
pub open spec fn larger(a: int, b: int) -> int {
    if a >= b {
        a
    } else {
        b
    }
}

/// A number brought into a range.
pub open spec fn limited(x: int, low: int, high: int) -> int {
    if x < low {
        low
    } else if x > high {
        high
    } else {
        x
    }
}

/// The interval that the controller reckons with: at least a second.
pub open spec fn control_interval(interval_ms: u32) -> int {
    larger(interval_ms as int, 1000)
}

/// The integral after a sample.
pub open spec fn next_integral(c: FanPidController, microc: int, interval_ms: u32) -> int {
    limited(
        c.integral + (microc - FAN_TARGET_MICROC) * control_interval(interval_ms),
        0,
        FAN_INTEGRAL_MAX as int,
    )
}

/// The controller's output in units of `1e-11 / interval` percent: 45 percent,
/// 6 percent a degree above the target, 0.35 percent a degree-second, and 3
/// percent per degree a second while it grows warmer.
pub open spec fn pid_output(c: FanPidController, microc: int, interval_ms: u32) -> int {
    let ms = control_interval(interval_ms);
    let error = microc - FAN_TARGET_MICROC;
    let rise = match c.previous_error {
        Some(previous) => larger(error - previous, 0),
        None => 0,
    };
    4_500_000_000_000 * ms + 600_000 * (larger(error, 0) * ms) + 35 * (next_integral(
        c,
        microc,
        interval_ms,
    ) * ms) + 300_000_000 * rise
}

/// The fan speed that the controller asks for.
pub open spec fn pid_target(c: FanPidController, max_microc: Option<i64>, interval_ms: u32) -> int {
    match max_microc {
        None => FAN_FAILSAFE_PERCENT as int,
        Some(microc) => if microc >= FAN_FULL_SPEED_MICROC {
            FAN_MAX_PERCENT as int
        } else {
            limited(
                round_half_up(
                    pid_output(c, microc as int, interval_ms),
                    100_000_000_000 * control_interval(interval_ms),
                ),
                FAN_MIN_PERCENT as int,
                FAN_MAX_PERCENT as int,
            )
        },
    }
}

impl FanPidController {
    /// What the controller can remember: an integral within its range, and
    /// errors that temperatures can have.
    pub open spec fn wf(&self) -> bool {
        &&& 0 <= self.integral <= FAN_INTEGRAL_MAX
        &&& self.previous_error matches Some(e) ==> -0x1_0000_0000 <= e <= 0x1_0000_0000
    }

    /// A controller that has seen nothing.
    pub fn new() -> (r: FanPidController)
        ensures
            r.wf(),
            r.integral == 0,
            r.previous_error is None,
    {
        FanPidController { integral: 0, previous_error: None }
    }

    /// The fan speed for the highest temperature. Without one the fans run at
    /// the failsafe speed; from 68 degrees on they run at full speed.
    pub fn next_target_percent(&mut self, max_microc: Option<i64>, interval_ms: u32) -> (r: u8)
        requires
            old(self).wf(),
            max_microc matches Some(microc) ==> i32::MIN <= microc <= i32::MAX,
        ensures
            final(self).wf(),
            fans_controlled(*old(self), max_microc, interval_ms, r, *final(self)),
    {
        let microc: i64 = match max_microc {
            Some(microc) => microc,
            None => {
                self.integral = 0;
                self.previous_error = None;
                return FAN_FAILSAFE_PERCENT;
            },
        };
        let error: i64 = microc - FAN_TARGET_MICROC;
        if microc >= FAN_FULL_SPEED_MICROC {
            self.integral = 0;
            self.previous_error = Some(error);
            return FAN_MAX_PERCENT;
        }
        let ghost c = *self;
        let ms: i128 = if interval_ms < 1000 {
            1000
        } else {
            interval_ms as i128
        };
        assert(ms == control_interval(interval_ms));
        assert(-0x1_0000_0000 * 0x1_0000_0000 <= error * ms <= 0x1_0000_0000 * 0x1_0000_0000)
            by (nonlinear_arith)
            requires
                -0x1_0000_0000 <= error <= 0x1_0000_0000,
                0 <= ms <= 0x1_0000_0000,
        ;
        let sum: i128 = self.integral as i128 + error as i128 * ms;
        let integral: i64 = if sum < 0 {
            0
        } else if sum > FAN_INTEGRAL_MAX as i128 {
            FAN_INTEGRAL_MAX
        } else {
            sum as i64
        };
        assert(integral == next_integral(c, microc as int, interval_ms));
        let rise: i64 = match self.previous_error {
            Some(previous) => if error > previous {
                error - previous
            } else {
                0
            },
            None => 0,
        };
        let above: i64 = if error > 0 {
            error
        } else {
            0
        };
        self.integral = integral;
        self.previous_error = Some(error);
        assert(0 <= above * ms <= 0x1_0000_0000 * 0x1_0000_0000) by (nonlinear_arith)
            requires
                0 <= above <= 0x1_0000_0000,
                0 <= ms <= 0x1_0000_0000,
        ;
        assert(0 <= integral * ms <= 40_000_000_000 * 0x1_0000_0000) by (nonlinear_arith)
            requires
                0 <= integral <= 40_000_000_000,
                0 <= ms <= 0x1_0000_0000,
        ;
        let output: i128 = 4_500_000_000_000 * ms + 600_000 * (above as i128 * ms) + 35 * (
        integral as i128 * ms) + 300_000_000 * rise as i128;
        assert(output == pid_output(c, microc as int, interval_ms));
        let unit: i128 = 100_000_000_000 * ms;
        let rounded: i128 = (2 * output + unit) / (2 * unit);
        assert(rounded == round_half_up(output as int, unit as int)) by (nonlinear_arith)
            requires
                output >= 0,
                unit > 0,
                rounded == (2 * output + unit) as i128 / (2 * unit) as i128,
                2 * output + unit <= i128::MAX,
                2 * unit <= i128::MAX,
        ;
        if rounded < FAN_MIN_PERCENT as i128 {
            FAN_MIN_PERCENT
        } else if rounded > FAN_MAX_PERCENT as i128 {
            FAN_MAX_PERCENT
        } else {
            rounded as u8
        }
    }
}

/// Whatever has happened before, fans never run below 45 percent; without a
/// temperature they run at 80, and from 68 degrees on at full speed.
pub proof fn law_fans_never_stop(
    c: FanPidController,
    max_microc: Option<i64>,
    interval_ms: u32,
)
    ensures
        FAN_MIN_PERCENT <= pid_target(c, max_microc, interval_ms) <= FAN_MAX_PERCENT,
        max_microc is None ==> pid_target(c, max_microc, interval_ms) == FAN_FAILSAFE_PERCENT,
        max_microc matches Some(microc) ==> microc >= FAN_FULL_SPEED_MICROC ==> pid_target(
            c,
            max_microc,
            interval_ms,
        ) == FAN_MAX_PERCENT,
{
}

/// What a hash thread reports.
#[derive(Debug)]
pub struct ThreadReading {
    /// The hashboard that it drives.
    pub index: u8,
    pub name: String,
    pub hashrate: u64,
    pub is_active: bool,
}

/// The first thread that drives a hashboard.
pub open spec fn thread_of(threads: Seq<ThreadReading>, index: u8) -> Option<ThreadReading>
    decreases threads.len(),
{
    if threads.len() == 0 {
        None
    } else if threads[0].index == index {
        Some(threads[0])
    } else {
        thread_of(threads.drop_first(), index)
    }
}

/// The first thread that drives a hashboard.
fn find_thread<'a>(threads: &'a Vec<ThreadReading>, index: u8) -> (r: Option<&'a ThreadReading>)
    ensures
        match r {
            Some(t) => thread_of(threads@, index) == Some(*t),
            None => thread_of(threads@, index) is None,
        },
{
    let mut i: usize = 0;
    assert(threads@.skip(0) =~= threads@);
    while i < threads.len()
        invariant
            i <= threads@.len(),
            thread_of(threads@.skip(i as int), index) == thread_of(threads@, index),
        decreases threads@.len() - i,
    {
        assert(threads@.skip(i as int)[0] == threads@[i as int]);
        assert(threads@.skip(i as int).drop_first() =~= threads@.skip(i + 1));
        if threads[i].index == index {
            return Some(&threads[i]);
        }
        i = i + 1;
    }
    None
}

/// The rate of a hashboard: that of its thread, or zero.
pub open spec fn hashrate_of(threads: Seq<ThreadReading>, index: u8) -> u64 {
    match thread_of(threads, index) {
        Some(t) => t.hashrate,
        None => 0,
    }
}

/// Whether a hashboard hashes: whether its thread does.
pub open spec fn activity_of(threads: Seq<ThreadReading>, index: u8) -> bool {
    match thread_of(threads, index) {
        Some(t) => t.is_active,
        None => false,
    }
}

/// The hashboards as the API shows them.
pub open spec fn shown_hashboards(
    hashboards: Seq<S19jProHashboard>,
    threads: Seq<ThreadReading>,
) -> Seq<HashboardState> {
    hashboards.map_values(|h: S19jProHashboard| h.shown(hashrate_of(threads, h.index)))
}

/// The hashboards as the API shows them.
pub fn hashboard_states(
    hashboards: &Vec<S19jProHashboard>,
    threads: &Vec<ThreadReading>,
) -> (r: Vec<HashboardState>)
    ensures
        r@ == shown_hashboards(hashboards@, threads@),
{
    let mut states: Vec<HashboardState> = Vec::new();
    let mut i: usize = 0;
    while i < hashboards.len()
        invariant
            i <= hashboards@.len(),
            states@ =~= shown_hashboards(hashboards@, threads@).take(i as int),
        decreases hashboards@.len() - i,
    {
        let hashrate: u64 = match find_thread(threads, hashboards[i].index) {
            Some(t) => t.hashrate,
            None => 0,
        };
        states.push(hashboards[i].state(hashrate));
        i = i + 1;
    }
    assert(shown_hashboards(hashboards@, threads@).take(i as int) =~= shown_hashboards(
        hashboards@,
        threads@,
    ));
    states
}

/// How many of the hashboards hash.
pub open spec fn active_count(states: Seq<HashboardState>) -> nat
    decreases states.len(),
{
    if states.len() == 0 {
        0
    } else {
        active_count(states.drop_last()) + if states.last().is_active {
            1nat
        } else {
            0
        }
    }
}

/// How many of the hashboards hash, modulo 256.
fn count_active(states: &Vec<HashboardState>) -> (r: u8)
    ensures
        r == active_count(states@) % 256,
{
    let mut count: usize = 0;
    let mut i: usize = 0;
    while i < states.len()
        invariant
            i <= states@.len(),
            count == active_count(states@.take(i as int)),
            count <= i,
        decreases states@.len() - i,
    {
        assert(states@.take(i + 1).drop_last() =~= states@.take(i as int));
        if states[i].is_active {
            count = count + 1;
        }
        i = i + 1;
    }
    assert(states@.take(i as int) =~= states@);
    (count % 256) as u8
}

/// A board's state with its hashboards brought up to date. The number of
/// hashboards is at most 255; that of the active ones is taken modulo 256.
pub open spec fn with_hashboards(state: BoardState, hashboards: Vec<HashboardState>) -> BoardState {
    BoardState {
        frequency_khz: Some(TARGET_KHZ),
        hashboard_count: Some(
            if hashboards@.len() > 255 {
                255u8
            } else {
                hashboards@.len() as u8
            },
        ),
        active_hashboard_count: Some((active_count(hashboards@) % 256) as u8),
        hashboards,
        ..state
    }
}

/// Brings a board's state up to date with its hashboards.
pub fn publish_hashboard_state(state: &mut BoardState, hashboards: Vec<HashboardState>)
    ensures
        *final(state) == with_hashboards(*old(state), hashboards),
{
    state.frequency_khz = Some(TARGET_KHZ);
    state.hashboard_count = Some(hashboard_count_u8(hashboards.len()));
    state.active_hashboard_count = Some(count_active(&hashboards));
    state.hashboards = hashboards;
}

/// The state of a board that has just been found.
pub fn initial_state(serial: Option<String>, data_ports: &Vec<String>) -> (r: BoardState)
    ensures
        r.name@ == "s19jpro-"@ + serial_text(serial),
        r.model@ == "S19j Pro"@,
        r.serial == serial,
        r.frequency_khz == Some(TARGET_KHZ),
        r.hashboard_count == Some(HASHBOARD_COUNT as u8),
        r.active_hashboard_count == Some(0u8),
        r.hashboards@ == fresh_hashboards(data_ports@).map_values(
            |h: S19jProHashboard| h.shown(0),
        ),
        r.fans@.len() == 0,
        r.temperatures@.len() == 0,
        r.powers@.len() == 0,
        r.threads@.len() == 0,
{
    let mut name = String::new();
    push_text(&mut name, "s19jpro-");
    push_serial(&mut name, &serial);
    assert(name@ =~= "s19jpro-"@ + serial_text(serial));
    let ghost wanted = fresh_hashboards(data_ports@).map_values(|h: S19jProHashboard| h.shown(0));
    let mut hashboards: Vec<HashboardState> = Vec::new();
    let mut i: usize = 0;
    while i < data_ports.len()
        invariant
            i <= data_ports@.len(),
            wanted == fresh_hashboards(data_ports@).map_values(|h: S19jProHashboard| h.shown(0)),
            hashboards@ =~= wanted.take(i as int),
        decreases data_ports@.len() - i,
    {
        hashboards.push(
            HashboardState {
                index: (i % 256) as u8,
                serial_port: Some(data_ports[i].clone()),
                is_present: false,
                is_active: false,
                hashrate: 0,
            },
        );
        i = i + 1;
    }
    assert(wanted.take(i as int) =~= wanted);
    BoardState {
        name,
        model: "S19j Pro".to_string(),
        serial,
        frequency_khz: Some(TARGET_KHZ),
        hashboard_count: Some(HASHBOARD_COUNT as u8),
        active_hashboard_count: Some(0),
        hashboards,
        fans: Vec::new(),
        temperatures: Vec::new(),
        powers: Vec::new(),
        threads: Vec::new(),
    }
}

/// A hash thread to start.
#[derive(Debug)]
pub struct ThreadPlan {
    /// The hashboard that it drives.
    pub index: u8,
    pub name: String,
    pub port: String,
}

/// The name of a hashboard's thread.
pub open spec fn thread_name(serial: Option<String>, index: u8) -> Seq<char> {
    "S19jPro-"@ + serial_text(serial) + "-HB"@ + decimal(index as nat)
}

/// The chain behind a thread: 42 voltage domains of three BM1362 chips.
pub fn chain_config(plan: &ThreadPlan) -> (r: ChainConfig)
    ensures
        r.name@ == plan.name@,
        r.topology == (TopologySpec {
            domain_count: 42,
            chips_per_domain: 3,
            domain_config: false,
        }),
        r.topology.chips() == 126,
        is_bm1362(r.chip_config),
{
    ChainConfig {
        name: plan.name.clone(),
        topology: TopologySpec::uniform_domains(42, 3, false),
        chip_config: bm1362(),
    }
}

/// What the board says of itself.
pub fn board_info(serial: &Option<String>) -> (r: BoardInfo)
    ensures
        r.model@ == "S19j Pro"@,
        r.firmware_version is None,
        r.serial_number == *serial,
{
    info_of("S19j Pro", serial)
}

/// The hashboards that are present, in order.
pub open spec fn present(hashboards: Seq<S19jProHashboard>) -> Seq<S19jProHashboard> {
    hashboards.filter(|h: S19jProHashboard| h.is_present)
}

/// Whether each hashboard has its reset pin set up.
pub open spec fn all_reset(hashboards: Seq<S19jProHashboard>) -> bool {
    forall|i: int| 0 <= i < hashboards.len() ==> (#[trigger] hashboards[i]).has_reset_pin
}

/// Whether each hashboard has its plan.
pub open spec fn plans_match(
    plans: Seq<ThreadPlan>,
    hashboards: Seq<S19jProHashboard>,
    serial: Option<String>,
) -> bool {
    &&& plans.len() == hashboards.len()
    &&& forall|i: int|
        #![trigger plans[i]]
        #![trigger hashboards[i]]
        0 <= i < plans.len() ==> plans[i].index == hashboards[i].index && plans[i].port
            == hashboards[i].data_port_path && plans[i].name@ == thread_name(
            serial,
            hashboards[i].index,
        )
}

/// Plans a hash thread for each hashboard that is present. The first whose reset
/// pin is not set up ends the planning with an error; the hashboards before it
/// keep their plans.
pub fn plan_hash_threads(hashboards: &Vec<S19jProHashboard>, serial: &Option<String>) -> (r: (
    Vec<ThreadPlan>,
    Option<BoardError>,
))
    ensures
        threads_planned(hashboards@, *serial, r),
{
    let mut plans: Vec<ThreadPlan> = Vec::new();
    let ghost all = hashboards@;
    let ghost pred = |h: S19jProHashboard| h.is_present;
    let mut i: usize = 0;
    proof {
        reveal(Seq::filter);
    }
    while i < hashboards.len()
        invariant
            i <= hashboards@.len(),
            all == hashboards@,
            pred == (|h: S19jProHashboard| h.is_present),
            plans_match(plans@, all.take(i as int).filter(pred), *serial),
            all_reset(all.take(i as int).filter(pred)),
        decreases hashboards@.len() - i,
    {
        let h = &hashboards[i];
        proof {
            lemma_filter_next(all, i as int, pred);
        }
        if h.is_present {
            if !h.has_reset_pin {
                let mut why = String::new();
                push_text(&mut why, "Reset pin not initialized for HB");
                push_decimal(&mut why, h.index as u64);
                assert(why@ =~= "Reset pin not initialized for HB"@ + decimal(h.index as nat));
                proof {
                    let prior = all.take(i as int).filter(pred);
                    let k = prior.len() as int;
                    lemma_filter_prefix(all, i + 1, pred);
                    assert(present(all) == all.filter(pred));
                    assert(all.take(i + 1).filter(pred) == prior.push(*h));
                    assert(all.take(i + 1).filter(pred)[k] == *h);
                    assert(present(all)[k] == *h);
                    assert forall|j: int| 0 <= j < k implies #[trigger] present(all).take(k)[j]
                        == prior[j] by {
                        assert(present(all)[j] == all.take(i + 1).filter(pred)[j]);
                    }
                    assert(present(all).take(k) =~= prior);
                }
                return (plans, Some(BoardError::InitializationFailed(why)));
            }
            let mut name = String::new();
            push_text(&mut name, "S19jPro-");
            push_serial(&mut name, serial);
            push_text(&mut name, "-HB");
            push_decimal(&mut name, h.index as u64);
            assert(name@ =~= thread_name(*serial, h.index));
            plans.push(ThreadPlan { index: h.index, name, port: h.data_port_path.clone() });
        }
        i = i + 1;
    }
    assert(all.take(i as int) =~= all);
    assert(present(all) == all.filter(pred));
    (plans, None)
}

/// What is filtered from the first elements comes first.
proof fn lemma_filter_prefix(
    all: Seq<S19jProHashboard>,
    n: int,
    pred: spec_fn(S19jProHashboard) -> bool,
)
    requires
        0 <= n <= all.len(),
    ensures
        all.take(n).filter(pred).len() <= all.filter(pred).len(),
        forall|k: int|
            0 <= k < all.take(n).filter(pred).len() ==> all.filter(pred)[k] == #[trigger] all.take(
                n,
            ).filter(pred)[k],
    decreases all.len() - n,
{
    if n < all.len() {
        lemma_filter_prefix(all, n + 1, pred);
        lemma_filter_next(all, n, pred);
        assert forall|k: int| 0 <= k < all.take(n).filter(pred).len() implies all.filter(pred)[k]
            == #[trigger] all.take(n).filter(pred)[k] by {
            assert(all.take(n + 1).filter(pred)[k] == all.take(n).filter(pred)[k]);
        }
    } else {
        assert(all.take(n) =~= all);
    }
}

/// The hashboards with those active whose threads were started.
pub open spec fn started_hashboards(
    hashboards: Seq<S19jProHashboard>,
    started: Seq<u8>,
) -> Seq<S19jProHashboard> {
    hashboards.map_values(
        |h: S19jProHashboard|
            S19jProHashboard { is_active: h.is_active || started.contains(h.index), ..h },
    )
}

/// Whether a number is listed.
fn lists(numbers: &Vec<u8>, n: u8) -> (r: bool)
    ensures
        r == numbers@.contains(n),
{
    let mut i: usize = 0;
    while i < numbers.len()
        invariant
            i <= numbers@.len(),
            forall|j: int| 0 <= j < i ==> numbers@[j] != n,
        decreases numbers@.len() - i,
    {
        if numbers[i] == n {
            return true;
        }
        i = i + 1;
    }
    false
}

/// Books the threads that were started, by hashboard, with the obstacle that
/// ended the planning, if there was one. At least one must have been started.
pub fn complete_hash_threads(
    hashboards: &mut Vec<S19jProHashboard>,
    started: &Vec<u8>,
    obstacle: Option<BoardError>,
) -> (r: Result<(), BoardError>)
    ensures
        threads_started(old(hashboards)@, started@, obstacle, r, final(hashboards)@),
{
    let ghost before = hashboards@;
    let mut i: usize = 0;
    while i < hashboards.len()
        invariant
            i <= hashboards@.len() == before.len(),
            hashboards@ =~= started_hashboards(before, started@).take(i as int) + before.skip(
                i as int,
            ),
        decreases hashboards@.len() - i,
    {
        let index: u8 = hashboards[i].index;
        if lists(started, index) {
            hashboards[i].is_active = true;
        }
        i = i + 1;
    }
    assert(hashboards@ =~= started_hashboards(before, started@));
    if let Some(e) = obstacle {
        return Err(e);
    }
    if started.len() == 0 {
        return Err(
            BoardError::InitializationFailed(
                "No populated S19j Pro hashboards could be started".to_string(),
            ),
        );
    }
    Ok(())
}

/// A temperature sensor's reading.
#[derive(Debug)]
pub struct SensorReading {
    pub name: String,
    /// None if it could not be read.
    pub microc: Option<i32>,
}

/// What a telemetry cycle reads of a hashboard.
#[derive(Debug)]
pub struct HashboardReading {
    pub plug: PlugReading,
    pub sensors: Vec<SensorReading>,
}

/// The highest temperature of sensors and a temperature known before.
pub open spec fn warmest(known: Option<i64>, sensors: Seq<SensorReading>) -> Option<i64>
    decreases sensors.len(),
{
    if sensors.len() == 0 {
        known
    } else {
        match (warmest(known, sensors.drop_last()), sensors.last().microc) {
            (Some(a), Some(b)) => Some(
                if a >= b {
                    a
                } else {
                    b as i64
                },
            ),
            (Some(a), None) => Some(a),
            (None, Some(b)) => Some(b as i64),
            (None, None) => None,
        }
    }
}

/// The highest temperature of all hashboards.
pub open spec fn warmest_of(readings: Seq<HashboardReading>) -> Option<i64>
    decreases readings.len(),
{
    if readings.len() == 0 {
        None
    } else {
        warmest(warmest_of(readings.drop_last()), readings.last().sensors@)
    }
}

/// The sensors of all hashboards, as the API shows them.
pub open spec fn shown_sensors(readings: Seq<HashboardReading>) -> Seq<TemperatureSensor>
    decreases readings.len(),
{
    if readings.len() == 0 {
        Seq::<TemperatureSensor>::empty()
    } else {
        shown_sensors(readings.drop_last()) + readings.last().sensors@.map_values(
            |s: SensorReading| TemperatureSensor { name: s.name, microc: s.microc },
        )
    }
}

/// The hashboards after a telemetry cycle: present as their pins read, or as
/// before where a pin could not be read, and active as their threads are.
pub open spec fn sampled_hashboards(
    hashboards: Seq<S19jProHashboard>,
    readings: Seq<HashboardReading>,
    threads: Seq<ThreadReading>,
) -> Seq<S19jProHashboard> {
    Seq::new(
        hashboards.len(),
        |i: int|
            S19jProHashboard {
                is_present: readings[i].plug == PlugReading::High || (readings[i].plug
                    == PlugReading::Failed && hashboards[i].is_present),
                is_active: activity_of(threads, hashboards[i].index),
                ..hashboards[i]
            },
    )
}

/// The threads, as the API shows them.
pub open spec fn shown_threads(threads: Seq<ThreadReading>) -> Seq<ThreadState> {
    threads.map_values(
        |t: ThreadReading|
            ThreadState { name: t.name, hashrate: t.hashrate, is_active: t.is_active },
    )
}

/// What a telemetry cycle carries over to the next.
#[derive(Debug)]
pub struct Telemetry {
    pub pid: FanPidController,
    pub fan_percent: u8,
    pub cycle_count: u32,
}

/// What a telemetry cycle found, and what to do about it.
#[derive(Debug)]
pub struct CycleReport {
    pub temperatures: Vec<TemperatureSensor>,
    pub hashboards: Vec<HashboardState>,
    pub threads: Vec<ThreadState>,
    /// The fan speed to set, if it changes.
    pub new_fan_percent: Option<u8>,
    /// Whether the temperature has reached the ceiling.
    pub too_hot: bool,
    /// Whether to update the bridge's display.
    pub update_display: bool,
}

impl Telemetry {
    pub open spec fn wf(&self) -> bool {
        self.pid.wf()
    }

    /// Fans at the failsafe speed, and no cycle yet.
    pub fn new() -> (r: Telemetry)
        ensures
            r.wf(),
            r.pid.integral == 0,
            r.pid.previous_error is None,
            r.fan_percent == FAN_FAILSAFE_PERCENT,
            r.cycle_count == 0,
    {
        Telemetry {
            pid: FanPidController::new(),
            fan_percent: FAN_FAILSAFE_PERCENT,
            cycle_count: 0,
        }
    }

    /// One telemetry cycle over what was read of each hashboard and each thread.
    pub fn cycle(
        &mut self,
        hashboards: &mut Vec<S19jProHashboard>,
        readings: &Vec<HashboardReading>,
        threads: &Vec<ThreadReading>,
    ) -> (r: CycleReport)
        requires
            old(self).wf(),
            old(hashboards)@.len() == readings@.len(),
        ensures
            final(self).wf(),
            cycled(*old(self), old(hashboards)@, readings@, threads@, r, *final(self), final(hashboards)@),
    {
        let ghost before = hashboards@;
        let mut temperatures: Vec<TemperatureSensor> = Vec::new();
        let mut max_microc: Option<i64> = None;
        let mut i: usize = 0;
        while i < hashboards.len()
            invariant
                i <= hashboards@.len() == before.len() == readings@.len(),
                hashboards@ =~= sampled_hashboards(before, readings@, threads@).take(i as int)
                    + before.skip(i as int),
                temperatures@ == shown_sensors(readings@.take(i as int)),
                max_microc == warmest_of(readings@.take(i as int)),
                max_microc matches Some(m) ==> i32::MIN <= m <= i32::MAX,
            decreases hashboards@.len() - i,
        {
            let reading = &readings[i];
            assert(readings@.take(i + 1).drop_last() =~= readings@.take(i as int));
            let was_present: bool = hashboards[i].is_present;
            let index: u8 = hashboards[i].index;
            hashboards[i].is_present = judge_plug(reading.plug, was_present);
            hashboards[i].is_active =
            match find_thread(threads, index) {
                Some(t) => t.is_active,
                None => false,
            };
            let ghost known = max_microc;
            let ghost listed = temperatures@;
            let ghost show = |s: SensorReading|
                TemperatureSensor { name: s.name, microc: s.microc };
            let mut j: usize = 0;
            assert(listed + reading.sensors@.take(0).map_values(show) =~= listed);
            while j < reading.sensors.len()
                invariant
                    j <= reading.sensors@.len(),
                    show == (|s: SensorReading|
                        TemperatureSensor { name: s.name, microc: s.microc }),
                    max_microc == warmest(known, reading.sensors@.take(j as int)),
                    max_microc matches Some(m) ==> i32::MIN <= m <= i32::MAX,
                    temperatures@ =~= listed + reading.sensors@.take(j as int).map_values(show),
                decreases reading.sensors@.len() - j,
            {
                let sensor = &reading.sensors[j];
                assert(reading.sensors@.take(j + 1).drop_last() =~= reading.sensors@.take(
                    j as int,
                ));
                max_microc =
                match (max_microc, sensor.microc) {
                    (Some(a), Some(b)) => if a >= b as i64 {
                        Some(a)
                    } else {
                        Some(b as i64)
                    },
                    (Some(a), None) => Some(a),
                    (None, Some(b)) => Some(b as i64),
                    (None, None) => None,
                };
                temperatures.push(
                    TemperatureSensor { name: sensor.name.clone(), microc: sensor.microc },
                );
                j = j + 1;
            }
            assert(reading.sensors@.take(j as int) =~= reading.sensors@);
            i = i + 1;
        }
        assert(readings@.take(i as int) =~= readings@);
        assert(hashboards@ =~= sampled_hashboards(before, readings@, threads@));

        let target: u8 = self.pid.next_target_percent(max_microc, TELEMETRY_INTERVAL_MS);
        let new_fan_percent: Option<u8> = if target != self.fan_percent {
            Some(target)
        } else {
            None
        };
        self.fan_percent = target;
        let too_hot: bool = match max_microc {
            Some(m) => m >= FAN_MAX_MICROC,
            None => false,
        };
        let update_display: bool = self.cycle_count % DISPLAY_UPDATE_INTERVAL == 0;
        self.cycle_count =
        if self.cycle_count == u32::MAX {
            0
        } else {
            self.cycle_count + 1
        };

        let states = hashboard_states(hashboards, threads);
        let mut thread_states: Vec<ThreadState> = Vec::new();
        let mut k: usize = 0;
        while k < threads.len()
            invariant
                k <= threads@.len(),
                thread_states@ =~= shown_threads(threads@).take(k as int),
            decreases threads@.len() - k,
        {
            thread_states.push(
                ThreadState {
                    name: threads[k].name.clone(),
                    hashrate: threads[k].hashrate,
                    is_active: threads[k].is_active,
                },
            );
            k = k + 1;
        }
        assert(shown_threads(threads@).take(k as int) =~= shown_threads(threads@));
        CycleReport {
            temperatures,
            hashboards: states,
            threads: thread_states,
            new_fan_percent,
            too_hot,
            update_display,
        }
    }
}

/// A fan's reading.
#[derive(Debug)]
pub struct FanReading {
    pub name: String,
    /// None if it could not be read.
    pub rpm: Option<u32>,
}

/// The fans, as the API shows them.
pub open spec fn shown_fans(readings: Seq<FanReading>, target_percent: u8) -> Seq<Fan> {
    readings.map_values(
        |f: FanReading|
            Fan {
                name: f.name,
                rpm: f.rpm,
                percent: None,
                target_percent: Some(target_percent),
            },
    )
}

/// The fans, as the API shows them.
pub fn fan_states(fans: &Vec<FanReading>, target_percent: u8) -> (r: Vec<Fan>)
    ensures
        r@ == shown_fans(fans@, target_percent),
{
    let mut shown: Vec<Fan> = Vec::new();
    let mut i: usize = 0;
    while i < fans.len()
        invariant
            i <= fans@.len(),
            shown@ =~= shown_fans(fans@, target_percent).take(i as int),
        decreases fans@.len() - i,
    {
        shown.push(
            Fan {
                name: fans[i].name.clone(),
                rpm: fans[i].rpm,
                percent: None,
                target_percent: Some(target_percent),
            },
        );
        i = i + 1;
    }
    assert(shown_fans(fans@, target_percent).take(i as int) =~= shown_fans(fans@, target_percent));
    shown
}

/// Brings a board's state up to date after a telemetry cycle.
pub fn publish_cycle(
    state: &mut BoardState,
    report: CycleReport,
    fans: &Vec<FanReading>,
    fan_percent: u8,
    microvolts: Option<u32>,
)
    ensures
        cycle_published(*old(state), report, fans@, fan_percent, microvolts, *final(state)),
{
    let shown = fan_states(fans, fan_percent);
    publish_hashboard_state(state, report.hashboards);
    state.temperatures = report.temperatures;
    state.fans = shown;
    state.powers =
    vec![
        PowerMeasurement {
            name: "APW12".to_string(),
            microvolts,
            milliamps: None,
            milliwatts: None,
        },
    ];
    state.threads = report.threads;
}

/// The resets of the hashboards whose reset pin has been set up, in order.
pub open spec fn reset_steps(hashboards: Seq<S19jProHashboard>) -> Seq<BoardStep>
    decreases hashboards.len(),
{
    if hashboards.len() == 0 {
        Seq::<BoardStep>::empty()
    } else if hashboards.last().has_reset_pin {
        reset_steps(hashboards.drop_last()).push(
            BoardStep::AssertReset { index: hashboards.last().index },
        )
    } else {
        reset_steps(hashboards.drop_last())
    }
}

/// The steps of a shutdown.
pub open spec fn shutting_down(hashboards: Seq<S19jProHashboard>, has_psu: bool) -> Seq<BoardStep> {
    seq![BoardStep::SetFans { percent: 0 }] + reset_steps(hashboards) + (if has_psu {
        seq![BoardStep::DisablePsu]
    } else {
        Seq::<BoardStep>::empty()
    })
}

/// The steps of a shutdown, none of which ends it by failing: fans off, every
/// hashboard into reset, and the supply off if there is one.
pub fn shutdown_steps(hashboards: &Vec<S19jProHashboard>, has_psu: bool) -> (r: Vec<BoardStep>)
    ensures
        r@ == shutting_down(hashboards@, has_psu),
{
    let mut steps: Vec<BoardStep> = vec![BoardStep::SetFans { percent: 0 }];
    let ghost first = steps@;
    let mut i: usize = 0;
    assert(first + reset_steps(hashboards@.take(0)) =~= first);
    while i < hashboards.len()
        invariant
            i <= hashboards@.len(),
            steps@ == first + reset_steps(hashboards@.take(i as int)),
        decreases hashboards@.len() - i,
    {
        assert(hashboards@.take(i + 1).drop_last() =~= hashboards@.take(i as int));
        if hashboards[i].has_reset_pin {
            steps.push(BoardStep::AssertReset { index: hashboards[i].index });
            assert(steps@ =~= first + reset_steps(hashboards@.take(i + 1)));
        }
        i = i + 1;
    }
    assert(hashboards@.take(i as int) =~= hashboards@);
    if has_psu {
        steps.push(BoardStep::DisablePsu);
    }
    assert(steps@ =~= shutting_down(hashboards@, has_psu));
    steps
}

proof fn lemma_reset_steps(hashboards: Seq<S19jProHashboard>, i: int)
    requires
        0 <= i < hashboards.len(),
        hashboards[i].has_reset_pin,
    ensures
        reset_steps(hashboards).contains(BoardStep::AssertReset { index: hashboards[i].index }),
    decreases hashboards.len(),
{
    let rest = reset_steps(hashboards.drop_last());
    let all = reset_steps(hashboards);
    if i == hashboards.len() - 1 {
        assert(all[all.len() - 1] == (BoardStep::AssertReset { index: hashboards[i].index }));
    } else {
        lemma_reset_steps(hashboards.drop_last(), i);
        let j = choose|j: int|
            0 <= j < rest.len() && rest[j] == (BoardStep::AssertReset {
                index: hashboards[i].index,
            });
        assert(all[j] == rest[j]);
    }
}

/// A shutdown puts every hashboard in reset whose pin has been set up, and if
/// there is a supply, switching it off is the last step.
pub proof fn law_shutdown_resets_hashboards(
    hashboards: Seq<S19jProHashboard>,
    has_psu: bool,
    i: int,
)
    requires
        0 <= i < hashboards.len(),
        hashboards[i].has_reset_pin,
    ensures
        shutting_down(hashboards, has_psu).contains(
            BoardStep::AssertReset { index: hashboards[i].index },
        ),
        has_psu ==> shutting_down(hashboards, has_psu).last() == BoardStep::DisablePsu,
{
    lemma_reset_steps(hashboards, i);
    let resets = reset_steps(hashboards);
    let j = choose|j: int|
        0 <= j < resets.len() && resets[j] == (BoardStep::AssertReset {
            index: hashboards[i].index,
        });
    assert(shutting_down(hashboards, has_psu)[j + 1] == resets[j]);
}

/// Books a shutdown: no hashboard hashes any more.
pub fn complete_shutdown(hashboards: &mut Vec<S19jProHashboard>)
    ensures
        final(hashboards)@ == stopped_hashboards(old(hashboards)@),
{
    let ghost before = hashboards@;
    let ghost off = before.map_values(
        |h: S19jProHashboard| S19jProHashboard { is_active: false, ..h },
    );
    let mut i: usize = 0;
    while i < hashboards.len()
        invariant
            i <= hashboards@.len() == before.len(),
            off == before.map_values(
                |h: S19jProHashboard| S19jProHashboard { is_active: false, ..h },
            ),
            hashboards@ =~= off.take(i as int) + before.skip(i as int),
        decreases hashboards@.len() - i,
    {
        hashboards[i].is_active = false;
        i = i + 1;
    }
    assert(hashboards@ =~= off);
}

/// What brings the board up: the hashboards are held in reset, and then power
/// comes on.
pub open spec fn initialization(hashboard_count: u8) -> Seq<BoardStep> {
    hold_steps(hashboard_count as nat) + power_steps()
}

/// What the fans are set to, and what the controller remembers.
pub open spec fn fans_controlled(
    before: FanPidController,
    max_microc: Option<i64>,
    interval_ms: u32,
    r: u8,
    after: FanPidController,
) -> bool {
    &&& r == pid_target(before, max_microc, interval_ms)
    &&& after.integral == match max_microc {
        Some(microc) if microc < FAN_FULL_SPEED_MICROC => next_integral(
            before,
            microc as int,
            interval_ms,
        ),
        _ => 0,
    }
    &&& after.previous_error == match max_microc {
        Some(microc) => Some((microc - FAN_TARGET_MICROC) as i64),
        None => None,
    }
}

/// Which threads are planned, and what stands in the way of the others.
pub open spec fn threads_planned(
    hashboards: Seq<S19jProHashboard>,
    serial: Option<String>,
    r: (Vec<ThreadPlan>, Option<BoardError>),
) -> bool {
    &&& r.1 is None <==> all_reset(present(hashboards))
    &&& r.1 is None ==> plans_match(r.0@, present(hashboards), serial)
    &&& r.1 matches Some(e) ==> e matches BoardError::InitializationFailed(why) && exists|i: int| {
        &&& 0 <= i < present(hashboards).len()
        &&& !(#[trigger] present(hashboards)[i]).has_reset_pin
        &&& all_reset(present(hashboards).take(i))
        &&& plans_match(r.0@, present(hashboards).take(i), serial)
        &&& why@ == "Reset pin not initialized for HB"@ + decimal(
            present(hashboards)[i].index as nat,
        )
    }
}

/// What becomes of the hashboards whose threads were started, and of the board.
pub open spec fn threads_started(
    before: Seq<S19jProHashboard>,
    started: Seq<u8>,
    obstacle: Option<BoardError>,
    r: Result<(), BoardError>,
    after: Seq<S19jProHashboard>,
) -> bool {
    &&& after == started_hashboards(before, started)
    &&& match obstacle {
        Some(e) => r == Err::<(), BoardError>(e),
        None => {
            &&& r is Ok <==> started.len() > 0
            &&& r matches Err(e) ==> e matches BoardError::InitializationFailed(why) && why@
                == "No populated S19j Pro hashboards could be started"@
        },
    }
}

/// What a cycle of telemetry finds and decides.
pub open spec fn cycled(
    before: Telemetry,
    boards: Seq<S19jProHashboard>,
    readings: Seq<HashboardReading>,
    threads: Seq<ThreadReading>,
    r: CycleReport,
    after: Telemetry,
    sampled: Seq<S19jProHashboard>,
) -> bool {
    &&& sampled == sampled_hashboards(boards, readings, threads)
    &&& r.temperatures@ == shown_sensors(readings)
    &&& r.hashboards@ == shown_hashboards(sampled, threads)
    &&& r.threads@ == shown_threads(threads)
    &&& after.fan_percent == pid_target(
        before.pid,
        warmest_of(readings),
        TELEMETRY_INTERVAL_MS,
    )
    &&& after.pid.integral == match warmest_of(readings) {
        Some(microc) if microc < FAN_FULL_SPEED_MICROC => next_integral(
            before.pid,
            microc as int,
            TELEMETRY_INTERVAL_MS,
        ),
        _ => 0,
    }
    &&& after.pid.previous_error == match warmest_of(readings) {
        Some(microc) => Some((microc - FAN_TARGET_MICROC) as i64),
        None => None,
    }
    &&& r.new_fan_percent == if after.fan_percent == before.fan_percent {
        None
    } else {
        Some(after.fan_percent)
    }
    &&& r.too_hot == (warmest_of(readings) is Some && warmest_of(readings)->0
        >= FAN_MAX_MICROC)
    &&& r.update_display == (before.cycle_count % DISPLAY_UPDATE_INTERVAL == 0)
    &&& after.cycle_count == if before.cycle_count == u32::MAX {
        0
    } else {
        before.cycle_count + 1
    }
}

/// What a cycle publishes of the board.
pub open spec fn cycle_published(
    before: BoardState,
    report: CycleReport,
    fans: Seq<FanReading>,
    fan_percent: u8,
    microvolts: Option<u32>,
    after: BoardState,
) -> bool {
    &&& after == (BoardState {
        temperatures: report.temperatures,
        threads: report.threads,
        fans: after.fans,
        powers: after.powers,
        ..with_hashboards(before, report.hashboards)
    })
    &&& after.fans@ == shown_fans(fans, fan_percent)
    &&& after.powers@.len() == 1
    &&& after.powers@[0].name@ == "APW12"@
    &&& after.powers@[0].microvolts == microvolts
    &&& after.powers@[0].milliamps is None
    &&& after.powers@[0].milliwatts is None
}

/// A board is brought up in this order: the hashboards one after the other, each
/// held in reset and then asked whether it is plugged in; then the supply is
/// switched on, its watchdog off, and its voltage set to 12.6 V and measured; and
/// then the fans run at 80 %.
pub proof fn law_initialization_order(hashboard_count: u8, i: int)
    requires
        0 <= i < hashboard_count,
    ensures
        ({
            let steps = initialization(hashboard_count);
            let n = 2 * hashboard_count;
            &&& steps.len() == n + 7
            &&& steps[2 * i] == (BoardStep::AssertReset { index: i as u8 })
            &&& steps[2 * i + 1] == (BoardStep::ReadPlug { index: i as u8 })
            &&& steps[n] == BoardStep::EnablePsu
            &&& steps[n + 1] == (BoardStep::Wait { ms: 500 })
            &&& steps[n + 2] == (BoardStep::ConfigureWatchdog { value: 0 })
            &&& steps[n + 3] == (BoardStep::SetVoltage { microvolts: 12_600_000 })
            &&& steps[n + 4] == (BoardStep::Wait { ms: 2000 })
            &&& steps[n + 5] == BoardStep::MeasureVoltage
            &&& steps[n + 6] == (BoardStep::SetFans { percent: 80 })
        }),
{
    lemma_hold_order(hashboard_count as nat, i);
}

proof fn lemma_hold_order(n: nat, i: int)
    requires
        0 <= i < n <= 256,
    ensures
        hold_steps(n).len() == 2 * n,
        hold_steps(n)[2 * i] == (BoardStep::AssertReset { index: i as u8 }),
        hold_steps(n)[2 * i + 1] == (BoardStep::ReadPlug { index: i as u8 }),
    decreases n,
{
    let earlier = hold_steps((n - 1) as nat);
    if i < n - 1 {
        lemma_hold_order((n - 1) as nat, i);
    } else {
        if n > 1 {
            lemma_hold_order((n - 1) as nat, 0);
        } else {
            assert(earlier.len() == 0);
        }
    }
}

/// Below full speed the fans run at 45 %, and 6 % more for each degree above 62,
/// 0.35 % more for each degree-second held, and 3 % more for each degree a second
/// of rise, rounded to the nearest percent and kept between 45 and 100.
pub proof fn law_fans_follow_temperature(c: FanPidController, microc: i64, interval_ms: u32)
    requires
        microc < 68_000_000,
    ensures
        ({
            let percent = pid_target(c, Some(microc), interval_ms);
            let ms = if interval_ms < 1000 {
                1000int
            } else {
                interval_ms as int
            };
            let error = microc - 62_000_000;
            let above = if error > 0 {
                error
            } else {
                0
            };
            let held = if c.integral + error * ms < 0 {
                0
            } else if c.integral + error * ms > 40_000_000_000 {
                40_000_000_000
            } else {
                c.integral + error * ms
            };
            let rise = if c.previous_error is Some && error > c.previous_error->0 {
                error - c.previous_error->0
            } else {
                0
            };
            let exact = 4_500_000_000_000 * ms + 600_000 * (above * ms) + 35 * (held * ms)
                + 300_000_000 * rise;
            let unit = 100_000_000_000 * ms;
            &&& 45 <= percent <= 100
            &&& percent > 45 ==> 2 * (unit * percent) <= 2 * exact + unit
            &&& percent < 100 ==> 2 * exact + unit < 2 * (unit * percent) + 2 * unit
        }),
{
    let ms = control_interval(interval_ms);
    let exact = pid_output(c, microc as int, interval_ms);
    let unit = 100_000_000_000 * ms;
    let p = round_half_up(exact, unit);
    let n = 2 * exact + unit;
    vstd::arithmetic::div_mod::lemma_fundamental_div_mod(n, 2 * unit);
    vstd::arithmetic::div_mod::lemma_mod_bound(n, 2 * unit);
    assert((2 * unit) * p == 2 * (unit * p)) by (nonlinear_arith);
    assert(p <= 45 ==> unit * p <= unit * 45) by (nonlinear_arith)
        requires
            unit > 0,
    ;
    assert(p >= 100 ==> unit * p >= unit * 100) by (nonlinear_arith)
        requires
            unit > 0,
    ;
}

/// What the controller remembers. Below full speed it adds up how far the
/// temperature is off, over the time since, between nothing and 40 degree-seconds;
/// at full speed and without a reading it starts over. It remembers how far off
/// the last reading was.
pub proof fn law_fan_controller_remembers(
    before: FanPidController,
    max_microc: Option<i64>,
    interval_ms: u32,
    r: u8,
    after: FanPidController,
)
    requires
        fans_controlled(before, max_microc, interval_ms, r, after),
        max_microc matches Some(microc) ==> i32::MIN <= microc <= i32::MAX,
    ensures
        max_microc is None ==> r == 80 && after.integral == 0 && after.previous_error is None,
        max_microc matches Some(microc) ==> {
            let ms = if interval_ms < 1000 {
                1000int
            } else {
                interval_ms as int
            };
            let sum = before.integral + (microc - 62_000_000) * ms;
            &&& after.previous_error == Some((microc - 62_000_000) as i64)
            &&& microc >= 68_000_000 ==> r == 100 && after.integral == 0
            &&& microc < 68_000_000 && 0 <= sum <= 40_000_000_000 ==> after.integral == sum
            &&& microc < 68_000_000 && sum < 0 ==> after.integral == 0
            &&& microc < 68_000_000 && sum > 40_000_000_000 ==> after.integral == 40_000_000_000
        },
{
}

/// The thread of a hashboard is the first that is listed with its number.
pub proof fn law_thread_of_hashboard(threads: Seq<ThreadReading>, index: u8)
    ensures
        match thread_of(threads, index) {
            Some(t) => exists|i: int|
                0 <= i < threads.len() && (#[trigger] threads[i]) == t && t.index == index && (
                forall|j: int| 0 <= j < i ==> (#[trigger] threads[j]).index != index),
            None => forall|i: int| 0 <= i < threads.len() ==> (#[trigger] threads[i]).index != index,
        },
        thread_of(threads, index) matches Some(t) ==> hashrate_of(threads, index) == t.hashrate
            && activity_of(threads, index) == t.is_active,
        thread_of(threads, index) is None ==> hashrate_of(threads, index) == 0 && !activity_of(
            threads,
            index,
        ),
    decreases threads.len(),
{
    if threads.len() > 0 {
        let rest = threads.drop_first();
        law_thread_of_hashboard(rest, index);
        assert(forall|i: int| 0 <= i < rest.len() ==> (#[trigger] rest[i]) == threads[i + 1]);
        if threads[0].index != index {
            match thread_of(rest, index) {
                Some(t) => {
                    let i = choose|i: int|
                        0 <= i < rest.len() && (#[trigger] rest[i]) == t && t.index == index && (
                        forall|j: int| 0 <= j < i ==> (#[trigger] rest[j]).index != index);
                    assert(threads[i + 1] == t);
                    assert forall|j: int| 0 <= j < i + 1 implies (#[trigger] threads[j]).index
                        != index by {
                        if j > 0 {
                            assert(rest[j - 1] == threads[j]);
                        }
                    }
                },
                None => {
                    assert forall|j: int| 0 <= j < threads.len() implies (
                    #[trigger] threads[j]).index != index by {
                        if j > 0 {
                            assert(rest[j - 1] == threads[j]);
                        }
                    }
                },
            }
        } else {
            assert(threads[0].index == index);
        }
    }
}

/// Hashboards are shown in their order, each under its number and port, as
/// present and active as it is, with the rate of its thread.
pub proof fn law_hashboards_are_shown(
    hashboards: Seq<S19jProHashboard>,
    threads: Seq<ThreadReading>,
    i: int,
)
    requires
        0 <= i < hashboards.len(),
    ensures
        ({
            let shown = shown_hashboards(hashboards, threads);
            &&& shown.len() == hashboards.len()
            &&& shown[i].index == hashboards[i].index
            &&& shown[i].serial_port == Some(hashboards[i].data_port_path)
            &&& shown[i].is_present == hashboards[i].is_present
            &&& shown[i].is_active == hashboards[i].is_active
            &&& shown[i].hashrate == hashrate_of(threads, hashboards[i].index)
        }),
{
}

/// Each hashboard that is active counts once, and no other.
pub proof fn law_active_hashboards_count(states: Seq<HashboardState>, state: HashboardState)
    ensures
        active_count(Seq::<HashboardState>::empty()) == 0,
        active_count(states) <= states.len(),
        state.is_active ==> active_count(states.push(state)) == active_count(states) + 1,
        !state.is_active ==> active_count(states.push(state)) == active_count(states),
    decreases states.len(),
{
    assert(states.push(state).drop_last() =~= states);
    if states.len() > 0 {
        law_active_hashboards_count(states.drop_last(), state);
    }
}

/// What publishing hashboards changes of a board: the hashboards, their number,
/// how many are active, and the frequency of 500 MHz; nothing else.
pub proof fn law_published_hashboards(state: BoardState, hashboards: Vec<HashboardState>)
    ensures
        ({
            let after = with_hashboards(state, hashboards);
            &&& after.hashboards == hashboards
            &&& hashboards@.len() <= 255 ==> after.hashboard_count == Some(hashboards@.len() as u8)
                && after.active_hashboard_count == Some(active_count(hashboards@) as u8)
            &&& after.frequency_khz == Some(500_000u32)
            &&& after.name == state.name
            &&& after.model == state.model
            &&& after.serial == state.serial
            &&& after.fans == state.fans
            &&& after.temperatures == state.temperatures
            &&& after.powers == state.powers
            &&& after.threads == state.threads
        }),
{
    if hashboards@.len() <= 255 {
        lemma_active_bounded(hashboards@);
    }
}

proof fn lemma_active_bounded(states: Seq<HashboardState>)
    ensures
        active_count(states) <= states.len(),
    decreases states.len(),
{
    if states.len() > 0 {
        lemma_active_bounded(states.drop_last());
    }
}

/// When every hashboard that is plugged in has its reset pin, each of them gets a
/// thread on its own port, under its own number and name, in their order; those
/// that are not plugged in get none.
pub proof fn law_present_hashboards_get_threads(
    hashboards: Seq<S19jProHashboard>,
    serial: Option<String>,
    r: (Vec<ThreadPlan>, Option<BoardError>),
    h: S19jProHashboard,
)
    requires
        threads_planned(hashboards, serial, r),
        forall|i: int|
            0 <= i < hashboards.len() && (#[trigger] hashboards[i]).is_present
                ==> hashboards[i].has_reset_pin,
    ensures
        r.1 is None,
        hashboards.contains(h) && h.is_present ==> exists|i: int|
            0 <= i < r.0@.len() && (#[trigger] r.0@[i]).index == h.index && r.0@[i].port
                == h.data_port_path && r.0@[i].name@ == "S19jPro-"@ + serial_text(serial) + "-HB"@
                + decimal(h.index as nat),
        forall|i: int|
            0 <= i < r.0@.len() ==> serves_present((#[trigger] r.0@[i]), hashboards),
{
    let plugged = present(hashboards);
    let pred = |h: S19jProHashboard| h.is_present;
    assert(plugged == hashboards.filter(pred));
    assert forall|i: int| 0 <= i < plugged.len() implies (#[trigger] plugged[i]).has_reset_pin
        && hashboards.contains(plugged[i]) && plugged[i].is_present by {
        lemma_plugged(hashboards, plugged[i]);
        assert(plugged.contains(plugged[i]));
        let k = choose|k: int| 0 <= k < hashboards.len() && hashboards[k] == plugged[i];
        assert(hashboards[k].is_present);
    }
    assert(all_reset(plugged));
    if hashboards.contains(h) && h.is_present {
        lemma_plugged(hashboards, h);
        let i = choose|i: int| 0 <= i < plugged.len() && plugged[i] == h;
        assert(r.0@[i].index == h.index);
    }
    assert forall|i: int| 0 <= i < r.0@.len() implies serves_present(
        (#[trigger] r.0@[i]),
        hashboards,
    ) by {
        assert(plugged[i].is_present && hashboards.contains(plugged[i]));
        let k = choose|k: int| 0 <= k < hashboards.len() && hashboards[k] == plugged[i];
        assert(hashboards[k].is_present && r.0@[i].index == hashboards[k].index);
    }
}

/// Whether a thread is planned for a hashboard that is plugged in.
pub open spec fn serves_present(plan: ThreadPlan, hashboards: Seq<S19jProHashboard>) -> bool {
    exists|k: int|
        0 <= k < hashboards.len() && (#[trigger] hashboards[k]).is_present && plan.index
            == hashboards[k].index && plan.port == hashboards[k].data_port_path
}

proof fn lemma_plugged(hashboards: Seq<S19jProHashboard>, h: S19jProHashboard)
    ensures
        present(hashboards).contains(h) <==> hashboards.contains(h) && h.is_present,
    decreases hashboards.len(),
{
    reveal(Seq::filter);
    let pred = |h: S19jProHashboard| h.is_present;
    if hashboards.len() > 0 {
        let rest = hashboards.drop_last();
        let last = hashboards.last();
        let found = present(rest);
        lemma_plugged(rest, h);
        assert(hashboards[hashboards.len() - 1] == last);
        if hashboards.contains(h) {
            let i = choose|i: int| 0 <= i < hashboards.len() && hashboards[i] == h;
            if i < rest.len() {
                assert(rest[i] == h);
            }
        }
        if rest.contains(h) {
            let i = choose|i: int| 0 <= i < rest.len() && rest[i] == h;
            assert(hashboards[i] == h);
        }
        if pred(last) {
            let all = found.push(last);
            assert(present(hashboards) == all);
            assert(all[found.len() as int] == last);
            if found.contains(h) {
                let i = choose|i: int| 0 <= i < found.len() && found[i] == h;
                assert(all[i] == h);
            }
            if all.contains(h) && h != last {
                let i = choose|i: int| 0 <= i < all.len() && all[i] == h;
                assert(found[i] == h);
            }
        } else {
            assert(present(hashboards) == found);
        }
    }
}

/// A hashboard that is plugged in but has no reset pin gets no thread, and
/// neither does any after it; it is named in the error.
pub proof fn law_missing_reset_pin_is_named(
    hashboards: Seq<S19jProHashboard>,
    serial: Option<String>,
    r: (Vec<ThreadPlan>, Option<BoardError>),
)
    requires
        threads_planned(hashboards, serial, r),
        r.1 is Some,
    ensures
        exists|h: S19jProHashboard| {
            &&& #[trigger] hashboards.contains(h)
            &&& h.is_present
            &&& !h.has_reset_pin
            &&& r.1 matches Some(BoardError::InitializationFailed(why)) && why@
                == "Reset pin not initialized for HB"@ + decimal(h.index as nat)
        },
        r.0@.len() < present(hashboards).len(),
{
    let plugged = present(hashboards);
    let why = r.1->0->InitializationFailed_0;
    let i = choose|i: int| {
        &&& 0 <= i < plugged.len()
        &&& !(#[trigger] plugged[i]).has_reset_pin
        &&& all_reset(plugged.take(i))
        &&& plans_match(r.0@, plugged.take(i), serial)
        &&& why@ == "Reset pin not initialized for HB"@ + decimal(plugged[i].index as nat)
    };
    lemma_plugged(hashboards, plugged[i]);
    assert(plugged.contains(plugged[i]));
}

/// The hashboards whose threads have started are active from then on; none stops
/// being so, and nothing else of them changes. Without any the board fails.
pub proof fn law_started_hashboards_are_active(
    before: Seq<S19jProHashboard>,
    started: Seq<u8>,
    obstacle: Option<BoardError>,
    r: Result<(), BoardError>,
    after: Seq<S19jProHashboard>,
    i: int,
)
    requires
        threads_started(before, started, obstacle, r, after),
        0 <= i < before.len(),
    ensures
        after.len() == before.len(),
        after[i].is_active <==> before[i].is_active || started.contains(before[i].index),
        after[i].index == before[i].index,
        after[i].data_port_path == before[i].data_port_path,
        after[i].has_reset_pin == before[i].has_reset_pin,
        after[i].is_present == before[i].is_present,
        obstacle matches Some(e) ==> r == Err::<(), BoardError>(e),
        obstacle is None ==> (r is Ok <==> started.len() > 0),
{
}

/// The temperature that the fans follow is the highest of all sensors: none
/// reads more, and one reads just that. Without any reading there is none.
pub proof fn law_warmest_sensor(readings: Seq<HashboardReading>, i: int, k: int)
    ensures
        0 <= i < readings.len() && 0 <= k < readings[i].sensors@.len() ==> (
        readings[i].sensors@[k].microc matches Some(microc) ==> warmest_of(readings) is Some
            && warmest_of(readings)->0 >= microc),
        warmest_of(readings) matches Some(top) ==> i32::MIN <= top <= i32::MAX && exists|
            a: int,
            b: int,
        |
            0 <= a < readings.len() && 0 <= b < readings[a].sensors@.len()
                && #[trigger] readings[a].sensors@[b].microc == Some(top as i32),
    decreases readings.len(),
{
    if readings.len() > 0 {
        let rest = readings.drop_last();
        let last = readings.last().sensors@;
        let known = warmest_of(rest);
        law_warmest_sensor(rest, i, k);
        lemma_warmest(known, last, k);
        assert(readings[readings.len() - 1] == readings.last());
        if 0 <= i < rest.len() {
            assert(rest[i] == readings[i]);
        }
        if warmest_of(readings) is Some {
            let top = warmest_of(readings)->0;
            if known == Some(top) {
                let (a, b) = choose|a: int, b: int|
                    0 <= a < rest.len() && 0 <= b < rest[a].sensors@.len()
                        && #[trigger] rest[a].sensors@[b].microc == Some(top as i32);
                assert(readings[a].sensors@[b].microc == Some(top as i32));
            } else {
                let b = choose|b: int|
                    0 <= b < last.len() && (#[trigger] last[b]).microc == Some(top as i32);
                assert(readings[readings.len() - 1].sensors@[b].microc == Some(top as i32));
            }
        }
    }
}

proof fn lemma_warmest(known: Option<i64>, sensors: Seq<SensorReading>, k: int)
    ensures
        known matches Some(a) ==> warmest(known, sensors) is Some && warmest(known, sensors)->0
            >= a,
        0 <= k < sensors.len() ==> (sensors[k].microc matches Some(b) ==> warmest(
            known,
            sensors,
        ) is Some && warmest(known, sensors)->0 >= b),
        warmest(known, sensors) matches Some(top) ==> known == Some(top) || (i32::MIN <= top
            <= i32::MAX && exists|b: int|
            0 <= b < sensors.len() && (#[trigger] sensors[b]).microc == Some(top as i32)),
    decreases sensors.len(),
{
    if sensors.len() > 0 {
        let rest = sensors.drop_last();
        lemma_warmest(known, rest, k);
        let earlier = warmest(known, rest);
        let top = warmest(known, sensors);
        assert(sensors[sensors.len() - 1] == sensors.last());
        if top is Some && earlier == top && known != top {
            let b = choose|b: int|
                0 <= b < rest.len() && (#[trigger] rest[b]).microc == Some(top->0 as i32);
            assert(sensors[b].microc == Some(top->0 as i32));
        }
        if k < rest.len() && k >= 0 {
            assert(rest[k] == sensors[k]);
        }
    }
}

/// What a cycle of telemetry finds. A hashboard is present when its pin says so,
/// and as before when the pin cannot be read; it is active as its thread is. The
/// fans follow the warmest sensor, from 70 degrees on it is too hot, and every
/// fifth cycle the display is updated.
pub proof fn law_telemetry_cycle(
    before: Telemetry,
    boards: Seq<S19jProHashboard>,
    readings: Seq<HashboardReading>,
    threads: Seq<ThreadReading>,
    r: CycleReport,
    after: Telemetry,
    sampled: Seq<S19jProHashboard>,
    i: int,
)
    requires
        cycled(before, boards, readings, threads, r, after, sampled),
        0 <= i < boards.len() == readings.len(),
    ensures
        sampled.len() == boards.len(),
        sampled[i].index == boards[i].index,
        sampled[i].data_port_path == boards[i].data_port_path,
        sampled[i].has_reset_pin == boards[i].has_reset_pin,
        readings[i].plug == PlugReading::High ==> sampled[i].is_present,
        readings[i].plug == PlugReading::Low ==> !sampled[i].is_present,
        readings[i].plug == PlugReading::Failed ==> sampled[i].is_present == boards[i].is_present,
        sampled[i].is_active == activity_of(threads, boards[i].index),
        r.hashboards@.len() == boards.len(),
        r.hashboards@[i].is_present == sampled[i].is_present,
        r.hashboards@[i].is_active == sampled[i].is_active,
        r.hashboards@[i].index == boards[i].index,
        r.hashboards@[i].hashrate == hashrate_of(threads, boards[i].index),
        after.fan_percent == pid_target(before.pid, warmest_of(readings), 2_000),
        r.new_fan_percent is None <==> after.fan_percent == before.fan_percent,
        r.new_fan_percent matches Some(percent) ==> percent == after.fan_percent,
        r.too_hot <==> warmest_of(readings) is Some && warmest_of(readings)->0 >= 70_000_000,
        r.update_display <==> before.cycle_count % 5 == 0,
        before.cycle_count < u32::MAX ==> after.cycle_count == before.cycle_count + 1,
        r.threads@.len() == threads.len(),
        forall|k: int|
            0 <= k < threads.len() ==> (#[trigger] r.threads@[k]).name == threads[k].name
                && r.threads@[k].hashrate == threads[k].hashrate && r.threads@[k].is_active
                == threads[k].is_active,
{
}

/// The sensors of all hashboards are shown, those of the first first.
pub proof fn law_sensors_are_shown(
    readings: Seq<HashboardReading>,
    reading: HashboardReading,
    k: int,
)
    ensures
        ({
            let earlier = shown_sensors(readings);
            let all = shown_sensors(readings.push(reading));
            &&& shown_sensors(Seq::<HashboardReading>::empty()).len() == 0
            &&& all.len() == earlier.len() + reading.sensors@.len()
            &&& all.take(earlier.len() as int) == earlier
            &&& 0 <= k < reading.sensors@.len() ==> all[earlier.len() + k].name
                == reading.sensors@[k].name && all[earlier.len() + k].microc
                == reading.sensors@[k].microc
        }),
{
    assert(readings.push(reading).drop_last() =~= readings);
    let earlier = shown_sensors(readings);
    let all = shown_sensors(readings.push(reading));
    assert(all.take(earlier.len() as int) =~= earlier);
}

/// What a cycle publishes: what was read of the sensors, threads, hashboards and
/// fans, the speed that the fans are set to, and the supply's voltage.
pub proof fn law_cycle_is_published(
    before: BoardState,
    report: CycleReport,
    fans: Seq<FanReading>,
    fan_percent: u8,
    microvolts: Option<u32>,
    after: BoardState,
    i: int,
)
    requires
        cycle_published(before, report, fans, fan_percent, microvolts, after),
        0 <= i < fans.len(),
    ensures
        after.temperatures == report.temperatures,
        after.threads == report.threads,
        after.hashboards == report.hashboards,
        after.name == before.name,
        after.model == before.model,
        after.serial == before.serial,
        after.fans@.len() == fans.len(),
        after.fans@[i].name == fans[i].name,
        after.fans@[i].rpm == fans[i].rpm,
        after.fans@[i].target_percent == Some(fan_percent),
        after.fans@[i].percent is None,
        after.powers@.len() == 1,
        after.powers@[0].microvolts == microvolts,
        after.powers@[0].milliamps is None && after.powers@[0].milliwatts is None,
{
}

/// A shutdown stops the fans, holds exactly the hashboards that have a reset pin
/// in reset, and then switches the supply off if there is one; it does nothing
/// else.
pub proof fn law_shutdown_order(hashboards: Seq<S19jProHashboard>, has_psu: bool, step: BoardStep)
    ensures
        ({
            let steps = shutting_down(hashboards, has_psu);
            let resets = step matches BoardStep::AssertReset { index } && exists|i: int|
                0 <= i < hashboards.len() && (#[trigger] hashboards[i]).has_reset_pin
                    && hashboards[i].index == index;
            &&& steps[0] == (BoardStep::SetFans { percent: 0 })
            &&& steps.contains(step) <==> step == (BoardStep::SetFans { percent: 0 }) || resets || (
            has_psu && step == BoardStep::DisablePsu)
            &&& has_psu ==> steps.last() == BoardStep::DisablePsu
        }),
{
    let steps = shutting_down(hashboards, has_psu);
    let held = reset_steps(hashboards);
    lemma_only_resets(hashboards, step);
    assert(steps[0] == (BoardStep::SetFans { percent: 0 }));
    if steps.contains(step) {
        let k = choose|k: int| 0 <= k < steps.len() && steps[k] == step;
        if 1 <= k <= held.len() {
            assert(held[k - 1] == step);
        }
    }
    if held.contains(step) {
        let k = choose|k: int| 0 <= k < held.len() && held[k] == step;
        assert(steps[k + 1] == step);
    }
    if has_psu {
        assert(steps[held.len() as int + 1] == BoardStep::DisablePsu);
    }
}

proof fn lemma_only_resets(hashboards: Seq<S19jProHashboard>, step: BoardStep)
    ensures
        reset_steps(hashboards).contains(step) <==> (step matches BoardStep::AssertReset { index }
            && exists|i: int|
            0 <= i < hashboards.len() && (#[trigger] hashboards[i]).has_reset_pin
                && hashboards[i].index == index),
    decreases hashboards.len(),
{
    let held = reset_steps(hashboards);
    if hashboards.len() > 0 {
        let rest = hashboards.drop_last();
        let last = hashboards.last();
        let earlier = reset_steps(rest);
        lemma_only_resets(rest, step);
        assert(hashboards[hashboards.len() - 1] == last);
        if step is AssertReset {
            let index = step->AssertReset_index;
            if earlier.contains(step) {
                let i = choose|i: int|
                    0 <= i < rest.len() && (#[trigger] rest[i]).has_reset_pin && rest[i].index
                        == index;
                assert(hashboards[i].has_reset_pin && hashboards[i].index == index);
            }
            if exists|i: int|
                0 <= i < hashboards.len() && (#[trigger] hashboards[i]).has_reset_pin
                    && hashboards[i].index == index {
                let i = choose|i: int|
                    0 <= i < hashboards.len() && (#[trigger] hashboards[i]).has_reset_pin
                        && hashboards[i].index == index;
                if i < rest.len() {
                    assert(rest[i].has_reset_pin && rest[i].index == index);
                }
            }
        }
        if last.has_reset_pin {
            let own = BoardStep::AssertReset { index: last.index };
            assert(held == earlier.push(own));
            assert(held[earlier.len() as int] == own);
            if earlier.contains(step) {
                let k = choose|k: int| 0 <= k < earlier.len() && earlier[k] == step;
                assert(held[k] == step);
            }
            if held.contains(step) && step != own {
                let k = choose|k: int| 0 <= k < held.len() && held[k] == step;
                assert(earlier[k] == step);
            }
        }
    }
}

/// Hashboards of which none is active any more.
pub open spec fn stopped_hashboards(hashboards: Seq<S19jProHashboard>) -> Seq<S19jProHashboard> {
    hashboards.map_values(|h: S19jProHashboard| S19jProHashboard { is_active: false, ..h })
}

/// After a shutdown no hashboard is active, and nothing else of any has changed.
pub proof fn law_shutdown_stops_hashboards(hashboards: Seq<S19jProHashboard>, i: int)
    requires
        0 <= i < hashboards.len(),
    ensures
        ({
            let after = stopped_hashboards(hashboards);
            &&& after.len() == hashboards.len()
            &&& !after[i].is_active
            &&& after[i].index == hashboards[i].index
            &&& after[i].data_port_path == hashboards[i].data_port_path
            &&& after[i].has_reset_pin == hashboards[i].has_reset_pin
            &&& after[i].is_present == hashboards[i].is_present
        }),
{
}

/// Hashboards are numbered by their ports; until they are looked for none is
/// there.
pub proof fn law_fresh_hashboards(ports: Seq<String>, i: int)
    requires
        0 <= i < ports.len() <= 256,
    ensures
        ({
            let fresh = fresh_hashboards(ports);
            &&& fresh.len() == ports.len()
            &&& fresh[i].index == i
            &&& fresh[i].data_port_path == ports[i]
            &&& !fresh[i].has_reset_pin
            &&& !fresh[i].is_present
            &&& !fresh[i].is_active
        }),
{
}

/// Which steps must succeed for the board to come up: the resets, the supply's
/// switch, its watchdog and its voltage. A failure tells why.
pub proof fn law_fatal_steps(step: BoardStep, why: Seq<char>)
    ensures
        step_failure(step, why) is Some <==> step is AssertReset || step is EnablePsu
            || step is ConfigureWatchdog || step is SetVoltage,
        step_failure(step, why) matches Some(text) ==> text.len() > why.len() && text.skip(
            text.len() - why.len(),
        ) == why,
{
    reveal_strlit("Failed to assert reset for HB");
    reveal_strlit(": ");
    reveal_strlit("Failed to enable PSU: ");
    reveal_strlit("Failed to configure PSU watchdog: ");
    reveal_strlit("Failed to set PSU voltage: ");
    if let Some(text) = step_failure(step, why) {
        assert(text.skip(text.len() - why.len()) =~= why);
    }
}

/// Whether a hashboard is taken to be plugged in.
pub open spec fn plug_says(reading: PlugReading, otherwise: bool) -> bool {
    reading == PlugReading::High || (reading == PlugReading::Failed && otherwise)
}

/// A pin that is high says that the hashboard is there, one that is low that it
/// is not; a pin that cannot be read decides nothing.
pub proof fn law_plug_reading(reading: PlugReading, otherwise: bool)
    ensures
        reading is High ==> plug_says(reading, otherwise),
        reading is Low ==> !plug_says(reading, otherwise),
        reading is Failed ==> plug_says(reading, otherwise) == otherwise,
{
}

} // verus!
