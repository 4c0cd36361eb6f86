//! The S19j Pro on a native Amlogic control board.

use mujina_miner::api::types::{TemperatureSensor, ThreadState};
use mujina_miner::asic::hash_thread::{HashThreadCapabilities, HashThreadStatus};
use mujina_miner::board::s19j_pro_amlogic::{
    accepts_readback, assert_all_resets, board_info, build_fan_state, chain_config, clamp_supply,
    configure_fans, configured_eeprom_address, configured_tmp75_addresses, decode_tmp75,
    device_id, eeprom_byte_failure, eeprom_open_failure, fail_step, fan_channels, initial_state,
    is_hashboard_present, measured_bytes, peak_temperature, perform_health_gate, publish_cycle,
    publish_initialized, publish_thread, read_fan_states, read_temperatures, select_hashboard,
    shutdown, sync_thread_state, target_byte, thread_state, tmp75_addresses, validate_i2c_address,
    AmlogicFanController, DetectReading, EepromReading, ExchangeStep, FrameReader, HardwareStep,
    NativeTelemetry, PowerPhase, Presence, PsuExchange, PsuReply, PwmChannel,
};
use mujina_miner::board::BoardError;
use mujina_miner::config::{
    AmlogicControlBoardConfig, AmlogicFanConfig, AmlogicFanControlConfig, AmlogicHashboardConfig,
    AmlogicHealthGateConfig, AmlogicPsuConfig, AmlogicStartupConfig, HashboardModel,
};
use mujina_miner::types::HashRate;

fn test_config() -> AmlogicControlBoardConfig {
    AmlogicControlBoardConfig {
        enabled: true,
        board_name: Some("test".into()),
        psu: AmlogicPsuConfig {
            i2c_device: "/dev/null".into(),
            address: 0x10,
            write_register: 0x11,
            enable_gpio: 1,
        },
        startup: AmlogicStartupConfig {
            default_fan_percent: 50,
            fan_control: AmlogicFanControlConfig {
                enabled: true,
                target_microc: 60_000_000,
                min_percent: 35,
                max_percent: 100,
                kp_milli: 3_000,
                ki_milli: 150,
                kd_milli: 8_000,
                integral_limit_milli: 200_000,
            },
            initial_microvolts: 12_000_000,
            psu_settle_ms: 100,
            reset_assert_ms: 100,
            reset_release_ms: 100,
            health_gate: AmlogicHealthGateConfig {
                read_eeprom_before_mining: false,
                read_temperatures_before_mining: false,
                fail_on_missing_expected_hashboard: false,
            },
        },
        fans: vec![AmlogicFanConfig {
            index: 0,
            pwm_chip: 0,
            pwm_channel: 0,
            tach_gpio: 1,
            pulses_per_rev: 2,
        }],
        leds: None,
        hashboards: vec![AmlogicHashboardConfig {
            index: 2,
            model: HashboardModel::S19jPro,
            serial_path: "/dev/null".into(),
            reset_gpio: 1,
            detect_gpio: 2,
            temp_i2c_device: "/dev/null".into(),
            temp_sensor_addresses: Vec::new(),
            eeprom_i2c_device: "/dev/null".into(),
            eeprom_address: None,
            required: false,
        }],
        gt_touch_display: None,
    }
}

fn sensor(temp_c: f32) -> TemperatureSensor {
    TemperatureSensor {
        name: "temp".into(),
        microc: Some((temp_c * 1_000_000.0) as i32),
    }
}

fn text(error: BoardError) -> String {
    match error {
        BoardError::InitializationFailed(why) => why,
        BoardError::HardwareControl(why) => format!("hardware: {why}"),
    }
}

#[test]
fn pid_falls_back_to_max_on_missing_temperature() {
    let mut controller = AmlogicFanController::new(&test_config());

    assert_eq!(controller.target_percent(&vec![], 2_000), 100);
}

#[test]
fn pid_increases_fan_above_target_temperature() {
    let mut controller = AmlogicFanController::new(&test_config());

    assert_eq!(controller.target_percent(&vec![sensor(70.0)], 2_000), 80);
}

#[test]
fn pid_respects_minimum_fan_floor_below_target_temperature() {
    let mut controller = AmlogicFanController::new(&test_config());

    assert_eq!(controller.target_percent(&vec![sensor(35.0)], 2_000), 35);
}

#[test]
fn a_controller_that_is_off_keeps_the_default() {
    let mut config = test_config();
    config.startup.fan_control.enabled = false;
    let mut controller = AmlogicFanController::new(&config);
    assert!(!controller.is_enabled());
    assert_eq!(controller.target_percent(&vec![sensor(90.0)], 2_000), 50);
    assert_eq!(controller.target_percent(&vec![], 2_000), 50);
}

#[test]
fn a_new_speed_is_asked_for_until_it_is_applied() {
    let config = test_config();
    let mut telemetry = NativeTelemetry {
        controller: AmlogicFanController::new(&config),
        applied_percent: 50,
    };
    assert_eq!(telemetry.cycle(&vec![]), Some(100));
    assert_eq!(telemetry.cycle(&vec![]), Some(100));
    telemetry.applied(100);
    assert_eq!(telemetry.cycle(&vec![]), None);
    assert_eq!(peak_temperature(&vec![sensor(40.0), sensor(55.0)]), Some(55_000_000));
    assert_eq!(peak_temperature(&vec![]), None);
}

#[test]
fn the_controller_remembers_between_telemetry_cycles() {
    let config = test_config();
    let mut telemetry = NativeTelemetry {
        controller: AmlogicFanController::new(&config),
        applied_percent: 50,
    };
    telemetry.cycle(&vec![sensor(61.0)]);
    assert_eq!(telemetry.controller.integral, 0);
    assert_eq!(telemetry.controller.previous_microc, Some(61_000_000));
    telemetry.cycle(&vec![sensor(62.0)]);
    assert_eq!(telemetry.controller.integral, 4_000_000_000);
    assert_eq!(telemetry.controller.previous_microc, Some(62_000_000));
    telemetry.cycle(&vec![]);
    assert_eq!(telemetry.controller.integral, 0);
    assert_eq!(telemetry.controller.previous_microc, None);
    assert_eq!(telemetry.controller.baseline_percent, 50);
}

#[test]
fn limits_do_not_count_while_the_controller_is_off() {
    let mut config = test_config();
    config.startup.fan_control.enabled = false;
    config.startup.fan_control.min_percent = 90;
    config.startup.fan_control.max_percent = 40;
    let mut telemetry = NativeTelemetry {
        controller: AmlogicFanController::new(&config),
        applied_percent: 60,
    };
    assert_eq!(telemetry.cycle(&vec![sensor(80.0)]), Some(50));
    assert_eq!(telemetry.controller.previous_microc, None);
}

#[test]
fn boards_are_named_by_the_configuration() {
    let mut config = test_config();
    assert_eq!(device_id(&config), "test");
    config.board_name = None;
    assert_eq!(device_id(&config), "s19jpro-amlogic");
    let state = initial_state(&config);
    assert_eq!(state.name, "s19jpro-amlogic");
    assert_eq!(state.serial.as_deref(), Some("s19jpro-amlogic"));
    assert_eq!(
        board_info(&config, &Some("SN1".into())).serial_number.as_deref(),
        Some("SN1")
    );
    assert_eq!(
        board_info(&config, &None).serial_number.as_deref(),
        Some("s19jpro-amlogic")
    );
    let chain = chain_config(2);
    assert_eq!(chain.name, "S19jProAmlogic-HB2");
    assert_eq!((chain.topology.domain_count, chain.topology.chips_per_domain), (42, 3));
}

#[test]
fn the_first_present_hashboard_is_chosen() {
    let mut config = test_config();
    let mut second = config.hashboards[0].clone();
    second.index = 1;
    config.hashboards.push(second);
    let chosen = select_hashboard(&config, &vec![Presence::Missing, Presence::Present]);
    assert!(matches!(chosen, Ok(1)));
    let none = select_hashboard(&config, &vec![Presence::Missing, Presence::Missing]);
    assert_eq!(text(none.unwrap_err()), "No configured hashboards are present");
    config.hashboards[1].required = true;
    let fatal = select_hashboard(&config, &vec![Presence::Present, Presence::Missing]);
    assert_eq!(text(fatal.unwrap_err()), "Configured hashboard 1 is missing");
    let broken = is_hashboard_present(DetectReading::ReadFailed("busy".into()));
    let unreadable = select_hashboard(&config, &vec![broken, Presence::Present]);
    assert_eq!(text(unreadable.unwrap_err()), "hardware: Failed to read detect GPIO: busy");
    config.hashboards.clear();
    let empty = select_hashboard(&config, &vec![]);
    assert_eq!(text(empty.unwrap_err()), "Amlogic config has no configured hashboards");
    assert!(matches!(is_hashboard_present(DetectReading::Value(1)), Presence::Present));
    assert!(matches!(is_hashboard_present(DetectReading::Value(0)), Presence::Missing));
    assert!(matches!(
        is_hashboard_present(DetectReading::SetupFailed("x".into())),
        Presence::Failed(why) if why == "Failed to configure detect GPIO: x"
    ));
}

#[test]
fn the_health_gate_asks_for_what_is_configured() {
    let off = test_config().startup.health_gate;
    let (serial, sensors) =
        perform_health_gate(&off, 2, EepromReading::Undecodable("bad".into()), Ok(vec![])).unwrap();
    assert_eq!(serial, None);
    assert!(sensors.is_empty());

    let on = AmlogicHealthGateConfig {
        read_eeprom_before_mining: true,
        read_temperatures_before_mining: true,
        fail_on_missing_expected_hashboard: false,
    };
    let (serial, sensors) = perform_health_gate(
        &on,
        2,
        EepromReading::Decoded("SN1".into()),
        Ok(vec![sensor(30.0)]),
    )
    .unwrap();
    assert_eq!(serial.as_deref(), Some("SN1"));
    assert_eq!(sensors.len(), 1);
    let bad = perform_health_gate(&on, 2, EepromReading::Undecodable("crc".into()), Ok(vec![]));
    assert_eq!(
        text(bad.unwrap_err()),
        "EEPROM health gate failed for hashboard 2: crc"
    );
    let unread = TemperatureSensor { name: "HB2-Temp0".into(), microc: None };
    let bad = perform_health_gate(
        &on,
        2,
        EepromReading::Decoded("SN1".into()),
        Ok(vec![unread]),
    );
    assert_eq!(text(bad.unwrap_err()), "Temperature health gate failed for HB2-Temp0");
    let bad = perform_health_gate(
        &on,
        2,
        EepromReading::Unreadable(eeprom_byte_failure(7, 2, "nak")),
        Ok(vec![]),
    );
    assert_eq!(
        text(bad.unwrap_err()),
        "Failed to read EEPROM byte 7 on hashboard 2: nak"
    );
    assert_eq!(
        text(eeprom_open_failure("/dev/i2c-1", "denied")),
        "Failed to open EEPROM I2C device /dev/i2c-1: denied"
    );
}

#[test]
fn shared_pwm_channels_are_set_once() {
    let mut config = test_config();
    let mut second = config.fans[0];
    second.index = 1;
    config.fans.push(second);
    let mut third = second;
    third.index = 2;
    third.pwm_channel = 1;
    config.fans.push(third);
    let channels = fan_channels(&config.fans);
    assert_eq!(
        channels,
        vec![PwmChannel { chip: 0, channel: 0 }, PwmChannel { chip: 0, channel: 1 }]
    );
    let steps = configure_fans(&config, 40);
    assert_eq!(steps.len(), 2);
    assert_eq!(
        text(fail_step(steps[1], "x").unwrap()),
        "hardware: Failed to configure pwmchip0/pwm1: x"
    );
    let states = build_fan_state(&config.fans, 40);
    assert_eq!(states.len(), 3);
    assert_eq!(states[2].name, "fan2");
    assert_eq!(states[2].percent, Some(40));
    let states = read_fan_states(&config.fans, 40, &vec![Some(1_000), None, Some(2_000)]);
    assert_eq!(states[0].rpm, Some(1_000));
    assert_eq!(states[1].rpm, None);
}

#[test]
fn a_native_shutdown_resets_and_cuts_power() {
    let config = test_config();
    let steps = shutdown(&config);
    assert_eq!(steps[0], HardwareStep::AssertReset { index: 2, gpio: 1 });
    assert_eq!(steps[1], HardwareStep::Wait { ms: 100 });
    assert!(matches!(steps[2], HardwareStep::SetPwm { percent: 0, .. }));
    assert_eq!(steps[3], HardwareStep::SetPsuEnabled { on: false });
    assert_eq!(assert_all_resets(&config).len(), 2);
    assert_eq!(
        text(fail_step(steps[0], "x").unwrap()),
        "hardware: Failed to assert reset for hashboard 2: x"
    );
    assert_eq!(
        text(fail_step(steps[3], "x").unwrap()),
        "hardware: Failed to disable PSU: x"
    );
    assert!(fail_step(steps[1], "x").is_none());
}

#[test]
fn addresses_come_from_the_slot_or_the_configuration() {
    let mut board = test_config().hashboards[0].clone();
    assert_eq!(configured_tmp75_addresses(&board).unwrap(), vec![0x48, 0x4C]);
    assert_eq!(configured_eeprom_address(&board).unwrap(), 0x50);
    assert_eq!(tmp75_addresses(0).unwrap(), vec![0x4E, 0x4A]);
    board.temp_sensor_addresses = vec![0x4E, 0x4A];
    board.eeprom_address = Some(0x52);
    assert_eq!(configured_tmp75_addresses(&board).unwrap(), vec![0x4E, 0x4A]);
    assert_eq!(configured_eeprom_address(&board).unwrap(), 0x52);
    board.eeprom_address = Some(0x80);
    assert_eq!(
        text(configured_eeprom_address(&board).unwrap_err()),
        "invalid 7-bit I2C address: 0x80"
    );
    assert_eq!(
        text(validate_i2c_address(0x123).unwrap_err()),
        "invalid 7-bit I2C address: 0x123"
    );
    assert_eq!(text(tmp75_addresses(3).unwrap_err()), "invalid hashboard index: 3");
}

#[test]
fn temperatures_are_decoded() {
    assert_eq!(decode_tmp75(0x1900), 25_000_000);
    assert_eq!(decode_tmp75(0x1910), 25_062_500);
    assert_eq!(decode_tmp75(0xFFF0), -62_500);
    assert_eq!(decode_tmp75(0xE700), -25_000_000);
    let board = test_config().hashboards[0].clone();
    let sensors = read_temperatures(&board, &vec![Ok(0x1900), Ok(0x2000)]).unwrap();
    assert_eq!(sensors[1].name, "HB2-Temp1");
    assert_eq!(sensors[1].microc, Some(32_000_000));
    let failed = read_temperatures(&board, &vec![Ok(0x1900), Err("nak".into())]);
    assert_eq!(
        text(failed.unwrap_err()),
        "Failed to read TMP75 sensor 1 on hashboard 2: nak"
    );
}

#[test]
fn a_thread_is_shown_under_its_name() {
    let status = HashThreadStatus::default();
    let capabilities = HashThreadCapabilities { hashrate_estimate: HashRate(10) };
    let idle = thread_state("t0".into(), &status, &capabilities, None);
    assert_eq!(idle, ThreadState { name: "t0".into(), hashrate: 10, is_active: false });
    let measured = HashThreadStatus { hashrate: HashRate(8), ..status };
    let busy = thread_state("t0".into(), &measured, &capabilities, Some(true));
    assert_eq!(busy, ThreadState { name: "t0".into(), hashrate: 8, is_active: true });
    let mut threads = vec![];
    sync_thread_state(&mut threads, idle.clone());
    sync_thread_state(&mut threads, busy.clone());
    assert_eq!(threads, vec![busy.clone()]);

    let config = test_config();
    let mut state = initial_state(&config);
    publish_initialized(
        &mut state,
        &config,
        &Some("SN1".into()),
        vec![sensor(30.0)],
        vec![],
        Some(12_100_000),
    );
    assert_eq!(state.serial.as_deref(), Some("SN1"));
    assert_eq!(state.powers[0].name, "apw12");
    publish_thread(&mut state, &config, &None, idle);
    assert_eq!(state.serial.as_deref(), Some("test"));
    assert_eq!(state.threads.len(), 1);
    publish_cycle(&mut state, vec![], vec![], None, vec![busy]);
    assert!(state.temperatures.is_empty());
    assert!(state.threads[0].is_active);
    assert_eq!(state.powers[0].microvolts, None);
}

#[test]
fn the_supply_is_kept_in_its_range() {
    assert_eq!(clamp_supply(11_000_000), 12_000_000);
    assert_eq!(clamp_supply(13_900_000), 13_900_000);
    assert_eq!(clamp_supply(16_000_000), 15_000_000);
    assert!(accepts_readback(12_600_000, 12_750_000));
    assert!(accepts_readback(12_600_000, 12_450_000));
    assert!(!accepts_readback(12_600_000, 12_750_001));
    assert_eq!(measured_bytes(&vec![1, 2, 3]), Ok((1, 2)));
    assert_eq!(measured_bytes(&vec![1]), Err("missing ADC payload from PSU".to_string()));
    assert_eq!(target_byte(&vec![9]), Ok(9));
    assert_eq!(target_byte(&vec![]), Err("missing DAC payload from PSU".to_string()));
}

#[test]
fn a_frame_is_read_after_noise() {
    let nak = 0xF5;
    let mut reader = FrameReader::Seek;
    for byte in [0x00, 0x13, 0x55, 0xAA, 0x04, 0x83, 0x00, 0x87] {
        assert!(!matches!(reader, FrameReader::Done { .. }));
        reader = reader.feed(byte, nak);
    }
    match reader {
        FrameReader::Done { response } => {
            assert_eq!(response, vec![0x55, 0xAA, 0x04, 0x83, 0x00, 0x87])
        }
        other => panic!("unexpected: {other:?}"),
    }
    match FrameReader::Seek.feed(nak, nak) {
        FrameReader::Done { response } => assert_eq!(response, vec![nak]),
        other => panic!("unexpected: {other:?}"),
    }
    let bad = FrameReader::Seek.feed(0x55, nak).feed(0x01, nak);
    assert_eq!(bad.problem().as_deref(), Some("invalid preamble continuation: 0x01"));
    let empty = FrameReader::Seek.feed(0x55, nak).feed(0xAA, nak).feed(0x00, nak);
    assert_eq!(empty.problem().as_deref(), Some("response length underflow"));
    assert_eq!(FrameReader::Seek.problem(), None);
}

#[test]
fn an_exchange_tries_three_times() {
    let mut exchange = PsuExchange::new(0x83);
    assert!(matches!(exchange.on_reply(PsuReply::Refused), ExchangeStep::Retry));
    assert!(matches!(
        exchange.on_reply(PsuReply::Broken("short".into())),
        ExchangeStep::Retry
    ));
    match exchange.on_reply(PsuReply::Frame { command: 0x02, payload: vec![] }) {
        ExchangeStep::Failed { why } => assert_eq!(
            why,
            "unexpected PSU response command 0x02 for request 0x83"
        ),
        other => panic!("unexpected: {other:?}"),
    }
    let mut exchange = PsuExchange::new(0x83);
    match exchange.on_reply(PsuReply::Frame { command: 0x83, payload: vec![1] }) {
        ExchangeStep::Answered { payload } => assert_eq!(payload, vec![1]),
        other => panic!("unexpected: {other:?}"),
    }
}

#[test]
fn power_comes_up_phase_by_phase() {
    let mut phase = PowerPhase::Fans;
    for _ in 0..7 {
        phase = phase.advance(true);
    }
    assert_eq!(phase, PowerPhase::Done { online: true });
    assert_eq!(PowerPhase::Watchdog.advance(false), PowerPhase::Done { online: false });
    assert_eq!(PowerPhase::Resets.advance(false), PowerPhase::Failed);
    assert_eq!(PowerPhase::Measure.advance(false), PowerPhase::Done { online: true });
}
