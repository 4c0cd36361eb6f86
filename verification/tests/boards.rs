//! EmberOne and the S19j Pro behind a bridge.

use mujina_miner::api::types::{BoardState, Fan, HashboardState, MinerState};
use mujina_miner::asic::bm13xx::topology::TopologySpec;
use mujina_miner::asic::hash_thread::HashThreadStatus;
use mujina_miner::board::s19j_pro::{
    BitcraneGpioPin, BoardStep, FanPidController, FanReading, HashboardReading, PlugReading,
    S19jProHashboard, SensorReading, Telemetry, ThreadReading,
};
use mujina_miner::board::{emberone, s19j_pro, s19j_pro_bitcrane, BoardError, StartObstacle};
use mujina_miner::types::HashRate;

fn ports(n: usize) -> Vec<String> {
    (0..n).map(|i| format!("/dev/tty{i}")).collect()
}

fn why(error: BoardError) -> String {
    match error {
        BoardError::InitializationFailed(why) => why,
        BoardError::HardwareControl(why) => panic!("hardware error: {why}"),
    }
}

#[test]
fn an_ember_one_is_recognised() {
    let some = |text: &str| Some(text.to_string());
    assert!(emberone::matches_device(&some("256F"), &some("EmberOne00")));
    assert!(!emberone::matches_device(&some("256F"), &some("EmberOne01")));
    assert!(!emberone::matches_device(&None, &some("EmberOne00")));
    assert!(s19j_pro_bitcrane::matches_device(&some("256F"), &some("bitcrane_S19jpro")));
    assert!(!s19j_pro_bitcrane::matches_device(&some("OSMU"), &some("bitcrane_S19jpro")));
    assert!(s19j_pro::matches_device(&some("OSMU"), &some("bitcrane3")));
    assert!(s19j_pro::matches_device(&some("256F"), &some("bitcrane_S19jpro")));
    assert!(!s19j_pro::matches_device(&some("256F"), &some("bitcrane4")));
}

#[test]
fn an_ember_one_has_two_ports() {
    assert_eq!(
        emberone::split_ports(&ports(2)),
        Ok(("/dev/tty0".to_string(), "/dev/tty1".to_string()))
    );
    assert_eq!(
        emberone::split_ports(&ports(3)),
        Err("EmberOne requires exactly 2 serial ports, found 3".to_string())
    );
}

#[test]
fn an_ember_one_starts_in_reset() {
    let steps = emberone::initialize();
    assert_eq!(steps.len(), 15);
    let reset = steps
        .iter()
        .position(|s| {
            matches!(
                s,
                emberone::BoardStep::WritePin { pin: emberone::BoardPin::Reset, high: false }
            )
        })
        .unwrap();
    let power = steps
        .iter()
        .position(|s| {
            matches!(
                s,
                emberone::BoardStep::WritePin { pin: emberone::BoardPin::PowerEnable, high: true }
            )
        })
        .unwrap();
    assert!(reset < power);
    assert!(steps.contains(&emberone::BoardStep::SetVout { millivolts: 3_040 }));
    assert_eq!(emberone::BoardPin::IoPowerEnable.number(), 2);
    let config = emberone::power_config();
    assert_eq!(config.vout_command, 3_500);
    assert_eq!(config.iout_oc_fault_limit, 55_000);
    assert_eq!(config.compensation_config, Some([0x13, 0x20, 0xC6, 0x19, 0xC6]));
}

#[test]
fn an_ember_one_is_enabled_and_disabled() {
    let on = emberone::enable();
    assert_eq!(on.len(), 3);
    assert_eq!(on[1], emberone::BoardStep::Wait { ms: 250 });
    let off = emberone::disable();
    assert_eq!(
        off[0],
        emberone::BoardStep::WritePin { pin: emberone::BoardPin::Reset, high: false }
    );
    assert_eq!(emberone::shutdown(true).len(), 2);
    assert!(emberone::shutdown(false).is_empty());
}

#[test]
fn ember_one_failures_say_what_failed() {
    assert_eq!(
        emberone::fail_step(emberone::BoardStep::InitRegulator, "no answer").as_deref(),
        Some(
            "Failed to initialize TPS546 power controller: no answer. Is input voltage connected?"
        )
    );
    assert_eq!(
        emberone::fail_step(
            emberone::BoardStep::WritePin { pin: emberone::BoardPin::IoPowerEnable, high: true },
            "x"
        )
        .as_deref(),
        Some("Failed to enable IO power: x")
    );
    assert_eq!(emberone::fail_step(emberone::BoardStep::ReadVout, "x"), None);
    assert!(emberone::vout_is_off(3_240));
    assert!(!emberone::vout_is_off(3_239));
    assert!(emberone::vout_is_off(2_840));
    assert!(!emberone::vout_is_off(2_841));
}

#[test]
fn ember_one_pins_are_taken_once() {
    let all = emberone::HeldPins { reset: true, power_enable: true, io_power_enable: true };
    let mut held = all;
    assert!(held.take_all().is_ok());
    assert_eq!(why(held.take_all().unwrap_err()), "Reset pin not initialized");
    let mut partial = emberone::HeldPins { power_enable: false, ..all };
    assert_eq!(why(partial.take_all().unwrap_err()), "Power enable pin not initialized");
    let mut partial = emberone::HeldPins { io_power_enable: false, ..all };
    assert_eq!(why(partial.take_all().unwrap_err()), "IO power enable pin not initialized");
    assert!(!partial.reset && !partial.power_enable);
}

#[test]
fn boards_are_named_after_their_serial_numbers() {
    let chain = emberone::chain_config(&Some("0123456789".into()));
    assert_eq!(chain.name, "EmberOne-01234567");
    assert_eq!(chain.topology, TopologySpec::individual_domains(12, false));
    assert!(chain.chip_config.verify_chip_id(0x1362));
    assert_eq!(emberone::chain_config(&None).name, "EmberOne");
    let chain = s19j_pro_bitcrane::chain_config(&Some("abc".into()));
    assert_eq!(chain.name, "S19jProBitcrane-abc");
    assert_eq!(chain.topology, TopologySpec::uniform_domains(42, 3, false));

    let state = emberone::initial_state(Some("abc".into()));
    assert_eq!(state.name, "emberone-abc");
    assert_eq!(state.model, "EmberOne");
    assert_eq!(state.serial.as_deref(), Some("abc"));
    assert_eq!(s19j_pro_bitcrane::initial_state(None).name, "s19jpro-bitcrane-unknown");
    assert_eq!(emberone::board_info(&None).model, "EmberOne");
    assert_eq!(s19j_pro_bitcrane::board_info(&None).model, "S19j Pro (Bitcrane v3)");
    let info = s19j_pro::board_info(&Some("abc".into()));
    assert_eq!(info.model, "S19j Pro");
    assert_eq!(info.serial_number.as_deref(), Some("abc"));
    assert_eq!(info.firmware_version, None);
}

#[test]
fn obstacles_are_named() {
    assert_eq!(StartObstacle::OpenDataPort.message("busy"), "Failed to open data port: busy");
    assert_eq!(
        StartObstacle::InitializeNativeBoard.message("x"),
        "Failed to initialize native Amlogic board: x"
    );
}

#[test]
fn a_bitcrane_board_works_step_by_step() {
    let steps = s19j_pro_bitcrane::initialize();
    assert_eq!(steps[0], s19j_pro_bitcrane::BoardStep::WriteReset { high: false });
    assert_eq!(steps[1], s19j_pro_bitcrane::BoardStep::SetPsuEnabled { on: true });
    assert_eq!(
        steps[steps.len() - 1],
        s19j_pro_bitcrane::BoardStep::SetFans { percent: 50 }
    );
    assert_eq!(
        s19j_pro_bitcrane::fail_step(steps[1], "x").as_deref(),
        Some("Failed to enable PSU: x")
    );
    assert_eq!(s19j_pro_bitcrane::fail_step(steps[2], "x"), None);
    assert_eq!(s19j_pro_bitcrane::enable().len(), 2);
    assert_eq!(s19j_pro_bitcrane::disable().len(), 1);
    assert_eq!(
        s19j_pro_bitcrane::split_ports(&ports(4)),
        Ok(("/dev/tty0".to_string(), "/dev/tty1".to_string()))
    );
    assert_eq!(
        s19j_pro_bitcrane::split_ports(&ports(2)),
        Err("S19j Pro requires exactly 4 serial ports, found 2".to_string())
    );

    let mut held =
        s19j_pro_bitcrane::HeldParts { reset_pin: true, psu: true, temp_sensors: true };
    assert_eq!(held.shutdown().len(), 3);
    assert!(held.take_reset_pin().is_ok());
    assert_eq!(why(held.take_reset_pin().unwrap_err()), "Reset pin not initialized");
    assert!(held.take_temp_sensors().is_ok());
    assert_eq!(
        why(held.take_temp_sensors().unwrap_err()),
        "Temperature sensors not initialized"
    );
    let steps = held.shutdown();
    assert_eq!(steps.len(), 2);
    assert_eq!(steps[1], s19j_pro_bitcrane::BoardStep::SetPsuEnabled { on: false });
}

#[test]
fn a_bitcrane_display_is_updated_every_fifth_cycle() {
    let mut state = s19j_pro_bitcrane::initial_state(None);
    let mut telemetry = s19j_pro_bitcrane::Telemetry::new();
    let sensors = vec![
        SensorReading { name: "T0".into(), microc: Some(50_000_000) },
        SensorReading { name: "T1".into(), microc: None },
    ];
    let fans = vec![FanReading { name: "F0".into(), rpm: Some(3_000) }];
    let miner = Some(MinerState {
        uptime_secs: 0,
        hashrate: 99,
        shares_submitted: 0,
        best_difficulty: None,
        paused: false,
        boards: vec![],
        sources: vec![],
    });
    let mut shown = Vec::new();
    for _ in 0..6 {
        shown.push(telemetry.cycle(&mut state, &sensors, &fans, &miner));
    }
    assert_eq!(shown, vec![Some(99), None, None, None, None, Some(99)]);
    assert_eq!(state.temperatures.len(), 2);
    assert_eq!(state.temperatures[0].microc, Some(50_000_000));
    assert_eq!(
        state.fans,
        vec![Fan {
            name: "F0".into(),
            rpm: Some(3_000),
            percent: None,
            target_percent: Some(50),
        }]
    );
    let mut fresh = s19j_pro_bitcrane::Telemetry::new();
    assert_eq!(fresh.cycle(&mut state, &sensors, &fans, &None), Some(0));
}

fn hashboards() -> Vec<S19jProHashboard> {
    let split = s19j_pro::split_ports(&ports(4)).unwrap();
    s19j_pro::new_hashboards(split.data)
}

#[test]
fn every_hashboard_has_its_own_pins() {
    assert_eq!(s19j_pro::reset_pin_for_index(1), BitcraneGpioPin::Rst1);
    assert_eq!(s19j_pro::plug_pin_for_index(2), BitcraneGpioPin::Plug2);
    for i in 0..3 {
        for j in 0..3 {
            assert_ne!(s19j_pro::reset_pin_for_index(i), s19j_pro::plug_pin_for_index(j));
        }
    }
    assert!(s19j_pro::judge_plug(PlugReading::High, false));
    assert!(!s19j_pro::judge_plug(PlugReading::Low, true));
    assert!(s19j_pro::judge_plug(PlugReading::Failed, true));
    assert_eq!(s19j_pro::hashboard_count_u8(300), 255);
    let status = HashThreadStatus { hashrate: HashRate(7), ..HashThreadStatus::default() };
    assert_eq!(s19j_pro::effective_hashrate(&status), 7);
}

#[test]
fn hashboards_are_held_in_reset_before_power() {
    let steps = s19j_pro::initialization_steps(3);
    let power = steps.iter().position(|s| *s == BoardStep::EnablePsu).unwrap();
    for index in 0..3 {
        let reset = steps
            .iter()
            .position(|s| *s == BoardStep::AssertReset { index })
            .unwrap();
        assert!(reset < power);
    }
    match s19j_pro::fail_step(BoardStep::AssertReset { index: 1 }, "x") {
        Some(error) => assert_eq!(why(error), "Failed to assert reset for HB1: x"),
        None => panic!("a failed reset was accepted"),
    }
    assert!(s19j_pro::fail_step(BoardStep::MeasureVoltage, "x").is_none());
}

#[test]
fn threads_start_on_the_hashboards_that_are_present() {
    let mut boards = hashboards();
    for board in boards.iter_mut() {
        board.has_reset_pin = true;
    }
    boards[1].is_present = true;
    let (plans, obstacle) = s19j_pro::plan_hash_threads(&boards, &Some("abc".into()));
    assert!(obstacle.is_none());
    assert_eq!(plans.len(), 1);
    assert_eq!(plans[0].index, 1);
    assert_eq!(plans[0].name, "S19jPro-abc-HB1");
    assert_eq!(plans[0].port, "/dev/tty2");
    assert_eq!(s19j_pro::chain_config(&plans[0]).name, "S19jPro-abc-HB1");

    boards[1].has_reset_pin = false;
    let (plans, obstacle) = s19j_pro::plan_hash_threads(&boards, &None);
    assert!(plans.is_empty());
    assert_eq!(why(obstacle.unwrap()), "Reset pin not initialized for HB1");

    assert!(s19j_pro::complete_hash_threads(&mut boards, &vec![1], None).is_ok());
    assert!(boards[1].is_active && !boards[0].is_active);
    assert_eq!(
        why(s19j_pro::complete_hash_threads(&mut boards, &vec![], None).unwrap_err()),
        "No populated S19j Pro hashboards could be started"
    );
}

#[test]
fn hashboards_before_an_obstacle_are_started_all_the_same() {
    let mut boards = hashboards();
    for board in boards.iter_mut() {
        board.is_present = true;
        board.has_reset_pin = true;
    }
    boards[2].has_reset_pin = false;
    let (plans, obstacle) = s19j_pro::plan_hash_threads(&boards, &None);
    let started: Vec<u8> = plans.iter().map(|plan| plan.index).collect();
    assert_eq!(started, vec![0, 1]);
    assert_eq!(
        why(s19j_pro::complete_hash_threads(&mut boards, &started, obstacle).unwrap_err()),
        "Reset pin not initialized for HB2"
    );
    assert!(boards[0].is_active && boards[1].is_active && !boards[2].is_active);
}

#[test]
fn counts_of_very_many_hashboards() {
    let boards = s19j_pro::new_hashboards(ports(301));
    assert_eq!(boards.len(), 301);
    assert_eq!(boards[299].index, 43);
    let mut state = s19j_pro::initial_state(None, &ports(301));
    assert_eq!(state.hashboards[300].index, 44);
    let shown: Vec<HashboardState> = (0..300u32)
        .map(|i| HashboardState {
            index: i as u8,
            serial_port: None,
            is_present: true,
            is_active: true,
            hashrate: 0,
        })
        .collect();
    s19j_pro::publish_hashboard_state(&mut state, shown);
    assert_eq!(state.hashboard_count, Some(255));
    assert_eq!(state.active_hashboard_count, Some(44));
}

#[test]
fn a_shutdown_resets_and_cuts_power() {
    let mut boards = hashboards();
    boards[0].has_reset_pin = true;
    boards[2].has_reset_pin = true;
    boards[2].is_active = true;
    let steps = s19j_pro::shutdown_steps(&boards, true);
    assert_eq!(
        steps,
        vec![
            BoardStep::SetFans { percent: 0 },
            BoardStep::AssertReset { index: 0 },
            BoardStep::AssertReset { index: 2 },
            BoardStep::DisablePsu,
        ]
    );
    s19j_pro::complete_shutdown(&mut boards);
    assert!(boards.iter().all(|b| !b.is_active));
}

#[test]
fn fans_follow_the_temperature() {
    let mut pid = FanPidController::new();
    assert_eq!(pid.next_target_percent(None, 2_000), 80);
    assert_eq!(pid.next_target_percent(Some(68_000_000), 2_000), 100);
    let mut pid = FanPidController::new();
    assert_eq!(pid.next_target_percent(Some(20_000_000), 2_000), 45);
    let mut pid = FanPidController::new();
    let warm = pid.next_target_percent(Some(64_000_000), 2_000);
    assert!((45..=100).contains(&warm));
}

#[test]
fn a_telemetry_cycle_reports_what_it_read() {
    let mut boards = hashboards();
    let readings: Vec<HashboardReading> = (0..3)
        .map(|i| HashboardReading {
            plug: if i == 0 { PlugReading::High } else { PlugReading::Low },
            sensors: vec![SensorReading {
                name: format!("HB{i}"),
                microc: if i == 0 { Some(71_000_000) } else { None },
            }],
        })
        .collect();
    let threads = vec![ThreadReading {
        index: 0,
        name: "t0".into(),
        hashrate: 5,
        is_active: true,
    }];
    let mut telemetry = Telemetry::new();
    let report = telemetry.cycle(&mut boards, &readings, &threads);
    assert!(report.too_hot);
    assert!(report.update_display);
    assert_eq!(report.new_fan_percent, Some(100));
    assert_eq!(report.temperatures.len(), 3);
    assert!(report.hashboards[0].is_present && report.hashboards[0].is_active);
    assert_eq!(report.hashboards[0].hashrate, 5);
    assert!(!report.hashboards[1].is_present);
    assert_eq!(telemetry.fan_percent, 100);

    let mut state: BoardState = s19j_pro::initial_state(None, &ports(3));
    assert_eq!(state.name, "s19jpro-unknown");
    assert_eq!(state.hashboards.len(), 3);
    let fans = vec![FanReading { name: "F0".into(), rpm: None }];
    s19j_pro::publish_cycle(&mut state, report, &fans, telemetry.fan_percent, Some(12_600_000));
    assert_eq!(state.active_hashboard_count, Some(1));
    assert_eq!(state.powers[0].name, "APW12");
    assert_eq!(state.powers[0].microvolts, Some(12_600_000));
    assert_eq!(state.fans[0].target_percent, Some(100));
    assert_eq!(state.threads[0].name, "t0");
    let report = telemetry.cycle(&mut boards, &readings, &threads);
    assert!(!report.update_display);
    assert_eq!(report.new_fan_percent, None);
}

#[test]
fn the_fan_controller_remembers_between_telemetry_cycles() {
    let mut boards = hashboards();
    let at = |microc: Option<i32>| -> Vec<HashboardReading> {
        (0..3)
            .map(|i| HashboardReading {
                plug: PlugReading::High,
                sensors: vec![SensorReading { name: format!("HB{i}"), microc }],
            })
            .collect()
    };
    let mut telemetry = Telemetry::new();
    telemetry.cycle(&mut boards, &at(Some(63_000_000)), &vec![]);
    assert_eq!(telemetry.pid.integral, 2_000_000_000);
    assert_eq!(telemetry.pid.previous_error, Some(1_000_000));
    telemetry.cycle(&mut boards, &at(Some(64_000_000)), &vec![]);
    assert_eq!(telemetry.pid.integral, 6_000_000_000);
    assert_eq!(telemetry.pid.previous_error, Some(2_000_000));
    telemetry.cycle(&mut boards, &at(Some(70_000_000)), &vec![]);
    assert_eq!(telemetry.pid.integral, 0);
    assert_eq!(telemetry.pid.previous_error, Some(8_000_000));
    telemetry.cycle(&mut boards, &at(None), &vec![]);
    assert_eq!(telemetry.pid.previous_error, None);
}
