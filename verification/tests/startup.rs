//! The backplane and the daemon's plan.

use mujina_miner::backplane::{
    descriptor_key, Action, Backplane, BoardRegistry, Candidate, Connection, Handling, Outcome,
    Phase,
};
use mujina_miner::config::{
    AmlogicControlBoardConfig, AmlogicFanControlConfig, AmlogicHashboardConfig,
    AmlogicHealthGateConfig, AmlogicPsuConfig, AmlogicStartupConfig, ApiConfig, Config,
    DaemonConfig, GtTouchDisplayConfig, HardwareConfig, HashboardModel,
};
use mujina_miner::daemon::{bind_addr, CpuMinerConfig, Daemon, Environment, SourcePlan};
use mujina_miner::transport::amlogic::{AmlogicDeviceInfo, TransportEvent as AmlogicEvent};
use mujina_miner::transport::cpu::{CpuDeviceInfo, TransportEvent as CpuEvent};
use mujina_miner::transport::usb::{TransportEvent as UsbEvent, UsbDeviceInfo};
use mujina_miner::transport::TransportEvent;

fn usb(serial: Option<&str>) -> TransportEvent {
    TransportEvent::Usb(UsbEvent::UsbDeviceConnected(UsbDeviceInfo {
        vid: 1,
        pid: 2,
        manufacturer: None,
        product: None,
        serial_number: serial.map(|s| s.to_string()),
        device_path: "/sys/1".into(),
    }))
}

fn cpu(id: &str) -> TransportEvent {
    TransportEvent::Cpu(CpuEvent::CpuDeviceConnected(CpuDeviceInfo {
        device_id: id.into(),
        thread_count: 1,
        duty_percent: 50,
    }))
}

fn amlogic(id: &str, model: HashboardModel) -> TransportEvent {
    TransportEvent::Amlogic(AmlogicEvent::DeviceConnected(AmlogicDeviceInfo {
        device_id: id.into(),
        model,
    }))
}

fn start(backplane: &mut Backplane, event: TransportEvent) -> Connection {
    match backplane.handle_event(event) {
        Handling::Start(connection) => connection,
        other => panic!("unexpected: {other:?}"),
    }
}

/// Runs a start in which everything succeeds, and returns the actions.
fn run(backplane: &mut Backplane, event: TransportEvent, serial: Option<&str>) -> Vec<Action> {
    let mut connection = start(backplane, event);
    let mut actions = Vec::new();
    loop {
        let action = connection.action();
        let outcome = match &action {
            Action::CreateBoard => Outcome::Created {
                serial_number: serial.map(|s| s.to_string()),
            },
            Action::CreateThreads => Outcome::Threads { count: 2 },
            Action::Nothing => return actions,
            _ => Outcome::Done,
        };
        actions.push(action);
        backplane.advance(&mut connection, outcome);
    }
}

#[test]
fn a_usb_board_is_started_and_kept() {
    let mut backplane = Backplane::new();
    let actions = run(&mut backplane, usb(Some("S1")), Some("S1"));
    assert!(matches!(actions[0], Action::FindUsbDriver));
    assert!(matches!(actions[1], Action::CreateBoard));
    assert!(matches!(actions[2], Action::RegisterBoard));
    assert!(matches!(actions[3], Action::ShareMinerState));
    assert!(matches!(actions[4], Action::CreateThreads));
    assert!(matches!(actions[5], Action::SendThread { index: 0 }));
    assert!(matches!(actions[6], Action::SendThread { index: 1 }));
    assert_eq!(actions.len(), 7);
    assert_eq!(backplane.boards, vec!["S1".to_string()]);
    run(&mut backplane, usb(None), None);
    assert_eq!(backplane.boards, vec!["S1".to_string(), "unknown".to_string()]);
    // A board of the same id takes its place.
    run(&mut backplane, usb(Some("S1")), Some("S1"));
    assert_eq!(backplane.boards.len(), 2);
}

#[test]
fn virtual_boards_are_found_by_key() {
    let mut backplane = Backplane::new();
    let actions = run(&mut backplane, cpu("cpu-1x50%"), Some("ignored"));
    assert!(matches!(&actions[0], Action::FindVirtualDriver { key } if key == "cpu_miner"));
    assert!(!actions.iter().any(|a| matches!(a, Action::ShareMinerState)));
    let actions = run(&mut backplane, amlogic("a", HashboardModel::S19kPro), None);
    assert!(matches!(&actions[0], Action::FindVirtualDriver { key } if key == "s19k_pro_amlogic"));
    assert_eq!(backplane.boards, vec!["cpu-1x50%".to_string(), "a".to_string()]);
    assert_eq!(descriptor_key(HashboardModel::S19jPro), "s19j_pro_amlogic");
}

#[test]
fn a_failed_start_keeps_nothing() {
    for failing in 0..3 {
        let mut backplane = Backplane::new();
        let mut connection = start(&mut backplane, usb(Some("S1")));
        let mut step = 0;
        while connection.phase != Phase::Finished {
            let fails = match connection.action() {
                Action::FindUsbDriver => failing == 0,
                Action::CreateBoard => failing == 1,
                Action::CreateThreads => failing == 2,
                _ => false,
            };
            let outcome = if fails {
                Outcome::Failed
            } else if connection.phase == Phase::Create {
                Outcome::Created { serial_number: None }
            } else {
                Outcome::Done
            };
            backplane.advance(&mut connection, outcome);
            step += 1;
            assert!(step < 10);
        }
        assert!(backplane.boards.is_empty());
    }
}

#[test]
fn a_registration_that_fails_does_not_stop_a_board() {
    let mut backplane = Backplane::new();
    let mut connection = start(&mut backplane, cpu("c"));
    backplane.advance(&mut connection, Outcome::Done);
    backplane.advance(&mut connection, Outcome::Created { serial_number: None });
    backplane.advance(&mut connection, Outcome::Failed);
    assert_eq!(connection.phase, Phase::CreateThreads);
    backplane.advance(&mut connection, Outcome::Threads { count: 3 });
    assert_eq!(connection.phase, Phase::SendThreads { sent: 0, total: 3 });
    // Once the scheduler is gone, no further thread is sent.
    backplane.advance(&mut connection, Outcome::Failed);
    assert_eq!(connection.phase, Phase::Finished);
    assert_eq!(backplane.boards, vec!["c".to_string()]);
}

#[test]
fn disconnecting_shuts_a_board_down() {
    let mut backplane = Backplane::new();
    run(&mut backplane, cpu("c"), None);
    run(&mut backplane, amlogic("a", HashboardModel::S19jPro), None);
    run(&mut backplane, usb(Some("S1")), Some("S1"));
    let gone = backplane.handle_event(TransportEvent::Amlogic(AmlogicEvent::DeviceDisconnected {
        device_id: "a".into(),
    }));
    assert!(matches!(gone, Handling::ShutDown { board_id } if board_id == "a"));
    let again = backplane.handle_event(TransportEvent::Amlogic(AmlogicEvent::DeviceDisconnected {
        device_id: "a".into(),
    }));
    assert!(matches!(again, Handling::Nothing));
    let gone = backplane.handle_event(TransportEvent::Cpu(CpuEvent::CpuDeviceDisconnected {
        device_id: "c".into(),
    }));
    assert!(matches!(gone, Handling::ShutDown { board_id } if board_id == "c"));
    let gone = backplane.handle_event(TransportEvent::Usb(UsbEvent::UsbDeviceDisconnected {
        device_path: "/sys/1".into(),
    }));
    assert!(matches!(gone, Handling::ShutDown { board_id } if board_id == "S1"));
    let none = backplane.handle_event(TransportEvent::Usb(UsbEvent::UsbDeviceDisconnected {
        device_path: "/sys/1".into(),
    }));
    assert!(matches!(none, Handling::Nothing));

    run(&mut backplane, cpu("x"), None);
    run(&mut backplane, cpu("y"), None);
    assert_eq!(backplane.shutdown_all_boards(), vec!["x".to_string(), "y".to_string()]);
    assert!(backplane.boards.is_empty());
}

#[test]
fn the_most_specific_driver_wins() {
    let candidate = |matches: bool, specificity: u32| Candidate { matches, specificity };
    let registry = BoardRegistry;
    assert_eq!(registry.find_descriptor(&vec![]), None);
    assert_eq!(registry.find_descriptor(&vec![candidate(false, 9)]), None);
    assert_eq!(
        registry.find_descriptor(&vec![
            candidate(true, 2),
            candidate(false, 9),
            candidate(true, 4),
            candidate(true, 4),
            candidate(true, 1),
        ]),
        Some(3)
    );
}

fn environment() -> Environment {
    Environment {
        usb_disable: false,
        pool_url: None,
        pool_user: None,
        pool_pass: None,
        api_listen: None,
        cpu_miner: None,
        forced_rate: false,
    }
}

fn control_board(model: HashboardModel) -> AmlogicControlBoardConfig {
    AmlogicControlBoardConfig {
        enabled: true,
        board_name: None,
        psu: AmlogicPsuConfig {
            i2c_device: "/dev/i2c-1".into(),
            address: 0x10,
            write_register: 0x11,
            enable_gpio: 437,
        },
        startup: AmlogicStartupConfig {
            default_fan_percent: 50,
            fan_control: AmlogicFanControlConfig {
                enabled: false,
                target_microc: 60_000_000,
                min_percent: 35,
                max_percent: 100,
                kp_milli: 3_000,
                ki_milli: 150,
                kd_milli: 8_000,
                integral_limit_milli: 200_000,
            },
            initial_microvolts: 12_600_000,
            psu_settle_ms: 1,
            reset_assert_ms: 1,
            reset_release_ms: 1,
            health_gate: AmlogicHealthGateConfig {
                read_eeprom_before_mining: false,
                read_temperatures_before_mining: false,
                fail_on_missing_expected_hashboard: false,
            },
        },
        fans: vec![],
        leds: None,
        hashboards: vec![AmlogicHashboardConfig {
            index: 0,
            model,
            serial_path: "/dev/ttyS1".into(),
            reset_gpio: 456,
            detect_gpio: 441,
            temp_i2c_device: "/dev/i2c-1".into(),
            temp_sensor_addresses: vec![],
            eeprom_i2c_device: "/dev/i2c-1".into(),
            eeprom_address: None,
            required: false,
        }],
        gt_touch_display: Some(GtTouchDisplayConfig {
            enabled: true,
            ..GtTouchDisplayConfig::default()
        }),
    }
}

fn configured(board: AmlogicControlBoardConfig) -> Daemon {
    Daemon::new(Some(Config {
        daemon: DaemonConfig::default(),
        pools: vec![],
        hardware: HardwareConfig {
            amlogic_control_board: Some(board),
            ..HardwareConfig::default()
        },
        api: ApiConfig::default(),
    }))
}

#[test]
fn a_bare_daemon_mines_made_up_jobs() {
    let plan = Daemon::default().plan(&environment(), "s19k");
    assert!(plan.usb_discovery);
    assert!(plan.devices.is_empty());
    assert!(matches!(plan.source, SourcePlan::Dummy { interval_secs: 30 }));
    assert_eq!(plan.source.registration("pool"), ("dummy".to_string(), None));
    assert_eq!(plan.api.bind_addr, "127.0.0.1:7785");
    assert!(plan.display.is_none());
}

#[test]
fn a_pool_is_used_where_one_is_named() {
    let mut env = environment();
    env.usb_disable = true;
    env.pool_url = Some("stratum+tcp://localhost:3333".into());
    let plan = Daemon::new(None).plan(&env, "s19k");
    assert!(!plan.usb_discovery);
    match &plan.source {
        SourcePlan::Stratum { pool, forced_rate } => {
            assert_eq!(pool.url, "stratum+tcp://localhost:3333");
            assert_eq!(pool.username, "mujina-testing");
            assert_eq!(pool.password, "x");
            assert_eq!(pool.user_agent, "mujina-miner/0.1.0-alpha");
            assert!(!*forced_rate);
        }
        other => panic!("unexpected: {other:?}"),
    }
    assert_eq!(
        plan.source.registration("pool"),
        ("pool".to_string(), Some("stratum+tcp://localhost:3333".to_string()))
    );
    env.forced_rate = true;
    env.pool_user = Some("worker".into());
    env.pool_pass = Some("custom-password".into());
    let plan = Daemon::new(None).plan(&env, "s19k");
    assert_eq!(plan.source.registration("pool").0, "pool (forced-rate)");
    match &plan.source {
        SourcePlan::Stratum { pool, .. } => {
            assert_eq!(pool.username, "worker");
            assert_eq!(pool.password, "custom-password");
        }
        other => panic!("unexpected: {other:?}"),
    }
}

#[test]
fn configured_devices_come_up_in_order() {
    let mut env = environment();
    env.cpu_miner = Some(CpuMinerConfig { thread_count: 4, duty_percent: 50 });
    let plan = configured(control_board(HashboardModel::S19jPro)).plan(&env, "s19k");
    assert_eq!(plan.devices.len(), 2);
    assert!(matches!(
        &plan.devices[0],
        TransportEvent::Amlogic(AmlogicEvent::DeviceConnected(info))
            if info.device_id == "s19jpro-amlogic" && info.model == HashboardModel::S19jPro
    ));
    assert!(matches!(
        &plan.devices[1],
        TransportEvent::Cpu(CpuEvent::CpuDeviceConnected(info))
            if info.device_id == "cpu-4x50%" && info.thread_count == 4 && info.duty_percent == 50
    ));
    let plan = configured(control_board(HashboardModel::S19kPro)).plan(&environment(), "s19k");
    assert!(matches!(
        &plan.devices[0],
        TransportEvent::Amlogic(AmlogicEvent::DeviceConnected(info)) if info.device_id == "s19k"
    ));
    let mut off = control_board(HashboardModel::S19jPro);
    off.enabled = false;
    let plan = configured(off).plan(&environment(), "s19k");
    assert!(plan.devices.is_empty());
    assert!(plan.display.is_none());
}

#[test]
fn a_display_is_told_the_defaults() {
    let mut env = environment();
    env.pool_url = Some("stratum+tcp://pool:3333".into());
    let plan = configured(control_board(HashboardModel::S19jPro)).plan(&env, "s19k");
    let display = plan.display.unwrap();
    assert_eq!(display.config.baud_rate, 115_200);
    let context = display.context;
    assert_eq!(
        context.default_device_model.as_deref(),
        Some("S19j Pro (Amlogic control board)")
    );
    assert_eq!(context.default_asic_model.as_deref(), Some("BM1362"));
    assert_eq!(context.default_pool_url.as_deref(), Some("stratum+tcp://pool:3333"));
    assert_eq!(context.default_pool_user, None);
    assert_eq!(context.default_mode.as_deref(), Some("normal"));
    assert_eq!(context.default_microvolts, Some(12_600_000));
    let mut without = control_board(HashboardModel::S19jPro);
    without.hashboards.clear();
    let plan = configured(without).plan(&env, "s19k");
    assert_eq!(plan.display.unwrap().context.default_asic_model, None);
    let mut off = control_board(HashboardModel::S19jPro);
    off.gt_touch_display = Some(GtTouchDisplayConfig::default());
    assert!(configured(off).plan(&env, "s19k").display.is_none());
}

#[test]
fn the_api_listens_on_its_port_unless_told_otherwise() {
    assert_eq!(bind_addr(&None), "127.0.0.1:7785");
    assert_eq!(bind_addr(&Some("0.0.0.0".into())), "0.0.0.0:7785");
    assert_eq!(bind_addr(&Some("0.0.0.0:80".into())), "0.0.0.0:80");
    assert_eq!(bind_addr(&Some("[::1]".into())), "[::1]");
}
