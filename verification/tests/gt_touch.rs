//! The GT Touch display protocol.

use mujina_miner::api::types::{
    BoardState, Fan, MinerState, PowerMeasurement, SourceState, TemperatureSensor,
};
use mujina_miner::display::gt_touch::{
    checksum, first_voltage, format_gt_touch_voltage, format_response, gt_touch_matches,
    is_candidate_tty, max_fan_percent, max_fan_rpm, max_temperature, parse_line,
    publish_subscription, resolve_serial_path, send_system_info, split_checked_line,
    split_pool_url, total_power, IncomingMessage, LineError, ServiceContext, SessionState,
    Subscription, UsbIdentity,
};
use mujina_miner::precision::THOUSANDTHS_UNIT;

fn empty_state() -> MinerState {
    MinerState {
        uptime_secs: 0,
        hashrate: 0,
        shares_submitted: 0,
        best_difficulty: None,
        paused: false,
        boards: vec![],
        sources: vec![],
    }
}

fn board() -> BoardState {
    BoardState {
        name: "board".into(),
        model: "Test".into(),
        serial: None,
        frequency_khz: None,
        hashboard_count: None,
        active_hashboard_count: None,
        hashboards: vec![],
        fans: vec![
            Fan {
                name: "fan0".into(),
                rpm: Some(5400),
                percent: Some(75),
                target_percent: None,
            },
            Fan {
                name: "fan1".into(),
                rpm: Some(6200),
                percent: None,
                target_percent: Some(68),
            },
        ],
        temperatures: vec![
            TemperatureSensor { name: "temp0".into(), microc: Some(61_500_000) },
            TemperatureSensor { name: "temp1".into(), microc: Some(67_000_000) },
        ],
        powers: vec![PowerMeasurement {
            name: "psu".into(),
            microvolts: Some(12_300_000),
            milliamps: Some(10_000),
            milliwatts: Some(123_000),
        }],
        threads: vec![],
    }
}

#[test]
fn formats_checked_responses() {
    let body = "BAP,RES,hashrate,1234.56";
    assert_eq!(checksum(body), 0x02);
}

#[test]
fn parses_subscription_lines() {
    let message = parse_line("$BAP,SUB,hashrate").expect("valid SUB");
    assert!(matches!(
        message,
        IncomingMessage::Subscribe(Subscription::Hashrate)
    ));
}

#[test]
fn parses_new_subscription_lines() {
    let message = parse_line("$BAP,SUB,fan_speed_percent").expect("valid SUB");
    assert!(matches!(
        message,
        IncomingMessage::Subscribe(Subscription::FanSpeedPercent)
    ));

    let message = parse_line("$BAP,SUB,voltage").expect("valid SUB");
    assert!(matches!(
        message,
        IncomingMessage::Subscribe(Subscription::Voltage)
    ));
}

#[test]
fn parses_checked_request_lines() {
    let message = parse_line("$BAP,REQ,systemInfo*3E").expect("valid REQ");
    match message {
        IncomingMessage::Request { parameter } => assert_eq!(parameter, "systemInfo"),
        other => panic!("unexpected message: {other:?}"),
    }
}

#[test]
fn splits_pool_url_and_port() {
    let (pool, port) = split_pool_url("stratum+tcp://pool.256foundation.org:3333");
    assert_eq!(
        pool.as_deref(),
        Some("stratum+tcp://pool.256foundation.org")
    );
    assert_eq!(port.as_deref(), Some("3333"));
}

#[test]
fn keeps_pool_url_without_port() {
    let (pool, port) = split_pool_url("stratum+tcp://pool.256foundation.org");
    assert_eq!(
        pool.as_deref(),
        Some("stratum+tcp://pool.256foundation.org")
    );
    assert_eq!(port, None);
}

#[test]
fn finds_max_metrics() {
    let mut state = empty_state();
    state.boards = vec![board()];

    assert_eq!(max_fan_rpm(&state), Some(6200));
    assert_eq!(max_fan_percent(&state), Some(75));
    assert_eq!(max_temperature(&state), Some(67_000_000));
    assert_eq!(total_power(&state), Some(123 * THOUSANDTHS_UNIT));
    assert_eq!(first_voltage(&state), Some(12_300_000));
    assert_eq!(format_gt_touch_voltage(12_000_000), "1200.00");
}

#[test]
fn pool_urls_are_split_only_before_digits() {
    assert_eq!(split_pool_url("pool:3333"), (Some("pool:3333".to_string()), None));
    assert_eq!(split_pool_url("tcp://pool:abc"), (Some("tcp://pool:abc".to_string()), None));
    assert_eq!(
        split_pool_url("tcp://pool:"),
        (Some("tcp://pool".to_string()), Some(String::new()))
    );
    assert_eq!(
        split_pool_url("tcp://[::1]:25"),
        (Some("tcp://[::1]".to_string()), Some("25".to_string()))
    );
}

#[test]
fn a_response_reads_back() {
    let line = format_response("mode", "normal");
    assert!(line.starts_with("$BAP,RES,mode,normal*"));
    assert!(line.ends_with("\r\n"));
    let (body, sum) = split_checked_line(line.trim_end()).expect("checked");
    assert_eq!(body, "BAP,RES,mode,normal");
    assert_eq!(sum, checksum("BAP,RES,mode,normal"));
}

#[test]
fn any_body_reads_back() {
    for body in ["", "*", "$", "a*b*", "$BAP,SUB,x*00", "BAP,SET,mode,\u{e9}co"] {
        let line = format!("${}*{:02X}", body, checksum(body));
        let (read, sum) = split_checked_line(&line).expect("checked");
        assert_eq!(read, body);
        assert_eq!(sum, checksum(body));
    }
}

/// What is shown of a subscription.
fn shown(subscription: Subscription, parameter: &str, state: &MinerState) -> String {
    let line = publish_subscription(subscription, state).expect("published");
    let start = format!("$BAP,RES,{parameter},");
    let rest = line.strip_prefix(start.as_str()).expect("a response");
    rest[..rest.rfind('*').expect("a checksum")].to_string()
}

#[test]
fn hashrates_are_shown_as_double_precision_has_them() {
    let mut state = empty_state();
    let mut rates: Vec<u64> = (0..40_000).map(|k| k * 5_000_000).collect();
    rates.extend((0..4_000).map(|k| 98_765_000_000_000 + k * 2_500_000));
    rates.extend((0..64).map(|k| 1u64 << k));
    rates.extend((0..64).map(|k| (1u64 << k) - 1));
    rates.extend((0..2_000).map(|k| u64::MAX - k * 5_000_000));
    rates.extend((0..2_000).map(|k| 9_007_199_254_740_993 + k * 15_000_001));
    for rate in rates {
        state.hashrate = rate;
        assert_eq!(
            shown(Subscription::Hashrate, "hashrate", &state),
            format!("{:.2}", rate as f64 / 1_000_000_000.0),
            "hashrate {rate}"
        );
    }
    state.hashrate = 5_000_000;
    assert_eq!(shown(Subscription::Hashrate, "hashrate", &state), "0.01");
}

/// A decimal fraction in single precision.
fn single(digits: i64, places: u32) -> f32 {
    let one = 10i64.pow(places);
    let sign = if digits < 0 { "-" } else { "" };
    let (whole, part) = (digits.abs() / one, digits.abs() % one);
    format!("{sign}{whole}.{part:0width$}", width = places as usize).parse().unwrap()
}

#[test]
fn temperatures_are_shown_as_single_precision_has_them() {
    let mut state = empty_state();
    state.boards = vec![board()];
    let near = (0..30_000).map(|k| k * 5_000 - 20_000_000);
    let odd = (0..2_000).map(|k| k * 1_000_003 - 1_000_000_000);
    for microc in near.chain(odd) {
        state.boards[0].temperatures =
            vec![TemperatureSensor { name: "t".into(), microc: Some(microc) }];
        assert_eq!(
            shown(Subscription::Temperature, "chipTemp", &state),
            format!("{:.2}", single(microc as i64, 6)),
            "temperature {microc}"
        );
    }
}

#[test]
fn voltages_are_shown_as_single_precision_has_them() {
    let near = (0..30_000u32).map(|k| k * 50);
    let odd = (0..4_000u32).map(|k| 11_900_000 + k * 1_050);
    for microvolts in near.chain(odd).chain([u32::MAX, 1, 12_345_650]) {
        assert_eq!(
            format_gt_touch_voltage(microvolts),
            format!("{:.2}", single(microvolts as i64, 6) * 100.0),
            "voltage {microvolts}"
        );
    }
}

#[test]
fn powers_are_added_as_single_precision_has_them() {
    let mut state = empty_state();
    for k in 0..3_000u32 {
        let rails = [k * 50 + 50, 1, k * 7_777 + 3, u32::MAX - k, 350];
        let mut total = 0.0f32;
        let mut b = board();
        b.powers = vec![];
        for rail in rails.iter().take(1 + (k % 5) as usize) {
            total += single(*rail as i64, 3);
            b.powers.push(PowerMeasurement {
                name: "rail".into(),
                microvolts: None,
                milliamps: None,
                milliwatts: Some(*rail),
            });
        }
        state.boards = vec![b];
        assert_eq!(
            shown(Subscription::Power, "power", &state),
            format!("{total:.1}"),
            "power of {k}"
        );
    }
    state.boards[0].powers.clear();
    assert_eq!(total_power(&state), None);
}

#[test]
fn bad_lines_are_told_apart() {
    let text = |line: &str| parse_line(line).expect_err(line).message();
    assert_eq!(text("$BAP,SUB,nonsense"), "unsupported subscription parameter nonsense");
    assert_eq!(text("BAP,REQ,systemInfo*3E"), "missing $ prefix");
    assert_eq!(text("$BAP,REQ,systemInfo"), "missing checksum separator");
    assert_eq!(text("$BAP,REQ,systemInfo*ZZ"), "invalid checksum hex");
    assert_eq!(text("$BAP,REQ,systemInfo*00"), "checksum mismatch: expected 3E, got 00");
    assert!(matches!(
        parse_line("$BAP,REQ,systemInfo*00"),
        Err(LineError::ChecksumMismatch { expected: 0x3E, received: 0x00 })
    ));
    let checked = |body: &str| format!("${}*{:02X}", body, checksum(body));
    assert_eq!(text(&checked("XYZ,REQ,systemInfo")), "missing BAP prefix");
    assert_eq!(text(&checked("BAP")), "missing command");
    assert_eq!(text(&checked("BAP,REQ")), "missing parameter");
    assert_eq!(text(&checked("BAP,NOP,x")), "unsupported command NOP");
}

#[test]
fn settings_are_understood() {
    let body = "BAP,SET,mode,eco";
    let message = parse_line(&format!("  ${}*{:02x}\r\n", body, checksum(body))).expect("SET");
    match message {
        IncomingMessage::Setting { parameter, value } => {
            assert_eq!(parameter, "mode");
            assert_eq!(value, "eco");
        }
        other => panic!("unexpected message: {other:?}"),
    }
}

#[test]
fn a_session_answers_what_it_subscribed_to() {
    let mut state = empty_state();
    state.hashrate = 12_340_000_000_000;
    state.boards = vec![board()];
    let mut session = SessionState::new();
    assert!(session.refresh(&state).is_empty());

    let context = ServiceContext {
        default_device_model: Some("S19j Pro".into()),
        default_asic_model: Some("BM1362".into()),
        default_pool_url: Some("stratum+tcp://pool:3333".into()),
        default_pool_user: Some("worker".into()),
        default_mode: Some("normal".into()),
        default_microvolts: Some(12_600_000),
    };
    let subscribed = session.handle_line("$BAP,SUB,fan_speed\r\n", &state, &context);
    assert_eq!(subscribed, vec![format_response("fan_speed", "6200")]);
    // A second subscription to the same value changes nothing.
    session.handle_line("$BAP,SUB,fan_speed\r\n", &state, &context);
    assert_eq!(session.refresh(&state), vec![format_response("fan_speed", "6200")]);

    let info = session.handle_line("$BAP,REQ,systemInfo*3E\r\n", &state, &context);
    assert_eq!(info, send_system_info(&state, &context));
    assert!(info.contains(&format_response("pool", "stratum+tcp://pool")));
    assert!(info.contains(&format_response("poolPort", "3333")));
    assert!(info.contains(&format_response("poolUser", "worker")));
    assert!(info.contains(&format_response("voltage", "1230.00")));

    assert!(session.handle_line("$BAP,SUB,nonsense\r\n", &state, &context).is_empty());
}

#[test]
fn values_that_are_not_known_are_not_published() {
    let mut state = empty_state();
    assert_eq!(publish_subscription(Subscription::Temperature, &state), None);
    assert_eq!(publish_subscription(Subscription::FanSpeed, &state), None);
    state.boards = vec![board()];
    assert_eq!(
        publish_subscription(Subscription::Temperature, &state),
        Some(format_response("chipTemp", "67.00"))
    );
    assert_eq!(
        publish_subscription(Subscription::FanSpeedPercent, &state),
        Some(format_response("fan_speed_percent", "75"))
    );
}

#[test]
fn the_pool_of_a_source_comes_before_the_default() {
    let mut state = empty_state();
    state.sources = vec![SourceState {
        name: "pool".into(),
        url: Some("stratum+tcp://other:25".into()),
        difficulty: None,
    }];
    let context = ServiceContext {
        default_device_model: None,
        default_asic_model: None,
        default_pool_url: Some("stratum+tcp://pool:3333".into()),
        default_pool_user: None,
        default_mode: None,
        default_microvolts: None,
    };
    let info = send_system_info(&state, &context);
    assert!(info.contains(&format_response("pool", "stratum+tcp://other")));
    assert!(info.contains(&format_response("poolPort", "25")));
}

#[test]
fn serial_paths_are_found_by_identity() {
    assert!(is_candidate_tty("ttyACM0"));
    assert!(!is_candidate_tty("ttyS0"));
    let by_ids = UsbIdentity {
        vendor: Some("303a".into()),
        product_id: Some("4001".into()),
        product: None,
    };
    let by_name = UsbIdentity {
        vendor: None,
        product_id: None,
        product: Some("GT Touch CDC".into()),
    };
    let other = || UsbIdentity {
        vendor: Some("303a".into()),
        product_id: None,
        product: Some("Other".into()),
    };
    assert!(gt_touch_matches(&vec![other(), by_ids]));
    assert!(gt_touch_matches(&vec![by_name]));
    assert!(!gt_touch_matches(&vec![other()]));
    assert!(!gt_touch_matches(&vec![]));

    let configured = resolve_serial_path(Some("/dev/ttyX".into()), vec!["/dev/ttyACM0".into()]);
    assert_eq!(configured, Some("/dev/ttyX".to_string()));
    let found = resolve_serial_path(None, vec!["/dev/ttyACM1".into(), "/dev/ttyACM0".into()]);
    assert_eq!(found, Some("/dev/ttyACM0".to_string()));
    assert_eq!(resolve_serial_path(None, vec![]), None);
}
