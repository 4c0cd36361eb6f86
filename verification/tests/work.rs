//! Targets, difficulties, extranonces, text and configuration.

use mujina_miner::api::server::{board_by_name, miner_state, source_by_name, total_hashrate};
use mujina_miner::api::types::{BoardState, MinerState, SourceState, ThreadState};
use mujina_miner::config::{
    default_search_paths, find_default_path, ApiConfig, Config, DaemonConfig,
    GtTouchDisplayConfig, HardwareConfig, HashboardModel, ProbedPath,
};
use mujina_miner::job::{Extranonce2, Extranonce2Range, GeneralPurposeBits};
use mujina_miner::pow::{BlockHeader, Target, Work};
use mujina_miner::precision::wide_half_even;
use mujina_miner::text::{
    chars_of, find_first, find_last, first_bytes, is_text, parse_hex_byte,
    push_decimal, push_decimal_padded, push_hex_at_least_two, push_hundredths, push_tenths,
    same_text, spells, starts_with, text_of, trim_range,
};
use mujina_miner::types::{
    expected_time_to_share_from_target, target_for_share_rate, Difficulty, HashRate, ShareRate,
};

#[test]
fn the_target_of_difficulty_one() {
    let max = Target::max();
    assert_eq!((max.hi, max.lo), (0xFFFF_0000_0000_0000_0000_0000, 0));
    assert_eq!(max.to_work(), Work { hi: 0, lo: 4_295_032_833 });
    assert_eq!(Difficulty::from_target(max), Difficulty(1));
    assert_eq!(Difficulty(0).to_target(), max);
    assert_eq!(Difficulty(1).to_target(), max);
}

#[test]
fn difficulties_divide_the_target() {
    assert_eq!(
        Difficulty(1024).to_target(),
        Target { hi: 0x3F_FFC0_0000_0000_0000_0000, lo: 0 }
    );
    assert_eq!(Difficulty::from_target(Difficulty(1024).to_target()), Difficulty(1024));
    assert_eq!(
        Difficulty::from_target(Target { hi: 0, lo: 0 }),
        Difficulty(u64::MAX)
    );
    assert_eq!(Difficulty::from_target(Target { hi: 0, lo: 1 }), Difficulty(u64::MAX));
}

#[test]
fn the_genesis_hash_has_difficulty_2536() {
    let header = BlockHeader {
        version: 1,
        prev_blockhash: [0; 32],
        merkle_root: [
            0x3b, 0xa3, 0xed, 0xfd, 0x7a, 0x7b, 0x12, 0xb2, 0x7a, 0xc7, 0x2c, 0x3e, 0x67, 0x76,
            0x8f, 0x61, 0x7f, 0xc8, 0x1b, 0xc3, 0x88, 0x8a, 0x51, 0x32, 0x3a, 0x9f, 0xb8, 0xaa,
            0x4b, 0x1e, 0x5e, 0x4a,
        ],
        time: 1_231_006_505,
        bits: 0x1d00_ffff,
        nonce: 2_083_236_893,
    };
    let hash = header.block_hash();
    assert_eq!(&hash[..4], &[0x6f, 0xe2, 0x8c, 0x0a]);
    assert_eq!(&hash[26..], &[0x19, 0, 0, 0, 0, 0]);
    assert_eq!(Difficulty::from_hash(&hash), Difficulty(2536));
    assert!(Target::max().is_met_by(&hash));
    assert!(!Difficulty(2537).to_target().is_met_by(&hash));
}

#[test]
fn targets_and_work_invert_each_other() {
    assert_eq!(Work { hi: 0, lo: 0 }.to_target(), Target { hi: u128::MAX, lo: u128::MAX });
    assert_eq!(Target { hi: 0, lo: 1 }.to_work(), Work { hi: u128::MAX, lo: u128::MAX });
    assert_eq!(Work { hi: 0, lo: 3 }.to_target(), Target { hi: 1 << 126, lo: 0 });
    assert_eq!(Target { hi: u128::MAX, lo: u128::MAX }.to_work(), Work { hi: 0, lo: 1 });
    let second = target_for_share_rate(ShareRate { interval_ms: 1000 }, HashRate(1_000_000_000_000));
    assert_eq!(
        second,
        Target { hi: 0x119_7998_12dd_6b95_6e57_f779, lo: 0x402c_0638_43be_fa16_74fa_c96c_4fd5_86cc }
    );
    assert_eq!(
        expected_time_to_share_from_target(
            Difficulty(100).to_target(),
            HashRate::from_gigahashes(1)
        ),
        429
    );
}

#[test]
fn targets_are_clamped() {
    let low = Target { hi: 1, lo: 0 };
    let high = Target { hi: 2, lo: 7 };
    assert_eq!(Target { hi: 0, lo: 5 }.clamp(low, high), low);
    assert_eq!(Target { hi: 2, lo: 8 }.clamp(low, high), high);
    assert_eq!(Target { hi: 2, lo: 6 }.clamp(low, high), Target { hi: 2, lo: 6 });
    assert!(low.at_most(&high));
    assert!(!high.at_most(&low));
}

#[test]
fn versions_are_rolled_in_the_middle_bits() {
    assert_eq!(GeneralPurposeBits::full().apply_to_version(0x2000_0000), 0x3FFF_E000);
    assert_eq!(GeneralPurposeBits(0).apply_to_version(0x3FFF_E004), 0x2000_0004);
    assert_eq!(GeneralPurposeBits(1).apply_to_version(1), 0x2001);
}

#[test]
fn extranonces_fit_their_size() {
    assert_eq!(Extranonce2::new(255, 1), Some(Extranonce2 { value: 255, size: 1 }));
    assert_eq!(Extranonce2::new(256, 1), None);
    assert_eq!(Extranonce2::new(0, 0), None);
    assert_eq!(Extranonce2::new(0, 9), None);
    assert!(Extranonce2::new(u64::MAX, 8).is_some());
    let mut out = vec![0xAA];
    Extranonce2::new(0x0102, 3).unwrap().append_to(&mut out);
    assert_eq!(out, vec![0xAA, 0x02, 0x01, 0x00]);
    assert_eq!(Extranonce2Range::new(0), None);
    assert_eq!(Extranonce2Range::new(9), None);
    assert_eq!(Extranonce2Range::new(8).unwrap().max, u64::MAX);
}

#[test]
fn ranges_split_without_gaps() {
    let range = Extranonce2Range::new(1).unwrap();
    let slices = range.split(3).unwrap();
    let ends: Vec<(u64, u64)> = slices.iter().map(|s| (s.min, s.max)).collect();
    assert_eq!(slices.len(), 3);
    assert_eq!(ends[0].0, 0);
    assert_eq!(ends[2].1, 255);
    assert_eq!(ends[1].0, ends[0].1 + 1);
    assert_eq!(ends[2].0, ends[1].1 + 1);
    assert_eq!(range.split(0), None);
    assert_eq!(range.split(257), None);
    assert_eq!(range.split(256).unwrap().len(), 256);
    assert_eq!(slices[1].first(), Extranonce2::new(ends[1].0, 1).unwrap());
}

#[test]
fn numbers_become_text() {
    let mut out = String::new();
    push_decimal(&mut out, 0);
    push_decimal_padded(&mut out, 7, 3);
    push_hundredths(&mut out, 1234);
    push_tenths(&mut out, 5);
    push_hex_at_least_two(&mut out, 0xA);
    push_hex_at_least_two(&mut out, 0x1FF);
    assert_eq!(out, "000712.340.50A1FF");
    assert_eq!(wide_half_even(25, 10), 2);
    assert_eq!(wide_half_even(35, 10), 4);
    assert_eq!(wide_half_even(26, 10), 3);
}

#[test]
fn text_is_searched_and_cut() {
    let chars = chars_of("\u{3000} a:b:c\t");
    let (from, to) = trim_range(&chars);
    assert_eq!(text_of(&chars, from, to), "a:b:c");
    assert_eq!(find_first(&chars, from, to, ':'), Some(from + 1));
    assert_eq!(find_last(&chars, from, to, ':'), Some(from + 3));
    assert_eq!(find_first(&chars, from, to, '!'), None);
    assert!(starts_with(&chars, from, to, "a:"));
    assert!(spells(&chars, from, to, "a:b:c"));
    assert!(same_text("x", "x"));
    assert!(!same_text("x", "xy"));
    assert!(is_text(&Some("x".to_string()), "x"));
    assert!(!is_text(&None, "x"));
    let hex = chars_of("+fF0x");
    assert_eq!(parse_hex_byte(&hex, 1, 3), Some(0xFF));
    assert_eq!(parse_hex_byte(&hex, 0, 3), Some(0xFF));
    assert_eq!(parse_hex_byte(&hex, 3, 5), None);
    assert_eq!(parse_hex_byte(&hex, 0, 0), None);
}

#[test]
fn a_prefix_is_counted_in_bytes() {
    assert_eq!(first_bytes("0123456789", 8), "01234567");
    assert_eq!(first_bytes("abc", 8), "abc");
    assert_eq!(first_bytes("", 8), "");
    assert_eq!(first_bytes("\u{e9}\u{e9}\u{e9}\u{e9}\u{e9}", 8), "\u{e9}\u{e9}\u{e9}\u{e9}");
    assert_eq!(first_bytes("\u{1f600}\u{20ac}x\u{20ac}", 8), "\u{1f600}\u{20ac}x");
}

#[test]
fn defaults_of_the_configuration() {
    let config = Config::default();
    assert_eq!(config.daemon.log_level, "info");
    assert!(config.pools.is_empty());
    assert!(config.enabled_amlogic_control_board().is_none());
    let daemon = DaemonConfig::default();
    assert_eq!(daemon.log_level, "info");
    assert!(!daemon.systemd);
    let hardware = HardwareConfig::default();
    assert_eq!(hardware.temp_limit_microc, 85_000_000);
    assert_eq!((hardware.fan_min_rpm, hardware.fan_max_rpm), (0, 10_000));
    assert_eq!(ApiConfig::default().listen, "127.0.0.1:7785");
    let display = GtTouchDisplayConfig::default();
    assert!(!display.enabled);
    assert_eq!(display.baud_rate, 115_200);
    assert_eq!(HashboardModel::S19jPro.asic_model_label(), "BM1362");
    assert_eq!(HashboardModel::S19kPro.asic_model_label(), "BM1366");
    assert_eq!(
        HashboardModel::S19jPro.board_model_label(),
        "S19j Pro (Amlogic control board)"
    );
    assert_eq!(
        HashboardModel::S19kPro.board_model_label(),
        "S19k Pro (Amlogic control board)"
    );
}

#[test]
fn a_named_configuration_must_exist() {
    let probed = |path: &str, exists: bool| ProbedPath { path: path.into(), exists };
    let missing = find_default_path(Some(probed("/x.toml", false)), &vec![]);
    match missing {
        Err(error) => assert!(error.message().contains("/x.toml")),
        Ok(_) => panic!("a missing file was accepted"),
    }
    let named = find_default_path(Some(probed("/x.toml", true)), &vec![probed("/y.toml", true)]);
    assert!(matches!(named, Ok(Some(path)) if path == "/x.toml"));
    let found = find_default_path(None, &vec![probed("/a", false), probed("/b", true)]);
    assert!(matches!(found, Ok(Some(path)) if path == "/b"));
    let none = find_default_path(None, &vec![probed("/a", false)]);
    assert!(matches!(none, Ok(None)));
    assert!(default_search_paths(Some("/home/m")).iter().any(|p| p.starts_with("/home/m/")));
    assert!(default_search_paths(None).iter().all(|p| !p.starts_with("/home")));
}

fn miner(sources: Vec<SourceState>) -> MinerState {
    MinerState {
        uptime_secs: 42,
        hashrate: 7,
        shares_submitted: 5,
        best_difficulty: None,
        paused: false,
        boards: vec![],
        sources,
    }
}

fn source(name: &str, url: Option<&str>) -> SourceState {
    SourceState { name: name.into(), url: url.map(|url| url.into()), difficulty: None }
}

fn board(name: &str, model: &str, serial: Option<&str>, threads: Vec<ThreadState>) -> BoardState {
    BoardState {
        name: name.into(),
        model: model.into(),
        serial: serial.map(|serial| serial.into()),
        frequency_khz: None,
        hashboard_count: None,
        active_hashboard_count: None,
        hashboards: vec![],
        fans: vec![],
        temperatures: vec![],
        powers: vec![],
        threads,
    }
}

#[test]
fn miner_includes_boards_and_sources() {
    let mut published = miner(vec![source("pool", Some("stratum+tcp://localhost:3333"))]);
    published.hashrate = 1_000_000;
    let threads =
        vec![ThreadState { name: "thread-0".into(), hashrate: 1_000_000, is_active: true }];
    let state = miner_state(published, vec![board("test-board", "TestModel", None, threads)]);

    assert_eq!(state.uptime_secs, 42);
    assert_eq!(state.hashrate, 1_000_000);
    assert_eq!(state.shares_submitted, 5);
    assert_eq!(state.boards.len(), 1);
    assert_eq!(state.boards[0].name, "test-board");
    assert_eq!(state.sources.len(), 1);
    assert_eq!(state.sources[0].name, "pool");
}

#[test]
fn rates_of_threads_add_up() {
    let thread = |hashrate: u64| ThreadState { name: "t".into(), hashrate, is_active: false };
    let boards = vec![
        board("a", "A", None, vec![thread(1_000_000), thread(1)]),
        board("b", "B", None, vec![]),
        board("c", "C", None, vec![thread(20)]),
    ];
    assert_eq!(miner_state(miner(vec![]), boards).hashrate, 1_000_021);
    let huge = board("d", "D", None, vec![thread(u64::MAX), thread(1)]);
    assert_eq!(total_hashrate(&vec![huge]), None);
    assert_eq!(total_hashrate(&vec![]), Some(0));
}

#[test]
fn boards_returns_list() {
    let boards = vec![board("board-a", "A", None, vec![]), board("board-b", "B", None, vec![])];
    let boards = miner_state(miner(vec![]), boards).boards;
    assert_eq!(boards.len(), 2);
    assert_eq!(boards[0].name, "board-a");
    assert_eq!(boards[1].name, "board-b");
}

#[test]
fn board_by_name_returns_match() {
    let boards = vec![
        board("bitaxe", "Bitaxe", None, vec![]),
        board("bitaxe-abc123", "Bitaxe", Some("abc123"), vec![]),
        board("bitaxe-abc123", "Other", None, vec![]),
    ];
    let found = board_by_name(&boards, "bitaxe-abc123").unwrap();
    assert_eq!(found.name, "bitaxe-abc123");
    assert_eq!(found.serial, Some("abc123".into()));
}

#[test]
fn board_by_name_returns_404_when_missing() {
    assert!(board_by_name(&vec![], "nonexistent").is_none());
    assert!(board_by_name(&vec![board("a", "A", None, vec![])], "nonexistent").is_none());
}

#[test]
fn sources_returns_list() {
    let published =
        miner(vec![source("pool-a", Some("stratum+tcp://a:3333")), source("pool-b", None)]);
    let sources = miner_state(published, vec![]).sources;
    assert_eq!(sources.len(), 2);
    assert_eq!(sources[0].name, "pool-a");
    assert_eq!(sources[0].url.as_deref(), Some("stratum+tcp://a:3333"));
    assert_eq!(sources[1].name, "pool-b");
    assert_eq!(sources[1].url, None);
}

#[test]
fn source_by_name_returns_match() {
    let sources = vec![source("other", None), source("my-pool", Some("stratum+tcp://pool:3333"))];
    let found = source_by_name(&sources, "my-pool").unwrap();
    assert_eq!(found.name, "my-pool");
    assert_eq!(found.url.as_deref(), Some("stratum+tcp://pool:3333"));
}

#[test]
fn source_by_name_returns_404_when_missing() {
    assert!(source_by_name(&vec![], "nonexistent").is_none());
}

#[test]
fn a_block_hash_is_that_of_the_serialised_header() {
    let header = BlockHeader {
        version: -0x2000_0000,
        prev_blockhash: [0x11; 32],
        merkle_root: [0x22; 32],
        time: 1_700_000_000,
        bits: 0x1703_4219,
        nonce: 0xDEAD_BEEF,
    };
    let mut bytes: Vec<u8> = Vec::new();
    bytes.extend_from_slice(&header.version.to_le_bytes());
    bytes.extend_from_slice(&header.prev_blockhash);
    bytes.extend_from_slice(&header.merkle_root);
    bytes.extend_from_slice(&header.time.to_le_bytes());
    bytes.extend_from_slice(&header.bits.to_le_bytes());
    bytes.extend_from_slice(&header.nonce.to_le_bytes());
    assert_eq!(bytes.len(), 80);
    let digest = <bitcoin::hashes::sha256d::Hash as bitcoin::hashes::Hash>::hash(&bytes);
    assert_eq!(
        header.block_hash(),
        bitcoin::hashes::Hash::to_byte_array(digest)
    );
}
