//! Chip configurations and the command sequences of a chain.

use mujina_miner::asic::bm13xx::chain::{Chain, ChainError, ChipId};
use mujina_miner::asic::bm13xx::chip_config::{bm1362, bm1366, bm1370};
use mujina_miner::asic::bm13xx::protocol::{Command, Frequency, PllConfig, Register, TicketMask};
use mujina_miner::asic::bm13xx::sequencer::{Sequencer, Step};
use mujina_miner::asic::bm13xx::topology::TopologySpec;

/// A frequency given in megahertz.
fn from_mhz(mhz: f32) -> Frequency {
    Frequency((mhz * 1000.0).round() as u32)
}

fn mhz(freq: Frequency) -> f32 {
    freq.0 as f32 / 1000.0
}

/// Antminer S21 Pro: 65 BM1370 chips in 13 voltage domains.
const CHIP_COUNT: usize = 65;
const DOMAIN_COUNT: usize = 13;
const CHIPS_PER_DOMAIN: usize = 5;

fn s21_pro_chain() -> Chain {
    let topology = TopologySpec::uniform_domains(DOMAIN_COUNT, CHIPS_PER_DOMAIN, true);
    let mut chain = Chain::from_topology(&topology);
    chain.assign_addresses().unwrap();
    chain
}

#[test]
fn verify_chip_id_matches() {
    let config = bm1362();
    assert!(config.verify_chip_id(0x1362));
    assert!(!config.verify_chip_id(0x1370));
    assert!(!config.verify_chip_id(0x1366));

    let bm1366_cfg = bm1366();
    assert!(bm1366_cfg.verify_chip_id(0x1366));
    assert!(!bm1366_cfg.verify_chip_id(0x1362));
}

#[test]
fn pll_calculation_produces_valid_frequencies() {
    // Format: (target_mhz, [fb_div, ref_div, post_div] from esp-miner)
    let test_cases = vec![
        (62.5, [0xd2u8, 0x02, 0x65]),
        (75.0, [0xd2, 0x02, 0x64]),
        (100.0, [0xe0, 0x02, 0x63]),
        (400.0, [0xe0, 0x02, 0x60]),
        (500.0, [0xa2, 0x02, 0x30]),
    ];

    let config = bm1370();

    for (target_mhz, esp_miner_raw) in test_cases {
        let target_mhz: f32 = target_mhz;
        let freq = from_mhz(target_mhz);
        let pll = config.calculate_pll(freq);

        let esp_post_div1 = ((esp_miner_raw[2] >> 4) & 0xf) + 1;
        let esp_post_div2 = (esp_miner_raw[2] & 0xf) + 1;
        let esp_actual_mhz = 25.0 * esp_miner_raw[0] as f32
            / (esp_miner_raw[1] as f32 * esp_post_div1 as f32 * esp_post_div2 as f32);

        let our_post_div1 = ((pll.post_div >> 4) & 0xf) + 1;
        let our_post_div2 = (pll.post_div & 0xf) + 1;
        let our_actual_mhz = 25.0 * pll.fb_div as f32
            / (pll.ref_div as f32 * our_post_div1 as f32 * our_post_div2 as f32);

        let esp_error = (target_mhz - esp_actual_mhz).abs();
        let our_error = (target_mhz - our_actual_mhz).abs();

        assert!(
            pll.fb_div >= 0xa0 && pll.fb_div <= 0xef,
            "fb_div out of range: {:#04x}",
            pll.fb_div
        );
        assert!(
            pll.ref_div == 1 || pll.ref_div == 2,
            "ref_div invalid: {}",
            pll.ref_div
        );
        assert!(
            our_error < 1.0,
            "Frequency error too large: {:.2}MHz for target {}MHz",
            our_error,
            target_mhz
        );
        assert!(
            our_error <= esp_error + 0.01,
            "Our algorithm produced worse result than esp-miner for {}MHz",
            target_mhz
        );
    }
}

#[test]
fn pll_vco_flag_set_correctly() {
    let config = bm1362();

    for freq_mhz in [100.0, 200.0, 300.0, 400.0, 500.0, 525.0] {
        let pll = config.calculate_pll(from_mhz(freq_mhz));
        let vco = pll.fb_div as f32 * 25.0 / pll.ref_div as f32;
        let expected_flag = if vco >= 2400.0 { 0x50 } else { 0x40 };

        assert_eq!(
            pll.flag, expected_flag,
            "{}MHz: VCO={:.1} should use flag=0x{:02X}, got 0x{:02X}",
            freq_mhz, vco, expected_flag, pll.flag
        );
    }
}

#[test]
fn bm1362_and_bm1370_pll_identical() {
    let bm1362_config = bm1362();
    let bm1370_config = bm1370();

    for freq_mhz in [100.0, 200.0, 300.0, 400.0, 500.0] {
        let freq = from_mhz(freq_mhz);
        let pll_1362 = bm1362_config.calculate_pll(freq);
        let pll_1370 = bm1370_config.calculate_pll(freq);

        assert_eq!(
            pll_1362, pll_1370,
            "BM1362 and BM1370 should produce identical PLL for {}MHz",
            freq_mhz
        );
    }
}

#[test]
fn bm1366_pll_respects_family_constraints() {
    let config = bm1366();

    for freq_mhz in [62.5, 100.0, 200.0, 300.0, 400.0, 500.0, 600.0] {
        let pll = config.calculate_pll(from_mhz(freq_mhz));
        assert!(
            (0x90..=0xEB).contains(&pll.fb_div),
            "BM1366 {freq_mhz}MHz: fb_div={:#04x} out of 0x90..=0xEB range",
            pll.fb_div
        );

        let post_div1 = ((pll.post_div >> 4) & 0xF) + 1;
        let post_div2 = (pll.post_div & 0xF) + 1;
        assert!(
            post_div1 > post_div2,
            "BM1366 {freq_mhz}MHz: postdiv1={post_div1} not strictly > postdiv2={post_div2}"
        );
    }
}

#[test]
fn bm1366_init_regs_match_esp_miner_wire_bytes() {
    let regs = bm1366().init_regs;
    let cases: &[(u32, [u8; 4], &str)] = &[
        (regs.init_control_broadcast, [0x00, 0x07, 0x00, 0x00], "reg 0xA8 bcast"),
        (regs.misc_control_broadcast, [0xFF, 0x0F, 0xC1, 0x00], "reg 0x18 bcast"),
        (regs.core_broadcast[0], [0x80, 0x00, 0x85, 0x40], "reg 0x3C bcast #1"),
        (regs.core_broadcast[1], [0x80, 0x00, 0x80, 0x20], "reg 0x3C bcast #2"),
        (regs.analog_mux_broadcast, [0x00, 0x00, 0x00, 0x03], "reg 0x54 bcast"),
        (regs.io_driver_broadcast_raw.unwrap(), [0x02, 0x11, 0x41, 0x11], "reg 0x58 bcast"),
        (regs.init_control_perchip, [0x00, 0x07, 0x01, 0xF0], "reg 0xA8 per-chip"),
        (regs.misc_control_perchip, [0xF0, 0x00, 0xC1, 0x00], "reg 0x18 per-chip"),
        (regs.core_perchip[0], [0x80, 0x00, 0x85, 0x40], "reg 0x3C per-chip #1"),
        (regs.core_perchip[1], [0x80, 0x00, 0x80, 0x20], "reg 0x3C per-chip #2"),
        (regs.core_perchip[2], [0x80, 0x00, 0x82, 0xAA], "reg 0x3C per-chip #3"),
    ];
    for (raw, expected, label) in cases {
        assert_eq!(
            raw.to_le_bytes(),
            *expected,
            "{label}: raw 0x{raw:08X} -> {:02X?}, expected {:02X?}",
            raw.to_le_bytes(),
            expected
        );
    }
}

#[test]
fn bm1366_uart_relay_perdomain_matches_luxos_capture() {
    let spec = bm1366()
        .init_regs
        .uart_relay_perdomain
        .expect("BM1366 should have per-domain UartRelay configured");
    let expected_byte1: [u8; 11] = [
        0x5b, 0x54, 0x4d, 0x46, 0x3f, 0x38, 0x31, 0x2a, 0x23, 0x1c, 0x15,
    ];
    for (idx, b1) in expected_byte1.iter().enumerate() {
        let wire = spec.value_for(idx).to_le_bytes();
        assert_eq!(
            wire,
            [0x00, *b1, 0x00, 0x03],
            "domain {idx}: wire {wire:02X?} != expected [00 {b1:02X} 00 03]"
        );
    }
}

#[test]
fn enumeration_addresses_match_chain_model() {
    let sequencer = Sequencer::new(bm1370());
    let chain = s21_pro_chain();

    let steps = sequencer.build_enumeration(&chain);

    let address_commands: Vec<_> = steps
        .iter()
        .filter_map(|step| match step.command {
            Command::SetChipAddress { chip_address } => Some(chip_address),
            _ => None,
        })
        .collect();

    assert_eq!(address_commands.len(), CHIP_COUNT);
    for (i, &chip_address) in address_commands.iter().enumerate() {
        assert_eq!(
            chip_address,
            chain.chip(ChipId(i)).address,
            "Address mismatch at chip {}",
            i
        );
    }
}

#[test]
fn domain_config_targets_last_chip_of_each_domain() {
    let sequencer = Sequencer::new(bm1370());
    let chain = s21_pro_chain();

    let steps = sequencer.build_domain_config(&chain);

    assert_eq!(steps.len(), DOMAIN_COUNT);

    for (domain_idx, step) in steps.iter().enumerate() {
        if let Command::WriteRegister {
            chip_address,
            register: Register::IoDriverStrength(_),
            ..
        } = &step.command
        {
            let expected_chip_idx = (domain_idx + 1) * CHIPS_PER_DOMAIN - 1;
            let expected_address = (expected_chip_idx * 2) as u8;
            assert_eq!(
                *chip_address, expected_address,
                "Domain {} end chip address mismatch",
                domain_idx
            );
        } else {
            panic!("Expected WriteRegister IoDriverStrength");
        }
    }
}

#[test]
fn custom_enumeration_override() {
    // Custom: just ChainInactive, no SetChipAddress
    let sequencer = Sequencer::new(bm1370())
        .with_enumeration(|_chain, _config| vec![Step::new(Command::ChainInactive)]);

    let topology = TopologySpec::single_domain(5);
    let mut chain = Chain::from_topology(&topology);
    chain.assign_addresses().unwrap();

    let steps = sequencer.build_enumeration(&chain);

    assert_eq!(steps.len(), 1);
}

#[test]
fn frequency_ramp_generates_steps_to_target() {
    let sequencer = Sequencer::new(bm1362());

    let steps = sequencer.build_frequency_ramp(from_mhz(290.0));

    assert_eq!(steps.len(), 39, "Expected 39 frequency ramp steps");

    for (freq, step) in &steps {
        assert!(
            mhz(*freq) > 0.0,
            "Each step should have a positive frequency"
        );
        assert!(
            matches!(
                &step.command,
                Command::WriteRegister {
                    register: Register::PllDivider(_),
                    broadcast: true,
                    ..
                }
            ),
            "Each step should be a broadcast PllDivider write"
        );
        assert!(step.wait_after.is_some(), "Each step should have a delay");
    }

    assert!(
        (mhz(steps.first().unwrap().0) - 56.25).abs() < 0.01,
        "First step should be at ~56.25 MHz"
    );
    assert!(
        (mhz(steps.last().unwrap().0) - 290.0).abs() < 0.01,
        "Last step should be at ~290 MHz"
    );
}

#[test]
fn frequency_ramp_empty_at_or_below_initial() {
    let sequencer = Sequencer::new(bm1362());

    let steps = sequencer.build_frequency_ramp(from_mhz(56.25));
    assert!(steps.is_empty(), "Should skip ramp at initial frequency");

    let steps = sequencer.build_frequency_ramp(from_mhz(50.0));
    assert!(steps.is_empty(), "Should skip ramp below initial frequency");
}

#[test]
fn frequency_ramp_clamped_to_max_freq() {
    let sequencer = Sequencer::new(bm1362());

    let steps_600 = sequencer.build_frequency_ramp(from_mhz(600.0));
    let steps_525 = sequencer.build_frequency_ramp(from_mhz(525.0));

    assert_eq!(
        steps_600.len(),
        steps_525.len(),
        "Requesting above max should clamp to max"
    );

    assert!(
        (mhz(steps_600.last().unwrap().0) - 525.0).abs() < 0.01,
        "Clamped ramp should end at max frequency"
    );
}

#[test]
fn a_ramp_climbs_by_equal_steps() {
    let steps = Sequencer::new(bm1370()).build_frequency_ramp(Frequency(100_000));
    let ladder: Vec<u32> = steps.iter().map(|(freq, _)| freq.0).collect();
    assert_eq!(
        ladder,
        vec![56_250, 62_500, 68_750, 75_000, 81_250, 87_500, 93_750, 100_000]
    );
    assert!(steps.iter().all(|(_, step)| step.wait_after == Some(10_000)));
}

#[test]
fn dividers_of_a_round_frequency() {
    // 25 MHz * 160 / (2 * 5 * 4) is 100 MHz exactly.
    let pll = bm1362().calculate_pll(Frequency(100_000));
    let post1 = (pll.post_div >> 4) as u32 + 1;
    let post2 = (pll.post_div & 0xF) as u32 + 1;
    assert_eq!(25_000 * pll.fb_div as u32, 100_000 * pll.ref_div as u32 * post1 * post2);
    assert_eq!(PllConfig::new(0xA0, 2, 0x43).flag, 0x40);
    assert_eq!(PllConfig::new(0xC0, 2, 0x43).flag, 0x50);
}

#[test]
fn addresses_are_two_apart_up_to_128_chips() {
    let mut chain = Chain::from_topology(&TopologySpec::single_domain(128));
    assert_eq!(chain.assign_addresses(), Ok(()));
    assert_eq!(chain.chip_count(), 128);
    assert_eq!(chain.chip(ChipId(0)).address, 0);
    assert_eq!(chain.chip(ChipId(1)).address, 2);
    assert_eq!(chain.chip(ChipId(127)).address, 254);

    let mut long = Chain::from_topology(&TopologySpec::individual_domains(129, false));
    assert_eq!(
        long.assign_addresses(),
        Err(ChainError::TooManyChips { chip_count: 129 })
    );
}

#[test]
fn domains_have_a_first_and_a_last_chip() {
    let chain = s21_pro_chain();
    assert_eq!(chain.domain_first(2), ChipId(10));
    assert_eq!(chain.domain_last(2), ChipId(14));
}

#[test]
fn the_two_halves_of_the_register_config() {
    let sequencer = Sequencer::new(bm1366());
    let mut chain = Chain::from_topology(&TopologySpec::uniform_domains(11, 7, false));
    chain.assign_addresses().unwrap();

    let broadcast = sequencer.build_reg_config_broadcast(&chain);
    assert!(broadcast.iter().any(|step| matches!(
        step.command,
        Command::WriteRegister { register: Register::UartRelay { .. }, .. }
    )));
    assert_eq!(
        broadcast[5].command,
        Command::WriteRegister {
            broadcast: true,
            chip_address: 0,
            register: Register::PllDivider(PllConfig::new(0xDD, 2, 0x66)),
        }
    );

    let per_chip = sequencer.build_reg_config_perchip(&chain);
    let last_chip = chain.chip(ChipId(76)).address;
    assert!(per_chip.iter().any(|step| matches!(
        step.command,
        Command::WriteRegister { broadcast: false, chip_address, .. } if chip_address == last_chip
    )));
    let delays: Vec<u64> = per_chip.iter().filter_map(|step| step.wait_after).collect();
    assert_eq!(delays, vec![500_000; 77]);
    assert!(per_chip.iter().any(|step| matches!(
        step.command,
        Command::WriteRegister {
            broadcast: true,
            register: Register::NonceRange { raw_value: 0x5A10_0000 },
            ..
        }
    )));

    let whole = sequencer.build_reg_config(&chain);
    assert!(whole.iter().any(|step| matches!(
        step.command,
        Command::WriteRegister { register: Register::PllDivider(_), .. }
    )));
    assert!(whole.iter().any(|step| matches!(
        step.command,
        Command::WriteRegister {
            register: Register::TicketMask(TicketMask::PerHashes(_)),
            ..
        }
    )));
}

#[test]
fn overrides_take_the_place_of_the_defaults() {
    let steps = || vec![Step::with_delay(Command::ChainInactive, 7)];
    let sequencer = Sequencer::new(bm1362())
        .with_domain_config(move |_chain, _config| steps())
        .with_reg_config(move |_chain, _config| steps());
    let chain = s21_pro_chain();
    assert_eq!(sequencer.build_domain_config(&chain), steps());
    assert_eq!(sequencer.build_reg_config(&chain), steps());
    assert!(sequencer.chip_config().verify_chip_id(0x1362));
}

#[test]
fn an_override_sees_the_chain_and_the_configuration() {
    let sequencer = Sequencer::new(bm1362()).with_enumeration(|chain, config| {
        let mut steps = Vec::new();
        for i in 0..chain.chip_count() {
            steps.push(Step::with_delay(
                Command::SetChipAddress { chip_address: chain.chip(ChipId(i)).address },
                config.chip_id as u64,
            ));
        }
        steps
    });
    let mut chain = Chain::from_topology(&TopologySpec::single_domain(3));
    chain.assign_addresses().unwrap();
    let steps = sequencer.build_enumeration(&chain);
    assert_eq!(steps.len(), 3);
    assert_eq!(
        steps[2],
        Step::with_delay(Command::SetChipAddress { chip_address: 4 }, 0x1362)
    );
    assert_eq!(sequencer.build_domain_config(&chain).len(), 1);
}

#[test]
fn the_closest_dividers_are_used_however_far_off() {
    // 25 MHz * 144 / (2 * 3 * 1) is 600 MHz, the closest that BM1366 comes to 601.5 MHz.
    assert_eq!(
        bm1366().calculate_pll(Frequency(601_500)),
        PllConfig::new(144, 2, 0x20)
    );
    assert_eq!(
        bm1362().calculate_pll(Frequency(601_500)),
        PllConfig::new(217, 1, 0x22)
    );
    assert_eq!(bm1366().calculate_pll(Frequency(1_000)), PllConfig::new(144, 2, 0x65));
    assert_eq!(bm1362().calculate_pll(Frequency(1_000)), PllConfig::new(160, 2, 0x66));
    assert_eq!(
        bm1366().calculate_pll(Frequency(4_000_000)),
        PllConfig::new(235, 1, 0x10)
    );
}

#[test]
fn of_equally_close_dividers_the_lowest_vco_wins() {
    assert_eq!(bm1362().calculate_pll(Frequency(100_000)), PllConfig::new(160, 2, 0x43));
    assert_eq!(bm1366().calculate_pll(Frequency(100_000)), PllConfig::new(144, 2, 0x52));
    assert_eq!(bm1362().calculate_pll(Frequency(56_250)), PllConfig::new(162, 2, 0x55));
}

#[test]
fn an_empty_range_of_feedback_dividers_has_a_stand_in() {
    let mut config = bm1366();
    config.pll_params.fbdiv_max = 0x80;
    assert_eq!(config.calculate_pll(Frequency(500_000)), PllConfig::new(0x90, 2, 0x65));
    config.pll_params.postdiv_strict = false;
    assert_eq!(config.calculate_pll(Frequency(500_000)), PllConfig::new(0x90, 2, 0x55));
}

#[test]
fn domains_do_not_matter_without_a_relay_per_domain() {
    let chain = Chain::from_topology(&TopologySpec::uniform_domains(3, 0, false));
    assert_eq!(chain.chip_count(), 0);
    let sequencer = Sequencer::new(bm1362());
    assert_eq!(sequencer.build_reg_config_broadcast(&chain).len(), 6);
    assert_eq!(sequencer.build_reg_config(&chain).len(), 8);
}
