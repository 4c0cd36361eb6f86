//! The hash thread: jobs, nonces, bring-up and ramp.

use mujina_miner::asic::bm13xx::bring_up::{
    BringUpAction, BringUpFailure, ChainPoll, Phase, PhaseEvent, PollAction, PollEvent, Sequence,
};
use mujina_miner::asic::bm13xx::chain::{Chain, ChainError};
use mujina_miner::asic::bm13xx::chip_config::{bm1362, bm1366};
use mujina_miner::asic::bm13xx::protocol::{Command, Frequency, Register, Response};
use mujina_miner::asic::bm13xx::sequencer::Sequencer;
use mujina_miner::asic::bm13xx::thread_v2::{
    configured_target_frequency, extract_job_id, judge_hash, min_viable_chip_count,
    plan_frequency_ramp, rebuild_header, task_to_job_full, voltage_for_frequency_stacked,
    BM13xxActor, ChipInput, ChipJobs, ChipState, NonceVerdict, RampAction, ResponseOutcome,
    VoltageRange,
};
use mujina_miner::asic::bm13xx::topology::TopologySpec;
use mujina_miner::asic::hash_thread::{
    HashTask, HashThreadError, HashThreadStatus, ThreadRemovalSignal,
};
use mujina_miner::job::{
    Extranonce2, Extranonce2Range, GeneralPurposeBits, JobTemplate, MerkleRootKind, MerkleRootTemplate,
};
use mujina_miner::pow::Target;
use mujina_miner::types::{Difficulty, HashRate};
use std::sync::Arc;

fn bytes(hex: &str) -> Vec<u8> {
    (0..hex.len() / 2)
        .map(|i| u8::from_str_radix(&hex[2 * i..2 * i + 2], 16).unwrap())
        .collect()
}

fn array(hex: &str) -> [u8; 32] {
    bytes(hex).try_into().unwrap()
}

const GENESIS_ROOT: &str = "3ba3edfd7a7b12b27ac72c3e67768f617fc81bc3888a51323a9fb8aa4b1e5e4a";
const GENESIS_HASH: &str = "6fe28c0ab6f1b372c1a6a246ae63f74f931e8365e15a089c68d6190000000000";
const GENESIS_NONCE: u32 = 2_083_236_893;
const GENESIS_TIME: u32 = 1_231_006_505;
const GENESIS_BITS: u32 = 0x1d00_ffff;

/// The genesis block's coinbase, with the four bytes `ff ff 00 1d` of its input
/// script as the extranonce2.
fn genesis_template() -> MerkleRootTemplate {
    MerkleRootTemplate {
        coinbase1: bytes(
            "01000000010000000000000000000000000000000000000000000000000000000000000000\
             ffffffff4d",
        ),
        extranonce1: vec![0x04],
        extranonce2_range: Extranonce2Range::new(4).unwrap(),
        coinbase2: bytes(
            "0104455468652054696d65732030332f4a616e2f32303039204368616e63656c6c6f72206f6e20\
             6272696e6b206f66207365636f6e64206261696c6f757420666f722062616e6b73ffffffff0100\
             f2052a01000000434104678afdb0fe5548271967f1a67130b7105cd6a828e03909a67962e0ea1f\
             61deb649f6bc3f4cef38c4f35504e51ec112de5c384df7ba0b8d578a4c702b6bf11d5fac000000\
             00",
        ),
        merkle_branches: vec![],
    }
}

fn genesis_task() -> HashTask {
    let template = Arc::new(JobTemplate {
        id: "genesis".into(),
        prev_blockhash: [0; 32],
        version: 1,
        bits: GENESIS_BITS,
        share_target: Target::max(),
        time: GENESIS_TIME,
        merkle_root: MerkleRootKind::Computed(genesis_template()),
    });
    HashTask {
        template,
        en2_range: Some(Extranonce2Range::new(4).unwrap()),
        en2: Extranonce2::new(0x1d00_ffff, 4),
        share_target: Target::max(),
        ntime: GENESIS_TIME,
    }
}

fn fixed_merkle_task() -> HashTask {
    let template = Arc::new(JobTemplate {
        id: "test".into(),
        prev_blockhash: [0x11; 32],
        version: 0x2000_0000,
        bits: 0x1703_4219,
        share_target: Difficulty(100).to_target(),
        time: 1_700_000_000,
        merkle_root: MerkleRootKind::Fixed([0x22; 32]),
    });
    HashTask {
        template,
        en2_range: None,
        en2: Extranonce2::new(0, 1),
        share_target: Difficulty(100).to_target(),
        ntime: 1_700_000_000,
    }
}

fn actor(chip_count: usize) -> BM13xxActor {
    BM13xxActor::new(&TopologySpec::single_domain(chip_count), bm1362()).unwrap()
}

#[test]
fn task_to_job_full_with_fixed_merkle_root() {
    let task = fixed_merkle_task();
    let result = task_to_job_full(&task, 2);

    assert!(result.is_ok());
    let job = result.unwrap();

    assert_eq!(job.job_id, 2);
    assert_eq!(job.num_midstates, 1);
    assert_eq!(job.starting_nonce, 0);
    assert_eq!(job.nbits, 0x1703_4219);
    assert_eq!(job.ntime, 1_700_000_000);
    assert_eq!(job.merkle_root, [0x22; 32]);
    assert_eq!(job.prev_block_hash, [0x11; 32]);
    assert_eq!(job.version, 0x2000_0000);
}

#[test]
fn chip_jobs_insert_and_get() {
    let task = fixed_merkle_task();
    let mut jobs = ChipJobs::new();

    let id = jobs.insert(task.duplicate());
    assert_eq!(id, 0);

    let retrieved = jobs.get(0);
    assert!(retrieved.is_some());
}

#[test]
fn chip_jobs_wraps_at_sixteen() {
    let task = fixed_merkle_task();
    let mut jobs = ChipJobs::new();

    for expected_id in 0..16 {
        let id = jobs.insert(task.duplicate());
        assert_eq!(id, expected_id);
    }

    let id = jobs.insert(task.duplicate());
    assert_eq!(id, 0);
    assert!(jobs.get(16).is_none());
}

#[test]
fn a_computed_root_needs_an_extranonce2() {
    let mut task = genesis_task();
    task.en2 = None;
    match task_to_job_full(&task, 0) {
        Err(HashThreadError::WorkAssignmentFailed(why)) => {
            assert_eq!(why, "EN2 required for computed merkle root")
        }
        other => panic!("unexpected: {other:?}"),
    }
    let mut thread = actor(1);
    assert!(thread.send_job(&task).is_err());
    match thread.handle_chip_response(ChipInput::Response(Response::Nonce {
        nonce: 1,
        job_id: 0,
        version: 0,
        midstate_num: 0,
        subcore_id: 0,
    })) {
        ResponseOutcome::Nonce(NonceVerdict::NoMerkleRoot) => {}
        other => panic!("unexpected: {other:?}"),
    }
}

#[test]
fn the_genesis_nonce_is_a_share() {
    let mut thread = actor(1);
    let task = genesis_task();
    match thread.send_job(&task) {
        Ok(Command::JobFull { job_data }) => {
            assert_eq!(job_data.job_id, 0);
            assert_eq!(job_data.merkle_root, array(GENESIS_ROOT));
        }
        other => panic!("unexpected: {other:?}"),
    }
    let outcome = thread.handle_chip_response(ChipInput::Response(Response::Nonce {
        nonce: GENESIS_NONCE,
        job_id: 0,
        version: 0,
        midstate_num: 0,
        subcore_id: 0,
    }));
    match outcome {
        ResponseOutcome::Nonce(NonceVerdict::Valid(share)) => {
            assert_eq!(share.hash, array(GENESIS_HASH));
            assert_eq!(share.nonce, GENESIS_NONCE);
            assert_eq!(share.version, 1);
            assert_eq!(share.ntime, GENESIS_TIME);
            assert_eq!(share.expected_work.lo, 4_295_032_833);
            assert_eq!(share.expected_work.hi, 0);
            let submitted = share.for_job("genesis".into());
            assert_eq!(submitted.job_id, "genesis");
            assert_eq!(submitted.extranonce2, Extranonce2::new(0x1d00_ffff, 4));
        }
        other => panic!("unexpected: {other:?}"),
    }
}

#[test]
fn another_nonce_is_below_the_target() {
    let mut thread = actor(1);
    thread.send_job(&genesis_task()).unwrap();
    let wrong = thread.handle_chip_response(ChipInput::Response(Response::Nonce {
        nonce: GENESIS_NONCE + 1,
        job_id: 0,
        version: 0,
        midstate_num: 0,
        subcore_id: 0,
    }));
    assert!(matches!(wrong, ResponseOutcome::Nonce(NonceVerdict::BelowTarget { .. })));
    // Job 1 has not been sent: its number stands in bits 6 to 3 of the header.
    let unknown = thread.handle_chip_response(ChipInput::Response(Response::Nonce {
        nonce: GENESIS_NONCE,
        job_id: 0,
        version: 0,
        midstate_num: 0,
        subcore_id: 8,
    }));
    assert!(matches!(unknown, ResponseOutcome::Nonce(NonceVerdict::UnknownJob)));
}

#[test]
fn a_hash_is_judged_against_the_task() {
    let task = genesis_task();
    let root = task.resolve_merkle_root().unwrap();
    assert_eq!(root, array(GENESIS_ROOT));
    let header = rebuild_header(&task, root, GENESIS_NONCE, 1);
    assert_eq!(header.block_hash(), array(GENESIS_HASH));
    let verdict = judge_hash(&task, GENESIS_NONCE, 1, array(GENESIS_HASH));
    assert!(matches!(verdict, NonceVerdict::Valid(_)));
    let worst = judge_hash(&task, GENESIS_NONCE, 1, [0xFF; 32]);
    assert!(matches!(worst, NonceVerdict::BelowTarget { hash } if hash == [0xFF; 32]));
}

#[test]
fn the_coinbase_is_assembled_in_order() {
    let template = genesis_template();
    let en2 = Extranonce2::new(0x1d00_ffff, 4).unwrap();
    let coinbase = template.assemble_coinbase(&en2);
    assert_eq!(coinbase.len(), 204);
    assert_eq!(&coinbase[41..47], &[0x4d, 0x04, 0xff, 0xff, 0x00, 0x1d]);
    assert_eq!(template.compute_merkle_root(&en2), array(GENESIS_ROOT));
}

#[test]
fn branches_are_hashed_upwards() {
    let mut template = genesis_template();
    template.merkle_branches = vec![[7; 32]];
    let en2 = Extranonce2::new(0x1d00_ffff, 4).unwrap();
    assert_eq!(
        template.compute_merkle_root(&en2),
        array("785526107e883893b51c104d5475b2079f19f45aa8724d2d667a8c9e251176f6")
    );
}

#[test]
fn job_numbers_are_read_back() {
    for id in 0..16u8 {
        let header = (id << 3) | 0b101;
        assert_eq!(extract_job_id(header >> 4, header & 0x0F), id);
    }
}

#[test]
fn work_makes_a_thread_active_until_it_idles() {
    let mut thread = actor(2);
    assert!(thread.needs_initialization());
    thread.complete_initialization();
    assert_eq!(thread.chip_state, ChipState::Initialized);
    assert!(!thread.needs_initialization());

    let (before, status) = thread.complete_assignment(fixed_merkle_task());
    assert!(before.is_none());
    assert!(status.is_active);
    assert_eq!(status.hashrate, HashRate(166_000_000_000));

    let status = thread.complete_share();
    assert_eq!(status.chip_shares_found, 1);

    let sent = thread.roll_ntime();
    assert!(matches!(sent, Some(Ok(Command::JobFull { job_data })) if job_data.ntime == 1_700_000_001));

    let (before, status) = thread.complete_go_idle();
    assert_eq!(before.unwrap().ntime, 1_700_000_001);
    assert!(!status.is_active);
    assert_eq!(status.hashrate, HashRate(0));
    assert!(thread.roll_ntime().is_none());

    let published = thread.complete_disable(true);
    assert_eq!(published.len(), 2);
    assert_eq!(published[0].hardware_errors, 1);
    assert_eq!(published[1].hardware_errors, 1);
    assert_eq!(published[1].hashrate, HashRate(0));
    assert!(thread.needs_initialization());
    // Chips that are off are left alone.
    assert!(thread.complete_disable(true).is_empty());
    assert_eq!(thread.status.hardware_errors, 1);
}

#[test]
fn stream_errors_are_counted() {
    let mut thread = actor(1);
    match thread.handle_chip_response(ChipInput::StreamError) {
        ResponseOutcome::HardwareError(status) => assert_eq!(status.hardware_errors, 1),
        other => panic!("unexpected: {other:?}"),
    }
    let read = thread.handle_chip_response(ChipInput::Response(Response::ReadRegister {
        chip_address: 0,
        register: Register::NonceRange { raw_value: 0 },
    }));
    assert!(matches!(read, ResponseOutcome::RegisterRead));
}

#[test]
fn a_chain_that_is_too_long_is_refused() {
    let refused = BM13xxActor::new(&TopologySpec::single_domain(129), bm1362());
    match refused {
        Err(error) => assert_eq!(
            error.message(),
            "Chip initialization failed: Address assignment failed: 129 chips do not fit in the \
             address space"
        ),
        Ok(_) => panic!("129 chips were accepted"),
    }
    let mut chain = Chain::from_topology(&TopologySpec::single_domain(200));
    assert_eq!(
        chain.assign_addresses(),
        Err(ChainError::TooManyChips { chip_count: 200 })
    );
}

#[test]
fn a_chain_comes_up_phase_by_phase() {
    let expected = 12;
    let mut phase = Phase::Enable;
    assert_eq!(phase.action(), BringUpAction::EnableChips);
    phase = phase.advance(PhaseEvent::Finished, expected, false);
    assert!(matches!(phase.action(), BringUpAction::WaitAndDrain { .. }));
    phase = phase.advance(PhaseEvent::Finished, expected, false);
    assert_eq!(phase.action(), BringUpAction::Run(Sequence::Enumeration));
    phase = phase.advance(PhaseEvent::Finished, expected, false);
    assert_eq!(phase.action(), BringUpAction::VerifyChain);
    phase = phase.advance(PhaseEvent::Verified { responding: 12 }, expected, false);
    assert_eq!(phase.action(), BringUpAction::Run(Sequence::BroadcastConfig));
    phase = phase.advance(PhaseEvent::Finished, expected, false);
    assert_eq!(phase.action(), BringUpAction::Run(Sequence::PerChipConfig));
    phase = phase.advance(PhaseEvent::Finished, expected, false);
    assert_eq!(phase.action(), BringUpAction::RampFrequency);
    phase = phase.advance(PhaseEvent::Finished, expected, false);
    assert!(matches!(phase, Phase::Done { responding: 12 }));
    assert_eq!(phase.action(), BringUpAction::Stop);
}

#[test]
fn domain_boundaries_are_configured_where_the_layout_asks_for_it() {
    let topology = TopologySpec::uniform_domains(2, 3, true);
    let actor = BM13xxActor::new(&topology, bm1362()).unwrap();
    assert!(actor.domain_config);

    let phase = Phase::Verify { attempt: 1 };
    let phase = phase.advance(PhaseEvent::Verified { responding: 6 }, 6, actor.domain_config);
    assert!(matches!(phase, Phase::Domain { responding: 6 }));
    assert_eq!(phase.action(), BringUpAction::Run(Sequence::DomainConfig));
    assert_eq!(actor.sequencer.build_domain_config(&actor.chain).len(), 2);
    let phase = phase.advance(PhaseEvent::Finished, 6, actor.domain_config);
    assert!(matches!(phase, Phase::Broadcast { responding: 6 }));

    let failed = Phase::Domain { responding: 6 }.advance(
        PhaseEvent::Failed("broken pipe".into()),
        6,
        true,
    );
    match failed {
        Phase::Failed(failure) => assert_eq!(
            failure.into_error().message(),
            "Chip initialization failed: Failed to send domain config command: broken pipe"
        ),
        other => panic!("unexpected: {other:?}"),
    }
}

/// A thread that has sent three tasks.
fn busy_actor() -> BM13xxActor {
    let mut actor = actor(1);
    actor.complete_initialization();
    for _ in 0..3 {
        actor.send_job(&genesis_task()).unwrap();
        actor.complete_assignment(genesis_task());
    }
    actor
}

#[test]
fn a_replacement_forgets_earlier_tasks() {
    let mut actor = busy_actor();
    actor.send_job(&fixed_merkle_task()).unwrap();
    let (old, status) = actor.complete_replacement(fixed_merkle_task());
    assert_eq!(old.unwrap().ntime, genesis_task().ntime);
    assert!(status.is_active);
    for id in 0..16 {
        assert_eq!(actor.chip_jobs.get(id).is_some(), id == 3);
    }
    assert_eq!(actor.chip_jobs.get(3).unwrap().ntime, 1_700_000_000);
    // Job 0 comes back as job number 0.
    assert!(matches!(
        actor.judge_nonce(GENESIS_NONCE, 0, GeneralPurposeBits(0), 0),
        NonceVerdict::UnknownJob
    ));
}

#[test]
fn an_update_keeps_earlier_tasks() {
    let mut actor = busy_actor();
    actor.send_job(&fixed_merkle_task()).unwrap();
    actor.complete_assignment(fixed_merkle_task());
    for id in 0..16 {
        assert_eq!(actor.chip_jobs.get(id).is_some(), id < 4);
    }
}

#[test]
fn a_thread_that_was_shut_down_takes_no_work() {
    let mut actor = busy_actor();
    assert!(actor.accept_work().is_ok());
    actor.complete_disable(false);
    let (old, status) = actor.complete_shutdown();
    assert!(old.is_some());
    assert!(!status.is_active);

    assert!(matches!(actor.accept_work(), Err(HashThreadError::ThreadOffline)));
    assert!(matches!(
        actor.send_job(&genesis_task()),
        Err(HashThreadError::ThreadOffline)
    ));
    assert_eq!(actor.chip_jobs.next_id, 3);
    assert!(actor.complete_assignment(genesis_task()).0.is_none());
    assert!(actor.complete_replacement(genesis_task()).0.is_none());
    assert!(actor.current_task.is_none());
    assert_eq!(actor.complete_initialization(), status);
    assert!(actor.needs_initialization());
    assert!(actor.roll_ntime().is_none());
}

fn verified(responding: usize, expected: usize) -> Phase {
    let mut phase = Phase::Verify { attempt: 1 };
    loop {
        phase = match phase {
            Phase::Verify { .. } => {
                phase.advance(PhaseEvent::Verified { responding }, expected, false)
            }
            Phase::RetryWait { .. } => phase.advance(PhaseEvent::Finished, expected, false),
            settled => return settled,
        };
    }
}

#[test]
fn a_few_missing_chips_are_tolerated() {
    let minimum = min_viable_chip_count(12);
    assert!(matches!(
        verified(minimum, 12),
        Phase::Broadcast { responding } if responding == minimum
    ));
    match verified(minimum - 1, 12) {
        Phase::Failed(failure) => match failure.into_error() {
            HashThreadError::InitializationFailed(why) => {
                assert!(why.contains("Too few"));
                assert_eq!(
                    why,
                    "Too few chips responding: expected 12, found 5 (minimum 6)"
                );
            }
            other => panic!("unexpected: {other:?}"),
        },
        other => panic!("unexpected: {other:?}"),
    }
}

#[test]
fn bring_up_failures_say_why() {
    let failed = Phase::Enable.advance(PhaseEvent::Failed("GPIO fault".into()), 1, false);
    match failed {
        Phase::Failed(failure) => assert_eq!(
            failure.into_error().message(),
            "Chip initialization failed: Failed to enable chips: GPIO fault"
        ),
        other => panic!("unexpected: {other:?}"),
    }
    let failed = Phase::Enumerate.advance(PhaseEvent::Failed("broken pipe".into()), 1, false);
    match failed {
        Phase::Failed(BringUpFailure::Send(sequence, why)) => {
            assert_eq!(sequence.name(), "enumeration");
            assert_eq!(why, "broken pipe");
        }
        other => panic!("unexpected: {other:?}"),
    }
}

#[test]
fn a_poll_counts_the_chips_that_answer() {
    let mut chain = Chain::from_topology(&TopologySpec::single_domain(3));
    chain.assign_addresses().unwrap();
    let mut poll = ChainPoll::new(&chain);
    assert!(matches!(
        poll.ask(),
        PollAction::Query(Command::ReadRegister { chip_address: 0, .. })
    ));
    let chip = |address: u8| {
        PollEvent::Response(Response::ReadRegister {
            chip_address: address,
            register: Register::ChipId { chip_id: 0x1362, core_count: 0x40, address },
        })
    };
    assert!(matches!(
        poll.on_event(chip(0)),
        PollAction::Query(Command::ReadRegister { chip_address: 2, .. })
    ));
    // Anything else is waited out.
    assert_eq!(
        poll.on_event(PollEvent::Response(Response::Nonce {
            nonce: 0,
            job_id: 0,
            version: 0,
            midstate_num: 0,
            subcore_id: 0,
        })),
        PollAction::KeepWaiting
    );
    assert_eq!(poll.on_event(PollEvent::StreamError), PollAction::KeepWaiting);
    assert!(matches!(
        poll.on_event(PollEvent::TimedOut),
        PollAction::Query(Command::ReadRegister { chip_address: 4, .. })
    ));
    assert_eq!(poll.on_event(chip(4)), PollAction::Finished { responding: 2 });
}

#[test]
fn the_voltage_follows_the_frequency() {
    assert_eq!(voltage_for_frequency_stacked(Frequency(56_250), 12, u32::MAX), 3_075_000);
    assert_eq!(voltage_for_frequency_stacked(Frequency(500_000), 42, u32::MAX), 12_600_000);
    assert_eq!(voltage_for_frequency_stacked(Frequency(500_000), 42, 12_000_000), 12_000_000);
}

#[test]
fn a_ramp_raises_the_voltage_first() {
    let steps = Sequencer::new(bm1362()).build_frequency_ramp(Frequency(62_500));
    assert_eq!(steps.len(), 2);
    let range = VoltageRange { min: 12_000_000, max: 15_000_000 };
    let actions = plan_frequency_ramp(&steps, 42, Some(range));
    assert_eq!(actions.len(), 8);
    assert_eq!(actions[0], RampAction::SetVoltage { microvolts: 12_000_000 });
    assert!(matches!(actions[1], RampAction::Wait { .. }));
    assert_eq!(actions[2], RampAction::Send { command: steps[0].1.command });
    assert_eq!(actions[3], RampAction::Wait { micros: 10_000 });
    assert_eq!(plan_frequency_ramp(&steps, 42, None).len(), 4);
    assert_eq!(
        actions[0].failure("no answer").as_deref(),
        Some("Failed to set voltage to 12.00V: no answer")
    );
    assert_eq!(
        actions[2].failure("closed").as_deref(),
        Some("Failed to send frequency ramp command: closed")
    );
    assert_eq!(actions[3].failure("never"), None);
}

#[test]
fn the_target_frequency_is_the_operators_or_the_chips() {
    assert_eq!(
        configured_target_frequency(Some(Frequency(300_000)), &bm1366()),
        Frequency(300_000)
    );
    assert_eq!(configured_target_frequency(None, &bm1362()), Frequency(500_000));
}

#[test]
fn statuses_and_signals() {
    let status = HashThreadStatus::default();
    assert!(!status.is_active);
    assert_eq!(status.hashrate, HashRate(0));
    assert!(!ThreadRemovalSignal::Running.stops_thread());
    assert!(ThreadRemovalSignal::Shutdown.stops_thread());
    assert!(ThreadRemovalSignal::HardwareFault { description: "hot".into() }.stops_thread());
    assert_eq!(HashThreadError::ShutdownTimeout.message(), "Shutdown timeout");
}

fn chip_id_response(address: u8) -> PollEvent {
    PollEvent::Response(Response::ReadRegister {
        chip_address: address,
        register: Register::ChipId { chip_id: 0x1362, core_count: 0x40, address },
    })
}

/// Polls a chain whose chips answer with these responses, and then stay silent.
fn verify_chain(chain: &Chain, responses: &mut Vec<PollEvent>) -> usize {
    let mut poll = ChainPoll::new(chain);
    let mut action = poll.ask();
    loop {
        if let PollAction::Finished { responding } = action {
            return responding;
        }
        let event = if responses.is_empty() { PollEvent::TimedOut } else { responses.remove(0) };
        action = poll.on_event(event);
    }
}

/// Brings a chain up whose chips answer with these responses to every poll.
fn initialize_chips(
    actor: &mut BM13xxActor,
    enabled: Result<(), &str>,
    sent: Result<(), &str>,
    responses: &Vec<PollEvent>,
) -> Result<(), HashThreadError> {
    let finished = |outcome: Result<(), &str>| match outcome {
        Ok(()) => PhaseEvent::Finished,
        Err(why) => PhaseEvent::Failed(why.into()),
    };
    let expected = actor.chain.chip_count();
    let mut phase = Phase::Enable;
    loop {
        let event = match phase.action() {
            BringUpAction::EnableChips => finished(enabled),
            BringUpAction::Run(_) => finished(sent),
            BringUpAction::VerifyChain => PhaseEvent::Verified {
                responding: verify_chain(&actor.chain, &mut responses.clone()),
            },
            BringUpAction::Stop => break,
            _ => PhaseEvent::Finished,
        };
        phase = phase.advance(event, expected, actor.domain_config);
    }
    match phase {
        Phase::Failed(failure) => Err(failure.into_error()),
        _ => {
            actor.complete_initialization();
            Ok(())
        }
    }
}

#[test]
fn initialize_single_chip_succeeds() {
    let responses = vec![chip_id_response(0x00)];
    let mut actor = actor(1);

    let result = initialize_chips(&mut actor, Ok(()), Ok(()), &responses);

    assert!(result.is_ok());
    assert!(matches!(actor.chip_state, ChipState::Initialized));
}

#[test]
fn initialize_12_chips_succeeds() {
    let responses: Vec<_> = (0..12).map(|i| chip_id_response(i * 2)).collect();
    let mut actor = actor(12);

    let result = initialize_chips(&mut actor, Ok(()), Ok(()), &responses);

    assert!(result.is_ok());
    assert!(matches!(actor.chip_state, ChipState::Initialized));
}

#[test]
fn initialize_continues_with_minor_chip_mismatch() {
    let expected = 12;
    let responding = min_viable_chip_count(expected);
    let responses: Vec<_> = (0..responding).map(|i| chip_id_response((i * 2) as u8)).collect();
    let mut actor = actor(expected);

    let result = initialize_chips(&mut actor, Ok(()), Ok(()), &responses);
    assert!(result.is_ok());
    assert!(matches!(actor.chip_state, ChipState::Initialized));
}

#[test]
fn initialize_fails_on_pathologically_low_chip_count() {
    let expected = 12;
    let responding = min_viable_chip_count(expected) - 1;
    let responses: Vec<_> = (0..responding).map(|i| chip_id_response((i * 2) as u8)).collect();
    let mut actor = actor(expected);

    let result = initialize_chips(&mut actor, Ok(()), Ok(()), &responses);

    assert!(result.is_err());
    let err = result.unwrap_err();
    assert!(
        matches!(&err, HashThreadError::InitializationFailed(msg) if msg.contains("Too few")),
        "Expected 'too few chips' error, got: {:?}",
        err
    );
}

#[test]
fn initialize_enable_failure_propagates() {
    let mut actor = actor(1);

    let result = initialize_chips(&mut actor, Err("GPIO fault"), Ok(()), &vec![]);

    assert!(result.is_err());
    let err = result.unwrap_err();
    assert!(
        matches!(&err, HashThreadError::InitializationFailed(msg) if msg.contains("enable")),
        "Expected enable error, got: {:?}",
        err
    );
}

#[test]
fn initialize_sink_failure_propagates() {
    let mut actor = actor(1);

    let result = initialize_chips(&mut actor, Ok(()), Err("simulated send failure"), &vec![]);

    assert!(result.is_err());
    let err = result.unwrap_err();
    assert!(
        matches!(&err, HashThreadError::InitializationFailed(msg) if msg.contains("send")),
        "Expected send error, got: {:?}",
        err
    );
}

#[test]
fn enumeration_sends_version_mask_chain_inactive_and_addresses() {
    let actor = actor(3);
    let cmds: Vec<Command> =
        actor.sequencer.build_enumeration(&actor.chain).iter().map(|step| step.command).collect();

    assert_eq!(cmds.len(), 9);
    for cmd in &cmds[0..3] {
        assert!(
            matches!(cmd, Command::WriteRegister { register: Register::VersionMask { .. }, .. }),
            "Expected VersionMask, got {:?}",
            cmd
        );
    }
    assert!(
        matches!(cmds[3], Command::WriteRegister { register: Register::InitControl { .. }, .. }),
        "Expected InitControl, got {:?}",
        cmds[3]
    );
    assert!(
        matches!(cmds[4], Command::WriteRegister { register: Register::MiscControl { .. }, .. }),
        "Expected MiscControl, got {:?}",
        cmds[4]
    );
    assert!(matches!(cmds[5], Command::ChainInactive));
    for cmd in &cmds[6..] {
        assert!(
            matches!(cmd, Command::SetChipAddress { .. }),
            "Expected SetChipAddress, got {:?}",
            cmd
        );
    }
}

#[test]
fn verify_chain_counts_chip_id_responses() {
    let mut responses: Vec<_> = (0..5).map(|i| chip_id_response(i * 2)).collect();
    assert_eq!(verify_chain(&actor(5).chain, &mut responses), 5);
}

#[test]
fn verify_chain_ignores_other_responses() {
    let mut responses = vec![
        chip_id_response(0x00),
        PollEvent::Response(Response::ReadRegister {
            chip_address: 0x02,
            register: Register::VersionMask { rollable: 0xFFFF },
        }),
        chip_id_response(0x04),
    ];
    assert_eq!(verify_chain(&actor(2).chain, &mut responses), 2);
}

#[test]
fn verify_chain_handles_stream_errors() {
    let mut responses =
        vec![chip_id_response(0x00), PollEvent::StreamError, chip_id_response(0x02)];
    assert_eq!(verify_chain(&actor(2).chain, &mut responses), 2);
}

#[test]
fn handle_go_idle_disables_and_clears_task() {
    let mut actor = actor(1);
    actor.complete_initialization();
    actor.status.is_active = true;

    actor.complete_disable(false);
    let (old, status) = actor.complete_go_idle();

    assert!(old.is_none());
    assert!(matches!(actor.chip_state, ChipState::Disabled));
    assert!(!status.is_active);
}

#[test]
fn go_idle_on_idle_thread_returns_none() {
    let (old, _) = actor(1).complete_go_idle();
    assert!(old.is_none());
}

#[test]
fn disable_chips_noop_when_already_disabled() {
    let mut actor = actor(1);
    assert!(actor.complete_disable(false).is_empty());
    assert!(matches!(actor.chip_state, ChipState::Disabled));
}
