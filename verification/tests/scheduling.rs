//! The scheduler.

use mujina_miner::alarm::{AlarmStatus, DebouncedAlarm};
use mujina_miner::api::commands::SchedulerCommand;
use mujina_miner::asic::hash_thread::Share;
use mujina_miner::job::{
    Extranonce2, Extranonce2Range, JobTemplate, MerkleRootKind, MerkleRootTemplate,
};
use mujina_miner::pow::{Target, Work};
use mujina_miner::scheduler::{
    format_duration, guard_thread_op, is_difficulty_too_high, AssignMode, AssignOutcome,
    OpOutcome, Scheduler, ShareOutcome, Submission, TaskFilter, ThreadAction, Ticker,
    COLD_INIT_MICROVOLTS, FLOOD_CAP_INTERVAL_MS, HIGH_DIFFICULTY_DEBOUNCE_MS,
    MEASUREMENT_INTERVAL_MS,
};
use mujina_miner::types::{target_for_share_rate, Difficulty, HashRate, ShareRate};
use std::sync::Arc;

const MEASUREMENT_SHARE_RATE: ShareRate = ShareRate { interval_ms: MEASUREMENT_INTERVAL_MS };
const FLOOD_CAP_RATE: ShareRate = ShareRate { interval_ms: FLOOD_CAP_INTERVAL_MS };

fn job(id: &str, difficulty: u64) -> JobTemplate {
    JobTemplate {
        id: id.into(),
        prev_blockhash: [1; 32],
        version: 0x2000_0000,
        bits: 0x1d00_ffff,
        share_target: Difficulty(difficulty).to_target(),
        time: 1_700_000_000,
        merkle_root: MerkleRootKind::Computed(MerkleRootTemplate {
            coinbase1: vec![1],
            extranonce1: vec![2],
            extranonce2_range: Extranonce2Range::new(2).unwrap(),
            coinbase2: vec![3],
            merkle_branches: vec![],
        }),
    }
}

fn share(hash: [u8; 32]) -> Share {
    Share {
        nonce: 5,
        hash,
        version: 0x2000_0000,
        ntime: 1_700_000_007,
        extranonce2: Extranonce2::new(9, 2),
        expected_work: Work { hi: 0, lo: 1 },
    }
}

#[test]
fn scheduler_target_zero_hashrate_passthrough() {
    let source_target = Difficulty(1024).to_target();
    let result = Scheduler::compute_scheduler_target(HashRate(0), source_target);
    assert_eq!(result, source_target);
}

#[test]
fn scheduler_target_passthrough_when_in_range() {
    let hashrate = HashRate::from_terahashes(1);
    let source_target = Difficulty(100).to_target();
    let result = Scheduler::compute_scheduler_target(hashrate, source_target);
    assert_eq!(result, source_target);
}

#[test]
fn scheduler_target_clamps_hard_source_to_easier() {
    let hashrate = HashRate::from_terahashes(1);
    let very_hard = Difficulty(1_000_000).to_target();
    let result = Scheduler::compute_scheduler_target(hashrate, very_hard);

    let hardest = target_for_share_rate(MEASUREMENT_SHARE_RATE, hashrate);
    assert_eq!(result, hardest, "should clamp to measurement floor");
    assert!(result > very_hard, "clamped target should be easier");
}

#[test]
fn scheduler_target_clamps_easy_source_to_harder() {
    let hashrate = HashRate::from_terahashes(1);
    let very_easy = Target::max();
    let result = Scheduler::compute_scheduler_target(hashrate, very_easy);

    let easiest = target_for_share_rate(FLOOD_CAP_RATE, hashrate);
    assert_eq!(result, easiest, "should clamp to flood ceiling");
    assert!(result < very_easy, "clamped target should be harder");
}

#[test]
fn scheduler_target_clamp_ordering_invariant() {
    for hashrate in [
        HashRate::from_megahashes(5),
        HashRate::from_gigahashes(500),
        HashRate::from_terahashes(1),
        HashRate::from_terahashes(100),
    ] {
        let hardest = target_for_share_rate(MEASUREMENT_SHARE_RATE, hashrate);
        let easiest = target_for_share_rate(FLOOD_CAP_RATE, hashrate);
        assert!(
            hardest <= easiest,
            "clamp invariant violated at {hashrate:?}: \
             hardest={hardest:?} easiest={easiest:?}"
        );
    }
}

#[test]
fn jobs_wait_for_threads() {
    let mut scheduler = Scheduler::new();
    let (source, rate) = scheduler.register_source("pool".into(), Some("tcp://pool".into()));
    assert_eq!(rate, HashRate(0));
    let assignment = scheduler.assign_job_to_threads(AssignMode::Update, source, job("a", 100));
    assert!(assignment.reset_alarm);
    assert!(matches!(assignment.outcome, AssignOutcome::NoThreads));

    let arrival = scheduler.handle_new_thread("t0".into(), HashRate(1_000_000_000_000), 1);
    assert_eq!(arrival.hashrate, HashRate(1_000_000_000_000));
    assert_eq!(arrival.tasks.len(), 1);
    assert_eq!(arrival.tasks[0].source_id, source);
    assert_eq!(arrival.tasks[0].task.template.id, "a");
    assert_eq!(arrival.tasks[0].task.en2_range, Extranonce2Range::new(2));
    assert_eq!(arrival.tasks[0].task.en2, Extranonce2::new(0, 2));
    assert_eq!(arrival.tasks[0].task.share_target, Difficulty(100).to_target());
    assert_eq!(scheduler.thread_ids(), vec![arrival.thread_id]);
    assert_eq!(scheduler.thread(arrival.thread_id).unwrap().name, "t0");
    assert_eq!(scheduler.source(source).unwrap().name, "pool");
    assert!(scheduler.source(0).is_none());
}

#[test]
fn each_thread_gets_its_slice() {
    let mut scheduler = Scheduler::new();
    let (source, _) = scheduler.register_source("pool".into(), None);
    let first = scheduler.handle_new_thread("t0".into(), HashRate(1_000_000_000_000), 1);
    let second = scheduler.handle_new_thread("t1".into(), HashRate(2_000_000_000_000), 2);
    let assignment = scheduler.assign_job_to_threads(AssignMode::Update, source, job("a", 1));
    match assignment.outcome {
        AssignOutcome::Dispatch { too_high, removed, tasks } => {
            assert_eq!(too_high, Some(false));
            assert!(removed.is_empty());
            assert_eq!(tasks.len(), 2);
            assert_eq!(tasks[0].thread_id, first.thread_id);
            assert_eq!(tasks[1].thread_id, second.thread_id);
            let a = tasks[0].task.en2_range.unwrap();
            let b = tasks[1].task.en2_range.unwrap();
            assert_eq!((a.min, a.max, b.min, b.max), (0, 0x7FFF, 0x8000, 0xFFFF));
            // The faster thread gets the harder target.
            assert!(tasks[1].task.share_target < tasks[0].task.share_target);
        }
        other => panic!("unexpected: {other:?}"),
    }
}

#[test]
fn a_replacing_job_drops_the_sources_tasks() {
    let mut scheduler = Scheduler::new();
    let (source, _) = scheduler.register_source("pool".into(), None);
    let (other, _) = scheduler.register_source("other".into(), None);
    let thread = scheduler.handle_new_thread("t0".into(), HashRate(1_000), 1).thread_id;
    let template = Arc::new(job("a", 1));
    let mine = scheduler.record_task(source, thread, Arc::clone(&template));
    let theirs = scheduler.record_task(other, thread, Arc::clone(&template));
    assert_eq!(scheduler.task_ids(), vec![mine, theirs]);

    let assignment = scheduler.assign_job_to_threads(AssignMode::Replace, source, job("b", 1));
    match assignment.outcome {
        AssignOutcome::Dispatch { removed, .. } => assert_eq!(removed, vec![mine]),
        other => panic!("unexpected: {other:?}"),
    }
    assert_eq!(scheduler.task_ids(), vec![theirs]);
    assert!(scheduler.task(mine).is_none());

    assert_eq!(scheduler.handle_clear_jobs(other), vec![theirs]);
    assert!(scheduler.task_ids().is_empty());
}

#[test]
fn a_freed_slot_gets_a_new_handle() {
    let mut scheduler = Scheduler::new();
    let (source, _) = scheduler.register_source("pool".into(), None);
    let thread = scheduler.handle_new_thread("t0".into(), HashRate(1), 1).thread_id;
    let template = Arc::new(job("a", 1));
    let first = scheduler.record_task(source, thread, Arc::clone(&template));
    scheduler.remove_tasks_where(&TaskFilter::OfSource(source));
    let second = scheduler.record_task(source, thread, template);
    assert_ne!(first, second);
    assert!(scheduler.task(first).is_none());
    assert_eq!(scheduler.task(second).unwrap().thread_id, thread);
}

#[test]
fn header_only_jobs_are_not_handed_out() {
    let mut scheduler = Scheduler::new();
    let (source, _) = scheduler.register_source("pool".into(), None);
    scheduler.handle_new_thread("t0".into(), HashRate(1), 1);
    let mut fixed = job("a", 1);
    fixed.merkle_root = MerkleRootKind::Fixed([0; 32]);
    let assignment = scheduler.assign_job_to_threads(AssignMode::Update, source, fixed);
    assert!(!assignment.reset_alarm);
    assert!(matches!(assignment.outcome, AssignOutcome::HeaderOnly));
    assert!(scheduler.source(source).unwrap().last_job.is_none());
}

#[test]
fn shares_go_to_the_source_whose_target_they_meet() {
    let mut scheduler = Scheduler::new();
    let (source, _) = scheduler.register_source("pool".into(), None);
    let thread = scheduler.handle_new_thread("t0".into(), HashRate(1_000), 1).thread_id;
    let task = scheduler.record_task(source, thread, Arc::new(job("a", 1)));

    let mut good = [0u8; 32];
    good[0] = 1;
    match scheduler.handle_share(task, &share(good)) {
        ShareOutcome::Counted {
            thread_id,
            submission: Submission::ToSource { source_id, share },
        } => {
            assert_eq!(thread_id, thread);
            assert_eq!(source_id, source);
            assert_eq!(share.job_id, "a");
            assert_eq!(share.nonce, 5);
            assert_eq!(share.time, 1_700_000_007);
            assert_eq!(share.version, 0x2000_0000);
        }
        other => panic!("unexpected: {other:?}"),
    }
    match scheduler.handle_share(task, &share([0xFF; 32])) {
        ShareOutcome::Counted { submission: Submission::BelowTarget, .. } => {}
        other => panic!("unexpected: {other:?}"),
    }
    assert!(matches!(scheduler.handle_share(task + 2, &share(good)), ShareOutcome::UnknownTask));

    let state = scheduler.compute_miner_state(77);
    assert_eq!(state.uptime_secs, 77);
    assert_eq!(state.shares_submitted, 1);
    assert_eq!(state.best_difficulty, Some(u64::MAX));
    assert_eq!(state.sources.len(), 1);
    assert_eq!(state.sources[0].name, "pool");

    let orphan = scheduler.record_task(12345, thread, Arc::new(job("b", 1)));
    assert!(matches!(
        scheduler.handle_share(orphan, &share(good)),
        ShareOutcome::Counted {
            submission: Submission::UnknownSource { source_id: 12345 },
            ..
        }
    ));
}

#[test]
fn pausing_stops_everything_and_resuming_hands_jobs_out_again() {
    let mut scheduler = Scheduler::new();
    let (source, _) = scheduler.register_source("pool".into(), None);
    let thread = scheduler.handle_new_thread("t0".into(), HashRate(1_000), 1).thread_id;
    scheduler.assign_job_to_threads(AssignMode::Update, source, job("a", 1));
    let task = scheduler.record_task(source, thread, Arc::new(job("a", 1)));
    scheduler.observe_rate(thread, HashRate(900), Some(HashRate(900)));
    assert_eq!(scheduler.measured_hashrate(), HashRate(900));
    assert_eq!(scheduler.operational_hashrate(), HashRate(900));

    let plan = scheduler.handle_api_command(SchedulerCommand::PauseMining);
    assert_eq!(plan.ops.len(), 1);
    assert_eq!(plan.ops[0].action, ThreadAction::SetPaused(true));
    assert!(scheduler.is_paused());
    assert_eq!(scheduler.measured_hashrate(), HashRate(0));
    assert_eq!(scheduler.operational_hashrate(), HashRate(1_000));
    assert_eq!(plan.reply(Some("ignored".into())), Ok(()));

    assert!(matches!(scheduler.handle_share(task, &share([0; 32])), ShareOutcome::Paused));
    let paused = scheduler.assign_job_to_threads(AssignMode::Update, source, job("b", 1));
    assert!(matches!(paused.outcome, AssignOutcome::Paused));
    assert!(!paused.reset_alarm);
    assert!(scheduler.handle_api_command(SchedulerCommand::PauseMining).ops.is_empty());

    let plan = scheduler.handle_api_command(SchedulerCommand::ResumeMining);
    assert_eq!(plan.ops[0].action, ThreadAction::SetPaused(false));
    assert_eq!(plan.redispatch.len(), 1);
    assert_eq!(plan.redispatch[0].template.id, "b");
    assert!(scheduler.handle_api_command(SchedulerCommand::ResumeMining).redispatch.is_empty());
}

#[test]
fn operating_points_change_in_the_safe_order() {
    let mut scheduler = Scheduler::new();
    scheduler.handle_new_thread("t0".into(), HashRate(1), 1);
    let lower = COLD_INIT_MICROVOLTS - 1;
    let down = scheduler.handle_api_command(SchedulerCommand::SetOperatingPoint {
        khz: 400_000,
        microvolts: lower,
    });
    assert_eq!(down.ops[0].action, ThreadAction::SetFrequency { khz: 400_000 });
    assert_eq!(down.ops[1].action, ThreadAction::SetVoltage { microvolts: lower });
    let up = scheduler.handle_api_command(SchedulerCommand::SetOperatingPoint {
        khz: 500_000,
        microvolts: COLD_INIT_MICROVOLTS,
    });
    assert_eq!(up.ops[0].action, ThreadAction::SetVoltage { microvolts: COLD_INIT_MICROVOLTS });
    assert_eq!(up.ops[1].action, ThreadAction::SetFrequency { khz: 500_000 });
    assert_eq!(up.reply(Some("set_voltage timed out".into())), Err("set_voltage timed out".into()));

    let plain = scheduler.handle_api_command(SchedulerCommand::SetFrequency { khz: 450_000 });
    assert_eq!(plain.ops.len(), 1);
    assert_eq!(plain.ops[0].action.name(), "set_frequency");
}

#[test]
fn the_last_failure_is_kept() {
    let mut last = None;
    guard_thread_op(OpOutcome::Done, "set_paused", &mut last);
    assert_eq!(last, None);
    guard_thread_op(OpOutcome::Failed("broken".into()), "set_paused", &mut last);
    assert_eq!(last.as_deref(), Some("broken"));
    guard_thread_op(OpOutcome::TimedOut, "set_paused", &mut last);
    assert_eq!(last.as_deref(), Some("set_paused timed out"));
    guard_thread_op(OpOutcome::Done, "set_paused", &mut last);
    assert_eq!(last.as_deref(), Some("set_paused timed out"));
}

#[test]
fn threads_that_are_gone_take_their_tasks_along() {
    let mut scheduler = Scheduler::new();
    let (source, _) = scheduler.register_source("pool".into(), None);
    let first = scheduler.handle_new_thread("t0".into(), HashRate(10), 1).thread_id;
    let second = scheduler.handle_new_thread("t1".into(), HashRate(20), 2).thread_id;
    let template = Arc::new(job("a", 1));
    let lost = scheduler.record_task(source, first, Arc::clone(&template));
    let kept = scheduler.record_task(source, second, template);
    assert!(scheduler.handle_thread_disconnections(vec![first, second]).is_none());
    let departure = scheduler.handle_thread_disconnections(vec![second]).unwrap();
    assert_eq!(departure.removed, vec![lost]);
    assert_eq!(departure.hashrate, HashRate(20));
    assert_eq!(scheduler.thread_ids(), vec![second]);
    assert_eq!(scheduler.task_ids(), vec![kept]);
}

#[test]
fn a_difficulty_is_too_high_after_five_minutes() {
    // Difficulty 1 takes 4,295,032,833 hashes on average.
    let easy = job("a", 1);
    assert!(!is_difficulty_too_high(&easy, HashRate(14_316_777)));
    assert!(is_difficulty_too_high(&easy, HashRate(14_316_776)));
    assert!(!is_difficulty_too_high(&easy, HashRate(0)));
}

#[test]
fn durations_show_two_units() {
    assert_eq!(format_duration(0), "0s");
    assert_eq!(format_duration(59), "59s");
    assert_eq!(format_duration(61), "1m 1s");
    assert_eq!(format_duration(3_600), "1h 0m");
    assert_eq!(format_duration(90_061), "1d 1h");
}

#[test]
fn summaries_and_tickers() {
    let mut scheduler = Scheduler::new();
    let summary = scheduler.log_summary(61);
    assert_eq!(summary.uptime, "1m 1s");
    assert_eq!(summary.hashrate, None);
    assert_eq!(summary.shares, 0);
    let thread = scheduler.handle_new_thread("t0".into(), HashRate(1), 1).thread_id;
    scheduler.observe_rate(thread, HashRate(5), None);
    assert_eq!(scheduler.log_summary(1).hashrate, Some(HashRate(5)));
    assert_eq!(scheduler.operational_hashrate(), HashRate(1));

    let mut ticker = Ticker::new();
    assert!(!ticker.tick());
    assert!(ticker.tick());
}

#[test]
fn an_alarm_waits_and_goes_off_once() {
    let mut alarm = DebouncedAlarm::new(HIGH_DIFFICULTY_DEBOUNCE_MS);
    assert_eq!(alarm.check(false, 0), AlarmStatus::Unchanged);
    assert_eq!(alarm.check(true, 1_000), AlarmStatus::Unchanged);
    assert_eq!(alarm.check(true, 30_999), AlarmStatus::Unchanged);
    assert_eq!(alarm.check(true, 31_000), AlarmStatus::Triggered);
    assert_eq!(alarm.check(true, 90_000), AlarmStatus::Unchanged);
    assert_eq!(alarm.check(false, 90_001), AlarmStatus::Resolved);
    assert_eq!(alarm.check(false, 90_002), AlarmStatus::Unchanged);
    assert_eq!(alarm.check(true, 100_000), AlarmStatus::Unchanged);
    alarm.reset();
    assert_eq!(alarm.check(true, 129_000), AlarmStatus::Unchanged);
    assert_eq!(alarm.check(true, 158_999), AlarmStatus::Unchanged);
    assert_eq!(alarm.check(true, 159_000), AlarmStatus::Triggered);
}
