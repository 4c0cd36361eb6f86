//! The scheduler distributes mining jobs to hash threads and routes shares back
//! to the sources that the jobs came from.
//!
//! # Share filtering
//!
//! Shares are filtered at three levels. The chip's ticket mask is set by the
//! hash thread. `HashTask::share_target` is computed here per thread from that
//! thread's hash rate: the source's target, clamped between a measurement floor
//! of one share a second and a flood ceiling of ten. `JobTemplate::share_target`
//! is the source's own; only shares that meet it are submitted.
//!
//! The state here is the scheduler's bookkeeping. Channels, streams and timers
//! belong to the program around it, which performs the operations that the
//! methods return and reports their outcome.

use crate::api::commands::SchedulerCommand;
use crate::api::types::{BoardState, MinerState, SourceState};
use crate::asic::bm13xx::thread_v2::{
    job_of, law_share_proves_its_header, nonce_judged, response_job_id, BM13xxActor, NonceVerdict,
};
use crate::asic::hash_thread::{submission_of, HashTask, Share, SourceShare};
use crate::job::{
    law_split_is_even, law_split_partitions, Extranonce2, Extranonce2Range, JobTemplate,
    MerkleRootKind,
};
use crate::pow::{double_sha256, header_bytes, inverse, le_value, Target, Work};
use crate::slots::{contents, is_handle, is_walk, lemma_walk, walk_of, SlotArena};
use crate::text::{decimal, push_decimal, push_text};
use crate::types::{
    difficulty_of, hashes_per_share, law_slower_shares_are_harder, lemma_filter_next,
    saturating_plus, saturating_sum, target_for_share_rate, Difficulty, HashRate, ShareRate,
};
use std::sync::Arc;
use vstd::prelude::*;

verus! {

/// Interval between shares at the measurement floor.
pub const MEASUREMENT_INTERVAL_MS: u32 = 1000;

/// Interval between shares at the flood ceiling.
pub const FLOOD_CAP_INTERVAL_MS: u32 = 100;

/// Chain voltage after any cold init, in microvolts.
pub const COLD_INIT_MICROVOLTS: u32 = 13_900_000;

/// If a share is expected to take longer than this, the source's difficulty is
/// too high for the hash rate.
pub const HIGH_DIFFICULTY_SECS: u64 = 300;

/// How long a difficulty must be too high before the operator is warned, in
/// milliseconds.
pub const HIGH_DIFFICULTY_DEBOUNCE_MS: u64 = 30_000;

/// A registered job source.
#[derive(Debug)]
pub struct SourceEntry {
    pub name: String,
    pub url: Option<String>,
    /// Last job received, for threads that arrive later.
    pub last_job: Option<Arc<JobTemplate>>,
}

/// A registered hash thread.
#[derive(Debug)]
pub struct ThreadEntry {
    pub name: String,
    /// Static estimate from the thread's capabilities.
    pub hashrate_estimate: HashRate,
    /// Measured rate, zero until shares have been recorded.
    pub measured: HashRate,
    /// Measured rate once the estimator has settled.
    pub settled: Option<HashRate>,
}

/// An active task: where its shares go.
#[derive(Debug)]
pub struct TaskEntry {
    pub source_id: u64,
    pub template: Arc<JobTemplate>,
    pub thread_id: u64,
}

/// Everything the scheduler keeps under a handle.
#[derive(Debug)]
pub enum Record {
    Source(SourceEntry),
    Thread(ThreadEntry),
    Task(TaskEntry),
}

/// Whether to add work beside what runs, or to invalidate what runs first.
#[derive(Clone, Copy, Debug, PartialEq, Eq, Structural)]
pub enum AssignMode {
    Update,
    Replace,
}

impl ThreadEntry {
    /// The rate to plan with: the settled measurement, or else the estimate.
    pub open spec fn rate(&self) -> HashRate {
        match self.settled {
            Some(rate) => rate,
            None => self.hashrate_estimate,
        }
    }

    /// The rate to plan with: the settled measurement, or else the estimate.
    pub fn operational_rate(&self) -> (r: HashRate)
        ensures
            r == self.rate(),
    {
        match self.settled {
            Some(rate) => rate,
            None => self.hashrate_estimate,
        }
    }
}

/// The scheduler's state as its contracts speak of it.
pub struct SchedulerState {
    pub sources: Map<u64, SourceEntry>,
    pub threads: Map<u64, ThreadEntry>,
    pub tasks: Map<u64, TaskEntry>,
    pub shares_submitted: u64,
    pub best_difficulty: Option<u64>,
    pub last_thread_count: usize,
    pub paused: bool,
    pub microvolts: u32,
}

/// The scheduler's bookkeeping.
#[derive(Debug)]
pub struct Scheduler {
    sources: SlotArena,
    threads: SlotArena,
    tasks: SlotArena,
    shares_submitted: u64,
    best_difficulty: Option<u64>,
    last_thread_count: usize,
    paused: bool,
    /// Last commanded chain voltage, by which the safe order of a change of
    /// operating point is chosen.
    microvolts: u32,
}

spec fn source_map(m: Map<u64, Record>) -> Map<u64, SourceEntry> {
    Map::new(|k: u64| m.contains_key(k), |k: u64| m[k]->Source_0)
}

spec fn thread_map(m: Map<u64, Record>) -> Map<u64, ThreadEntry> {
    Map::new(|k: u64| m.contains_key(k), |k: u64| m[k]->Thread_0)
}

spec fn task_map(m: Map<u64, Record>) -> Map<u64, TaskEntry> {
    Map::new(|k: u64| m.contains_key(k), |k: u64| m[k]->Task_0)
}

impl View for Scheduler {
    type V = SchedulerState;

    closed spec fn view(&self) -> SchedulerState {
        SchedulerState {
            sources: source_map(contents(&self.sources)),
            threads: thread_map(contents(&self.threads)),
            tasks: task_map(contents(&self.tasks)),
            shares_submitted: self.shares_submitted,
            best_difficulty: self.best_difficulty,
            last_thread_count: self.last_thread_count,
            paused: self.paused,
            microvolts: self.microvolts,
        }
    }
}

/// Whether a job can be split among threads: its merkle root is computed, and
/// its extranonce2 range is sound.
pub open spec fn dispatchable(template: JobTemplate) -> bool {
    template.wf() && template.merkle_root is Computed
}

impl SchedulerState {
    /// Cached jobs can be dispatched, and each task runs on a thread that is
    /// still registered.
    pub open spec fn wf(&self) -> bool {
        &&& forall|id: u64|
            #![trigger self.sources[id]]
            self.sources.contains_key(id) ==> (self.sources[id].last_job matches Some(job)
                ==> dispatchable(*job))
        &&& forall|id: u64|
            #![trigger self.tasks[id]]
            self.tasks.contains_key(id) ==> self.threads.contains_key(self.tasks[id].thread_id)
    }
}

/// The measured rates of the threads, in walk order.
pub open spec fn measured_rates(threads: Map<u64, ThreadEntry>) -> Seq<u64> {
    walk_of(threads.dom()).map_values(|id: u64| threads[id].measured.0)
}

/// The rates of the threads to plan with, in walk order.
pub open spec fn operational_rates(threads: Map<u64, ThreadEntry>) -> Seq<u64> {
    walk_of(threads.dom()).map_values(|id: u64| threads[id].rate().0)
}

/// The target that a thread of rate `hashrate` is given for a source's target.
pub open spec fn scheduler_target(hashrate: u64, source_target: nat) -> nat {
    let hardest = inverse(hashes_per_share(MEASUREMENT_INTERVAL_MS, hashrate));
    let easiest = inverse(hashes_per_share(FLOOD_CAP_INTERVAL_MS, hashrate));
    if hashrate == 0 {
        source_target
    } else if source_target < hardest {
        hardest
    } else if source_target > easiest {
        easiest
    } else {
        source_target
    }
}

/// The clamp is well defined for every hash rate: its ends are one share in what
/// the thread does in a second, and in a tenth of that. A source target within it
/// passes through, and any other becomes the nearer end; a thread of rate zero
/// gets the source's.
pub proof fn law_scheduler_target(hashrate: u64, source_target: nat)
    ensures
        inverse(hashes_per_share(MEASUREMENT_INTERVAL_MS, hashrate)) <= inverse(
            hashes_per_share(FLOOD_CAP_INTERVAL_MS, hashrate),
        ),
        hashrate > 0 ==> inverse(hashes_per_share(MEASUREMENT_INTERVAL_MS, hashrate))
            <= scheduler_target(hashrate, source_target) <= inverse(
            hashes_per_share(FLOOD_CAP_INTERVAL_MS, hashrate),
        ),
        inverse(hashes_per_share(MEASUREMENT_INTERVAL_MS, hashrate)) <= source_target <= inverse(
            hashes_per_share(FLOOD_CAP_INTERVAL_MS, hashrate),
        ) ==> scheduler_target(hashrate, source_target) == source_target,
        hashes_per_share(MEASUREMENT_INTERVAL_MS, hashrate) == hashrate,
        hashes_per_share(FLOOD_CAP_INTERVAL_MS, hashrate) == hashrate / 10,
        hashrate > 0 && source_target < inverse(hashrate as nat) ==> scheduler_target(
            hashrate,
            source_target,
        ) == inverse(hashrate as nat),
        hashrate > 0 && source_target > inverse((hashrate / 10) as nat) ==> scheduler_target(
            hashrate,
            source_target,
        ) == inverse((hashrate / 10) as nat),
        hashrate == 0 ==> scheduler_target(hashrate, source_target) == source_target,
{
    law_slower_shares_are_harder(
        ShareRate { interval_ms: MEASUREMENT_INTERVAL_MS },
        ShareRate { interval_ms: FLOOD_CAP_INTERVAL_MS },
        HashRate(hashrate),
    );
}

/// Whether a job's difficulty is too high for a hash rate: the expected wait
/// for a share is more than five minutes.
pub open spec fn too_high(share_target: nat, hashrate: u64) -> bool {
    hashrate > 0 && inverse(share_target) > HIGH_DIFFICULTY_SECS * hashrate
}

/// Checks whether a job's difficulty is unreasonably high for the hash rate.
pub fn is_difficulty_too_high(job: &JobTemplate, hashrate: HashRate) -> (r: bool)
    ensures
        r == too_high(job.share_target@, hashrate.0),
{
    if hashrate.is_zero() {
        return false;
    }
    let work: Work = job.share_target.to_work();
    let limit: u128 = HIGH_DIFFICULTY_SECS as u128 * hashrate.0 as u128;
    assert(work.hi > 0 ==> work.hi * crate::pow::half() >= crate::pow::half()) by (nonlinear_arith);
    work.hi > 0 || work.lo > limit
}

/// Which tasks to drop.
pub enum TaskFilter {
    /// Those of a source.
    OfSource(u64),
    /// Those on a thread that is not listed.
    ThreadNotIn(Vec<u64>),
}

impl TaskFilter {
    pub open spec fn drops(&self, task: TaskEntry) -> bool {
        match self {
            TaskFilter::OfSource(id) => task.source_id == *id,
            TaskFilter::ThreadNotIn(active) => !active@.contains(task.thread_id),
        }
    }

    fn check(&self, task: &TaskEntry) -> (r: bool)
        ensures
            r == self.drops(*task),
    {
        match self {
            TaskFilter::OfSource(id) => task.source_id == *id,
            TaskFilter::ThreadNotIn(active) => !lists(active, task.thread_id),
        }
    }
}

/// Whether an identifier is listed.
fn lists(ids: &Vec<u64>, id: u64) -> (r: bool)
    ensures
        r == ids@.contains(id),
{
    let mut i: usize = 0;
    while i < ids.len()
        invariant
            i <= ids.len(),
            forall|j: int| 0 <= j < i ==> ids@[j] != id,
        decreases ids.len() - i,
    {
        if ids[i] == id {
            return true;
        }
        i = i + 1;
    }
    false
}

/// The tasks that a filter leaves.
pub open spec fn kept(tasks: Map<u64, TaskEntry>, filter: TaskFilter) -> Map<u64, TaskEntry> {
    Map::new(
        |id: u64| tasks.contains_key(id) && !filter.drops(tasks[id]),
        |id: u64| tasks[id],
    )
}

/// The tasks that a filter drops, in walk order.
pub open spec fn dropped(tasks: Map<u64, TaskEntry>, filter: TaskFilter) -> Seq<u64> {
    walk_of(tasks.dom()).filter(|id: u64| filter.drops(tasks[id]))
}

/// A task that is there is either kept or dropped, never both, and nothing else
/// is dropped. So once a source's work is replaced or cleared, no share reaches
/// a task of the old work.
pub proof fn law_kept_or_dropped(tasks: Map<u64, TaskEntry>, filter: TaskFilter, id: u64)
    requires
        is_walk(tasks.dom(), walk_of(tasks.dom())),
    ensures
        tasks.contains_key(id) ==> kept(tasks, filter).contains_key(id) != dropped(
            tasks,
            filter,
        ).contains(id),
        dropped(tasks, filter).contains(id) ==> tasks.contains_key(id),
        kept(tasks, filter).contains_key(id) ==> kept(tasks, filter)[id] == tasks[id]
            && !filter.drops(tasks[id]),
{
    let walk = walk_of(tasks.dom());
    let drops = |id: u64| filter.drops(tasks[id]);
    lemma_filter_holds(walk, drops, id);
}

proof fn lemma_filter_holds(walk: Seq<u64>, pred: spec_fn(u64) -> bool, id: u64)
    ensures
        walk.filter(pred).contains(id) <==> walk.contains(id) && pred(id),
    decreases walk.len(),
{
    reveal(Seq::filter);
    if walk.len() > 0 {
        let rest = walk.drop_last();
        let filtered = rest.filter(pred);
        lemma_filter_holds(rest, pred, id);
        if walk.contains(id) {
            let i = choose|i: int| 0 <= i < walk.len() && walk[i] == id;
            if i < rest.len() {
                assert(rest[i] == id);
            }
        }
        if rest.contains(id) {
            let i = choose|i: int| 0 <= i < rest.len() && rest[i] == id;
            assert(walk[i] == id);
        }
        assert(walk[walk.len() - 1] == walk.last());
        if pred(walk.last()) {
            let all = filtered.push(walk.last());
            assert(all[filtered.len() as int] == walk.last());
            if filtered.contains(id) {
                let i = choose|i: int| 0 <= i < filtered.len() && filtered[i] == id;
                assert(all[i] == id);
            }
            if all.contains(id) && id != walk.last() {
                let i = choose|i: int| 0 <= i < all.len() && all[i] == id;
                assert(filtered[i] == id);
            }
        }
    }
}

/// One more element of a walk.
proof fn lemma_take_next(walk: Seq<u64>, i: int)
    requires
        0 <= i < walk.len(),
    ensures
        forall|k: u64| #[trigger]
            walk.take(i + 1).contains(k) <==> walk.take(i).contains(k) || k == walk[i],
{
    let next = walk.take(i + 1);
    assert forall|k: u64| #[trigger] next.contains(k) <==> walk.take(i).contains(k) || k
        == walk[i] by {
        if next.contains(k) {
            let j = choose|j: int| 0 <= j < next.len() && next[j] == k;
            if j < i {
                assert(walk.take(i)[j] == k);
            }
        }
        if walk.take(i).contains(k) {
            let j = choose|j: int| 0 <= j < i && walk.take(i)[j] == k;
            assert(next[j] == k);
        }
        assert(next[i] == walk[i]);
    }
}

impl Scheduler {
    spec fn typed(&self) -> bool {
        &&& forall|id: u64|
            contents(&self.sources).contains_key(id) ==> (#[trigger] contents(
                &self.sources,
            )[id]) is Source && is_handle(id)
        &&& forall|id: u64|
            contents(&self.threads).contains_key(id) ==> (#[trigger] contents(
                &self.threads,
            )[id]) is Thread && is_handle(id)
        &&& forall|id: u64|
            contents(&self.tasks).contains_key(id) ==> (#[trigger] contents(&self.tasks)[id]) is Task
                && is_handle(id)
    }

    /// What every operation keeps.
    pub closed spec fn wf(&self) -> bool {
        &&& self.typed()
        &&& self@.wf()
    }

    /// A scheduler with nothing registered, not paused, at the cold-init voltage.
    pub fn new() -> (s: Scheduler)
        ensures
            s.wf(),
            is_new(s@),
    {
        let scheduler = Scheduler {
            sources: SlotArena::new(),
            threads: SlotArena::new(),
            tasks: SlotArena::new(),
            shares_submitted: 0,
            best_difficulty: None,
            last_thread_count: 0,
            paused: false,
            microvolts: COLD_INIT_MICROVOLTS,
        };
        assert(scheduler@.sources =~= Map::<u64, SourceEntry>::empty());
        assert(scheduler@.threads =~= Map::<u64, ThreadEntry>::empty());
        assert(scheduler@.tasks =~= Map::<u64, TaskEntry>::empty());
        scheduler
    }

    /// The source under a handle.
    pub fn source(&self, id: u64) -> (r: Option<&SourceEntry>)
        requires
            self.wf(),
        ensures
            r == if self@.sources.contains_key(id) {
                Some(&self@.sources[id])
            } else {
                None
            },
    {
        if !handle_shape(id) {
            return None;
        }
        match self.sources.get(id) {
            Some(Record::Source(entry)) => Some(entry),
            _ => None,
        }
    }

    /// The thread under a handle.
    pub fn thread(&self, id: u64) -> (r: Option<&ThreadEntry>)
        requires
            self.wf(),
        ensures
            r == if self@.threads.contains_key(id) {
                Some(&self@.threads[id])
            } else {
                None
            },
    {
        if !handle_shape(id) {
            return None;
        }
        match self.threads.get(id) {
            Some(Record::Thread(entry)) => Some(entry),
            _ => None,
        }
    }

    /// The task under a handle.
    pub fn task(&self, id: u64) -> (r: Option<&TaskEntry>)
        requires
            self.wf(),
        ensures
            r == if self@.tasks.contains_key(id) {
                Some(&self@.tasks[id])
            } else {
                None
            },
    {
        if !handle_shape(id) {
            return None;
        }
        match self.tasks.get(id) {
            Some(Record::Task(entry)) => Some(entry),
            _ => None,
        }
    }

    /// The registered threads, in walk order.
    pub fn thread_ids(&self) -> (walk: Vec<u64>)
        requires
            self.wf(),
        ensures
            walk@ == walk_of(self@.threads.dom()),
            is_walk(self@.threads.dom(), walk@),
            walk@.len() == self@.threads.len(),
            self@.threads.dom().finite(),
    {
        let walk = self.threads.handles();
        assert(contents(&self.threads).dom() =~= self@.threads.dom());
        proof {
            lemma_walk(self@.threads.dom(), walk@);
        }
        walk
    }

    /// The registered sources, in walk order.
    pub fn source_ids(&self) -> (walk: Vec<u64>)
        requires
            self.wf(),
        ensures
            walk@ == walk_of(self@.sources.dom()),
            is_walk(self@.sources.dom(), walk@),
            walk@.len() == self@.sources.len(),
            self@.sources.dom().finite(),
    {
        let walk = self.sources.handles();
        assert(contents(&self.sources).dom() =~= self@.sources.dom());
        proof {
            lemma_walk(self@.sources.dom(), walk@);
        }
        walk
    }

    /// The active tasks, in walk order.
    pub fn task_ids(&self) -> (walk: Vec<u64>)
        requires
            self.wf(),
        ensures
            walk@ == walk_of(self@.tasks.dom()),
            is_walk(self@.tasks.dom(), walk@),
            walk@.len() == self@.tasks.len(),
            self@.tasks.dom().finite(),
    {
        let walk = self.tasks.handles();
        assert(contents(&self.tasks).dom() =~= self@.tasks.dom());
        proof {
            lemma_walk(self@.tasks.dom(), walk@);
        }
        walk
    }

    /// Whether mining is paused.
    pub fn is_paused(&self) -> (r: bool)
        ensures
            r == self@.paused,
    {
        self.paused
    }

    /// Aggregate measured rate: zero if no shares have been recorded yet.
    pub fn measured_hashrate(&self) -> (r: HashRate)
        requires
            self.wf(),
        ensures
            r.0 == saturating_sum(measured_rates(self@.threads)),
    {
        let walk = self.thread_ids();
        let ghost rates = measured_rates(self@.threads);
        let mut sum: u64 = 0;
        let mut i: usize = 0;
        while i < walk.len()
            invariant
                self.wf(),
                walk@ == walk_of(self@.threads.dom()),
                is_walk(self@.threads.dom(), walk@),
                rates == measured_rates(self@.threads),
                i <= walk.len(),
                sum == saturating_sum(rates.take(i as int)),
            decreases walk.len() - i,
        {
            assert(walk@.contains(walk@[i as int]));
            assert(rates.take(i + 1).drop_last() =~= rates.take(i as int));
            if let Some(entry) = self.thread(walk[i]) {
                sum = saturating_plus(sum, entry.measured.0);
            }
            i = i + 1;
        }
        assert(rates.take(i as int) =~= rates);
        HashRate(sum)
    }

    /// Aggregate rate for operational decisions: per thread the settled
    /// measurement, or else the static estimate.
    pub fn operational_hashrate(&self) -> (r: HashRate)
        requires
            self.wf(),
        ensures
            r.0 == saturating_sum(operational_rates(self@.threads)),
    {
        let walk = self.thread_ids();
        let ghost rates = operational_rates(self@.threads);
        let mut sum: u64 = 0;
        let mut i: usize = 0;
        while i < walk.len()
            invariant
                self.wf(),
                walk@ == walk_of(self@.threads.dom()),
                is_walk(self@.threads.dom(), walk@),
                rates == operational_rates(self@.threads),
                i <= walk.len(),
                sum == saturating_sum(rates.take(i as int)),
            decreases walk.len() - i,
        {
            assert(walk@.contains(walk@[i as int]));
            assert(rates.take(i + 1).drop_last() =~= rates.take(i as int));
            if let Some(entry) = self.thread(walk[i]) {
                sum = saturating_plus(sum, entry.operational_rate().0);
            }
            i = i + 1;
        }
        assert(rates.take(i as int) =~= rates);
        HashRate(sum)
    }

    /// The per-thread target: the source's target, between the measurement
    /// floor and the flood ceiling. A thread of rate zero gets the source's.
    pub fn compute_scheduler_target(hashrate: HashRate, source_target: Target) -> (r: Target)
        ensures
            r@ == scheduler_target(hashrate.0, source_target@),
            hashrate.0 == 0 ==> r == source_target,
    {
        if hashrate.is_zero() {
            return source_target;
        }
        let hardest = target_for_share_rate(
            ShareRate { interval_ms: MEASUREMENT_INTERVAL_MS },
            hashrate,
        );
        let easiest = target_for_share_rate(
            ShareRate { interval_ms: FLOOD_CAP_INTERVAL_MS },
            hashrate,
        );
        proof {
            law_scheduler_target(hashrate.0, source_target@);
        }
        source_target.clamp(hardest, easiest)
    }

    /// Drops the tasks that the filter selects and returns their handles, so
    /// that their share channels can be closed.
    pub fn remove_tasks_where(&mut self, filter: &TaskFilter) -> (removed: Vec<u64>)
        requires
            old(self).wf(),
        ensures
            final(self).wf(),
            final(self)@ == (SchedulerState {
                tasks: kept(old(self)@.tasks, *filter),
                ..old(self)@
            }),
            removed@ == dropped(old(self)@.tasks, *filter),
    {
        let walk = self.task_ids();
        let ghost before = self@;
        let ghost drops = |id: u64| filter.drops(before.tasks[id]);
        let mut removed: Vec<u64> = Vec::new();
        let mut i: usize = 0;
        while i < walk.len()
            invariant
                self.wf(),
                walk@ == walk_of(before.tasks.dom()),
                is_walk(before.tasks.dom(), walk@),
                walk@.no_duplicates(),
                i <= walk.len(),
                drops == (|id: u64| filter.drops(before.tasks[id])),
                removed@ == walk@.take(i as int).filter(drops),
                forall|id: u64|
                    #[trigger] self@.tasks.contains_key(id) <==> before.tasks.contains_key(id) && !(
                    drops(id) && walk@.take(i as int).contains(id)),
                forall|id: u64| #[trigger]
                    self@.tasks.contains_key(id) ==> self@.tasks[id] == before.tasks[id],
                self@ == (SchedulerState { tasks: self@.tasks, ..before }),
            decreases walk.len() - i,
        {
            let id: u64 = walk[i];
            assert(walk@.contains(id));
            proof {
                lemma_filter_next(walk@, i as int, drops);
            }
            assert(!walk@.take(i as int).contains(id)) by {
                if walk@.take(i as int).contains(id) {
                    let j = choose|j: int| 0 <= j < i && walk@.take(i as int)[j] == id;
                    assert(walk@[j] == walk@[i as int]);
                }
            }
            proof {
                lemma_take_next(walk@, i as int);
            }
            let doomed: bool = match self.task(id) {
                Some(entry) => filter.check(entry),
                None => false,
            };
            if doomed {
                let ghost prior = self@;
                let _ = self.tasks.remove(id);
                assert(self@.tasks =~= prior.tasks.remove(id));
                removed.push(id);
            }
            i = i + 1;
        }
        assert(walk@.take(i as int) =~= walk@);
        assert(self@.tasks =~= kept(before.tasks, *filter));
        removed
    }
}

/// Where a counted share goes.
#[derive(Debug)]
pub enum Submission {
    /// It does not meet the source's target.
    BelowTarget,
    /// It is submitted to the source.
    ToSource { source_id: u64, share: SourceShare },
    /// It would be submitted, but the source is not registered.
    UnknownSource { source_id: u64 },
}

/// What became of a share.
#[derive(Debug)]
pub enum ShareOutcome {
    /// Mining is paused: the share is neither counted nor forwarded.
    Paused,
    /// The task was removed before its share arrived.
    UnknownTask,
    /// The thread's estimator is fed the share's expected work.
    Counted { thread_id: u64, submission: Submission },
}

/// Work for one thread.
#[derive(Debug)]
pub struct ThreadTask {
    pub thread_id: u64,
    pub task: HashTask,
}

/// Cached work of one source for one thread.
#[derive(Debug)]
pub struct SourceTask {
    pub source_id: u64,
    pub task: HashTask,
}

/// What becomes of a job.
#[derive(Debug)]
pub enum AssignOutcome {
    /// The merkle root is fixed, which threads cannot take.
    HeaderOnly,
    /// There is no thread yet; the job is cached.
    NoThreads,
    /// Mining is paused; the job is cached.
    Paused,
    /// The job goes to every thread.
    Dispatch {
        /// What the source's difficulty alarm is told, if the source is known.
        too_high: Option<bool>,
        /// Tasks that were invalidated.
        removed: Vec<u64>,
        /// One task per thread.
        tasks: Vec<ThreadTask>,
    },
}

/// What to do with a job that a source sent.
#[derive(Debug)]
pub struct Assignment {
    /// Whether the source's difficulty alarm starts over.
    pub reset_alarm: bool,
    pub template: Arc<JobTemplate>,
    pub outcome: AssignOutcome,
}

/// What to do about a thread that has arrived.
#[derive(Debug)]
pub struct ThreadArrival {
    pub thread_id: u64,
    /// Rate to broadcast to every source, whose alarms start over.
    pub hashrate: HashRate,
    /// Cached jobs to give to the thread.
    pub tasks: Vec<SourceTask>,
}

/// What to do about threads that have gone.
#[derive(Debug)]
pub struct ThreadDeparture {
    /// Tasks of the threads that have gone.
    pub removed: Vec<u64>,
    /// Rate to broadcast to every source, whose alarms start over.
    pub hashrate: HashRate,
}

/// Whether `task` is the work of `template` on the extranonce2 values in
/// `range` for a thread of rate `rate`.
pub open spec fn task_for(
    task: HashTask,
    template: Arc<JobTemplate>,
    range: Extranonce2Range,
    rate: u64,
) -> bool {
    &&& task.template == template
    &&& task.en2_range == Some(range)
    &&& task.en2 == Some(Extranonce2 { value: range.min, size: range.size })
    &&& task.share_target@ == scheduler_target(rate, template.share_target@)
    &&& task.ntime == template.time
}

/// Builds the work of a template on a range of extranonce2 values.
fn build_task(template: &Arc<JobTemplate>, range: Extranonce2Range, rate: HashRate) -> (r: HashTask)
    ensures
        task_for(r, *template, range, rate.0),
{
    HashTask {
        template: Arc::clone(template),
        en2_range: Some(range),
        en2: Some(range.first()),
        share_target: Scheduler::compute_scheduler_target(rate, template.share_target),
        ntime: template.time,
    }
}

/// The sources with a job cached on one of them, where it is registered.
pub open spec fn with_job(
    sources: Map<u64, SourceEntry>,
    source_id: u64,
    job: Option<Arc<JobTemplate>>,
) -> Map<u64, SourceEntry> {
    if sources.contains_key(source_id) {
        sources.insert(source_id, SourceEntry { last_job: job, ..sources[source_id] })
    } else {
        sources
    }
}

/// Whether a source's last job has another target than a new one.
pub open spec fn target_changes(entry: SourceEntry, job: JobTemplate) -> bool {
    match entry.last_job {
        Some(last) => last.share_target@ != job.share_target@,
        None => true,
    }
}

/// The extranonce2 range of a job whose merkle root is computed.
pub open spec fn job_range(job: JobTemplate) -> Extranonce2Range {
    job.merkle_root->Computed_0.extranonce2_range
}

impl Scheduler {
    /// Registers a job source. It is first sent the operational rate, which is
    /// returned beside its handle.
    pub fn register_source(&mut self, name: String, url: Option<String>) -> (r: (u64, HashRate))
        requires
            old(self).wf(),
            old(self)@.sources.len() < 0xFFFF_FFFE,
        ensures
            final(self).wf(),
            source_registered(old(self)@, name, url, r, final(self)@),
    {
        let ghost before = self@;
        assert(contents(&self.sources).dom() =~= self@.sources.dom());
        let id: u64 = self.sources.insert(
            Record::Source(SourceEntry { name, url, last_job: None }),
        );
        assert(self@.sources =~= before.sources.insert(
            id,
            SourceEntry { name, url, last_job: None },
        ));
        let rate = self.operational_hashrate();
        (id, rate)
    }

    /// Takes over what a thread's rate estimator reports.
    pub fn observe_rate(&mut self, thread_id: u64, measured: HashRate, settled: Option<HashRate>)
        requires
            old(self).wf(),
        ensures
            final(self).wf(),
            rate_observed(old(self)@, thread_id, measured, settled, final(self)@),
    {
        let ghost before = self@;
        if !handle_shape(thread_id) {
            return;
        }
        if let Some(record) = self.threads.get_mut(thread_id) {
            if let Record::Thread(entry) = record {
                entry.measured = measured;
                entry.settled = settled;
            }
        }
        assert(self@.threads =~= if before.threads.contains_key(thread_id) {
            before.threads.insert(
                thread_id,
                ThreadEntry { measured, settled, ..before.threads[thread_id] },
            )
        } else {
            before.threads
        });
    }

    /// Sets what a source has cached.
    fn cache_job(&mut self, source_id: u64, job: Option<Arc<JobTemplate>>)
        requires
            old(self).wf(),
            job matches Some(template) ==> dispatchable(*template),
        ensures
            final(self).wf(),
            final(self)@ == (SchedulerState {
                sources: with_job(old(self)@.sources, source_id, job),
                ..old(self)@
            }),
    {
        let ghost before = self@;
        if !handle_shape(source_id) {
            return;
        }
        if let Some(record) = self.sources.get_mut(source_id) {
            if let Record::Source(entry) = record {
                entry.last_job = job;
            }
        }
        assert(self@.sources =~= with_job(before.sources, source_id, job));
    }

    /// Plans the assignment of a source's job to all threads.
    ///
    /// The job is cached on its source unless it is header-only. It is handed
    /// out unless there is no thread or mining is paused; then each thread gets
    /// one slice of the extranonce2 range. With `AssignMode::Replace` the
    /// source's earlier tasks are dropped first. There must be no more threads
    /// than extranonce2 values.
    pub fn assign_job_to_threads(
        &mut self,
        mode: AssignMode,
        source_id: u64,
        job: JobTemplate,
    ) -> (r: Assignment)
        requires
            old(self).wf(),
            job.wf(),
            job.merkle_root is Computed && !old(self)@.paused ==> old(self)@.threads.len()
                <= job_range(job).count(),
        ensures
            final(self).wf(),
            job_assigned(old(self)@, mode, source_id, job, r, final(self)@),
    {
        let ghost before = self@;
        let range: Extranonce2Range = match &job.merkle_root {
            MerkleRootKind::Computed(t) => t.extranonce2_range,
            MerkleRootKind::Fixed(_) => {
                return Assignment {
                    reset_alarm: false,
                    template: Arc::new(job),
                    outcome: AssignOutcome::HeaderOnly,
                };
            },
        };
        let template = Arc::new(job);

        let reset_alarm: bool = match self.source(source_id) {
            Some(entry) => match &entry.last_job {
                Some(last) => !(last.share_target.at_most(&template.share_target)
                    && template.share_target.at_most(&last.share_target)),
                None => true,
            },
            None => false,
        };
        self.cache_job(source_id, Some(Arc::clone(&template)));

        let walk = self.thread_ids();
        if walk.len() == 0 {
            return Assignment { reset_alarm, template, outcome: AssignOutcome::NoThreads };
        }
        if self.paused {
            return Assignment { reset_alarm, template, outcome: AssignOutcome::Paused };
        }

        let rate = self.operational_hashrate();
        let alarm: Option<bool> = match self.source(source_id) {
            Some(_) => Some(is_difficulty_too_high(&template, rate)),
            None => None,
        };

        let removed: Vec<u64> = match mode {
            AssignMode::Replace => self.remove_tasks_where(&TaskFilter::OfSource(source_id)),
            AssignMode::Update => Vec::new(),
        };

        let mut tasks: Vec<ThreadTask> = Vec::new();
        if let Some(slices) = range.split(walk.len()) {
            let mut i: usize = 0;
            while i < walk.len()
                invariant
                    self.wf(),
                    self@.threads == before.threads,
                    walk@ == walk_of(before.threads.dom()),
                    is_walk(before.threads.dom(), walk@),
                    slices@ == range.slices(walk@.len()),
                    i <= walk.len(),
                    tasks@.len() == i,
                    forall|j: int|
                        0 <= j < i ==> (#[trigger] tasks@[j]).thread_id == walk@[j] && task_for(
                            tasks@[j].task,
                            template,
                            slices@[j],
                            before.threads[walk@[j]].rate().0,
                        ),
                decreases walk.len() - i,
            {
                let thread_id: u64 = walk[i];
                assert(walk@.contains(thread_id));
                if let Some(entry) = self.thread(thread_id) {
                    let task = build_task(&template, slices[i], entry.operational_rate());
                    tasks.push(ThreadTask { thread_id, task });
                }
                i = i + 1;
            }
        }
        Assignment {
            reset_alarm,
            template,
            outcome: AssignOutcome::Dispatch { too_high: alarm, removed, tasks },
        }
    }

    /// Books a task that a thread has accepted.
    pub fn record_task(
        &mut self,
        source_id: u64,
        thread_id: u64,
        template: Arc<JobTemplate>,
    ) -> (task_id: u64)
        requires
            old(self).wf(),
            old(self)@.threads.contains_key(thread_id),
            old(self)@.tasks.len() < 0xFFFF_FFFE,
        ensures
            final(self).wf(),
            task_recorded(old(self)@, source_id, thread_id, template, task_id, final(self)@),
    {
        let ghost before = self@;
        assert(contents(&self.tasks).dom() =~= self@.tasks.dom());
        let id: u64 = self.tasks.insert(
            Record::Task(TaskEntry { source_id, template, thread_id }),
        );
        assert(self@.tasks =~= before.tasks.insert(
            id,
            TaskEntry { source_id, template, thread_id },
        ));
        id
    }

    /// Clears a source's cached job and drops its tasks, whose handles are
    /// returned.
    pub fn handle_clear_jobs(&mut self, source_id: u64) -> (removed: Vec<u64>)
        requires
            old(self).wf(),
        ensures
            final(self).wf(),
            jobs_cleared(old(self)@, source_id, removed, final(self)@),
    {
        self.cache_job(source_id, None);
        self.remove_tasks_where(&TaskFilter::OfSource(source_id))
    }

    /// Judges a share that arrived from a task.
    ///
    /// While mining is paused, and for a task that is gone, it is dropped.
    /// Otherwise it counts toward the best difficulty and its thread's rate, and
    /// it is submitted to its source exactly when it meets the source's target.
    pub fn handle_share(&mut self, task_id: u64, share: &Share) -> (r: ShareOutcome)
        requires
            old(self).wf(),
            old(self)@.shares_submitted < u64::MAX,
        ensures
            final(self).wf(),
            share_handled(old(self)@, task_id, *share, r, final(self)@),
    {
        if self.paused {
            return ShareOutcome::Paused;
        }
        let ghost before = self@;
        let (source_id, thread_id, template) = match self.task(task_id) {
            Some(entry) => (entry.source_id, entry.thread_id, Arc::clone(&entry.template)),
            None => {
                return ShareOutcome::UnknownTask;
            },
        };
        let difficulty: u64 = Difficulty::from_hash(&share.hash).0;
        self.best_difficulty =
        Some(
            match self.best_difficulty {
                Some(best) => if best > difficulty {
                    best
                } else {
                    difficulty
                },
                None => difficulty,
            },
        );
        let submission = if template.share_target.is_met_by(&share.hash) {
            self.shares_submitted = self.shares_submitted + 1;
            match self.source(source_id) {
                Some(_) => Submission::ToSource {
                    source_id,
                    share: share.for_job(template.id.clone()),
                },
                None => Submission::UnknownSource { source_id },
            }
        } else {
            Submission::BelowTarget
        };
        ShareOutcome::Counted { thread_id, submission }
    }
}

/// The better of the best difficulty so far and a new one.
pub open spec fn better(best: Option<u64>, difficulty: u64) -> u64 {
    match best {
        Some(b) => if b > difficulty {
            b
        } else {
            difficulty
        },
        None => difficulty,
    }
}

/// The threads that are listed.
pub open spec fn listed(threads: Map<u64, ThreadEntry>, active: Seq<u64>) -> Map<u64, ThreadEntry> {
    Map::new(
        |id: u64| threads.contains_key(id) && active.contains(id),
        |id: u64| threads[id],
    )
}

/// The sources that have a job cached, in walk order.
pub open spec fn sources_with_job(sources: Map<u64, SourceEntry>) -> Seq<u64> {
    walk_of(sources.dom()).filter(|id: u64| sources[id].last_job is Some)
}

/// A job to hand out again.
#[derive(Debug)]
pub struct SourceJob {
    pub source_id: u64,
    pub template: Arc<JobTemplate>,
}

impl Scheduler {
    /// The jobs that are cached, by source in walk order.
    fn cached_jobs(&self) -> (jobs: Vec<SourceJob>)
        requires
            self.wf(),
        ensures
            jobs@.len() == sources_with_job(self@.sources).len(),
            forall|i: int|
                0 <= i < jobs@.len() ==> {
                    let id = sources_with_job(self@.sources)[i];
                    &&& (#[trigger] jobs@[i]).source_id == id
                    &&& self@.sources.contains_key(id)
                    &&& self@.sources[id].last_job == Some(jobs@[i].template)
                    &&& dispatchable(*jobs@[i].template)
                },
    {
        let walk = self.source_ids();
        let ghost has_job = |id: u64| self@.sources[id].last_job is Some;
        let mut jobs: Vec<SourceJob> = Vec::new();
        let mut i: usize = 0;
        while i < walk.len()
            invariant
                self.wf(),
                walk@ == walk_of(self@.sources.dom()),
                is_walk(self@.sources.dom(), walk@),
                has_job == (|id: u64| self@.sources[id].last_job is Some),
                i <= walk.len(),
                jobs@.len() == walk@.take(i as int).filter(has_job).len(),
                forall|j: int|
                    0 <= j < jobs@.len() ==> {
                        let id = walk@.take(i as int).filter(has_job)[j];
                        &&& (#[trigger] jobs@[j]).source_id == id
                        &&& self@.sources.contains_key(id)
                        &&& self@.sources[id].last_job == Some(jobs@[j].template)
                        &&& dispatchable(*jobs@[j].template)
                    },
            decreases walk.len() - i,
        {
            let id: u64 = walk[i];
            assert(walk@.contains(id));
            proof {
                lemma_filter_next(walk@, i as int, has_job);
            }
            if let Some(entry) = self.source(id) {
                if let Some(template) = &entry.last_job {
                    jobs.push(SourceJob { source_id: id, template: Arc::clone(template) });
                }
            }
            i = i + 1;
        }
        assert(walk@.take(i as int) =~= walk@);
        jobs
    }

    /// Registers a hash thread that has arrived. Unless mining is paused it is
    /// to be given every cached job, on the whole extranonce2 range.
    ///
    /// `stream_count` is the number of thread event streams, the new thread's
    /// included.
    pub fn handle_new_thread(
        &mut self,
        name: String,
        hashrate_estimate: HashRate,
        stream_count: usize,
    ) -> (r: ThreadArrival)
        requires
            old(self).wf(),
            old(self)@.threads.len() < 0xFFFF_FFFE,
        ensures
            final(self).wf(),
            thread_arrived(old(self)@, name, hashrate_estimate, stream_count, r, final(self)@),
    {
        let ghost before = self@;
        assert(contents(&self.threads).dom() =~= self@.threads.dom());
        let entry = ThreadEntry { name, hashrate_estimate, measured: HashRate(0), settled: None };
        let ghost recorded = entry;
        let thread_id: u64 = self.threads.insert(Record::Thread(entry));
        assert(self@.threads =~= before.threads.insert(thread_id, recorded));
        let hashrate = self.operational_hashrate();
        self.last_thread_count = stream_count;

        let mut tasks: Vec<SourceTask> = Vec::new();
        if self.paused {
            return ThreadArrival { thread_id, hashrate, tasks };
        }
        let jobs = self.cached_jobs();
        let mut i: usize = 0;
        while i < jobs.len()
            invariant
                i <= jobs.len(),
                jobs@.len() == sources_with_job(before.sources).len(),
                forall|j: int|
                    0 <= j < jobs@.len() ==> {
                        let id = sources_with_job(before.sources)[j];
                        &&& (#[trigger] jobs@[j]).source_id == id
                        &&& before.sources[id].last_job == Some(jobs@[j].template)
                        &&& dispatchable(*jobs@[j].template)
                    },
                tasks@.len() == i,
                forall|j: int|
                    0 <= j < i ==> {
                        let id = sources_with_job(before.sources)[j];
                        let job = before.sources[id].last_job->0;
                        &&& (#[trigger] tasks@[j]).source_id == id
                        &&& task_for(tasks@[j].task, job, job_range(*job), hashrate_estimate.0)
                    },
            decreases jobs.len() - i,
        {
            let template = &jobs[i].template;
            if let MerkleRootKind::Computed(t) = &template.merkle_root {
                let task = build_task(template, t.extranonce2_range, hashrate_estimate);
                tasks.push(SourceTask { source_id: jobs[i].source_id, task });
            }
            i = i + 1;
        }
        ThreadArrival { thread_id, hashrate, tasks }
    }

    /// Compares the threads that still have an event stream with those of the
    /// last time. If their number has changed, the others are dropped, with
    /// their tasks.
    pub fn handle_thread_disconnections(&mut self, active: Vec<u64>) -> (r: Option<ThreadDeparture>)
        requires
            old(self).wf(),
        ensures
            final(self).wf(),
            threads_departed(old(self)@, active, r, final(self)@),
    {
        let count: usize = active.len();
        if count == self.last_thread_count {
            return None;
        }
        let ghost before = self@;
        let ghost filter = TaskFilter::ThreadNotIn(active);
        let walk = self.thread_ids();
        let filter = TaskFilter::ThreadNotIn(active);
        let removed = self.remove_tasks_where(&filter);
        let active = match filter {
            TaskFilter::ThreadNotIn(active) => active,
            TaskFilter::OfSource(_) => Vec::new(),
        };
        let mut i: usize = 0;
        while i < walk.len()
            invariant
                self.wf(),
                is_walk(before.threads.dom(), walk@),
                i <= walk.len(),
                self@ == (SchedulerState {
                    threads: self@.threads,
                    tasks: kept(before.tasks, filter),
                    ..before
                }),
                filter == TaskFilter::ThreadNotIn(active),
                before.wf(),
                forall|id: u64|
                    #[trigger] self@.threads.contains_key(id) <==> before.threads.contains_key(id)
                        && (active@.contains(id) || !walk@.take(i as int).contains(id)),
                forall|id: u64| #[trigger]
                    self@.threads.contains_key(id) ==> self@.threads[id] == before.threads[id],
            decreases walk.len() - i,
        {
            let id: u64 = walk[i];
            assert(walk@.contains(id));
            proof {
                lemma_take_next(walk@, i as int);
            }
            if !lists(&active, id) {
                let ghost prior = self@;
                if handle_shape(id) {
                    let _ = self.threads.remove(id);
                }
                assert(self@.threads =~= prior.threads.remove(id));
            }
            i = i + 1;
        }
        assert(walk@.take(i as int) =~= walk@);
        assert(self@.threads =~= listed(before.threads, active@));
        self.last_thread_count = count;
        let hashrate = self.operational_hashrate();
        Some(ThreadDeparture { removed, hashrate })
    }
}

/// What a thread is asked to do.
#[derive(Clone, Copy, Debug, PartialEq, Eq, Structural)]
pub enum ThreadAction {
    SetPaused(bool),
    SetFrequency { khz: u32 },
    SetVoltage { microvolts: u32 },
}

impl ThreadAction {
    /// The name under which a failure is reported.
    pub open spec fn label(&self) -> Seq<char> {
        match self {
            ThreadAction::SetPaused(_) => "set_paused"@,
            ThreadAction::SetFrequency { .. } => "set_frequency"@,
            ThreadAction::SetVoltage { .. } => "set_voltage"@,
        }
    }

    /// The name under which a failure is reported.
    pub fn name(&self) -> (r: &'static str)
        ensures
            r@ == self.label(),
    {
        match self {
            ThreadAction::SetPaused(_) => "set_paused",
            ThreadAction::SetFrequency { .. } => "set_frequency",
            ThreadAction::SetVoltage { .. } => "set_voltage",
        }
    }
}

/// One operation on one thread.
#[derive(Clone, Copy, Debug, PartialEq, Eq, Structural)]
pub struct ThreadOp {
    pub thread_id: u64,
    pub action: ThreadAction,
}

/// The same action on each thread.
pub open spec fn on_each(walk: Seq<u64>, action: ThreadAction) -> Seq<ThreadOp> {
    walk.map_values(|thread_id: u64| ThreadOp { thread_id, action })
}

/// How an operation on a thread ended.
#[derive(Clone, Debug)]
pub enum OpOutcome {
    Done,
    Failed(String),
    TimedOut,
}

/// What to do about a command: operations in this order, then jobs to hand out
/// again. The reply is the last failure where `reports_failures` is set, and
/// success otherwise.
#[derive(Debug)]
pub struct CommandPlan {
    pub ops: Vec<ThreadOp>,
    pub redispatch: Vec<SourceJob>,
    pub reports_failures: bool,
}

/// Folds the outcome of an operation into the last failure. A timeout means
/// that the chain stopped replying; it is recorded, and the others go on.
pub fn guard_thread_op(outcome: OpOutcome, op: &str, last_err: &mut Option<String>)
    ensures
        op_guarded(outcome, op@, *old(last_err), *final(last_err)),
{
    match outcome {
        OpOutcome::Done => {},
        OpOutcome::Failed(e) => {
            *last_err = Some(e);
        },
        OpOutcome::TimedOut => {
            let mut text = String::new();
            push_text(&mut text, op);
            push_text(&mut text, " timed out");
            assert(text@ =~= op@ + " timed out"@);
            *last_err = Some(text);
        },
    }
}

/// Appends the same action for each thread.
fn append_ops(ops: &mut Vec<ThreadOp>, walk: &Vec<u64>, action: ThreadAction)
    ensures
        final(ops)@ == old(ops)@ + on_each(walk@, action),
{
    let ghost before = ops@;
    let mut i: usize = 0;
    while i < walk.len()
        invariant
            i <= walk.len(),
            ops@ == before + on_each(walk@.take(i as int), action),
        decreases walk.len() - i,
    {
        ops.push(ThreadOp { thread_id: walk[i], action });
        assert(on_each(walk@.take(i + 1), action) =~= on_each(walk@.take(i as int), action).push(
            ThreadOp { thread_id: walk@[i as int], action },
        ));
        i = i + 1;
    }
    assert(walk@.take(i as int) =~= walk@);
}

/// The operations that set an operating point, in the order that never runs a
/// high frequency at a low voltage: when the voltage falls, every chain drops
/// its frequency first; otherwise the voltage is raised first.
pub open spec fn operating_point_ops(
    walk: Seq<u64>,
    from_microvolts: u32,
    khz: u32,
    microvolts: u32,
) -> Seq<ThreadOp> {
    let frequency = on_each(walk, ThreadAction::SetFrequency { khz });
    let voltage = on_each(walk, ThreadAction::SetVoltage { microvolts });
    if microvolts < from_microvolts {
        frequency + voltage
    } else {
        voltage + frequency
    }
}

/// While the voltage is being lowered no frequency change follows a voltage
/// change, and while it is being raised no voltage change follows a frequency
/// change; either way every thread gets both.
pub proof fn law_operating_point_order(
    walk: Seq<u64>,
    from_microvolts: u32,
    khz: u32,
    microvolts: u32,
)
    ensures
        ({
            let ops = operating_point_ops(walk, from_microvolts, khz, microvolts);
            &&& forall|i: int, j: int|
                0 <= i < j < ops.len() && microvolts < from_microvolts && (
                #[trigger] ops[i]).action is SetVoltage ==> (
                #[trigger] ops[j]).action is SetVoltage
            &&& forall|i: int, j: int|
                0 <= i < j < ops.len() && microvolts >= from_microvolts && (
                #[trigger] ops[i]).action is SetFrequency ==> (
                #[trigger] ops[j]).action is SetFrequency
            &&& forall|id: u64|
                walk.contains(id) ==> ops.contains(
                    ThreadOp { thread_id: id, action: ThreadAction::SetFrequency { khz } },
                ) && ops.contains(
                    ThreadOp { thread_id: id, action: ThreadAction::SetVoltage { microvolts } },
                )
        }),
{
    let ops = operating_point_ops(walk, from_microvolts, khz, microvolts);
    assert forall|id: u64| walk.contains(id) implies ops.contains(
        ThreadOp { thread_id: id, action: ThreadAction::SetFrequency { khz } },
    ) && ops.contains(
        ThreadOp { thread_id: id, action: ThreadAction::SetVoltage { microvolts } },
    ) by {
        let i = choose|i: int| 0 <= i < walk.len() && walk[i] == id;
        assert(on_each(walk, ThreadAction::SetFrequency { khz })[i].thread_id == id);
        assert(on_each(walk, ThreadAction::SetVoltage { microvolts })[i].thread_id == id);
        assert(ops[i].thread_id == id && ops[walk.len() + i].thread_id == id);
    }
}

/// The threads with their measurements cleared.
pub open spec fn unmeasured(threads: Map<u64, ThreadEntry>) -> Map<u64, ThreadEntry> {
    Map::new(
        |id: u64| threads.contains_key(id),
        |id: u64| ThreadEntry { measured: HashRate(0), settled: None, ..threads[id] },
    )
}

/// The state once mining is paused: rates are measured anew afterwards.
pub open spec fn when_paused(state: SchedulerState) -> SchedulerState {
    if state.paused {
        state
    } else {
        SchedulerState { paused: true, threads: unmeasured(state.threads), ..state }
    }
}

/// The state once mining is resumed. Chains come up cold, at the cold-init
/// voltage.
pub open spec fn when_resumed(state: SchedulerState) -> SchedulerState {
    if state.paused {
        SchedulerState { paused: false, microvolts: COLD_INIT_MICROVOLTS, ..state }
    } else {
        state
    }
}

/// Pausing twice is pausing once, and so with resuming. Resuming after a pause
/// leaves everything as it was but for the measurements, which start over, and
/// the voltage, which is that of a cold init; so every job that was cached is
/// handed out again.
pub proof fn law_pause_and_resume(state: SchedulerState)
    ensures
        when_paused(when_paused(state)) == when_paused(state),
        when_resumed(when_resumed(state)) == when_resumed(state),
        !state.paused ==> when_resumed(when_paused(state)) == (SchedulerState {
            threads: unmeasured(state.threads),
            microvolts: COLD_INIT_MICROVOLTS,
            ..state
        }),
        unmeasured(state.threads).dom() == state.threads.dom(),
        sources_with_job(when_paused(state).sources) == sources_with_job(state.sources),
{
    assert(unmeasured(state.threads).dom() =~= state.threads.dom());
}

impl Scheduler {
    /// Clears every thread's measurements.
    fn clear_measurements(&mut self)
        requires
            old(self).wf(),
        ensures
            final(self).wf(),
            final(self)@ == (SchedulerState {
                threads: unmeasured(old(self)@.threads),
                ..old(self)@
            }),
    {
        let ghost before = self@;
        let walk = self.thread_ids();
        let mut i: usize = 0;
        while i < walk.len()
            invariant
                self.wf(),
                is_walk(before.threads.dom(), walk@),
                i <= walk.len(),
                self@ == (SchedulerState { threads: self@.threads, ..before }),
                self@.threads.dom() == before.threads.dom(),
                forall|id: u64| #[trigger]
                    before.threads.contains_key(id) ==> self@.threads[id] == if walk@.take(
                        i as int,
                    ).contains(id) {
                        unmeasured(before.threads)[id]
                    } else {
                        before.threads[id]
                    },
            decreases walk.len() - i,
        {
            let id: u64 = walk[i];
            assert(walk@.contains(id));
            let ghost prior = self@;
            self.observe_rate(id, HashRate(0), None);
            assert(self@.threads.dom() =~= before.threads.dom());
            proof {
                lemma_take_next(walk@, i as int);
            }
            i = i + 1;
        }
        assert(walk@.take(i as int) =~= walk@);
        assert(self@.threads =~= unmeasured(before.threads));
    }

    /// Plans an API command. Pausing a paused scheduler, and resuming one that
    /// is not, does nothing.
    pub fn handle_api_command(&mut self, cmd: SchedulerCommand) -> (r: CommandPlan)
        requires
            old(self).wf(),
        ensures
            final(self).wf(),
            command_planned(old(self)@, cmd, r, final(self)@),
    {
        let walk = self.thread_ids();
        let mut ops: Vec<ThreadOp> = Vec::new();
        match cmd {
            SchedulerCommand::PauseMining => {
                if !self.paused {
                    self.paused = true;
                    append_ops(&mut ops, &walk, ThreadAction::SetPaused(true));
                    self.clear_measurements();
                }
                CommandPlan { ops, redispatch: Vec::new(), reports_failures: false }
            },
            SchedulerCommand::ResumeMining => {
                if self.paused {
                    let redispatch = self.cached_jobs();
                    self.paused = false;
                    self.microvolts = COLD_INIT_MICROVOLTS;
                    append_ops(&mut ops, &walk, ThreadAction::SetPaused(false));
                    CommandPlan { ops, redispatch, reports_failures: false }
                } else {
                    CommandPlan { ops, redispatch: Vec::new(), reports_failures: false }
                }
            },
            SchedulerCommand::SetFrequency { khz } => {
                append_ops(&mut ops, &walk, ThreadAction::SetFrequency { khz });
                CommandPlan { ops, redispatch: Vec::new(), reports_failures: true }
            },
            SchedulerCommand::SetOperatingPoint { khz, microvolts } => {
                if microvolts < self.microvolts {
                    append_ops(&mut ops, &walk, ThreadAction::SetFrequency { khz });
                    append_ops(&mut ops, &walk, ThreadAction::SetVoltage { microvolts });
                } else {
                    append_ops(&mut ops, &walk, ThreadAction::SetVoltage { microvolts });
                    append_ops(&mut ops, &walk, ThreadAction::SetFrequency { khz });
                }
                self.microvolts = microvolts;
                CommandPlan { ops, redispatch: Vec::new(), reports_failures: true }
            },
        }
    }
}

impl CommandPlan {
    /// The reply to the command, given the last failure of its operations.
    pub fn reply(&self, last_err: Option<String>) -> (r: Result<(), String>)
        ensures
            replied(self.reports_failures, last_err, r),
    {
        match last_err {
            Some(e) => if self.reports_failures {
                Err(e)
            } else {
                Ok(())
            },
            None => Ok(()),
        }
    }
}

/// A source as the API shows it.
pub open spec fn source_state(entry: SourceEntry) -> SourceState {
    SourceState {
        name: entry.name,
        url: entry.url,
        difficulty: match entry.last_job {
            Some(job) => Some(difficulty_of(job.share_target@)),
            None => None,
        },
    }
}

/// A line of the periodic status log.
#[derive(Debug)]
pub struct StatusSummary {
    pub uptime: String,
    /// None while nothing has been measured.
    pub hashrate: Option<HashRate>,
    pub shares: u64,
}

impl Scheduler {
    /// A snapshot of the state for the API. Boards report theirs elsewhere, so
    /// there is none here.
    pub fn compute_miner_state(&self, uptime_secs: u64) -> (r: MinerState)
        requires
            self.wf(),
        ensures
            miner_shown(self@, uptime_secs, r),
    {
        let hashrate: u64 = self.measured_hashrate().0;
        let walk = self.source_ids();
        let ghost show = |id: u64| source_state(self@.sources[id]);
        let mut sources: Vec<SourceState> = Vec::new();
        let mut i: usize = 0;
        while i < walk.len()
            invariant
                self.wf(),
                walk@ == walk_of(self@.sources.dom()),
                is_walk(self@.sources.dom(), walk@),
                show == (|id: u64| source_state(self@.sources[id])),
                i <= walk.len(),
                sources@ =~= walk@.take(i as int).map_values(show),
            decreases walk.len() - i,
        {
            let id: u64 = walk[i];
            assert(walk@.contains(id));
            if let Some(entry) = self.source(id) {
                let url: Option<String> = match &entry.url {
                    Some(url) => Some(url.clone()),
                    None => None,
                };
                let difficulty: Option<u64> = match &entry.last_job {
                    Some(job) => Some(Difficulty::from_target(job.share_target).0),
                    None => None,
                };
                sources.push(SourceState { name: entry.name.clone(), url, difficulty });
                assert(sources@.last() == show(id));
            }
            i = i + 1;
        }
        assert(walk@.take(i as int) =~= walk@);
        MinerState {
            uptime_secs,
            hashrate,
            shares_submitted: self.shares_submitted,
            best_difficulty: self.best_difficulty,
            paused: self.paused,
            boards: Vec::new(),
            sources,
        }
    }

    /// The periodic status line.
    pub fn log_summary(&self, uptime_secs: u64) -> (r: StatusSummary)
        requires
            self.wf(),
        ensures
            summary_shown(self@, uptime_secs, r),
    {
        let rate = self.measured_hashrate();
        StatusSummary {
            uptime: format_duration(uptime_secs),
            hashrate: if rate.is_zero() {
                None
            } else {
                Some(rate)
            },
            shares: self.shares_submitted,
        }
    }
}

/// What becomes of a job that a source sent: what is planned, and the state
/// afterwards.
pub open spec fn job_assigned(
    before: SchedulerState,
    mode: AssignMode,
    source_id: u64,
    job: JobTemplate,
    r: Assignment,
    after: SchedulerState,
) -> bool {
    &&& *r.template == job
    &&& job.merkle_root is Fixed ==> r.outcome is HeaderOnly && !r.reset_alarm && after
        == before
    &&& job.merkle_root is Computed ==> {
        let cached = with_job(before.sources, source_id, Some(r.template));
        &&& r.reset_alarm == (before.sources.contains_key(source_id) && target_changes(
            before.sources[source_id],
            job,
        ))
        &&& match r.outcome {
            AssignOutcome::HeaderOnly => false,
            AssignOutcome::NoThreads => {
                &&& before.threads.len() == 0
                &&& after == (SchedulerState { sources: cached, ..before })
            },
            AssignOutcome::Paused => {
                &&& before.threads.len() > 0
                &&& before.paused
                &&& after == (SchedulerState { sources: cached, ..before })
            },
            AssignOutcome::Dispatch { too_high: alarm, removed, tasks } => {
                let filter = TaskFilter::OfSource(source_id);
                let walk = walk_of(before.threads.dom());
                let slices = job_range(job).slices(before.threads.len());
                &&& before.threads.len() > 0
                &&& !before.paused
                &&& alarm == if before.sources.contains_key(source_id) {
                    Some(
                        too_high(
                            job.share_target@,
                            saturating_sum(operational_rates(before.threads)),
                        ),
                    )
                } else {
                    None
                }
                &&& after == (SchedulerState {
                    sources: cached,
                    tasks: if mode == AssignMode::Replace {
                        kept(before.tasks, filter)
                    } else {
                        before.tasks
                    },
                    ..before
                })
                &&& removed@ == if mode == AssignMode::Replace {
                    dropped(before.tasks, filter)
                } else {
                    Seq::<u64>::empty()
                }
                &&& tasks@.len() == walk.len() == before.threads.len()
                &&& forall|i: int|
                    0 <= i < walk.len() ==> (#[trigger] tasks@[i]).thread_id == walk[i]
                        && task_for(
                        tasks@[i].task,
                        r.template,
                        slices[i],
                        before.threads[walk[i]].rate().0,
                    )
            },
        }
    }
}

/// What becomes of a share, and the state afterwards.
pub open spec fn share_handled(
    before: SchedulerState,
    task_id: u64,
    share: Share,
    r: ShareOutcome,
    after: SchedulerState,
) -> bool {
    &&& match r {
        ShareOutcome::Paused => before.paused && after == before,
        ShareOutcome::UnknownTask => {
            &&& !before.paused
            &&& !before.tasks.contains_key(task_id)
            &&& after == before
        },
        ShareOutcome::Counted { thread_id, submission } => {
            let task = before.tasks[task_id];
            let met = le_value(share.hash@) <= task.template.share_target@;
            let known = before.sources.contains_key(task.source_id);
            &&& !before.paused
            &&& before.tasks.contains_key(task_id)
            &&& thread_id == task.thread_id
            &&& after == (SchedulerState {
                best_difficulty: Some(
                    better(before.best_difficulty, difficulty_of(le_value(share.hash@))),
                ),
                shares_submitted: (before.shares_submitted + if met {
                    1int
                } else {
                    0
                }) as u64,
                ..before
            })
            &&& match submission {
                Submission::BelowTarget => !met,
                Submission::ToSource { source_id, share: submitted } => {
                    &&& met && known
                    &&& source_id == task.source_id
                    &&& submitted == submission_of(share, task.template.id)
                },
                Submission::UnknownSource { source_id } => {
                    &&& met && !known
                    &&& source_id == task.source_id
                },
            }
        },
    }
}

/// What is planned for a thread that has arrived, and the state afterwards.
pub open spec fn thread_arrived(
    before: SchedulerState,
    name: String,
    hashrate_estimate: HashRate,
    stream_count: usize,
    r: ThreadArrival,
    after: SchedulerState,
) -> bool {
    &&& !before.threads.contains_key(r.thread_id)
    &&& after == (SchedulerState {
        threads: before.threads.insert(
            r.thread_id,
            ThreadEntry {
                name,
                hashrate_estimate,
                measured: HashRate(0),
                settled: None,
            },
        ),
        last_thread_count: stream_count,
        ..before
    })
    &&& r.hashrate.0 == saturating_sum(operational_rates(after.threads))
    &&& before.paused ==> r.tasks@.len() == 0
    &&& !before.paused ==> r.tasks@.len() == sources_with_job(before.sources).len()
    &&& forall|i: int|
        0 <= i < r.tasks@.len() ==> {
            let id = sources_with_job(before.sources)[i];
            let job = before.sources[id].last_job->0;
            &&& (#[trigger] r.tasks@[i]).source_id == id
            &&& task_for(r.tasks@[i].task, job, job_range(*job), hashrate_estimate.0)
        }
}

/// What is planned about threads that have gone, and the state afterwards.
pub open spec fn threads_departed(
    before: SchedulerState,
    active: Vec<u64>,
    r: Option<ThreadDeparture>,
    after: SchedulerState,
) -> bool {
    &&& r is None <==> active@.len() == before.last_thread_count
    &&& r is None ==> after == before
    &&& r matches Some(departure) ==> {
        &&& after == (SchedulerState {
            threads: listed(before.threads, active@),
            tasks: kept(before.tasks, TaskFilter::ThreadNotIn(active)),
            last_thread_count: active@.len() as usize,
            ..before
        })
        &&& departure.removed@ == dropped(
            before.tasks,
            TaskFilter::ThreadNotIn(active),
        )
        &&& departure.hashrate.0 == saturating_sum(
            operational_rates(listed(before.threads, active@)),
        )
    }
}

/// What is planned for a command, and the state afterwards.
pub open spec fn command_planned(
    before: SchedulerState,
    cmd: SchedulerCommand,
    r: CommandPlan,
    after: SchedulerState,
) -> bool {
    &&& match cmd {
        SchedulerCommand::PauseMining => {
            &&& !r.reports_failures
            &&& r.redispatch@.len() == 0
            &&& after == when_paused(before)
            &&& r.ops@ == if before.paused {
                Seq::<ThreadOp>::empty()
            } else {
                on_each(walk_of(before.threads.dom()), ThreadAction::SetPaused(true))
            }
        },
        SchedulerCommand::ResumeMining => {
            &&& !r.reports_failures
            &&& after == when_resumed(before)
            &&& !before.paused ==> r.ops@.len() == 0 && r.redispatch@.len() == 0
            &&& before.paused ==> {
                &&& r.ops@ == on_each(
                    walk_of(before.threads.dom()),
                    ThreadAction::SetPaused(false),
                )
                &&& r.redispatch@.len() == sources_with_job(before.sources).len()
                &&& forall|i: int|
                    0 <= i < r.redispatch@.len() ==> {
                        let id = sources_with_job(before.sources)[i];
                        &&& (#[trigger] r.redispatch@[i]).source_id == id
                        &&& before.sources[id].last_job == Some(
                            r.redispatch@[i].template,
                        )
                        &&& dispatchable(*r.redispatch@[i].template)
                    }
            }
        },
        SchedulerCommand::SetFrequency { khz } => {
            &&& r.reports_failures
            &&& r.redispatch@.len() == 0
            &&& r.ops@ == on_each(
                walk_of(before.threads.dom()),
                ThreadAction::SetFrequency { khz },
            )
            &&& after == before
        },
        SchedulerCommand::SetOperatingPoint { khz, microvolts } => {
            &&& r.reports_failures
            &&& r.redispatch@.len() == 0
            &&& r.ops@ == operating_point_ops(
                walk_of(before.threads.dom()),
                before.microvolts,
                khz,
                microvolts,
            )
            &&& after == (SchedulerState { microvolts, ..before })
        },
    }
}

/// What clearing a source's jobs drops, and the state afterwards.
pub open spec fn jobs_cleared(
    before: SchedulerState,
    source_id: u64,
    removed: Vec<u64>,
    after: SchedulerState,
) -> bool {
    &&& after == (SchedulerState {
        sources: with_job(before.sources, source_id, None),
        tasks: kept(before.tasks, TaskFilter::OfSource(source_id)),
        ..before
    })
    &&& removed@ == dropped(before.tasks, TaskFilter::OfSource(source_id))
}

/// What booking a task changes.
pub open spec fn task_recorded(
    before: SchedulerState,
    source_id: u64,
    thread_id: u64,
    template: Arc<JobTemplate>,
    task_id: u64,
    after: SchedulerState,
) -> bool {
    &&& !before.tasks.contains_key(task_id)
    &&& after == (SchedulerState {
        tasks: before.tasks.insert(
            task_id,
            TaskEntry { source_id, template, thread_id },
        ),
        ..before
    })
}

/// What registering a source changes, and what is returned.
pub open spec fn source_registered(
    before: SchedulerState,
    name: String,
    url: Option<String>,
    r: (u64, HashRate),
    after: SchedulerState,
) -> bool {
    &&& !before.sources.contains_key(r.0)
    &&& after == (SchedulerState {
        sources: before.sources.insert(
            r.0,
            SourceEntry { name, url, last_job: None },
        ),
        ..before
    })
    &&& r.1.0 == saturating_sum(operational_rates(before.threads))
}

/// What an estimator's report changes.
pub open spec fn rate_observed(
    before: SchedulerState,
    thread_id: u64,
    measured: HashRate,
    settled: Option<HashRate>,
    after: SchedulerState,
) -> bool {
    &&& after == (SchedulerState {
        threads: if before.threads.contains_key(thread_id) {
            before.threads.insert(
                thread_id,
                ThreadEntry { measured, settled, ..before.threads[thread_id] },
            )
        } else {
            before.threads
        },
        ..before
    })
}

/// Seconds as a compact duration: the two most significant units from days,
/// hours, minutes and seconds.
pub open spec fn duration_text(secs: u64) -> Seq<char> {
    if secs >= 86400 {
        decimal((secs / 86400) as nat) + "d "@ + decimal((secs % 86400 / 3600) as nat) + "h"@
    } else if secs >= 3600 {
        decimal((secs / 3600) as nat) + "h "@ + decimal((secs % 3600 / 60) as nat) + "m"@
    } else if secs >= 60 {
        decimal((secs / 60) as nat) + "m "@ + decimal((secs % 60) as nat) + "s"@
    } else {
        decimal(secs as nat) + "s"@
    }
}

/// Formats seconds as a compact duration.
pub fn format_duration(secs: u64) -> (r: String)
    ensures
        r@ == duration_text(secs),
{
    let mut text = String::new();
    if secs >= 86400 {
        push_decimal(&mut text, secs / 86400);
        push_text(&mut text, "d ");
        push_decimal(&mut text, secs % 86400 / 3600);
        push_text(&mut text, "h");
    } else if secs >= 3600 {
        push_decimal(&mut text, secs / 3600);
        push_text(&mut text, "h ");
        push_decimal(&mut text, secs % 3600 / 60);
        push_text(&mut text, "m");
    } else if secs >= 60 {
        push_decimal(&mut text, secs / 60);
        push_text(&mut text, "m ");
        push_decimal(&mut text, secs % 60);
        push_text(&mut text, "s");
    } else {
        push_decimal(&mut text, secs);
        push_text(&mut text, "s");
    }
    assert(text@ =~= duration_text(secs));
    text
}

/// Every task that a job is handed out as is work on that very job: it starts at
/// the job's own time, on the first extranonce2 value of its share of the job's
/// range, so the header that the chips are first sent carries the job's version,
/// previous hash, time and bits. It goes to a thread that is registered.
pub proof fn law_dispatched_tasks_work_on_the_job(
    before: SchedulerState,
    mode: AssignMode,
    source_id: u64,
    job: JobTemplate,
    r: Assignment,
    after: SchedulerState,
    tasks: Seq<ThreadTask>,
    i: int,
    chip_job_id: u8,
    root: [u8; 32],
)
    requires
        job_assigned(before, mode, source_id, job, r, after),
        job.wf(),
        r.outcome matches AssignOutcome::Dispatch { tasks: all, .. } && all@ == tasks,
        before.threads.len() <= job_range(job).count(),
        is_walk(before.threads.dom(), walk_of(before.threads.dom())),
        0 <= i < tasks.len(),
    ensures
        ({
            let task = tasks[i].task;
            let sent = job_of(task, chip_job_id, root);
            let whole = job.merkle_root->Computed_0.extranonce2_range;
            &&& before.threads.contains_key(tasks[i].thread_id)
            &&& *task.template == job
            &&& task.ntime == job.time
            &&& sent.ntime == job.time
            &&& sent.nbits == job.bits
            &&& sent.version == job.version
            &&& sent.prev_block_hash == job.prev_blockhash
            &&& task.en2_range matches Some(range) && task.en2 matches Some(en2) && {
                &&& whole.min <= range.min <= range.max <= whole.max
                &&& range.size == whole.size
                &&& en2.value == range.min
                &&& en2.size == whole.size
            }
            &&& task.merkle_root() == Some(job.merkle_root->Computed_0.root(task.en2->0))
        }),
{
    let n = before.threads.len();
    let range = job_range(job);
    let walk = walk_of(before.threads.dom());
    assert(walk.contains(walk[i]));
    law_split_is_even(range, n, i, 0);
    law_split_partitions(range, n, range.slices(n)[i].min as int);
    law_split_partitions(range, n, range.slices(n)[i].max as int);
    assert(range.slices(n)[i].wf());
    assert(range.slices(n)[i].contains(range.slices(n)[i].min as int));
    assert(range.slices(n)[i].contains(range.slices(n)[i].max as int));
}

/// Each thread gets one task, and each extranonce2 value of the job belongs to
/// one task: no two threads do the same work, and none of it is left out.
pub proof fn law_dispatch_shares_out_the_job(
    before: SchedulerState,
    mode: AssignMode,
    source_id: u64,
    job: JobTemplate,
    r: Assignment,
    after: SchedulerState,
    tasks: Seq<ThreadTask>,
    thread_id: u64,
    value: int,
)
    requires
        job_assigned(before, mode, source_id, job, r, after),
        job.wf(),
        r.outcome matches AssignOutcome::Dispatch { tasks: all, .. } && all@ == tasks,
        before.threads.len() <= job_range(job).count(),
        is_walk(before.threads.dom(), walk_of(before.threads.dom())),
    ensures
        before.threads.contains_key(thread_id) <==> exists|i: int|
            0 <= i < tasks.len() && (#[trigger] tasks[i]).thread_id == thread_id,
        forall|i: int, j: int|
            0 <= i < j < tasks.len() ==> (#[trigger] tasks[i]).thread_id != (
            #[trigger] tasks[j]).thread_id,
        job.merkle_root->Computed_0.extranonce2_range.min <= value
            <= job.merkle_root->Computed_0.extranonce2_range.max <==> exists|i: int|
            0 <= i < tasks.len() && allots((#[trigger] tasks[i]).task, value),
        forall|i: int, j: int|
            0 <= i < j < tasks.len() ==> !(allots((#[trigger] tasks[i]).task, value) && allots(
                (#[trigger] tasks[j]).task,
                value,
            )),
{
    let n = before.threads.len();
    let range = job_range(job);
    let slices = range.slices(n);
    let walk = walk_of(before.threads.dom());
    lemma_walk(before.threads.dom(), walk);
    law_split_partitions(range, n, value);
    assert forall|i: int| 0 <= i < tasks.len() implies tasks[i].thread_id == walk[i] && allots(
        (#[trigger] tasks[i]).task,
        value,
    ) == slices[i].contains(value) by {
        assert(task_for(tasks[i].task, r.template, slices[i], before.threads[walk[i]].rate().0));
    }
    if before.threads.contains_key(thread_id) {
        assert(walk.contains(thread_id));
        let i = choose|i: int| 0 <= i < walk.len() && walk[i] == thread_id;
        assert(tasks[i].thread_id == thread_id);
    }
    if exists|i: int| 0 <= i < tasks.len() && (#[trigger] tasks[i]).thread_id == thread_id {
        let i = choose|i: int| 0 <= i < tasks.len() && (#[trigger] tasks[i]).thread_id == thread_id;
        assert(walk.contains(walk[i]));
    }
    assert(range.contains(value) <==> range.min <= value <= range.max);
    if range.contains(value) {
        let i = choose|i: int| 0 <= i < n && (#[trigger] slices[i]).contains(value);
        assert(allots(tasks[i].task, value));
    }
    if exists|i: int| 0 <= i < tasks.len() && allots((#[trigger] tasks[i]).task, value) {
        let i = choose|i: int| 0 <= i < tasks.len() && allots((#[trigger] tasks[i]).task, value);
        assert(slices[i].contains(value));
    }
    assert forall|i: int, j: int| 0 <= i < j < tasks.len() implies !(allots(
        (#[trigger] tasks[i]).task,
        value,
    ) && allots((#[trigger] tasks[j]).task, value)) by {
        assert(!(slices[i].contains(value) && slices[j].contains(value)));
    }
}

/// Whether a task may use an extranonce2 value.
pub open spec fn allots(task: HashTask, value: int) -> bool {
    task.en2_range matches Some(range) && range.min <= value <= range.max
}

/// A task reports shares at the source's target as far as its thread would then
/// report between one and ten a second, and at the nearer end of that otherwise;
/// a thread of which no rate is known reports at the source's target.
pub proof fn law_dispatched_targets(
    before: SchedulerState,
    mode: AssignMode,
    source_id: u64,
    job: JobTemplate,
    r: Assignment,
    after: SchedulerState,
    tasks: Seq<ThreadTask>,
    i: int,
)
    requires
        job_assigned(before, mode, source_id, job, r, after),
        r.outcome matches AssignOutcome::Dispatch { tasks: all, .. } && all@ == tasks,
        0 <= i < tasks.len(),
    ensures
        ({
            let thread = before.threads[tasks[i].thread_id];
            let rate = match thread.settled {
                Some(rate) => rate.0,
                None => thread.hashrate_estimate.0,
            };
            let source = job.share_target@;
            let target = tasks[i].task.share_target@;
            let once = inverse(rate as nat);
            let ten_times = inverse((rate / 10) as nat);
            &&& once <= ten_times
            &&& rate == 0 ==> target == source
            &&& rate > 0 && source < once ==> target == once
            &&& rate > 0 && source > ten_times ==> target == ten_times
            &&& once <= source <= ten_times ==> target == source
        }),
{
    let walk = walk_of(before.threads.dom());
    let rate = before.threads[walk[i]].rate().0;
    law_scheduler_target(rate, job.share_target@);
    assert(task_for(
        tasks[i].task,
        r.template,
        job_range(job).slices(before.threads.len())[i],
        rate,
    ));
}

/// What a job changes. Replacing drops the source's tasks and nothing else;
/// adding drops nothing. A job that cannot be handed out drops nothing either. A
/// header-only job changes nothing at all.
pub proof fn law_only_replacing_drops_tasks(
    before: SchedulerState,
    mode: AssignMode,
    source_id: u64,
    job: JobTemplate,
    r: Assignment,
    after: SchedulerState,
    id: u64,
)
    requires
        job_assigned(before, mode, source_id, job, r, after),
        is_walk(before.tasks.dom(), walk_of(before.tasks.dom())),
    ensures
        ({
            let drops = r.outcome is Dispatch && mode == AssignMode::Replace;
            &&& after.tasks.contains_key(id) <==> before.tasks.contains_key(id) && !(drops
                && before.tasks[id].source_id == source_id)
            &&& after.tasks.contains_key(id) ==> after.tasks[id] == before.tasks[id]
            &&& r.outcome matches AssignOutcome::Dispatch { removed, .. } ==> (removed@.contains(
                id,
            ) <==> before.tasks.contains_key(id) && !after.tasks.contains_key(id))
            &&& job.merkle_root is Fixed ==> after == before && r.outcome is HeaderOnly
        }),
{
    law_kept_or_dropped(before.tasks, TaskFilter::OfSource(source_id), id);
}

/// A job that threads can take is kept on its source for threads to come,
/// whether or not it is handed out now; it is handed out unless there is no
/// thread or mining is paused. Nothing but that source's job changes beside the
/// tasks.
pub proof fn law_job_is_cached(
    before: SchedulerState,
    mode: AssignMode,
    source_id: u64,
    job: JobTemplate,
    r: Assignment,
    after: SchedulerState,
    id: u64,
)
    requires
        job_assigned(before, mode, source_id, job, r, after),
        job.merkle_root is Computed,
    ensures
        r.outcome is NoThreads <==> before.threads.len() == 0,
        r.outcome is Paused <==> before.threads.len() > 0 && before.paused,
        r.outcome is Dispatch <==> before.threads.len() > 0 && !before.paused,
        *r.template == job,
        r.reset_alarm <==> before.sources.contains_key(source_id) && (
        before.sources[source_id].last_job matches Some(last) ==> last.share_target@
            != job.share_target@),
        after.sources.contains_key(id) <==> before.sources.contains_key(id),
        before.sources.contains_key(id) ==> {
            &&& after.sources[id].name == before.sources[id].name
            &&& after.sources[id].url == before.sources[id].url
            &&& id == source_id ==> (after.sources[id].last_job matches Some(cached) && *cached
                == job)
            &&& id != source_id ==> after.sources[id].last_job == before.sources[id].last_job
        },
        after.threads == before.threads,
        after.shares_submitted == before.shares_submitted,
        after.best_difficulty == before.best_difficulty,
        after.last_thread_count == before.last_thread_count,
        after.paused == before.paused,
        after.microvolts == before.microvolts,
{
}

/// A known source's alarm hears whether its difficulty is too high: whether a
/// share is expected to take more than 300 seconds of what all threads do
/// together. It starts over when the source asks for another difficulty, and with
/// its first job.
pub proof fn law_alarm_hears_of_jobs(
    before: SchedulerState,
    mode: AssignMode,
    source_id: u64,
    job: JobTemplate,
    r: Assignment,
    after: SchedulerState,
    told: Option<bool>,
)
    requires
        job_assigned(before, mode, source_id, job, r, after),
        job.merkle_root is Computed,
        r.outcome matches AssignOutcome::Dispatch { too_high: heard, .. } && heard == told,
    ensures
        ({
            let known = before.sources.contains_key(source_id);
            let rate = saturating_sum(operational_rates(before.threads));
            &&& told is Some <==> known
            &&& told == Some(true) ==> rate > 0 && inverse(job.share_target@) > 300 * rate
            &&& told == Some(false) ==> rate == 0 || inverse(job.share_target@) <= 300 * rate
            &&& !known ==> !r.reset_alarm
            &&& known ==> match before.sources[source_id].last_job {
                None => r.reset_alarm,
                Some(last) => r.reset_alarm <==> last.share_target@ != job.share_target@,
            }
        }),
{
}

/// Where a share goes. It is dropped while mining is paused or when its task is
/// gone. Otherwise it counts for the thread of its task; the source of its task
/// is sent it exactly when it meets the source's own target, with the nonce, the
/// time, the version and the extranonce2 that it was found with, under the
/// identifier of the job that it was found for.
pub proof fn law_share_reaches_its_source(
    before: SchedulerState,
    task_id: u64,
    share: Share,
    r: ShareOutcome,
    after: SchedulerState,
)
    requires
        share_handled(before, task_id, share, r, after),
    ensures
        ({
            let task = before.tasks[task_id];
            let met = le_value(share.hash@) <= task.template.share_target@;
            let known = before.sources.contains_key(task.source_id);
            &&& before.paused ==> r is Paused
            &&& !before.paused && !before.tasks.contains_key(task_id) ==> r is UnknownTask
            &&& !before.paused && before.tasks.contains_key(task_id) ==> (
            r matches ShareOutcome::Counted { thread_id, submission } && {
                &&& thread_id == task.thread_id
                &&& !met ==> submission is BelowTarget
                &&& met && known ==> (submission matches Submission::ToSource {
                    source_id,
                    share: sent,
                } && {
                    &&& source_id == task.source_id
                    &&& sent.job_id == task.template.id
                    &&& sent.nonce == share.nonce
                    &&& sent.time == share.ntime
                    &&& sent.version == share.version
                    &&& sent.extranonce2 == share.extranonce2
                })
                &&& met && !known ==> (submission matches Submission::UnknownSource { source_id }
                    && source_id == task.source_id)
            })
        }),
{
}

/// What a share changes: the count of shares worth submitting, by one, when it
/// is one; and the best difficulty, which is never less than before nor than that
/// of a share that counted. Nothing else changes.
pub proof fn law_share_is_counted(
    before: SchedulerState,
    task_id: u64,
    share: Share,
    r: ShareOutcome,
    after: SchedulerState,
)
    requires
        share_handled(before, task_id, share, r, after),
        before.shares_submitted < u64::MAX,
    ensures
        after.sources == before.sources,
        after.threads == before.threads,
        after.tasks == before.tasks,
        after.last_thread_count == before.last_thread_count,
        after.paused == before.paused,
        after.microvolts == before.microvolts,
        after.shares_submitted == before.shares_submitted + if !before.paused
            && before.tasks.contains_key(task_id) && le_value(share.hash@)
            <= before.tasks[task_id].template.share_target@ {
            1int
        } else {
            0
        },
        !(r is Counted) ==> after.best_difficulty == before.best_difficulty,
        r is Counted ==> (after.best_difficulty matches Some(best) && {
            let reached = difficulty_of(le_value(share.hash@));
            &&& best >= reached
            &&& before.best_difficulty matches Some(earlier) ==> best >= earlier && (best == earlier
                || best == reached)
            &&& before.best_difficulty is None ==> best == reached
        }),
{
}

/// What a source is sent rebuilds the block header: its hash is that of the
/// share that a chip's nonce gave, and meets the source's target.
pub proof fn law_submission_rebuilds_the_header(
    actor: BM13xxActor,
    nonce: u32,
    job_id: u8,
    version: u16,
    subcore_id: u8,
    share: Share,
    before: SchedulerState,
    task_id: u64,
    r: ShareOutcome,
    after: SchedulerState,
    sent: SourceShare,
)
    requires
        actor.wf(),
        nonce_judged(actor, nonce, job_id, version, subcore_id, NonceVerdict::Valid(share)),
        share_handled(before, task_id, share, r, after),
        actor.chip_jobs.tasks@[response_job_id(job_id, subcore_id) as int]->0.template
            == before.tasks[task_id].template,
        r matches ShareOutcome::Counted { submission, .. } && submission matches Submission::ToSource {
            share: submitted,
            ..
        } && submitted == sent,
    ensures
        ({
            let job = before.tasks[task_id].template;
            let root = match job.merkle_root {
                MerkleRootKind::Fixed(root) => root@,
                MerkleRootKind::Computed(template) => template.root(sent.extranonce2->0),
            };
            let hash = double_sha256(
                header_bytes(
                    sent.version as i32,
                    job.prev_blockhash@,
                    root,
                    sent.time,
                    job.bits,
                    sent.nonce,
                ),
            );
            &&& sent.job_id == job.id
            &&& hash == share.hash@
            &&& le_value(hash) <= job.share_target@
        }),
{
    law_share_proves_its_header(actor, nonce, job_id, version, subcore_id, share);
    law_share_reaches_its_source(before, task_id, share, r, after);
}

/// A thread that arrives is given every cached job unless mining is paused: the
/// job that its source sent last, from the job's own time, on the job's whole
/// extranonce2 range. It starts with no measured rate, and nothing else changes.
pub proof fn law_new_thread_gets_cached_jobs(
    before: SchedulerState,
    name: String,
    hashrate_estimate: HashRate,
    stream_count: usize,
    r: ThreadArrival,
    after: SchedulerState,
    source_id: u64,
    chip_job_id: u8,
    root: [u8; 32],
)
    requires
        before.wf(),
        thread_arrived(before, name, hashrate_estimate, stream_count, r, after),
        is_walk(before.sources.dom(), walk_of(before.sources.dom())),
    ensures
        before.paused ==> r.tasks@.len() == 0,
        !before.paused && before.sources.contains_key(source_id)
            && before.sources[source_id].last_job is Some ==> exists|i: int|
            0 <= i < r.tasks@.len() && (#[trigger] r.tasks@[i]).source_id == source_id,
        forall|i: int|
            0 <= i < r.tasks@.len() ==> {
                let task = (#[trigger] r.tasks@[i]).task;
                let sent = job_of(task, chip_job_id, root);
                &&& before.sources.contains_key(r.tasks@[i].source_id)
                &&& before.sources[r.tasks@[i].source_id].last_job matches Some(job) && {
                    &&& *task.template == *job
                    &&& task.ntime == job.time
                    &&& sent.ntime == job.time
                    &&& sent.nbits == job.bits
                    &&& sent.version == job.version
                    &&& sent.prev_block_hash == job.prev_blockhash
                    &&& job.merkle_root matches MerkleRootKind::Computed(t) && task.en2_range
                        == Some(t.extranonce2_range) && (task.en2 matches Some(en2) && en2.value
                        == t.extranonce2_range.min && en2.size == t.extranonce2_range.size)
                    &&& hashrate_estimate.0 == 0 ==> task.share_target@ == job.share_target@
                    &&& hashrate_estimate.0 > 0 ==> inverse(hashrate_estimate.0 as nat)
                        <= task.share_target@ <= inverse((hashrate_estimate.0 / 10) as nat)
                    &&& inverse(hashrate_estimate.0 as nat) <= job.share_target@ <= inverse(
                        (hashrate_estimate.0 / 10) as nat,
                    ) ==> task.share_target@ == job.share_target@
                }
            },
{
    let walk = walk_of(before.sources.dom());
    let has_job = |id: u64| before.sources[id].last_job is Some;
    let ids = sources_with_job(before.sources);
    assert(ids == walk.filter(has_job));
    lemma_filter_holds(walk, has_job, source_id);
    if !before.paused && before.sources.contains_key(source_id)
        && before.sources[source_id].last_job is Some {
        assert(walk.contains(source_id) && has_job(source_id));
        assert(ids.contains(source_id));
        let i = choose|i: int| 0 <= i < ids.len() && ids[i] == source_id;
        assert(r.tasks@[i].source_id == source_id);
    }
    assert forall|i: int| 0 <= i < r.tasks@.len() implies before.sources.contains_key(
        (#[trigger] r.tasks@[i]).source_id,
    ) && before.sources[r.tasks@[i].source_id].last_job is Some by {
        lemma_filter_holds(walk, has_job, ids[i]);
        assert(ids.contains(ids[i]));
        assert(walk.contains(ids[i]) && has_job(ids[i]));
    }
    assert forall|i: int| 0 <= i < r.tasks@.len() implies {
        let job = before.sources[(#[trigger] r.tasks@[i]).source_id].last_job->0;
        &&& dispatchable(*job)
        &&& task_for(r.tasks@[i].task, job, job_range(*job), hashrate_estimate.0)
    } by {
        let id = ids[i];
        assert(r.tasks@[i].source_id == id);
        assert(before.sources[id].last_job is Some);
    }
    assert forall|i: int| 0 <= i < r.tasks@.len() implies {
        let target = (#[trigger] r.tasks@[i]).task.share_target@;
        let source = before.sources[r.tasks@[i].source_id].last_job->0.share_target@;
        &&& hashrate_estimate.0 == 0 ==> target == source
        &&& hashrate_estimate.0 > 0 ==> inverse(hashrate_estimate.0 as nat) <= target <= inverse(
            (hashrate_estimate.0 / 10) as nat,
        )
        &&& inverse(hashrate_estimate.0 as nat) <= source <= inverse(
            (hashrate_estimate.0 / 10) as nat,
        ) ==> target == source
    } by {
        law_scheduler_target(
            hashrate_estimate.0,
            before.sources[r.tasks@[i].source_id].last_job->0.share_target@,
        );
    }
}

/// A thread that arrives is registered under a new handle, with the rate that it
/// claims and nothing measured; every other thread, and all else, stays.
pub proof fn law_new_thread_is_registered(
    before: SchedulerState,
    name: String,
    hashrate_estimate: HashRate,
    stream_count: usize,
    r: ThreadArrival,
    after: SchedulerState,
    id: u64,
)
    requires
        thread_arrived(before, name, hashrate_estimate, stream_count, r, after),
    ensures
        !before.threads.contains_key(r.thread_id),
        after.threads.contains_key(id) <==> before.threads.contains_key(id) || id == r.thread_id,
        before.threads.contains_key(id) ==> after.threads[id] == before.threads[id],
        after.threads[r.thread_id].name == name,
        after.threads[r.thread_id].hashrate_estimate == hashrate_estimate,
        after.threads[r.thread_id].measured.0 == 0,
        after.threads[r.thread_id].settled is None,
        r.hashrate.0 == saturating_sum(operational_rates(after.threads)),
        after.last_thread_count == stream_count,
        after.sources == before.sources,
        after.tasks == before.tasks,
        after.shares_submitted == before.shares_submitted,
        after.best_difficulty == before.best_difficulty,
        after.paused == before.paused,
        after.microvolts == before.microvolts,
{
}

/// When the number of event streams has changed, the threads without one are
/// gone, with their tasks, and no other; when it has not, nothing changes.
pub proof fn law_departed_threads_leave_no_task(
    before: SchedulerState,
    active: Vec<u64>,
    r: Option<ThreadDeparture>,
    after: SchedulerState,
    id: u64,
)
    requires
        threads_departed(before, active, r, after),
        is_walk(before.tasks.dom(), walk_of(before.tasks.dom())),
    ensures
        r is None <==> active@.len() == before.last_thread_count,
        r is None ==> after == before,
        r matches Some(departure) ==> {
            &&& after.threads.contains_key(id) <==> before.threads.contains_key(id)
                && active@.contains(id)
            &&& after.threads.contains_key(id) ==> after.threads[id] == before.threads[id]
            &&& after.tasks.contains_key(id) <==> before.tasks.contains_key(id) && active@.contains(
                before.tasks[id].thread_id,
            )
            &&& after.tasks.contains_key(id) ==> after.tasks[id] == before.tasks[id]
            &&& departure.removed@.contains(id) <==> before.tasks.contains_key(id)
                && !active@.contains(before.tasks[id].thread_id)
            &&& departure.hashrate.0 == saturating_sum(operational_rates(after.threads))
            &&& after.last_thread_count == active@.len()
            &&& after.sources == before.sources
            &&& after.shares_submitted == before.shares_submitted
            &&& after.best_difficulty == before.best_difficulty
            &&& after.paused == before.paused
            &&& after.microvolts == before.microvolts
        },
{
    law_kept_or_dropped(before.tasks, TaskFilter::ThreadNotIn(active), id);
    let count: usize = active.len();
    assert(active@.len() == count);
}

/// Clearing a source's jobs forgets its cached job and drops its tasks, and no
/// other source's.
pub proof fn law_cleared_source_has_no_work(
    before: SchedulerState,
    source_id: u64,
    removed: Vec<u64>,
    after: SchedulerState,
    id: u64,
)
    requires
        jobs_cleared(before, source_id, removed, after),
        is_walk(before.tasks.dom(), walk_of(before.tasks.dom())),
    ensures
        after.tasks.contains_key(id) <==> before.tasks.contains_key(id)
            && before.tasks[id].source_id != source_id,
        after.tasks.contains_key(id) ==> after.tasks[id] == before.tasks[id],
        removed@.contains(id) <==> before.tasks.contains_key(id) && before.tasks[id].source_id
            == source_id,
        after.sources.contains_key(id) <==> before.sources.contains_key(id),
        before.sources.contains_key(id) ==> {
            &&& after.sources[id].name == before.sources[id].name
            &&& after.sources[id].url == before.sources[id].url
            &&& id == source_id ==> after.sources[id].last_job is None
            &&& id != source_id ==> after.sources[id].last_job == before.sources[id].last_job
        },
        after.threads == before.threads,
        after.shares_submitted == before.shares_submitted,
        after.best_difficulty == before.best_difficulty,
        after.last_thread_count == before.last_thread_count,
        after.paused == before.paused,
        after.microvolts == before.microvolts,
{
    law_kept_or_dropped(before.tasks, TaskFilter::OfSource(source_id), id);
}

/// A share of a task that was booked is counted for the thread that took the
/// task and judged by the target of the job that the task is work on.
pub proof fn law_booked_task_routes_its_shares(
    before: SchedulerState,
    source_id: u64,
    thread_id: u64,
    template: Arc<JobTemplate>,
    task_id: u64,
    booked: SchedulerState,
    share: Share,
    r: ShareOutcome,
    after: SchedulerState,
)
    requires
        task_recorded(before, source_id, thread_id, template, task_id, booked),
        share_handled(booked, task_id, share, r, after),
        !before.paused,
    ensures
        !before.tasks.contains_key(task_id),
        forall|id: u64| #[trigger]
            before.tasks.contains_key(id) ==> booked.tasks.contains_key(id) && booked.tasks[id]
                == before.tasks[id],
        r matches ShareOutcome::Counted { thread_id: counted, submission } && {
            &&& counted == thread_id
            &&& submission is BelowTarget <==> le_value(share.hash@) > template.share_target@
            &&& submission matches Submission::ToSource { source_id: to, share: sent } ==> to
                == source_id && sent.job_id == template.id
        },
        booked.sources == before.sources,
        booked.threads == before.threads,
{
}

/// A source that is registered is known by its name, has no job yet, and is told
/// what all threads do together; nothing else changes.
pub proof fn law_source_is_registered(
    before: SchedulerState,
    name: String,
    url: Option<String>,
    r: (u64, HashRate),
    after: SchedulerState,
    id: u64,
)
    requires
        source_registered(before, name, url, r, after),
    ensures
        !before.sources.contains_key(r.0),
        after.sources.contains_key(id) <==> before.sources.contains_key(id) || id == r.0,
        before.sources.contains_key(id) ==> after.sources[id] == before.sources[id],
        after.sources[r.0].name == name,
        after.sources[r.0].url == url,
        after.sources[r.0].last_job is None,
        r.1.0 == saturating_sum(operational_rates(before.threads)),
        after == (SchedulerState { sources: after.sources, ..before }),
{
}

/// What an estimator reports is what its thread is planned with: the settled
/// rate, or the claimed one while there is none. No other thread is touched.
pub proof fn law_observed_rate_is_planned_with(
    before: SchedulerState,
    thread_id: u64,
    measured: HashRate,
    settled: Option<HashRate>,
    after: SchedulerState,
    id: u64,
)
    requires
        rate_observed(before, thread_id, measured, settled, after),
    ensures
        after.threads.contains_key(id) <==> before.threads.contains_key(id),
        id != thread_id && before.threads.contains_key(id) ==> after.threads[id]
            == before.threads[id],
        before.threads.contains_key(thread_id) ==> {
            let entry = after.threads[thread_id];
            &&& entry.name == before.threads[thread_id].name
            &&& entry.hashrate_estimate == before.threads[thread_id].hashrate_estimate
            &&& entry.measured == measured
            &&& settled matches Some(rate) ==> entry.rate() == rate
            &&& settled is None ==> entry.rate() == entry.hashrate_estimate
        },
        after == (SchedulerState { threads: after.threads, ..before }),
{
}

/// A command goes to every thread once, and to no other: pausing and resuming to
/// each, unless it is in that state already; a frequency to each; an operating
/// point as a frequency and as a voltage to each. Only for a frequency and an
/// operating point are failures reported.
pub proof fn law_command_reaches_every_thread(
    before: SchedulerState,
    cmd: SchedulerCommand,
    r: CommandPlan,
    after: SchedulerState,
    id: u64,
)
    requires
        command_planned(before, cmd, r, after),
        is_walk(before.threads.dom(), walk_of(before.threads.dom())),
    ensures
        ({
            let known = before.threads.contains_key(id);
            let n = before.threads.len();
            match cmd {
                SchedulerCommand::PauseMining => {
                    &&& r.ops@.len() == if before.paused {
                        0
                    } else {
                        n
                    }
                    &&& asks(r.ops@, id, ThreadAction::SetPaused(true)) <==> known && !before.paused
                    &&& !r.reports_failures
                    &&& r.redispatch@.len() == 0
                },
                SchedulerCommand::ResumeMining => {
                    &&& r.ops@.len() == if before.paused {
                        n
                    } else {
                        0
                    }
                    &&& asks(r.ops@, id, ThreadAction::SetPaused(false)) <==> known && before.paused
                    &&& !r.reports_failures
                },
                SchedulerCommand::SetFrequency { khz } => {
                    &&& r.ops@.len() == n
                    &&& asks(r.ops@, id, ThreadAction::SetFrequency { khz }) <==> known
                    &&& r.reports_failures
                    &&& r.redispatch@.len() == 0
                },
                SchedulerCommand::SetOperatingPoint { khz, microvolts } => {
                    &&& r.ops@.len() == 2 * n
                    &&& asks(r.ops@, id, ThreadAction::SetFrequency { khz }) <==> known
                    &&& asks(r.ops@, id, ThreadAction::SetVoltage { microvolts }) <==> known
                    &&& r.reports_failures
                    &&& r.redispatch@.len() == 0
                },
            }
        }),
{
    let walk = walk_of(before.threads.dom());
    lemma_walk(before.threads.dom(), walk);
    match cmd {
        SchedulerCommand::PauseMining => {
            lemma_on_each(walk, ThreadAction::SetPaused(true), id);
        },
        SchedulerCommand::ResumeMining => {
            lemma_on_each(walk, ThreadAction::SetPaused(false), id);
        },
        SchedulerCommand::SetFrequency { khz } => {
            lemma_on_each(walk, ThreadAction::SetFrequency { khz }, id);
        },
        SchedulerCommand::SetOperatingPoint { khz, microvolts } => {
            let a = on_each(walk, ThreadAction::SetFrequency { khz });
            let b = on_each(walk, ThreadAction::SetVoltage { microvolts });
            lemma_on_each(walk, ThreadAction::SetFrequency { khz }, id);
            lemma_on_each(walk, ThreadAction::SetVoltage { microvolts }, id);
            lemma_asks_sum(a, b, id, ThreadAction::SetFrequency { khz });
            lemma_asks_sum(a, b, id, ThreadAction::SetVoltage { microvolts });
            lemma_asks_sum(b, a, id, ThreadAction::SetFrequency { khz });
            lemma_asks_sum(b, a, id, ThreadAction::SetVoltage { microvolts });
            assert(forall|i: int| 0 <= i < a.len() ==> (#[trigger] a[i]).action is SetFrequency);
            assert(forall|i: int| 0 <= i < b.len() ==> (#[trigger] b[i]).action is SetVoltage);
        },
    }
}

/// Whether a thread is asked for an action.
pub open spec fn asks(ops: Seq<ThreadOp>, id: u64, action: ThreadAction) -> bool {
    exists|i: int|
        0 <= i < ops.len() && (#[trigger] ops[i]).thread_id == id && ops[i].action == action
}

proof fn lemma_on_each(walk: Seq<u64>, action: ThreadAction, id: u64)
    ensures
        on_each(walk, action).len() == walk.len(),
        asks(on_each(walk, action), id, action) <==> walk.contains(id),
{
    let ops = on_each(walk, action);
    if walk.contains(id) {
        let i = choose|i: int| 0 <= i < walk.len() && walk[i] == id;
        assert(ops[i].thread_id == id && ops[i].action == action);
    }
    if asks(ops, id, action) {
        let i = choose|i: int|
            0 <= i < ops.len() && (#[trigger] ops[i]).thread_id == id && ops[i].action == action;
        assert(walk[i] == id);
    }
}

proof fn lemma_asks_sum(a: Seq<ThreadOp>, b: Seq<ThreadOp>, id: u64, action: ThreadAction)
    ensures
        asks(a + b, id, action) <==> asks(a, id, action) || asks(b, id, action),
{
    let all = a + b;
    if asks(a, id, action) {
        let i = choose|i: int|
            0 <= i < a.len() && (#[trigger] a[i]).thread_id == id && a[i].action == action;
        assert(all[i] == a[i]);
    }
    if asks(b, id, action) {
        let i = choose|i: int|
            0 <= i < b.len() && (#[trigger] b[i]).thread_id == id && b[i].action == action;
        assert(all[a.len() + i] == b[i]);
    }
    if asks(all, id, action) {
        let i = choose|i: int|
            0 <= i < all.len() && (#[trigger] all[i]).thread_id == id && all[i].action == action;
        if i < a.len() {
            assert(a[i] == all[i]);
        } else {
            assert(b[i - a.len()] == all[i]);
        }
    }
}

/// What a command changes. A pause stops mining and forgets what was measured,
/// so that each thread is planned with at its claimed rate; a resume starts
/// mining and hands every cached job out again, at the cold-init voltage; an
/// operating point is remembered by its voltage. Sources, tasks and counts stay.
pub proof fn law_command_changes(
    before: SchedulerState,
    cmd: SchedulerCommand,
    r: CommandPlan,
    after: SchedulerState,
    id: u64,
)
    requires
        command_planned(before, cmd, r, after),
        is_walk(before.sources.dom(), walk_of(before.sources.dom())),
    ensures
        cmd is PauseMining ==> after.paused,
        cmd is ResumeMining ==> !after.paused,
        cmd is SetFrequency || cmd is SetOperatingPoint ==> after.paused == before.paused,
        cmd matches SchedulerCommand::SetOperatingPoint { microvolts, .. } ==> after.microvolts
            == microvolts,
        cmd is ResumeMining && before.paused ==> after.microvolts == 13_900_000,
        cmd is PauseMining || cmd is SetFrequency || (cmd is ResumeMining && !before.paused)
            ==> after.microvolts == before.microvolts,
        after.threads.contains_key(id) <==> before.threads.contains_key(id),
        before.threads.contains_key(id) ==> {
            let then = before.threads[id];
            let now = after.threads[id];
            &&& now.name == then.name
            &&& now.hashrate_estimate == then.hashrate_estimate
            &&& cmd is PauseMining && !before.paused ==> now.measured.0 == 0 && now.rate()
                == then.hashrate_estimate
            &&& !(cmd is PauseMining && !before.paused) ==> now == then
        },
        after.sources == before.sources,
        after.tasks == before.tasks,
        after.shares_submitted == before.shares_submitted,
        after.best_difficulty == before.best_difficulty,
        after.last_thread_count == before.last_thread_count,
        cmd is ResumeMining && before.paused && before.sources.contains_key(id) ==> (
        before.sources[id].last_job is Some <==> exists|i: int|
            0 <= i < r.redispatch@.len() && (#[trigger] r.redispatch@[i]).source_id == id),
        cmd is ResumeMining ==> forall|i: int|
            0 <= i < r.redispatch@.len() ==> before.sources[(
            #[trigger] r.redispatch@[i]).source_id].last_job == Some(r.redispatch@[i].template),
        cmd is ResumeMining && !before.paused ==> r.redispatch@.len() == 0,
{
    let walk = walk_of(before.sources.dom());
    let has_job = |id: u64| before.sources[id].last_job is Some;
    let ids = sources_with_job(before.sources);
    assert(ids == walk.filter(has_job));
    lemma_filter_holds(walk, has_job, id);
    if cmd is ResumeMining && before.paused && before.sources.contains_key(id) {
        assert(walk.contains(id));
        if before.sources[id].last_job is Some {
            assert(has_job(id));
            let i = choose|i: int| 0 <= i < ids.len() && ids[i] == id;
            assert(r.redispatch@[i].source_id == id);
        }
        if exists|i: int|
            0 <= i < r.redispatch@.len() && (#[trigger] r.redispatch@[i]).source_id == id {
            let i = choose|i: int|
                0 <= i < r.redispatch@.len() && (#[trigger] r.redispatch@[i]).source_id == id;
            assert(ids[i] == id);
        }
    }
}

/// A source is shown under its name and address, with the difficulty of the job
/// that it sent last, and none before its first.
pub proof fn law_source_is_shown(entry: SourceEntry)
    ensures
        source_state(entry).name == entry.name,
        source_state(entry).url == entry.url,
        entry.last_job is None ==> source_state(entry).difficulty is None,
        entry.last_job matches Some(job) ==> source_state(entry).difficulty == Some(
            difficulty_of(job.share_target@),
        ),
{
}

/// The rate that all threads are planned with counts each thread once: by its
/// settled rate, or else its claimed one; the measured rate counts what was
/// measured of each.
pub proof fn law_rates_count_each_thread(threads: Map<u64, ThreadEntry>, i: int)
    requires
        is_walk(threads.dom(), walk_of(threads.dom())),
        0 <= i < walk_of(threads.dom()).len(),
    ensures
        ({
            let entry = threads[walk_of(threads.dom())[i]];
            &&& operational_rates(threads).len() == threads.len()
            &&& measured_rates(threads).len() == threads.len()
            &&& entry.settled matches Some(rate) ==> operational_rates(threads)[i] == rate.0
            &&& entry.settled is None ==> operational_rates(threads)[i] == entry.hashrate_estimate.0
            &&& measured_rates(threads)[i] == entry.measured.0
        }),
{
    lemma_walk(threads.dom(), walk_of(threads.dom()));
}

/// A duration is shown in its largest unit and the next one below, both rounded
/// down; one of less than a minute is shown in seconds.
pub proof fn law_duration_units(secs: u64, a: nat, b: nat)
    requires
        a > 0,
    ensures
        b < 24 && 86_400 * a + 3_600 * b <= secs < 86_400 * a + 3_600 * (b + 1) ==> duration_text(
            secs,
        ) == decimal(a) + "d "@ + decimal(b) + "h"@,
        a < 24 && b < 60 && 3_600 * a + 60 * b <= secs < 3_600 * a + 60 * (b + 1) ==> duration_text(
            secs,
        ) == decimal(a) + "h "@ + decimal(b) + "m"@,
        a < 60 && b < 60 && 60 * a + b == secs ==> duration_text(secs) == decimal(a) + "m "@
            + decimal(b) + "s"@,
        secs < 60 ==> duration_text(secs) == decimal(secs as nat) + "s"@,
{
}

/// The scheduler as the API shows it.
pub open spec fn miner_shown(
    state: SchedulerState,
    uptime_secs: u64,
    r: MinerState,
) -> bool {
    &&& r.uptime_secs == uptime_secs
    &&& r.hashrate == saturating_sum(measured_rates(state.threads))
    &&& r.shares_submitted == state.shares_submitted
    &&& r.best_difficulty == state.best_difficulty
    &&& r.paused == state.paused
    &&& r.boards@ == Seq::<BoardState>::empty()
    &&& r.sources@ == walk_of(state.sources.dom()).map_values(
        |id: u64| source_state(state.sources[id]),
    )
}

/// The scheduler as the periodic status line shows it.
pub open spec fn summary_shown(
    state: SchedulerState,
    uptime_secs: u64,
    r: StatusSummary,
) -> bool {
    &&& r.uptime@ == duration_text(uptime_secs)
    &&& r.hashrate == if saturating_sum(measured_rates(state.threads)) == 0 {
        None
    } else {
        Some(HashRate(saturating_sum(measured_rates(state.threads))))
    }
    &&& r.shares == state.shares_submitted
}

/// What the outcome of an operation makes of the last failure.
pub open spec fn op_guarded(
    outcome: OpOutcome,
    op: Seq<char>,
    before: Option<String>,
    after: Option<String>,
) -> bool {
    &&& match outcome {
        OpOutcome::Done => after == before,
        OpOutcome::Failed(e) => after == Some(e),
        OpOutcome::TimedOut => after matches Some(text) && text@ == op
            + " timed out"@,
    }
}

/// The reply to a command, given the last failure of its operations.
pub open spec fn replied(
    reports_failures: bool,
    last_err: Option<String>,
    r: Result<(), String>,
) -> bool {
    &&& r == match last_err {
        Some(e) if reports_failures => Err::<(), String>(e),
        _ => Ok::<(), String>(()),
    }
}

/// What the API shows of the scheduler: its counts as they are, what was measured
/// of all threads, and each source by its name and difficulty, in order.
pub proof fn law_miner_is_shown(state: SchedulerState, uptime_secs: u64, r: MinerState, i: int)
    requires
        miner_shown(state, uptime_secs, r),
        is_walk(state.sources.dom(), walk_of(state.sources.dom())),
        0 <= i < r.sources@.len(),
    ensures
        r.uptime_secs == uptime_secs,
        r.hashrate == saturating_sum(measured_rates(state.threads)),
        r.shares_submitted == state.shares_submitted,
        r.best_difficulty == state.best_difficulty,
        r.paused == state.paused,
        r.boards@.len() == 0,
        r.sources@.len() == state.sources.len(),
        ({
            let entry = state.sources[walk_of(state.sources.dom())[i]];
            &&& r.sources@[i].name == entry.name
            &&& r.sources@[i].url == entry.url
            &&& entry.last_job is None ==> r.sources@[i].difficulty is None
            &&& entry.last_job matches Some(job) ==> r.sources@[i].difficulty == Some(
                difficulty_of(job.share_target@),
            )
        }),
{
    lemma_walk(state.sources.dom(), walk_of(state.sources.dom()));
}

/// The status line tells how long the miner has run, how many shares were worth
/// submitting, and the measured rate once there is one.
pub proof fn law_summary_is_shown(state: SchedulerState, uptime_secs: u64, r: StatusSummary)
    requires
        summary_shown(state, uptime_secs, r),
    ensures
        r.uptime@ == duration_text(uptime_secs),
        r.shares == state.shares_submitted,
        r.hashrate is None <==> saturating_sum(measured_rates(state.threads)) == 0,
        r.hashrate matches Some(rate) ==> rate.0 == saturating_sum(measured_rates(state.threads)),
{
}

/// Of the operations of a command the last failure is what is replied, and a
/// timeout is one; success leaves it as it was. Where failures are not reported
/// the reply is always success.
pub proof fn law_last_failure_is_replied(
    outcome: OpOutcome,
    op: Seq<char>,
    before: Option<String>,
    after: Option<String>,
    reports_failures: bool,
    r: Result<(), String>,
)
    requires
        op_guarded(outcome, op, before, after),
        replied(reports_failures, after, r),
    ensures
        outcome is Done ==> after == before,
        outcome matches OpOutcome::Failed(why) ==> after == Some(why),
        outcome is TimedOut ==> (after matches Some(text) && text@ == op + " timed out"@),
        !reports_failures ==> r is Ok,
        reports_failures && !(outcome is Done) ==> r is Err && Some(r->Err_0) == after,
        reports_failures && outcome is Done && before is None ==> r is Ok,
        reports_failures && outcome is Done && before is Some ==> r is Err && Some(r->Err_0)
            == before,
{
}

/// A scheduler with nothing registered, not paused, at the cold-init voltage.
pub open spec fn is_new(state: SchedulerState) -> bool {
    &&& state.sources == Map::<u64, SourceEntry>::empty()
    &&& state.threads == Map::<u64, ThreadEntry>::empty()
    &&& state.tasks == Map::<u64, TaskEntry>::empty()
    &&& state.shares_submitted == 0
    &&& state.best_difficulty is None
    &&& state.last_thread_count == 0
    &&& !state.paused
    &&& state.microvolts == COLD_INIT_MICROVOLTS
}

/// A scheduler starts with nothing and mines as soon as there is work; the chains
/// come up at 13.9 V.
pub proof fn law_scheduler_starts_empty(state: SchedulerState, id: u64)
    requires
        is_new(state),
    ensures
        state.wf(),
        !state.sources.contains_key(id),
        !state.threads.contains_key(id),
        !state.tasks.contains_key(id),
        state.shares_submitted == 0,
        state.best_difficulty is None,
        state.last_thread_count == 0,
        !state.paused,
        state.microvolts == 13_900_000,
{
}

/// A periodic timer whose first tick, which comes at once, is passed over.
#[derive(Debug)]
pub struct Ticker {
    first: bool,
}

impl Ticker {
    pub closed spec fn ticked(&self) -> bool {
        !self.first
    }

    pub fn new() -> (t: Ticker)
        ensures
            !t.ticked(),
    {
        Ticker { first: true }
    }

    /// Whether to act on this tick.
    pub fn tick(&mut self) -> (act: bool)
        ensures
            ticks(old(self).ticked(), act, final(self).ticked()),
    {
        let act: bool = !self.first;
        self.first = false;
        act
    }
}

/// What a tick does: it is acted on unless it is the first.
pub open spec fn ticks(before: bool, act: bool, after: bool) -> bool {
    &&& act == before
    &&& after
}

/// Of all ticks the first is passed over and every later one is acted on.
pub proof fn law_first_tick_is_passed_over(first: bool, then: bool, second: bool, later: bool)
    requires
        ticks(false, first, then),
        ticks(then, second, later),
    ensures
        !first,
        second,
        later,
{
}

/// Whether a number has the shape of a handle.
fn handle_shape(id: u64) -> (r: bool)
    ensures
        r == is_handle(id),
{
    (id / 0x1_0000_0000) % 2 == 1
}

} // verus!
