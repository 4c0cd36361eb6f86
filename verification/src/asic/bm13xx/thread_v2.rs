//! The hash thread of a BM13xx chain: what it decides.
//!
//! The board describes the chain; initialization verifies that description
//! rather than discovering it. Serial streams, channels and timers belong to the
//! program around this module, which performs the actions returned here and
//! reports what came of them.

use crate::asic::bm13xx::chain::{Chain, ChainError};
use crate::asic::bm13xx::chip_config::ChipConfig;
use crate::asic::bm13xx::protocol::{Command, Frequency, JobFullFormat, Response};
use crate::asic::bm13xx::sequencer::{Sequencer, Step};
use crate::asic::bm13xx::topology::TopologySpec;
use crate::asic::hash_thread::{HashTask, HashThreadError, HashThreadStatus, Share};
use crate::job::{law_rolled_version, rolled_version, GeneralPurposeBits, MerkleRootKind};
use crate::pow::{double_sha256, header_bytes, header_hash, inverse, le_value, BlockHeader};
use crate::precision::{hundredths_of_millionths, round_millionths};
use crate::text::{decimal, hundredths_text, push_decimal, push_hundredths, push_text};
use crate::types::HashRate;
use vstd::prelude::*;

verus! {

/// Target frequency where neither the operator nor the chip configuration sets
/// one, in kilohertz.
pub const DEFAULT_TARGET_KHZ: u32 = 500_000;

/// Estimated rate of one chip, in hashes per second.
pub const CHIP_HASHRATE: u64 = 83_000_000_000;

/// Time for chips to stabilize after power-on, in milliseconds.
pub const POWER_ON_DELAY_MS: u64 = 500;

/// How often the chain is verified before initialization goes on or fails.
pub const MAX_VERIFY_ATTEMPTS: u8 = 3;

/// Time between two verifications, in milliseconds.
pub const VERIFY_RETRY_DELAY_MS: u64 = 500;

/// Time for the regulator to reach a new voltage, in milliseconds.
pub const VOLTAGE_SETTLE_DELAY_MS: u64 = 50;

/// Largest output of a regulator for stacked chips, in microvolts.
pub const DEFAULT_VOUT_MAX_MICROVOLTS: u32 = 4_000_000;

/// How many chips must respond for initialization to succeed.
pub fn min_viable_chip_count(expected: usize) -> (r: usize)
    ensures
        r == expected / 2,
{
    expected / 2
}

/// The frequency to ramp to: the operator's, or else the chip configuration's,
/// or else the default.
pub fn configured_target_frequency(configured: Option<Frequency>, config: &ChipConfig) -> (r:
    Frequency)
    ensures
        r == target_frequency(configured, *config),
{
    match configured {
        Some(freq) if freq.0 > 0 => freq,
        _ => match config.target_frequency {
            Some(freq) => freq,
            None => Frequency(DEFAULT_TARGET_KHZ),
        },
    }
}

/// The frequency to ramp to.
pub open spec fn target_frequency(configured: Option<Frequency>, config: ChipConfig) -> Frequency {
    match configured {
        Some(freq) if freq.0 > 0 => freq,
        _ => match config.target_frequency {
            Some(freq) => freq,
            None => Frequency(DEFAULT_TARGET_KHZ),
        },
    }
}

/// The supply voltage in microvolts for a number of domains in series, rounded
/// to the nearest: per domain 256250 at 56.25 MHz and 300000 at 500 MHz, and
/// linear in the frequency.
pub open spec fn stacked_microvolts(khz: u32, domain_count: nat) -> nat {
    ((2 * (domain_count * (17_800_000 + 7 * khz)) + 71) / 142) as nat
}

/// The supply voltage for a frequency, no more than the maximum.
pub fn voltage_for_frequency_stacked(
    freq: Frequency,
    domain_count: usize,
    max_microvolts: u32,
) -> (r: u32)
    ensures
        r == if stacked_microvolts(freq.0, domain_count as nat) < max_microvolts {
            stacked_microvolts(freq.0, domain_count as nat)
        } else {
            max_microvolts as nat
        },
{
    let per_domain: u128 = 17_800_000 + 7 * freq.0 as u128;
    assert(domain_count * per_domain <= 0x1_0000_0000_0000_0000 * 0x10_0000_0000) by (nonlinear_arith)
        requires
            domain_count <= 0x1_0000_0000_0000_0000,
            per_domain <= 0x10_0000_0000,
    ;
    let total: u128 = (2 * (domain_count as u128 * per_domain) + 71) / 142;
    if total < max_microvolts as u128 {
        total as u32
    } else {
        max_microvolts
    }
}

/// At the two operating points that the line goes through, each domain gets its
/// known-good voltage; and a higher frequency never gets less.
pub proof fn law_voltage_follows_frequency(low_khz: u32, high_khz: u32, domain_count: nat)
    requires
        low_khz <= high_khz,
    ensures
        stacked_microvolts(low_khz, domain_count) <= stacked_microvolts(high_khz, domain_count),
        stacked_microvolts(56_250, domain_count) == 256_250 * domain_count,
        stacked_microvolts(500_000, domain_count) == 300_000 * domain_count,
{
    assert(domain_count * (17_800_000 + 7 * low_khz) <= domain_count * (17_800_000 + 7 * high_khz))
        by (nonlinear_arith)
        requires
            low_khz <= high_khz,
            domain_count >= 0,
    ;
    assert(domain_count * (17_800_000 + 7 * 56_250u32) == 18_193_750 * domain_count)
        by (nonlinear_arith);
    assert(domain_count * (17_800_000 + 7 * 500_000u32) == 21_300_000 * domain_count)
        by (nonlinear_arith);
}

/// The range of a voltage regulator, in microvolts.
#[derive(Clone, Copy, Debug, PartialEq, Eq, Structural)]
pub struct VoltageRange {
    pub min: u32,
    pub max: u32,
}

/// One thing to do on the way up a ramp.
#[derive(Clone, Copy, Debug, PartialEq, Eq)]
pub enum RampAction {
    SetVoltage { microvolts: u32 },
    Send { command: Command },
    /// In microseconds.
    Wait { micros: u64 },
}

/// What is said when an action of the ramp fails. A wait does not.
pub open spec fn ramp_failure(action: RampAction, why: Seq<char>) -> Option<Seq<char>> {
    match action {
        RampAction::SetVoltage { microvolts } => Some(
            "Failed to set voltage to "@ + hundredths_text(
                hundredths_of_millionths(microvolts as nat),
            ) + "V: "@ + why,
        ),
        RampAction::Send { .. } => Some("Failed to send frequency ramp command: "@ + why),
        RampAction::Wait { .. } => None,
    }
}

impl RampAction {
    /// What is said when the action fails.
    pub fn failure(&self, why: &str) -> (r: Option<String>)
        ensures
            match r {
                Some(text) => ramp_failure(*self, why@) == Some(text@),
                None => ramp_failure(*self, why@) is None,
            },
    {
        let mut text = String::new();
        match self {
            RampAction::SetVoltage { microvolts } => {
                push_text(&mut text, "Failed to set voltage to ");
                push_hundredths(&mut text, round_millionths(*microvolts));
                push_text(&mut text, "V: ");
            },
            RampAction::Send { .. } => push_text(
                &mut text,
                "Failed to send frequency ramp command: ",
            ),
            RampAction::Wait { .. } => {
                return None;
            },
        }
        push_text(&mut text, why);
        assert(ramp_failure(*self, why@)->0 =~= text@);
        Some(text)
    }
}

/// The voltage that a regulator is set to for a frequency.
pub open spec fn applied_microvolts(khz: u32, domain_count: nat, range: VoltageRange) -> u32 {
    let wanted = stacked_microvolts(khz, domain_count);
    if wanted < range.min {
        range.min
    } else if wanted > range.max {
        range.max
    } else {
        wanted as u32
    }
}

/// What one step of the ramp asks for: the voltage first, where there is a
/// regulator, and then the frequency.
pub open spec fn ramp_step_actions(
    freq: Frequency,
    step: Step,
    domain_count: nat,
    range: Option<VoltageRange>,
) -> Seq<RampAction> {
    (match range {
        Some(range) => seq![
            RampAction::SetVoltage {
                microvolts: applied_microvolts(freq.0, domain_count, range),
            },
            RampAction::Wait { micros: (1000 * VOLTAGE_SETTLE_DELAY_MS) as u64 },
        ],
        None => Seq::<RampAction>::empty(),
    }) + seq![RampAction::Send { command: step.command }] + (match step.wait_after {
        Some(micros) => seq![RampAction::Wait { micros }],
        None => Seq::<RampAction>::empty(),
    })
}

/// What the steps of a ramp ask for.
pub open spec fn ramp_actions(
    steps: Seq<(Frequency, Step)>,
    domain_count: nat,
    range: Option<VoltageRange>,
) -> Seq<RampAction>
    decreases steps.len(),
{
    if steps.len() == 0 {
        Seq::<RampAction>::empty()
    } else {
        ramp_actions(steps.drop_last(), domain_count, range) + ramp_step_actions(
            steps.last().0,
            steps.last().1,
            domain_count,
            range,
        )
    }
}

/// Whether the action at `k` sends the command of a step whose voltage has been
/// set, and has settled, right before.
pub open spec fn voltage_leads(
    actions: Seq<RampAction>,
    k: int,
    steps: Seq<(Frequency, Step)>,
    domain_count: nat,
    range: VoltageRange,
) -> bool {
    &&& k >= 2
    &&& exists|i: int|
        #![trigger steps[i]]
        0 <= i < steps.len() && actions[k] == (RampAction::Send { command: steps[i].1.command })
            && actions[k - 2] == (RampAction::SetVoltage {
            microvolts: applied_microvolts(steps[i].0.0, domain_count, range),
        }) && actions[k - 1] == (RampAction::Wait { micros: 50_000 })
}

/// In a ramp with a regulator the voltage always leads: no frequency is set but
/// right after its voltage was set and has settled.
pub proof fn law_voltage_leads(
    steps: Seq<(Frequency, Step)>,
    domain_count: nat,
    range: VoltageRange,
    k: int,
)
    requires
        0 <= k < ramp_actions(steps, domain_count, Some(range)).len(),
        ramp_actions(steps, domain_count, Some(range))[k] is Send,
    ensures
        voltage_leads(
            ramp_actions(steps, domain_count, Some(range)),
            k,
            steps,
            domain_count,
            range,
        ),
    decreases steps.len(),
{
    let actions = ramp_actions(steps, domain_count, Some(range));
    let rest = steps.drop_last();
    let head = ramp_actions(rest, domain_count, Some(range));
    let last = steps.last();
    let tail = ramp_step_actions(last.0, last.1, domain_count, Some(range));
    assert(actions == head + tail);
    if k < head.len() {
        law_voltage_leads(rest, domain_count, range, k);
        let i = choose|i: int|
            #![trigger rest[i]]
            0 <= i < rest.len() && head[k] == (RampAction::Send { command: rest[i].1.command })
                && head[k - 2] == (RampAction::SetVoltage {
                microvolts: applied_microvolts(rest[i].0.0, domain_count, range),
            }) && head[k - 1] == (RampAction::Wait {
                micros: (1000 * VOLTAGE_SETTLE_DELAY_MS) as u64,
            });
        assert(steps[i] == rest[i]);
        assert(actions[k] == head[k] && actions[k - 1] == head[k - 1] && actions[k - 2] == head[k
            - 2]);
    } else {
        let t = k - head.len();
        assert(tail[t] is Send);
        assert(t == 2);
        assert(actions[k] == tail[2] && actions[k - 1] == tail[1] && actions[k - 2] == tail[0]);
        assert(steps[steps.len() - 1] == last);
    }
}

/// Plans a coordinated ramp of voltage and frequency. At each step the voltage
/// leads, so that chips always have what their frequency needs.
pub fn plan_frequency_ramp(
    steps: &Vec<(Frequency, Step)>,
    domain_count: usize,
    range: Option<VoltageRange>,
) -> (r: Vec<RampAction>)
    requires
        range matches Some(range) ==> range.min <= range.max,
    ensures
        r@ == ramp_actions(steps@, domain_count as nat, range),
{
    let mut actions: Vec<RampAction> = Vec::new();
    let mut i: usize = 0;
    while i < steps.len()
        invariant
            i <= steps@.len(),
            range matches Some(range) ==> range.min <= range.max,
            actions@ == ramp_actions(steps@.take(i as int), domain_count as nat, range),
        decreases steps@.len() - i,
    {
        let ghost before = actions@;
        let freq: Frequency = steps[i].0;
        let step: Step = steps[i].1;
        if let Some(range) = range {
            let requested: u32 = voltage_for_frequency_stacked(freq, domain_count, range.max);
            let microvolts: u32 = if requested < range.min {
                range.min
            } else {
                requested
            };
            actions.push(RampAction::SetVoltage { microvolts });
            actions.push(RampAction::Wait { micros: 1000 * VOLTAGE_SETTLE_DELAY_MS });
        }
        actions.push(RampAction::Send { command: step.command });
        if let Some(micros) = step.wait_after {
            actions.push(RampAction::Wait { micros });
        }
        assert(steps@.take(i + 1).drop_last() =~= steps@.take(i as int));
        assert(actions@ =~= before + ramp_step_actions(freq, step, domain_count as nat, range));
        i = i + 1;
    }
    assert(steps@.take(i as int) =~= steps@);
    actions
}

/// Recent tasks by the job number that the chips know them under.
///
/// A job number has four bits, so there are sixteen slots, used in turn.
#[derive(Debug)]
pub struct ChipJobs {
    pub tasks: Vec<Option<HashTask>>,
    pub next_id: u8,
}

impl ChipJobs {
    pub open spec fn wf(&self) -> bool {
        self.tasks@.len() == 16 && self.next_id < 16
    }

    /// No task under any number.
    pub fn new() -> (r: ChipJobs)
        ensures
            r.wf(),
            r.next_id == 0,
            forall|i: int| 0 <= i < 16 ==> (#[trigger] r.tasks@[i]) is None,
    {
        let mut tasks: Vec<Option<HashTask>> = Vec::new();
        while tasks.len() < 16
            invariant
                tasks@.len() <= 16,
                forall|i: int| 0 <= i < tasks@.len() ==> (#[trigger] tasks@[i]) is None,
            decreases 16 - tasks@.len(),
        {
            tasks.push(None);
        }
        ChipJobs { tasks, next_id: 0 }
    }

    /// Stores a task under the next number, which is returned.
    pub fn insert(&mut self, task: HashTask) -> (id: u8)
        requires
            old(self).wf(),
        ensures
            final(self).wf(),
            job_stored(*old(self), task, id, *final(self)),
    {
        let id: u8 = self.next_id;
        self.tasks.set(id as usize, Some(task));
        self.next_id = (self.next_id + 1) % 16;
        id
    }

    /// Forgets every task but the last one that was stored.
    pub fn keep_last(&mut self)
        requires
            old(self).wf(),
        ensures
            final(self).wf(),
            final(self).next_id == old(self).next_id,
            final(self).tasks@ == last_only(old(self).tasks@, old(self).next_id),
    {
        let ghost before = self.tasks@;
        let last: usize = ((self.next_id + 15) % 16) as usize;
        let mut i: usize = 0;
        while i < 16
            invariant
                i <= 16,
                self.wf(),
                self.next_id == old(self).next_id,
                before == old(self).tasks@,
                last == (self.next_id + 15) % 16,
                forall|j: int|
                    0 <= j < i ==> (#[trigger] self.tasks@[j]) == last_only(
                        before,
                        self.next_id,
                    )[j],
                forall|j: int| i <= j < 16 ==> (#[trigger] self.tasks@[j]) == before[j],
            decreases 16 - i,
        {
            if i != last {
                self.tasks.set(i, None);
            }
            i = i + 1;
        }
        assert(self.tasks@ =~= last_only(before, self.next_id));
    }

    /// The task under a number.
    pub fn get(&self, id: u8) -> (r: Option<&HashTask>)
        requires
            self.wf(),
        ensures
            match r {
                Some(task) => id < 16 && self.tasks@[id as int] == Some(*task),
                None => id >= 16 || self.tasks@[id as int] is None,
            },
    {
        if id as usize >= self.tasks.len() {
            return None;
        }
        match &self.tasks[id as usize] {
            Some(task) => Some(task),
            None => None,
        }
    }
}

/// The slots with only the one before `next` kept.
pub open spec fn last_only(slots: Seq<Option<HashTask>>, next: u8) -> Seq<Option<HashTask>> {
    Seq::new(
        16,
        |i: int|
            if i == (next + 15) % 16 {
                slots[i]
            } else {
                None
            },
    )
}

/// The slots after storing tasks in turn, the first of them at `next`.
pub open spec fn stored(
    slots: Seq<Option<HashTask>>,
    next: int,
    tasks: Seq<HashTask>,
) -> Seq<Option<HashTask>>
    decreases tasks.len(),
{
    if tasks.len() == 0 {
        slots
    } else {
        stored(slots, next, tasks.drop_last()).update(
            (next + tasks.len() - 1) % 16,
            Some(tasks.last()),
        )
    }
}

/// A task can be looked up under its number until sixteen more have been
/// stored.
pub proof fn law_recent_jobs_found(
    slots: Seq<Option<HashTask>>,
    next: int,
    task: HashTask,
    later: Seq<HashTask>,
)
    requires
        slots.len() == 16,
        0 <= next < 16,
        later.len() < 16,
    ensures
        stored(slots.update(next, Some(task)), (next + 1) % 16, later)[next] == Some(task),
        stored(slots.update(next, Some(task)), (next + 1) % 16, later).len() == 16,
    decreases later.len(),
{
    if later.len() > 0 {
        law_recent_jobs_found(slots, next, task, later.drop_last());
    }
}

/// A task in the format that chips take.
pub open spec fn job_of(task: HashTask, chip_job_id: u8, merkle_root: [u8; 32]) -> JobFullFormat {
    JobFullFormat {
        job_id: chip_job_id,
        num_midstates: 1,
        starting_nonce: 0,
        nbits: task.template.bits,
        ntime: task.ntime,
        merkle_root,
        prev_block_hash: task.template.prev_blockhash,
        version: task.template.version,
    }
}

/// Converts a task to the format that chips take. It fails exactly when the
/// merkle root must be computed and the task has no extranonce2.
pub fn task_to_job_full(task: &HashTask, chip_job_id: u8) -> (r: Result<
    JobFullFormat,
    HashThreadError,
>)
    ensures
        r is Ok <==> task.merkle_root() is Some,
        r matches Ok(job) ==> job == job_of(*task, chip_job_id, job.merkle_root)
            && task.merkle_root() == Some(job.merkle_root@),
        r matches Err(e) ==> e matches HashThreadError::WorkAssignmentFailed(why) && why@
            == "EN2 required for computed merkle root"@,
{
    match task.resolve_merkle_root() {
        Some(merkle_root) => Ok(
            JobFullFormat {
                job_id: chip_job_id,
                num_midstates: 1,
                starting_nonce: 0,
                nbits: task.template.bits,
                ntime: task.ntime,
                merkle_root,
                prev_block_hash: task.template.prev_blockhash,
                version: task.template.version,
            },
        ),
        None => {
            let mut why = String::new();
            push_text(&mut why, "EN2 required for computed merkle root");
            assert(why@ =~= "EN2 required for computed merkle root"@);
            Err(HashThreadError::WorkAssignmentFailed(why))
        },
    }
}

/// The job number that a nonce response means. The chip returns it in bits 6 to
/// 3 of the result header, whose high nibble the decoder takes for it.
pub open spec fn response_job_id(job_id: u8, subcore_id: u8) -> u8 {
    (((job_id << 4) | subcore_id) >> 3) & 0x0F
}

/// Reads the job number that a nonce response means.
pub fn extract_job_id(job_id: u8, subcore_id: u8) -> (r: u8)
    ensures
        r == response_job_id(job_id, subcore_id),
        r < 16,
{
    let header: u8 = (job_id << 4) | subcore_id;
    let id: u8 = (header >> 3) & 0x0F;
    assert((header >> 3) & 0x0F < 16) by (bit_vector);
    id
}

/// Every job number can come back: the header with job number `id` in bits 6 to
/// 3 is read as `id`.
pub proof fn law_job_id_read_back(id: u8, rest: u8)
    requires
        id < 16,
        rest < 8,
    ensures
        ({
            let header = (id << 3) | rest;
            response_job_id(header >> 4, header & 0x0F) == id
        }),
{
    assert(((((((id << 3) | rest) >> 4) << 4) | (((id << 3) | rest) & 0x0Fu8)) >> 3) & 0x0F == id)
        by (bit_vector)
        requires
            id < 16,
            rest < 8,
    ;
}

/// A task with its block time rolled forward by a second.
pub open spec fn rolled_task(task: HashTask) -> HashTask {
    HashTask { ntime: (task.ntime + 1) as u32, ..task }
}

/// What a nonce is worth.
#[derive(Debug)]
pub enum NonceVerdict {
    /// No task is known under the job number.
    UnknownJob,
    /// The task's merkle root cannot be computed.
    NoMerkleRoot,
    /// The hash does not meet the task's target.
    BelowTarget { hash: [u8; 32] },
    /// The hash meets the task's target.
    Valid(Share),
}

/// The share of a nonce with a given hash.
pub open spec fn is_share_of(
    share: Share,
    task: HashTask,
    nonce: u32,
    version: u32,
    hash: Seq<u8>,
) -> bool {
    &&& share.nonce == nonce
    &&& share.hash@ == hash
    &&& share.version == version
    &&& share.ntime == task.ntime
    &&& share.extranonce2 == task.en2
    &&& share.expected_work@ == inverse(task.share_target@)
}

/// Judges a nonce by the hash of its header.
pub fn judge_hash(task: &HashTask, nonce: u32, version: u32, hash: [u8; 32]) -> (r: NonceVerdict)
    ensures
        hash_judged(*task, nonce, version, hash, r),
{
    if task.share_target.is_met_by(&hash) {
        NonceVerdict::Valid(
            Share {
                nonce,
                hash,
                version,
                ntime: task.ntime,
                extranonce2: task.en2,
                expected_work: task.share_target.to_work(),
            },
        )
    } else {
        NonceVerdict::BelowTarget { hash }
    }
}

/// The header that a chip hashed for a nonce.
pub fn rebuild_header(task: &HashTask, merkle_root: [u8; 32], nonce: u32, version: u32) -> (r:
    BlockHeader)
    ensures
        r == (BlockHeader {
            version: version as i32,
            prev_blockhash: task.template.prev_blockhash,
            merkle_root,
            time: task.ntime,
            bits: task.template.bits,
            nonce,
        }),
{
    BlockHeader {
        version: version as i32,
        prev_blockhash: task.template.prev_blockhash,
        merkle_root,
        time: task.ntime,
        bits: task.template.bits,
        nonce,
    }
}

/// The hash that a nonce gives under a task.
pub open spec fn nonce_hash(task: HashTask, nonce: u32, version: u32) -> Seq<u8> {
    header_hash(
        version as i32,
        task.template.prev_blockhash@,
        task.merkle_root()->0,
        task.ntime,
        task.template.bits,
        nonce,
    )
}

/// Whether the chips are powered and configured.
#[derive(Clone, Copy, Debug, PartialEq, Eq, Structural)]
pub enum ChipState {
    Disabled,
    Initialized,
}

/// What a chain sent.
#[derive(Clone, Copy, Debug, PartialEq, Eq)]
pub enum ChipInput {
    Response(Response),
    StreamError,
}

/// What to do about what a chain sent.
#[derive(Debug)]
pub enum ResponseOutcome {
    /// A nonce; a valid share is sent on its task's channel.
    Nonce(NonceVerdict),
    /// A register was read.
    RegisterRead,
    /// The stream failed; the status is published.
    HardwareError(HashThreadStatus),
}

/// The state of a hash thread.
#[derive(Debug)]
pub struct BM13xxActor {
    pub chain: Chain,
    pub sequencer: Sequencer,
    pub estimated_hashrate: HashRate,
    pub chip_state: ChipState,
    pub current_task: Option<HashTask>,
    pub chip_jobs: ChipJobs,
    pub status: HashThreadStatus,
    /// Whether chips at domain boundaries need their own settings.
    pub domain_config: bool,
    /// Whether the thread was shut down. It takes no work from then on.
    pub offline: bool,
}

/// The text of a chain error.
pub open spec fn chain_error_text(e: ChainError) -> Seq<char> {
    match e {
        ChainError::TooManyChips { chip_count } => decimal(chip_count as nat)
            + " chips do not fit in the address space"@,
    }
}

/// A status with one more hardware error.
pub open spec fn with_hardware_error(status: HashThreadStatus) -> HashThreadStatus {
    HashThreadStatus { hardware_errors: (status.hardware_errors + 1) as u64, ..status }
}

/// A status of a thread that does not hash.
pub open spec fn stopped(status: HashThreadStatus) -> HashThreadStatus {
    HashThreadStatus { is_active: false, hashrate: HashRate(0), ..status }
}

/// A thread once its chips have been switched off, or switching them off has
/// failed.
pub open spec fn when_disabled(actor: BM13xxActor, failed: bool) -> BM13xxActor {
    if actor.chip_state == ChipState::Disabled {
        actor
    } else {
        BM13xxActor {
            chip_state: ChipState::Disabled,
            status: stopped(
                if failed {
                    with_hardware_error(actor.status)
                } else {
                    actor.status
                },
            ),
            ..actor
        }
    }
}

/// Disabling is idempotent: whatever came of switching the chips off, doing so
/// again changes nothing.
pub proof fn law_disable_is_idempotent(actor: BM13xxActor, failed: bool, again: bool)
    ensures
        when_disabled(actor, failed).chip_state == ChipState::Disabled,
        when_disabled(when_disabled(actor, failed), again) == when_disabled(actor, failed),
{
}

/// A thread that has taken over a task. One that was shut down takes none.
pub open spec fn when_assigned(actor: BM13xxActor, task: HashTask) -> BM13xxActor {
    if actor.offline {
        actor
    } else {
        BM13xxActor {
            current_task: Some(task),
            status: HashThreadStatus {
                is_active: true,
                hashrate: if actor.status.hashrate.0 == 0 {
                    actor.estimated_hashrate
                } else {
                    actor.status.hashrate
                },
                ..actor.status
            },
            ..actor
        }
    }
}

/// A thread that idles.
pub open spec fn when_idle(actor: BM13xxActor) -> BM13xxActor {
    BM13xxActor { current_task: None, status: stopped(actor.status), ..actor }
}

/// A thread whose chips are initialized. One that was shut down stays as it is.
pub open spec fn when_initialized(actor: BM13xxActor) -> BM13xxActor {
    if actor.offline {
        actor
    } else {
        BM13xxActor {
            chip_state: ChipState::Initialized,
            status: HashThreadStatus { hashrate: actor.estimated_hashrate, ..actor.status },
            ..actor
        }
    }
}

/// A thread one of whose shares was sent on.
pub open spec fn when_share_sent(actor: BM13xxActor) -> BM13xxActor {
    BM13xxActor {
        status: HashThreadStatus {
            chip_shares_found: (actor.status.chip_shares_found + 1) as u64,
            is_active: true,
            hashrate: actor.estimated_hashrate,
            ..actor.status
        },
        ..actor
    }
}

/// A thread that was shut down.
pub open spec fn when_shut_down(actor: BM13xxActor) -> BM13xxActor {
    BM13xxActor {
        current_task: None,
        status: stopped(actor.status),
        offline: true,
        ..actor
    }
}

/// A thread that was shut down takes no task, and shutting it down again changes
/// nothing.
pub proof fn law_shutdown_is_final(actor: BM13xxActor, task: HashTask)
    ensures
        ({
            let gone = when_shut_down(actor);
            &&& gone.current_task is None
            &&& !gone.status.is_active
            &&& when_assigned(gone, task) == gone
            &&& when_shut_down(gone) == gone
        }),
{
}

/// Once a task replaces the earlier ones, no job slot holds a task but the one
/// under which the new task was sent.
pub proof fn law_replacement_leaves_one_task(
    slots: Seq<Option<HashTask>>,
    id: u8,
    task: HashTask,
)
    requires
        slots.len() == 16,
        id < 16,
    ensures
        last_only(slots.update(id as int, Some(task)), ((id + 1) % 16) as u8) == Seq::new(
            16,
            |i: int|
                if i == id {
                    Some(task)
                } else {
                    None
                },
        ),
{
    assert(last_only(slots.update(id as int, Some(task)), ((id + 1) % 16) as u8) =~= Seq::new(
        16,
        |i: int|
            if i == id {
                Some(task)
            } else {
                None
            },
    ));
}

/// No share comes of a task that was replaced: a nonce under any job number but
/// the new task's belongs to no job.
pub proof fn law_no_share_of_a_replaced_task(
    before: Seq<Option<HashTask>>,
    after: BM13xxActor,
    nonce: u32,
    job_id: u8,
    version: u16,
    subcore_id: u8,
    verdict: NonceVerdict,
)
    requires
        after.wf(),
        after.chip_jobs.tasks@ == last_only(before, after.chip_jobs.next_id),
        response_job_id(job_id, subcore_id) != (after.chip_jobs.next_id + 15) % 16,
        nonce_judged(after, nonce, job_id, version, subcore_id, verdict),
    ensures
        verdict is UnknownJob,
{
    assert((((job_id << 4) | subcore_id) >> 3) & 0x0F < 16) by (bit_vector);
}

impl BM13xxActor {
    pub open spec fn wf(&self) -> bool {
        &&& self.chip_jobs.wf()
        &&& self.chain.wf()
        &&& self.chain.addressed()
        &&& self.chain.chips@.len() <= 128
        &&& self.offline ==> self.current_task is None
    }

    /// A thread for a chain of this layout, its chips disabled. It fails when
    /// the chips do not fit in the address space.
    pub fn new(topology: &TopologySpec, chip_config: ChipConfig) -> (r: Result<
        BM13xxActor,
        HashThreadError,
    >)
        requires
            topology.chips() <= usize::MAX,
        ensures
            thread_made(*topology, chip_config, r),
    {
        let mut chain = Chain::from_topology(topology);
        match chain.assign_addresses() {
            Ok(()) => {},
            Err(ChainError::TooManyChips { chip_count }) => {
                let mut why = String::new();
                push_text(&mut why, "Address assignment failed: ");
                push_decimal(&mut why, chip_count as u64);
                push_text(&mut why, " chips do not fit in the address space");
                assert(why@ =~= "Address assignment failed: "@ + chain_error_text(
                    ChainError::TooManyChips { chip_count },
                ));
                return Err(HashThreadError::InitializationFailed(why));
            },
        }
        let estimated_hashrate = HashRate(CHIP_HASHRATE * chain.chip_count() as u64);
        Ok(
            BM13xxActor {
                chain,
                sequencer: Sequencer::new(chip_config),
                estimated_hashrate,
                chip_state: ChipState::Disabled,
                current_task: None,
                chip_jobs: ChipJobs::new(),
                status: HashThreadStatus::default(),
                domain_config: topology.domain_config,
                offline: false,
            },
        )
    }

    /// Whether the thread takes work. One that was shut down does not.
    pub fn accept_work(&self) -> (r: Result<(), HashThreadError>)
        ensures
            r is Ok <==> !self.offline,
            r matches Err(e) ==> e is ThreadOffline,
    {
        if self.offline {
            Err(HashThreadError::ThreadOffline)
        } else {
            Ok(())
        }
    }

    /// Books a task under the next job number and builds the command that sends
    /// it to the chips. A thread that was shut down refuses.
    pub fn send_job(&mut self, task: &HashTask) -> (r: Result<Command, HashThreadError>)
        requires
            old(self).wf(),
        ensures
            final(self).wf(),
            job_sent(*old(self), *task, r, *final(self)),
    {
        if self.offline {
            return Err(HashThreadError::ThreadOffline);
        }
        let id: u8 = self.chip_jobs.insert(task.duplicate());
        match task_to_job_full(task, id) {
            Ok(job_data) => Ok(Command::JobFull { job_data }),
            Err(e) => Err(e),
        }
    }

    /// Everything but the job slots is as in `other`.
    pub open spec fn unchanged_but_jobs(&self, other: BM13xxActor) -> bool {
        *self == (BM13xxActor { chip_jobs: self.chip_jobs, ..other })
    }

    /// Whether chips must be initialized before work can be sent.
    pub fn needs_initialization(&self) -> (r: bool)
        ensures
            r == (self.chip_state == ChipState::Disabled),
    {
        match self.chip_state {
            ChipState::Disabled => true,
            ChipState::Initialized => false,
        }
    }

    /// Takes over work that was sent to the chips, while shares of earlier tasks
    /// still count. The task before it, if any, is returned with the status to
    /// publish. A thread that was shut down stays as it is.
    pub fn complete_assignment(&mut self, new_task: HashTask) -> (r: (
        Option<HashTask>,
        HashThreadStatus,
    ))
        requires
            old(self).wf(),
        ensures
            final(self).wf(),
            *final(self) == when_assigned(*old(self), new_task),
            handed_back(*old(self), r, *final(self)),
    {
        if self.offline {
            return (None, self.status);
        }
        let before: Option<HashTask> = self.current_task.take();
        self.current_task = Some(new_task);
        self.status.is_active = true;
        if self.status.hashrate.is_zero() {
            self.status.hashrate = self.estimated_hashrate;
        }
        (before, self.status)
    }

    /// Takes over work that was sent to the chips, and gives every earlier task
    /// up: all job slots are emptied but the last one that was filled, which is
    /// that of the new task. The task before it, if any, is returned with the
    /// status to publish. A thread that was shut down stays as it is.
    pub fn complete_replacement(&mut self, new_task: HashTask) -> (r: (
        Option<HashTask>,
        HashThreadStatus,
    ))
        requires
            old(self).wf(),
        ensures
            final(self).wf(),
            task_replaced(*old(self), new_task, r, *final(self)),
    {
        if !self.offline {
            self.chip_jobs.keep_last();
        }
        self.complete_assignment(new_task)
    }

    /// Rolls the block time of the current task forward by a second and builds
    /// the command that sends it again. There is nothing to do without a task.
    pub fn roll_ntime(&mut self) -> (r: Option<Result<Command, HashThreadError>>)
        requires
            old(self).wf(),
            old(self).current_task matches Some(task) ==> task.ntime < u32::MAX,
        ensures
            final(self).wf(),
            ntime_rolled(*old(self), r, *final(self)),
    {
        match self.current_task.take() {
            None => None,
            Some(task) => {
                let mut rolled = task;
                rolled.ntime = rolled.ntime + 1;
                let sent = self.send_job(&rolled);
                self.current_task = Some(rolled);
                Some(sent)
            },
        }
    }

    /// Goes idle once the chips are off: the task is handed back with the status
    /// to publish.
    pub fn complete_go_idle(&mut self) -> (r: (Option<HashTask>, HashThreadStatus))
        requires
            old(self).wf(),
        ensures
            final(self).wf(),
            *final(self) == when_idle(*old(self)),
            handed_back(*old(self), r, *final(self)),
    {
        let before: Option<HashTask> = self.current_task.take();
        self.status.is_active = false;
        self.status.hashrate = HashRate(0);
        (before, self.status)
    }

    /// Shuts the thread down for good once the chips are off: the task is handed
    /// back with the status to publish, and no work is taken from now on.
    pub fn complete_shutdown(&mut self) -> (r: (Option<HashTask>, HashThreadStatus))
        requires
            old(self).wf(),
        ensures
            final(self).wf(),
            *final(self) == when_shut_down(*old(self)),
            handed_back(*old(self), r, *final(self)),
    {
        let r = self.complete_go_idle();
        self.offline = true;
        r
    }

    /// Books that the chips were switched off, or that switching them off
    /// failed, which counts as a hardware error. Either way they are disabled
    /// from now on. Chips that already were are left alone. The statuses to
    /// publish are returned in order.
    pub fn complete_disable(&mut self, failed: bool) -> (r: Vec<HashThreadStatus>)
        requires
            old(self).wf(),
            failed && old(self).chip_state == ChipState::Initialized
                ==> old(self).status.hardware_errors < u64::MAX,
        ensures
            final(self).wf(),
            chips_disabled(*old(self), failed, r@, *final(self)),
    {
        let mut published: Vec<HashThreadStatus> = Vec::new();
        if self.needs_initialization() {
            return published;
        }
        if failed {
            self.status.hardware_errors = self.status.hardware_errors + 1;
            published.push(self.status);
        }
        self.chip_state = ChipState::Disabled;
        self.status.is_active = false;
        self.status.hashrate = HashRate(0);
        published.push(self.status);
        assert(published@ =~= if failed {
            seq![with_hardware_error(old(self).status), self.status]
        } else {
            seq![self.status]
        });
        published
    }

    /// Books that the chips are initialized. A thread that was shut down stays as
    /// it is.
    pub fn complete_initialization(&mut self) -> (r: HashThreadStatus)
        requires
            old(self).wf(),
        ensures
            final(self).wf(),
            *final(self) == when_initialized(*old(self)),
            reports(r, *final(self)),
    {
        if self.offline {
            return self.status;
        }
        self.chip_state = ChipState::Initialized;
        self.status.hashrate = self.estimated_hashrate;
        self.status
    }

    /// Judges a nonce: looks its task up, rebuilds the header and holds its hash
    /// against the task's target.
    pub fn judge_nonce(&self, nonce: u32, job_id: u8, version: GeneralPurposeBits, subcore_id: u8)
        -> (r: NonceVerdict)
        requires
            self.wf(),
        ensures
            nonce_judged(*self, nonce, job_id, version.0, subcore_id, r),
    {
        let id: u8 = extract_job_id(job_id, subcore_id);
        let task = match self.chip_jobs.get(id) {
            Some(task) => task,
            None => {
                return NonceVerdict::UnknownJob;
            },
        };
        let full: u32 = version.apply_to_version(task.template.version);
        let merkle_root: [u8; 32] = match task.resolve_merkle_root() {
            Some(root) => root,
            None => {
                return NonceVerdict::NoMerkleRoot;
            },
        };
        let header = rebuild_header(task, merkle_root, nonce, full);
        judge_hash(task, nonce, full, header.block_hash())
    }

    /// Deals with what the chain sent. A stream error counts as a hardware
    /// error.
    pub fn handle_chip_response(&mut self, input: ChipInput) -> (r: ResponseOutcome)
        requires
            old(self).wf(),
            input is StreamError ==> old(self).status.hardware_errors < u64::MAX,
        ensures
            final(self).wf(),
            response_handled(*old(self), input, r, *final(self)),
    {
        match input {
            ChipInput::Response(
                Response::Nonce { nonce, job_id, version, midstate_num: _, subcore_id },
            ) => ResponseOutcome::Nonce(
                self.judge_nonce(nonce, job_id, GeneralPurposeBits(version), subcore_id),
            ),
            ChipInput::Response(
                Response::ReadRegister { chip_address: _, register: _ },
            ) => ResponseOutcome::RegisterRead,
            ChipInput::StreamError => {
                self.status.hardware_errors = self.status.hardware_errors + 1;
                ResponseOutcome::HardwareError(self.status)
            },
        }
    }

    /// Books a share that was sent on its task's channel.
    pub fn complete_share(&mut self) -> (r: HashThreadStatus)
        requires
            old(self).wf(),
            old(self).status.chip_shares_found < u64::MAX,
        ensures
            final(self).wf(),
            *final(self) == when_share_sent(*old(self)),
            reports(r, *final(self)),
    {
        self.status.chip_shares_found = self.status.chip_shares_found + 1;
        self.status.is_active = true;
        self.status.hashrate = self.estimated_hashrate;
        self.status
    }
}

/// Whether `verdict` is right for a nonce: its task is looked up under the job
/// number, and the hash of the header rebuilt from the task is held against the
/// task's target.
pub open spec fn nonce_judged(
    actor: BM13xxActor,
    nonce: u32,
    job_id: u8,
    version: u16,
    subcore_id: u8,
    verdict: NonceVerdict,
) -> bool {
    match actor.chip_jobs.tasks@[response_job_id(job_id, subcore_id) as int] {
        None => verdict is UnknownJob,
        Some(task) => {
            let full = rolled_version(task.template.version, version);
            let hash = nonce_hash(task, nonce, full);
            match verdict {
                NonceVerdict::UnknownJob => false,
                NonceVerdict::NoMerkleRoot => task.merkle_root() is None,
                NonceVerdict::BelowTarget { hash: h } => {
                    &&& task.merkle_root() is Some
                    &&& h@ == hash
                    &&& le_value(hash) > task.share_target@
                },
                NonceVerdict::Valid(share) => {
                    &&& task.merkle_root() is Some
                    &&& le_value(hash) <= task.share_target@
                    &&& is_share_of(share, task, nonce, full, hash)
                },
            }
        },
    }
}

/// What a share stands for: its hash is the double SHA-256 of the header with
/// the very fields that it carries, under the task of its job number; the hash
/// meets the task's target; and its version is the task's with the bits that the
/// chip reported rolled in.
pub proof fn law_share_proves_its_header(
    actor: BM13xxActor,
    nonce: u32,
    job_id: u8,
    version: u16,
    subcore_id: u8,
    share: Share,
)
    requires
        actor.wf(),
        nonce_judged(actor, nonce, job_id, version, subcore_id, NonceVerdict::Valid(share)),
    ensures
        ({
            let slot = actor.chip_jobs.tasks@[response_job_id(job_id, subcore_id) as int];
            let task = slot->0;
            &&& slot is Some
            &&& share.nonce == nonce
            &&& share.ntime == task.ntime
            &&& share.extranonce2 == task.en2
            &&& (share.version >> 13) & 0xFFFF == version
            &&& share.version & 0xE000_1FFF == task.template.version & 0xE000_1FFF
            &&& le_value(share.hash@) <= task.share_target@
            &&& share.expected_work@ == inverse(task.share_target@)
            &&& task.template.merkle_root matches MerkleRootKind::Fixed(root) ==> share.hash@
                == double_sha256(
                header_bytes(
                    share.version as i32,
                    task.template.prev_blockhash@,
                    root@,
                    share.ntime,
                    task.template.bits,
                    share.nonce,
                ),
            )
            &&& task.template.merkle_root matches MerkleRootKind::Computed(template) ==> {
                &&& share.extranonce2 is Some
                &&& share.hash@ == double_sha256(
                    header_bytes(
                        share.version as i32,
                        task.template.prev_blockhash@,
                        template.root(share.extranonce2->0),
                        share.ntime,
                        task.template.bits,
                        share.nonce,
                    ),
                )
            }
        }),
{
    let task = actor.chip_jobs.tasks@[response_job_id(job_id, subcore_id) as int]->0;
    law_rolled_version(task.template.version, version);
}

/// No share is lost and none is made up: with a task under its job number and a
/// merkle root to hash under, a nonce is a share exactly when the header with
/// the rolled version meets the task's target; otherwise the hash that it falls
/// short with is that header's. So two nonces that differ in the rolled bits are
/// judged by different headers.
pub proof fn law_nonce_judged_by_rolled_header(
    actor: BM13xxActor,
    nonce: u32,
    job_id: u8,
    version: u16,
    subcore_id: u8,
    verdict: NonceVerdict,
    full: u32,
    root: Seq<u8>,
)
    requires
        actor.wf(),
        nonce_judged(actor, nonce, job_id, version, subcore_id, verdict),
        actor.chip_jobs.tasks@[response_job_id(job_id, subcore_id) as int] is Some,
        (full >> 13) & 0xFFFF == version,
        full & 0xE000_1FFF == actor.chip_jobs.tasks@[response_job_id(
            job_id,
            subcore_id,
        ) as int]->0.template.version & 0xE000_1FFF,
        match actor.chip_jobs.tasks@[response_job_id(
            job_id,
            subcore_id,
        ) as int]->0.template.merkle_root {
            MerkleRootKind::Fixed(given) => root == given@,
            MerkleRootKind::Computed(template) => actor.chip_jobs.tasks@[response_job_id(
                job_id,
                subcore_id,
            ) as int]->0.en2 matches Some(en2) && root == template.root(en2),
        },
    ensures
        ({
            let task = actor.chip_jobs.tasks@[response_job_id(job_id, subcore_id) as int]->0;
            let hash = double_sha256(
                header_bytes(
                    full as i32,
                    task.template.prev_blockhash@,
                    root,
                    task.ntime,
                    task.template.bits,
                    nonce,
                ),
            );
            &&& verdict is Valid <==> le_value(hash) <= task.share_target@
            &&& verdict matches NonceVerdict::Valid(share) ==> share.hash@ == hash && share.version
                == full
            &&& verdict is BelowTarget <==> le_value(hash) > task.share_target@
            &&& verdict matches NonceVerdict::BelowTarget { hash: found } ==> found@ == hash
        }),
{
    let base = actor.chip_jobs.tasks@[response_job_id(job_id, subcore_id) as int]->0.template.version;
    assert(full == (base & 0xE000_1FFFu32) | ((version as u32) << 13)) by (bit_vector)
        requires
            (full >> 13) & 0xFFFF == version,
            full & 0xE000_1FFF == base & 0xE000_1FFF,
    ;
}

/// A nonce is dropped unjudged only for want of a task under its number, or of
/// an extranonce2 to compute the merkle root from.
pub proof fn law_nonce_dropped_only_without_job(
    actor: BM13xxActor,
    nonce: u32,
    job_id: u8,
    version: u16,
    subcore_id: u8,
    verdict: NonceVerdict,
)
    requires
        actor.wf(),
        nonce_judged(actor, nonce, job_id, version, subcore_id, verdict),
    ensures
        ({
            let slot = actor.chip_jobs.tasks@[response_job_id(job_id, subcore_id) as int];
            &&& verdict is UnknownJob <==> slot is None
            &&& verdict is NoMerkleRoot <==> slot is Some && slot->0.template.merkle_root is Computed
                && slot->0.en2 is None
        }),
{
}

/// Chip and host hash the same header: whatever nonce and rolled bits a chip
/// reports for a job that it was sent, the share that comes of it hashes the
/// fields of that job.
pub proof fn law_chip_and_host_agree(
    actor: BM13xxActor,
    task: HashTask,
    job: JobFullFormat,
    nonce: u32,
    job_id: u8,
    version: u16,
    subcore_id: u8,
    share: Share,
)
    requires
        actor.wf(),
        job == job_of(task, response_job_id(job_id, subcore_id), job.merkle_root),
        task.merkle_root() == Some(job.merkle_root@),
        actor.chip_jobs.tasks@[job.job_id as int] == Some(task),
        nonce_judged(actor, nonce, job_id, version, subcore_id, NonceVerdict::Valid(share)),
    ensures
        share.hash@ == double_sha256(
            header_bytes(
                share.version as i32,
                job.prev_block_hash@,
                job.merkle_root@,
                job.ntime,
                job.nbits,
                nonce,
            ),
        ),
        share.version & 0xE000_1FFF == job.version & 0xE000_1FFF,
        share.ntime == job.ntime,
{
    law_rolled_version(task.template.version, version);
}

/// A job carries the header fields of its task and of the task's template, asks
/// for the whole nonce range, and is answered under its own number.
pub proof fn law_job_carries_its_task(task: HashTask, id: u8, root: [u8; 32])
    ensures
        ({
            let job = job_of(task, id, root);
            &&& job.job_id == id
            &&& job.num_midstates == 1
            &&& job.starting_nonce == 0
            &&& job.version == task.template.version
            &&& job.prev_block_hash == task.template.prev_blockhash
            &&& job.merkle_root == root
            &&& job.ntime == task.ntime
            &&& job.nbits == task.template.bits
        }),
{
}

/// Rolling moves a task one second on and changes nothing else.
pub proof fn law_rolling_moves_time_on(task: HashTask)
    requires
        task.ntime < u32::MAX,
    ensures
        ({
            let rolled = rolled_task(task);
            &&& rolled.ntime == task.ntime + 1
            &&& rolled.template == task.template
            &&& rolled.en2_range == task.en2_range
            &&& rolled.en2 == task.en2
            &&& rolled.share_target == task.share_target
            &&& rolled.merkle_root() == task.merkle_root()
        }),
{
}

/// The merkle root of a task is the one that the source gave, or that of its
/// extranonce2; a task that would have to compute it without one has none.
pub proof fn law_task_root(task: HashTask)
    ensures
        match task.template.merkle_root {
            MerkleRootKind::Fixed(root) => task.merkle_root() == Some(root@),
            MerkleRootKind::Computed(template) => match task.en2 {
                Some(en2) => task.merkle_root() == Some(template.root(en2)),
                None => task.merkle_root() is None,
            },
        },
{
}

/// What each event of a thread's life does to what others see of it. Shares and
/// errors are only ever counted up, one at a time; a thread that was given work
/// is active, and one that idles or has its chips off is not and hashes nothing.
pub proof fn law_thread_life(actor: BM13xxActor, task: HashTask, failed: bool)
    requires
        !actor.offline,
        actor.status.hardware_errors < u64::MAX,
        actor.status.chip_shares_found < u64::MAX,
    ensures
        ({
            let assigned = when_assigned(actor, task);
            &&& assigned.current_task == Some(task)
            &&& assigned.status.is_active
            &&& actor.status.hashrate.0 > 0 ==> assigned.status.hashrate == actor.status.hashrate
            &&& actor.status.hashrate.0 == 0 ==> assigned.status.hashrate
                == actor.estimated_hashrate
            &&& same_counts(assigned, actor)
            &&& same_works(assigned, actor)
            &&& assigned.chip_state == actor.chip_state
            &&& !assigned.offline
        }),
        ({
            let idle = when_idle(actor);
            &&& idle.current_task is None
            &&& !idle.status.is_active
            &&& idle.status.hashrate.0 == 0
            &&& same_counts(idle, actor)
            &&& same_works(idle, actor)
            &&& idle.chip_state == actor.chip_state
            &&& !idle.offline
        }),
        ({
            let off = when_disabled(actor, failed);
            &&& off.chip_state == ChipState::Disabled
            &&& off.current_task == actor.current_task
            &&& off.status.chip_shares_found == actor.status.chip_shares_found
            &&& same_works(off, actor)
            &&& actor.chip_state == ChipState::Disabled ==> off.status == actor.status
            &&& actor.chip_state == ChipState::Initialized ==> {
                &&& !off.status.is_active
                &&& off.status.hashrate.0 == 0
                &&& failed ==> off.status.hardware_errors == actor.status.hardware_errors + 1
                &&& !failed ==> off.status.hardware_errors == actor.status.hardware_errors
            }
        }),
        ({
            let up = when_initialized(actor);
            &&& up.chip_state == ChipState::Initialized
            &&& up.status.hashrate == actor.estimated_hashrate
            &&& up.status.is_active == actor.status.is_active
            &&& up.current_task == actor.current_task
            &&& same_counts(up, actor)
            &&& same_works(up, actor)
        }),
        ({
            let found = when_share_sent(actor);
            &&& found.status.chip_shares_found == actor.status.chip_shares_found + 1
            &&& found.status.hardware_errors == actor.status.hardware_errors
            &&& found.status.is_active
            &&& found.status.hashrate == actor.estimated_hashrate
            &&& found.current_task == actor.current_task
            &&& found.chip_state == actor.chip_state
            &&& same_works(found, actor)
        }),
        ({
            let status = with_hardware_error(actor.status);
            &&& status.hardware_errors == actor.status.hardware_errors + 1
            &&& status.chip_shares_found == actor.status.chip_shares_found
            &&& status.is_active == actor.status.is_active
            &&& status.hashrate == actor.status.hashrate
        }),
{
}

/// Neither shares nor errors were counted in between.
pub open spec fn same_counts(a: BM13xxActor, b: BM13xxActor) -> bool {
    &&& a.status.chip_shares_found == b.status.chip_shares_found
    &&& a.status.hardware_errors == b.status.hardware_errors
}

/// The chain, its sequences and the job slots are the same.
pub open spec fn same_works(a: BM13xxActor, b: BM13xxActor) -> bool {
    &&& a.chain == b.chain
    &&& a.sequencer == b.sequencer
    &&& a.estimated_hashrate == b.estimated_hashrate
    &&& a.chip_jobs == b.chip_jobs
    &&& a.domain_config == b.domain_config
}

/// What storing a task under the next number changes.
pub open spec fn job_stored(
    before: ChipJobs,
    task: HashTask,
    id: u8,
    after: ChipJobs,
) -> bool {
    &&& id == before.next_id
    &&& after.tasks@ == before.tasks@.update(id as int, Some(task))
    &&& after.next_id == (id + 1) % 16
}

/// What is sent for a task, and the thread afterwards.
pub open spec fn job_sent(
    before: BM13xxActor,
    task: HashTask,
    r: Result<Command, HashThreadError>,
    after: BM13xxActor,
) -> bool {
    &&& before.offline ==> after == before && (r matches Err(e)
        && e is ThreadOffline)
    &&& !before.offline ==> {
        &&& after.chip_jobs.tasks@ == before.chip_jobs.tasks@.update(
            before.chip_jobs.next_id as int,
            Some(task),
        )
        &&& after.chip_jobs.next_id == (before.chip_jobs.next_id + 1) % 16
        &&& after.unchanged_but_jobs(before)
        &&& r is Ok <==> task.merkle_root() is Some
        &&& r matches Ok(command) ==> command matches Command::JobFull { job_data }
            && job_data == job_of(task, before.chip_jobs.next_id, job_data.merkle_root)
            && task.merkle_root() == Some(job_data.merkle_root@)
        &&& r matches Err(e) ==> e matches HashThreadError::WorkAssignmentFailed(why)
            && why@ == "EN2 required for computed merkle root"@
    }
}

/// What giving up every earlier task changes, and what is returned.
pub open spec fn task_replaced(
    before: BM13xxActor,
    new_task: HashTask,
    r: (Option<HashTask>, HashThreadStatus),
    after: BM13xxActor,
) -> bool {
    &&& before.offline ==> after == before
    &&& !before.offline ==> {
        &&& after.chip_jobs.next_id == before.chip_jobs.next_id
        &&& after.chip_jobs.tasks@ == last_only(
            before.chip_jobs.tasks@,
            before.chip_jobs.next_id,
        )
        &&& after.unchanged_but_jobs(when_assigned(before, new_task))
    }
    &&& r.0 == before.current_task
    &&& r.1 == after.status
}

/// What is sent when the block time is rolled forward, and the thread afterwards.
pub open spec fn ntime_rolled(
    before: BM13xxActor,
    r: Option<Result<Command, HashThreadError>>,
    after: BM13xxActor,
) -> bool {
    &&& r is None <==> before.current_task is None
    &&& r is None ==> after == before
    &&& r matches Some(sent) ==> {
        let rolled = rolled_task(before.current_task->0);
        let id = before.chip_jobs.next_id;
        &&& after.current_task == Some(rolled)
        &&& after.chip_jobs.tasks@ == before.chip_jobs.tasks@.update(
            id as int,
            Some(rolled),
        )
        &&& after.chip_jobs.next_id == (id + 1) % 16
        &&& after == (BM13xxActor {
            chip_jobs: after.chip_jobs,
            current_task: after.current_task,
            ..before
        })
        &&& sent is Ok <==> rolled.merkle_root() is Some
        &&& sent matches Ok(command) ==> command matches Command::JobFull { job_data }
            && job_data == job_of(rolled, id, job_data.merkle_root)
            && rolled.merkle_root() == Some(job_data.merkle_root@)
        &&& sent matches Err(e) ==> e matches HashThreadError::WorkAssignmentFailed(why)
            && why@ == "EN2 required for computed merkle root"@
    }
}

/// What a nonce whose header has a given hash is worth.
pub open spec fn hash_judged(
    task: HashTask,
    nonce: u32,
    version: u32,
    hash: [u8; 32],
    r: NonceVerdict,
) -> bool {
    &&& match r {
        NonceVerdict::Valid(share) => le_value(hash@) <= task.share_target@ && is_share_of(
            share,
            task,
            nonce,
            version,
            hash@,
        ),
        NonceVerdict::BelowTarget { hash: h } => le_value(hash@) > task.share_target@ && h
            == hash,
        _ => false,
    }
}

/// What the chips are sent is found again under the number that it carries: the
/// task itself, with the header fields of the job. Of the earlier tasks only the
/// one that had this number is forgotten.
pub proof fn law_sent_job_is_found(
    before: BM13xxActor,
    task: HashTask,
    job: JobFullFormat,
    after: BM13xxActor,
    i: int,
)
    requires
        before.wf(),
        job_sent(before, task, Ok(Command::JobFull { job_data: job }), after),
        0 <= i < 16,
    ensures
        job.job_id < 16,
        after.chip_jobs.tasks@[job.job_id as int] == Some(task),
        i != job.job_id ==> after.chip_jobs.tasks@[i] == before.chip_jobs.tasks@[i],
        job.ntime == task.ntime,
        job.nbits == task.template.bits,
        job.version == task.template.version,
        job.prev_block_hash == task.template.prev_blockhash,
        task.merkle_root() == Some(job.merkle_root@),
        job.starting_nonce == 0,
        job.num_midstates == 1,
        after.current_task == before.current_task,
        after.status == before.status,
        after.chip_state == before.chip_state,
        after.chain == before.chain,
{
}

/// A task is sent unless the thread was shut down or its merkle root cannot be
/// computed.
pub proof fn law_job_is_sent(
    before: BM13xxActor,
    task: HashTask,
    r: Result<Command, HashThreadError>,
    after: BM13xxActor,
)
    requires
        job_sent(before, task, r, after),
    ensures
        r is Ok <==> !before.offline && (task.template.merkle_root is Fixed || task.en2 is Some),
        r matches Ok(command) ==> command is JobFull,
        r matches Err(e) ==> if before.offline {
            e is ThreadOffline
        } else {
            e is WorkAssignmentFailed
        },
{
}

/// Two jobs in a row go out under different numbers, the second under the next
/// one, and both are found afterwards.
pub proof fn law_jobs_take_turns(
    first: ChipJobs,
    a: HashTask,
    i: u8,
    second: ChipJobs,
    b: HashTask,
    j: u8,
    third: ChipJobs,
    k: int,
)
    requires
        first.wf(),
        second.wf(),
        job_stored(first, a, i, second),
        job_stored(second, b, j, third),
        0 <= k < 16,
    ensures
        i < 15 ==> j == i + 1,
        i == 15 ==> j == 0,
        third.tasks@[i as int] == Some(a),
        third.tasks@[j as int] == Some(b),
        k != i && k != j ==> third.tasks@[k] == first.tasks@[k],
{
}

/// Once a task has replaced the earlier ones, of all that was sent only the last
/// is still answered for; the task before it is handed back. A thread that was
/// shut down is left alone.
pub proof fn law_replacement_gives_up_earlier_work(
    before: BM13xxActor,
    new_task: HashTask,
    r: (Option<HashTask>, HashThreadStatus),
    after: BM13xxActor,
    i: int,
)
    requires
        before.wf(),
        task_replaced(before, new_task, r, after),
        0 <= i < 16,
    ensures
        before.offline ==> after == before && r.0 == before.current_task && r.1 == after.status,
        !before.offline ==> ({
            let last = if before.chip_jobs.next_id == 0 {
                15int
            } else {
                before.chip_jobs.next_id - 1
            };
            &&& i == last ==> after.chip_jobs.tasks@[i] == before.chip_jobs.tasks@[i]
            &&& i != last ==> after.chip_jobs.tasks@[i] is None
            &&& after.chip_jobs.next_id == before.chip_jobs.next_id
            &&& after.current_task == Some(new_task)
            &&& after.status.is_active
            &&& after.chip_state == before.chip_state
            &&& r.0 == before.current_task
            &&& r.1 == after.status
        }),
{
}

/// Rolling sends the current task again with its time a second on, under the
/// next number, and goes on with it; the earlier one is still answered for.
pub proof fn law_rolled_job_is_sent(
    before: BM13xxActor,
    r: Option<Result<Command, HashThreadError>>,
    after: BM13xxActor,
    task: HashTask,
    i: int,
)
    requires
        before.wf(),
        ntime_rolled(before, r, after),
        before.current_task == Some(task),
        task.ntime < u32::MAX,
        0 <= i < 16,
    ensures
        after.current_task matches Some(rolled) && rolled.ntime == task.ntime + 1 && rolled.template
            == task.template && rolled.en2 == task.en2 && rolled.en2_range == task.en2_range
            && rolled.share_target == task.share_target,
        after.chip_jobs.tasks@[before.chip_jobs.next_id as int] == after.current_task,
        i != before.chip_jobs.next_id ==> after.chip_jobs.tasks@[i] == before.chip_jobs.tasks@[i],
        r == Some(Ok::<Command, HashThreadError>(Command::JobFull { job_data: rolled_job(r) }))
            ==> {
            let job = rolled_job(r);
            &&& job.job_id == before.chip_jobs.next_id
            &&& job.ntime == task.ntime + 1
            &&& job.nbits == task.template.bits
            &&& job.version == task.template.version
            &&& job.prev_block_hash == task.template.prev_blockhash
            &&& task.merkle_root() == Some(job.merkle_root@)
        },
        task.merkle_root() is Some ==> r matches Some(Ok(Command::JobFull { .. })),
        after.status == before.status,
        after.chip_state == before.chip_state,
{
}

/// The job that a roll sends.
pub open spec fn rolled_job(r: Option<Result<Command, HashThreadError>>) -> JobFullFormat {
    r->0->Ok_0->JobFull_job_data
}

/// A nonce is a share exactly when its hash is no larger than the task's target;
/// the share then carries the hash, and the nonce and version that gave it.
pub proof fn law_hash_decides(
    task: HashTask,
    nonce: u32,
    version: u32,
    hash: [u8; 32],
    r: NonceVerdict,
)
    requires
        hash_judged(task, nonce, version, hash, r),
    ensures
        r is Valid <==> le_value(hash@) <= task.share_target@,
        r is BelowTarget <==> le_value(hash@) > task.share_target@,
        r matches NonceVerdict::Valid(share) ==> {
            &&& share.hash@ == hash@
            &&& share.nonce == nonce
            &&& share.version == version
            &&& share.ntime == task.ntime
            &&& share.extranonce2 == task.en2
            &&& share.expected_work@ == inverse(task.share_target@)
        },
{
}

/// Of a result header the job number is in bits 6 to 3.
pub proof fn law_job_id_bits(header: u8)
    ensures
        response_job_id(header >> 4, header & 0x0F) == (header / 8) % 16,
{
    assert((((((header >> 4) << 4) | (header & 0x0Fu8)) >> 3) & 0x0F) == (header / 8) % 16)
        by (bit_vector);
}

/// What is made of what a chain sent.
pub open spec fn response_handled(
    before: BM13xxActor,
    input: ChipInput,
    r: ResponseOutcome,
    after: BM13xxActor,
) -> bool {
    &&& match input {
        ChipInput::Response(Response::Nonce { nonce, job_id, version, subcore_id, .. }) => {
            &&& after == before
            &&& r matches ResponseOutcome::Nonce(verdict) && nonce_judged(
                before,
                nonce,
                job_id,
                version,
                subcore_id,
                verdict,
            )
        },
        ChipInput::Response(Response::ReadRegister { .. }) => {
            &&& after == before
            &&& r is RegisterRead
        },
        ChipInput::StreamError => {
            &&& after == (BM13xxActor {
                status: with_hardware_error(before.status),
                ..before
            })
            &&& r == ResponseOutcome::HardwareError(after.status)
        },
    }
}

/// What switching the chips off changes, and what is published.
pub open spec fn chips_disabled(
    before: BM13xxActor,
    failed: bool,
    r: Seq<HashThreadStatus>,
    after: BM13xxActor,
) -> bool {
    &&& after == when_disabled(before, failed)
    &&& r == if before.chip_state == ChipState::Disabled {
        Seq::<HashThreadStatus>::empty()
    } else if failed {
        seq![with_hardware_error(before.status), after.status]
    } else {
        seq![after.status]
    }
}

/// The thread for a chain of a given layout, or why there is none.
pub open spec fn thread_made(
    topology: TopologySpec,
    chip_config: ChipConfig,
    r: Result<BM13xxActor, HashThreadError>,
) -> bool {
    &&& r is Ok <==> topology.chips() <= 128
    &&& r matches Ok(actor) ==> {
        &&& actor.wf()
        &&& actor.chain.chips@.len() == topology.chips()
        &&& actor.chain.domain_count == topology.domain_count
        &&& actor.chain.chips_per_domain == topology.chips_per_domain
        &&& actor.sequencer.chip_config == chip_config
        &&& actor.estimated_hashrate.0 == CHIP_HASHRATE * topology.chips()
        &&& actor.chip_state == ChipState::Disabled
        &&& actor.current_task is None
        &&& actor.chip_jobs.next_id == 0
        &&& forall|i: int| 0 <= i < 16 ==> (#[trigger] actor.chip_jobs.tasks@[i]) is None
        &&& actor.status == HashThreadStatus::idle()
        &&& actor.domain_config == topology.domain_config
        &&& !actor.offline
    }
    &&& r matches Err(e) ==> e matches HashThreadError::InitializationFailed(why) && why@
        == "Address assignment failed: "@ + chain_error_text(
        ChainError::TooManyChips { chip_count: topology.chips() as usize },
    )
}

/// What is returned when a thread's work changes: the task that it had, and the
/// status to publish.
pub open spec fn handed_back(
    before: BM13xxActor,
    r: (Option<HashTask>, HashThreadStatus),
    after: BM13xxActor,
) -> bool {
    &&& r.0 == before.current_task
    &&& r.1 == after.status
}

/// Whether a status is the one that the thread is in.
pub open spec fn reports(status: HashThreadStatus, actor: BM13xxActor) -> bool {
    status == actor.status
}

/// No task is lost on the way: whoever changes a thread's work gets the task that
/// it had. What is published is how the thread is afterwards.
pub proof fn law_task_is_handed_back(
    before: BM13xxActor,
    r: (Option<HashTask>, HashThreadStatus),
    after: BM13xxActor,
    status: HashThreadStatus,
)
    requires
        handed_back(before, r, after),
        reports(status, after),
    ensures
        before.current_task matches Some(task) ==> r.0 == Some(task),
        before.current_task is None ==> r.0 is None,
        r.1.is_active == after.status.is_active,
        r.1.hashrate == after.status.hashrate,
        r.1.chip_shares_found == after.status.chip_shares_found,
        r.1.hardware_errors == after.status.hardware_errors,
        status.is_active == after.status.is_active,
        status.hashrate == after.status.hashrate,
        status.chip_shares_found == after.status.chip_shares_found,
        status.hardware_errors == after.status.hardware_errors,
{
}

/// A nonce is judged and changes nothing by itself, and neither does a register
/// that was read; an error on the line counts once, and is published.
pub proof fn law_chip_response(
    before: BM13xxActor,
    input: ChipInput,
    r: ResponseOutcome,
    after: BM13xxActor,
)
    requires
        response_handled(before, input, r, after),
        before.status.hardware_errors < u64::MAX,
    ensures
        input is Response ==> after == before,
        input matches ChipInput::Response(Response::Nonce {
            nonce,
            job_id,
            version,
            subcore_id,
            ..
        }) ==> (r matches ResponseOutcome::Nonce(verdict) && nonce_judged(
            before,
            nonce,
            job_id,
            version,
            subcore_id,
            verdict,
        )),
        input matches ChipInput::Response(Response::ReadRegister { .. }) ==> r is RegisterRead,
        input is StreamError ==> {
            &&& after.status.hardware_errors == before.status.hardware_errors + 1
            &&& r matches ResponseOutcome::HardwareError(status) && status == after.status
            &&& after.current_task == before.current_task
            &&& after.chip_jobs == before.chip_jobs
            &&& after.chip_state == before.chip_state
            &&& after.status.chip_shares_found == before.status.chip_shares_found
        },
{
}

/// Switching chips off that are on is published once, and a failure to do so is
/// published before that, while the thread still counts as it was; chips that are
/// off are left alone, and nothing is published.
pub proof fn law_disable_is_published(
    before: BM13xxActor,
    failed: bool,
    r: Seq<HashThreadStatus>,
    after: BM13xxActor,
)
    requires
        chips_disabled(before, failed, r, after),
        before.status.hardware_errors < u64::MAX,
    ensures
        before.chip_state == ChipState::Disabled ==> r.len() == 0 && after == before,
        before.chip_state == ChipState::Initialized ==> {
            &&& r.len() == if failed {
                2int
            } else {
                1
            }
            &&& !r.last().is_active
            &&& r.last().hashrate.0 == 0
            &&& r.last() == after.status
            &&& failed ==> r[0].hardware_errors == before.status.hardware_errors + 1
                && r[0].is_active == before.status.is_active
            &&& after.chip_state == ChipState::Disabled
        },
{
}

/// A thread is made for every chain that fits in the address space. It expects
/// the chips of the layout, each at 83 GH/s, and starts with its chips off and
/// nothing to do.
pub proof fn law_thread_is_made(
    topology: TopologySpec,
    chip_config: ChipConfig,
    r: Result<BM13xxActor, HashThreadError>,
)
    requires
        thread_made(topology, chip_config, r),
    ensures
        r is Ok <==> topology.domain_count * topology.chips_per_domain <= 128,
        r matches Ok(actor) ==> {
            &&& actor.chain.chips@.len() == topology.domain_count * topology.chips_per_domain
            &&& actor.chain.domain_count == topology.domain_count
            &&& actor.chain.chips_per_domain == topology.chips_per_domain
            &&& actor.estimated_hashrate.0 == 83_000_000_000 * actor.chain.chips@.len()
            &&& actor.chip_state == ChipState::Disabled
            &&& actor.current_task is None
            &&& !actor.offline
            &&& !actor.status.is_active
            &&& actor.status.hashrate.0 == 0
            &&& actor.status.hardware_errors == 0
            &&& actor.status.chip_shares_found == 0
            &&& actor.domain_config == topology.domain_config
            &&& actor.sequencer.chip_config == chip_config
            &&& actor.chip_jobs.next_id == 0
            &&& forall|i: int| 0 <= i < 16 ==> (#[trigger] actor.chip_jobs.tasks@[i]) is None
        },
        r matches Err(e) ==> e is InitializationFailed,
{
}

/// The supply voltage is the nearest microvolt to the line through the two
/// operating points: 0.25625 V a domain at 56.25 MHz, and 0.3 V at 500 MHz.
pub proof fn law_voltage_on_the_line(khz: u32, domain_count: nat)
    ensures
        ({
            let line = 443_750 * (256_250 * domain_count) + 43_750 * (domain_count * (khz
                - 56_250));
            let volts = 443_750 * stacked_microvolts(khz, domain_count);
            2 * (volts - line) <= 443_750 && 2 * (line - volts) <= 443_750
        }),
{
    let x = domain_count * (17_800_000 + 7 * khz);
    let y = domain_count * (khz - 56_250);
    assert(x == 17_800_000 * domain_count + 7 * (domain_count * khz)) by (nonlinear_arith)
        requires
            x == domain_count * (17_800_000 + 7 * khz),
    ;
    assert(y == domain_count * khz - 56_250 * domain_count) by (nonlinear_arith)
        requires
            y == domain_count * (khz - 56_250),
    ;
    assert(x >= 0) by (nonlinear_arith)
        requires
            x == domain_count * (17_800_000 + 7 * khz),
    ;
    let volts = stacked_microvolts(khz, domain_count);
    assert(volts == (2 * x + 71) / 142);
    assert(2 * x - 70 <= 142 * volts <= 2 * x + 71);
    let line = 443_750 * (256_250 * domain_count) + 43_750 * y;
    assert(line == 6_250 * x);
}

/// What a regulator is set to is within its range, and is what the frequency
/// needs wherever the range allows it.
pub proof fn law_applied_voltage(khz: u32, domain_count: nat, range: VoltageRange)
    requires
        range.min <= range.max,
    ensures
        ({
            let applied = applied_microvolts(khz, domain_count, range);
            let wanted = stacked_microvolts(khz, domain_count);
            &&& range.min <= applied <= range.max
            &&& range.min <= wanted <= range.max ==> applied == wanted
            &&& wanted < range.min ==> applied == range.min
            &&& wanted > range.max ==> applied == range.max
        }),
{
}

/// The commands among the actions of a ramp, in order.
pub open spec fn commands_among(actions: Seq<RampAction>) -> Seq<Command>
    decreases actions.len(),
{
    if actions.len() == 0 {
        Seq::<Command>::empty()
    } else {
        match actions.last() {
            RampAction::Send { command } => commands_among(actions.drop_last()).push(command),
            _ => commands_among(actions.drop_last()),
        }
    }
}

proof fn lemma_commands_among_sum(a: Seq<RampAction>, b: Seq<RampAction>)
    ensures
        commands_among(a + b) == commands_among(a) + commands_among(b),
    decreases b.len(),
{
    if b.len() == 0 {
        assert(a + b =~= a);
    } else {
        lemma_commands_among_sum(a, b.drop_last());
        assert((a + b).drop_last() =~= a + b.drop_last());
        assert((a + b).last() == b.last());
    }
    assert(commands_among(a + b) =~= commands_among(a) + commands_among(b));
}

/// A ramp sends the command of every step, in the order of the steps, and no
/// other command, with or without a regulator.
pub proof fn law_ramp_sends_every_step(
    steps: Seq<(Frequency, Step)>,
    domain_count: nat,
    range: Option<VoltageRange>,
)
    ensures
        commands_among(ramp_actions(steps, domain_count, range)) == steps.map_values(
            |step: (Frequency, Step)| step.1.command,
        ),
    decreases steps.len(),
{
    let show = |step: (Frequency, Step)| step.1.command;
    if steps.len() > 0 {
        let rest = steps.drop_last();
        let last = steps.last();
        let tail = ramp_step_actions(last.0, last.1, domain_count, range);
        law_ramp_sends_every_step(rest, domain_count, range);
        lemma_commands_among_sum(ramp_actions(rest, domain_count, range), tail);
        reveal_with_fuel(commands_among, 5);
        assert(commands_among(tail) =~= seq![last.1.command]) by {
            let head = tail.take(tail.len() - 1);
            assert(tail.drop_last() =~= head);
            if range is Some {
                if last.1.wait_after is Some {
                    assert(tail.drop_last().drop_last().drop_last() =~= tail.take(1));
                    assert(tail.drop_last().drop_last() =~= tail.take(2));
                    assert(tail.take(1).drop_last() =~= Seq::<RampAction>::empty());
                } else {
                    assert(tail.drop_last().drop_last() =~= tail.take(1));
                    assert(tail.take(1).drop_last() =~= Seq::<RampAction>::empty());
                }
            } else {
                if last.1.wait_after is Some {
                    assert(tail.drop_last().drop_last() =~= Seq::<RampAction>::empty());
                } else {
                    assert(tail.drop_last() =~= Seq::<RampAction>::empty());
                }
            }
        }
        assert(steps.map_values(show) =~= rest.map_values(show).push(last.1.command));
    } else {
        assert(steps.map_values(show) =~= Seq::<Command>::empty());
    }
}

/// After each command of a ramp comes the wait that its step asks for.
pub proof fn law_ramp_waits_for_lock(
    steps: Seq<(Frequency, Step)>,
    domain_count: nat,
    range: Option<VoltageRange>,
    i: int,
)
    requires
        0 <= i < steps.len(),
        steps[i].1.wait_after is Some,
    ensures
        exists|k: int|
            0 <= k && k + 1 < ramp_actions(steps, domain_count, range).len() && (
            #[trigger] ramp_actions(steps, domain_count, range)[k]) == (RampAction::Send {
                command: steps[i].1.command,
            }) && ramp_actions(steps, domain_count, range)[k + 1] == (RampAction::Wait {
                micros: steps[i].1.wait_after->0,
            }),
    decreases steps.len(),
{
    let actions = ramp_actions(steps, domain_count, range);
    let rest = steps.drop_last();
    let head = ramp_actions(rest, domain_count, range);
    let last = steps.last();
    let tail = ramp_step_actions(last.0, last.1, domain_count, range);
    assert(actions == head + tail);
    if i < rest.len() {
        assert(rest[i] == steps[i]);
        law_ramp_waits_for_lock(rest, domain_count, range, i);
        let k = choose|k: int|
            0 <= k && k + 1 < head.len() && (#[trigger] head[k]) == (RampAction::Send {
                command: rest[i].1.command,
            }) && head[k + 1] == (RampAction::Wait { micros: rest[i].1.wait_after->0 });
        assert(actions[k] == head[k] && actions[k + 1] == head[k + 1]);
    } else {
        let t: int = if range is Some {
            2
        } else {
            0
        };
        let k = head.len() + t;
        assert(actions[k] == tail[t] && actions[k + 1] == tail[t + 1]);
    }
}

/// The frequency to ramp to is the operator's if there is one above zero, or
/// else the chip's own, or else the default.
pub proof fn law_target_frequency(configured: Option<Frequency>, config: ChipConfig)
    ensures
        ({
            let target = target_frequency(configured, config);
            let asked = configured matches Some(freq) && freq.0 > 0;
            &&& asked ==> Some(target) == configured
            &&& !asked && config.target_frequency is Some ==> Some(target)
                == config.target_frequency
            &&& !asked && config.target_frequency is None ==> target.0 == 500_000
        }),
{
}

/// Of a ramp only the waits cannot fail; a failure tells why, and which voltage
/// could not be set.
pub proof fn law_ramp_failure(action: RampAction, why: Seq<char>)
    ensures
        ramp_failure(action, why) is None <==> action is Wait,
        ramp_failure(action, why) matches Some(text) ==> text.len() >= why.len() && text.skip(
            text.len() - why.len(),
        ) == why,
{
    if let Some(text) = ramp_failure(action, why) {
        assert(text.skip(text.len() - why.len()) =~= why);
    }
}

} // verus!
