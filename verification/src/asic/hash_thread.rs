//! The interface between hash threads and the scheduler, as values.

use crate::job::{Extranonce2, Extranonce2Range, JobTemplate, MerkleRootKind};
use crate::pow::{Target, Work};
use crate::text::push_text;
use crate::types::HashRate;
use std::sync::Arc;
use vstd::prelude::*;

verus! {

/// What a hash thread can do.
#[derive(Clone, Copy, Debug, PartialEq, Eq, Structural)]
pub struct HashThreadCapabilities {
    pub hashrate_estimate: HashRate,
}

/// How a hash thread is doing.
#[derive(Clone, Copy, Debug, PartialEq, Eq, Structural)]
pub struct HashThreadStatus {
    /// Rate over a five-minute window.
    pub hashrate: HashRate,
    /// Rate over a one-minute window.
    pub hashrate_1min: HashRate,
    /// Shares found at the chip's target.
    pub chip_shares_found: u64,
    /// Shares submitted to the pool.
    pub pool_shares_submitted: u64,
    pub hardware_errors: u64,
    /// Chip temperature in millionths of a degree Celsius.
    pub temperature_microc: Option<i32>,
    pub is_active: bool,
    /// Chips that have produced a nonce lately.
    pub active_chips: u16,
    /// Chips expected on the chain.
    pub expected_chips: u16,
    /// Chip frequency; zero when idle.
    pub frequency_khz: u32,
}

impl HashThreadStatus {
    /// A thread that has not done anything yet.
    pub open spec fn idle() -> HashThreadStatus {
        HashThreadStatus {
            hashrate: HashRate(0),
            hashrate_1min: HashRate(0),
            chip_shares_found: 0,
            pool_shares_submitted: 0,
            hardware_errors: 0,
            temperature_microc: None,
            is_active: false,
            active_chips: 0,
            expected_chips: 0,
            frequency_khz: 0,
        }
    }
}

impl Default for HashThreadStatus {
    fn default() -> (r: Self)
        ensures
            r == HashThreadStatus::idle(),
    {
        HashThreadStatus {
            hashrate: HashRate(0),
            hashrate_1min: HashRate(0),
            chip_shares_found: 0,
            pool_shares_submitted: 0,
            hardware_errors: 0,
            temperature_microc: None,
            is_active: false,
            active_chips: 0,
            expected_chips: 0,
            frequency_khz: 0,
        }
    }
}

/// What a hash thread tells the scheduler, beside shares.
#[derive(Clone, Copy, Debug, PartialEq, Eq, Structural)]
pub enum HashThreadEvent {
    WorkDepletionWarning { estimated_remaining_ms: u64 },
    WorkExhausted { en2_searched: u64 },
    StatusUpdate(HashThreadStatus),
}

/// Why a hash thread could not do what it was asked.
#[derive(Debug)]
pub enum HashThreadError {
    ThreadOffline,
    ChannelClosed(String),
    WorkAssignmentFailed(String),
    PreemptionFailed(String),
    ShutdownTimeout,
    InitializationFailed(String),
}

impl HashThreadError {
    /// The error as text.
    pub open spec fn text(&self) -> Seq<char> {
        match self {
            HashThreadError::ThreadOffline => "Thread has been shut down"@,
            HashThreadError::ChannelClosed(why) => "Channel closed: "@ + why@,
            HashThreadError::WorkAssignmentFailed(why) => "Work assignment failed: "@ + why@,
            HashThreadError::PreemptionFailed(why) => "Preemption failed: "@ + why@,
            HashThreadError::ShutdownTimeout => "Shutdown timeout"@,
            HashThreadError::InitializationFailed(why) => "Chip initialization failed: "@ + why@,
        }
    }

    /// The error as text.
    pub fn message(&self) -> (r: String)
        ensures
            r@ == self.text(),
    {
        let mut out = String::new();
        match self {
            HashThreadError::ThreadOffline => {
                push_text(&mut out, "Thread has been shut down");
            },
            HashThreadError::ChannelClosed(why) => {
                push_text(&mut out, "Channel closed: ");
                push_text(&mut out, why.as_str());
            },
            HashThreadError::WorkAssignmentFailed(why) => {
                push_text(&mut out, "Work assignment failed: ");
                push_text(&mut out, why.as_str());
            },
            HashThreadError::PreemptionFailed(why) => {
                push_text(&mut out, "Preemption failed: ");
                push_text(&mut out, why.as_str());
            },
            HashThreadError::ShutdownTimeout => {
                push_text(&mut out, "Shutdown timeout");
            },
            HashThreadError::InitializationFailed(why) => {
                push_text(&mut out, "Chip initialization failed: ");
                push_text(&mut out, why.as_str());
            },
        }
        assert(out@ =~= self.text());
        out
    }
}

/// A board's word to its hash threads.
#[derive(Clone, Debug)]
pub enum ThreadRemovalSignal {
    /// Go on.
    Running,
    /// The board was unplugged.
    BoardDisconnected,
    /// The board found a hardware fault.
    HardwareFault { description: String },
    /// The user disabled the board.
    UserRequested,
    /// The system shuts down.
    Shutdown,
}

impl ThreadRemovalSignal {
    /// Whether the thread is to clean up and exit.
    pub fn stops_thread(&self) -> (r: bool)
        ensures
            r == stops(*self),
    {
        match self {
            ThreadRemovalSignal::Running => false,
            _ => true,
        }
    }
}

/// Work for one hash thread.
#[derive(Debug)]
pub struct HashTask {
    pub template: Arc<JobTemplate>,
    /// The extranonce2 values allotted to the thread; none for header-only mining.
    pub en2_range: Option<Extranonce2Range>,
    /// The extranonce2 to start from, or the one that was used.
    pub en2: Option<Extranonce2>,
    /// What a nonce must meet for the thread to report it.
    pub share_target: Target,
    /// Block time, rolled forward while mining.
    pub ntime: u32,
}

impl HashTask {
    /// A copy that shares the template.
    pub fn duplicate(&self) -> (r: HashTask)
        ensures
            r == *self,
    {
        HashTask {
            template: Arc::clone(&self.template),
            en2_range: self.en2_range,
            en2: self.en2,
            share_target: self.share_target,
            ntime: self.ntime,
        }
    }

    /// The merkle root that the task hashes under, if it has one: that of the
    /// template, or the one computed for the task's extranonce2.
    pub open spec fn merkle_root(&self) -> Option<Seq<u8>> {
        match self.template.merkle_root {
            MerkleRootKind::Fixed(root) => Some(root@),
            MerkleRootKind::Computed(t) => match self.en2 {
                Some(en2) => Some(t.root(en2)),
                None => None,
            },
        }
    }

    /// The merkle root that the task hashes under. There is none when it must
    /// be computed and the task has no extranonce2.
    pub fn resolve_merkle_root(&self) -> (r: Option<[u8; 32]>)
        ensures
            r is Some <==> self.merkle_root() is Some,
            r matches Some(root) ==> self.merkle_root() == Some(root@),
    {
        match &self.template.merkle_root {
            MerkleRootKind::Fixed(root) => Some(*root),
            MerkleRootKind::Computed(t) => match &self.en2 {
                Some(en2) => Some(t.compute_merkle_root(en2)),
                None => None,
            },
        }
    }
}

/// What a source is sent when a share is worth submitting.
#[derive(Clone, Debug)]
pub struct SourceShare {
    pub job_id: String,
    pub nonce: u32,
    pub time: u32,
    pub version: u32,
    pub extranonce2: Option<Extranonce2>,
}

/// A share that a hash thread found.
#[derive(Clone, Copy, Debug)]
pub struct Share {
    pub nonce: u32,
    /// Block hash, in internal byte order.
    pub hash: [u8; 32],
    /// Full block version with the rolled bits applied.
    pub version: u32,
    pub ntime: u32,
    pub extranonce2: Option<Extranonce2>,
    /// Expected work, from the task's target.
    pub expected_work: Work,
}

impl Share {
    /// Addresses the share to the source of a job.
    pub fn for_job(&self, job_id: String) -> (r: SourceShare)
        ensures
            r == submission_of(*self, job_id),
    {
        SourceShare {
            job_id,
            nonce: self.nonce,
            time: self.ntime,
            version: self.version,
            extranonce2: self.extranonce2,
        }
    }
}

/// A share as it is submitted to the source of a job.
pub open spec fn submission_of(share: Share, job_id: String) -> SourceShare {
    SourceShare {
        job_id,
        nonce: share.nonce,
        time: share.ntime,
        version: share.version,
        extranonce2: share.extranonce2,
    }
}

/// Whether a signal tells a thread to clean up and exit.
pub open spec fn stops(signal: ThreadRemovalSignal) -> bool {
    !(signal is Running)
}

/// A thread goes on only as long as it is told to; whatever else it is told, it
/// stops.
pub proof fn law_signals_stop_threads(signal: ThreadRemovalSignal)
    ensures
        stops(ThreadRemovalSignal::Running) == false,
        signal is BoardDisconnected || signal is HardwareFault || signal is UserRequested
            || signal is Shutdown ==> stops(signal),
{
}

/// A share is submitted as it was found: nothing but the job that it is for is
/// added.
pub proof fn law_submission(share: Share, job_id: String)
    ensures
        ({
            let sent = submission_of(share, job_id);
            &&& sent.job_id == job_id
            &&& sent.nonce == share.nonce
            &&& sent.time == share.ntime
            &&& sent.version == share.version
            &&& sent.extranonce2 == share.extranonce2
        }),
{
}

} // verus!
