//! Bringing a chain up from cold: the order of the phases, how often the chain
//! is verified, and when too few chips are left to go on.

use crate::asic::bm13xx::chain::Chain;
use crate::asic::bm13xx::protocol::{Command, Register, RegisterAddress, Response};
use crate::asic::bm13xx::thread_v2::{
    min_viable_chip_count, MAX_VERIFY_ATTEMPTS, POWER_ON_DELAY_MS, VERIFY_RETRY_DELAY_MS,
};
use crate::asic::hash_thread::HashThreadError;
use crate::text::{decimal, push_decimal, push_text};
use vstd::prelude::*;

verus! {

/// A command sequence of the bring-up.
#[derive(Clone, Copy, Debug, PartialEq, Eq, Structural)]
pub enum Sequence {
    Enumeration,
    DomainConfig,
    BroadcastConfig,
    PerChipConfig,
}

impl Sequence {
    /// What the sequence is called in an error.
    pub open spec fn label(&self) -> Seq<char> {
        match self {
            Sequence::Enumeration => "enumeration"@,
            Sequence::DomainConfig => "domain config"@,
            Sequence::BroadcastConfig => "broadcast register config"@,
            Sequence::PerChipConfig => "per-chip register config"@,
        }
    }

    /// What the sequence is called in an error.
    pub fn name(&self) -> (r: &'static str)
        ensures
            r@ == self.label(),
    {
        match self {
            Sequence::Enumeration => "enumeration",
            Sequence::DomainConfig => "domain config",
            Sequence::BroadcastConfig => "broadcast register config",
            Sequence::PerChipConfig => "per-chip register config",
        }
    }
}

/// Why a chain could not be brought up.
#[derive(Debug)]
pub enum BringUpFailure {
    /// The chips could not be enabled.
    Enable(String),
    /// A command of a sequence could not be sent.
    Send(Sequence, String),
    /// Too few chips responded.
    TooFewChips { expected: usize, found: usize, minimum: usize },
    /// The frequency ramp failed.
    Ramp(String),
}

impl BringUpFailure {
    /// The failure as text.
    pub open spec fn text(&self) -> Seq<char> {
        match self {
            BringUpFailure::Enable(why) => "Failed to enable chips: "@ + why@,
            BringUpFailure::Send(sequence, why) => "Failed to send "@ + sequence.label()
                + " command: "@ + why@,
            BringUpFailure::TooFewChips { expected, found, minimum } => {
                "Too few chips responding: expected "@ + decimal(*expected as nat) + ", found "@
                    + decimal(*found as nat) + " (minimum "@ + decimal(*minimum as nat) + ")"@
            },
            BringUpFailure::Ramp(why) => why@,
        }
    }

    /// The failure as an error of the thread.
    pub fn into_error(self) -> (r: HashThreadError)
        ensures
            r matches HashThreadError::InitializationFailed(why) && why@ == self.text(),
    {
        let mut out = String::new();
        match &self {
            BringUpFailure::Enable(why) => {
                push_text(&mut out, "Failed to enable chips: ");
                push_text(&mut out, why.as_str());
            },
            BringUpFailure::Send(sequence, why) => {
                push_text(&mut out, "Failed to send ");
                push_text(&mut out, sequence.name());
                push_text(&mut out, " command: ");
                push_text(&mut out, why.as_str());
            },
            BringUpFailure::TooFewChips { expected, found, minimum } => {
                push_text(&mut out, "Too few chips responding: expected ");
                push_decimal(&mut out, *expected as u64);
                push_text(&mut out, ", found ");
                push_decimal(&mut out, *found as u64);
                push_text(&mut out, " (minimum ");
                push_decimal(&mut out, *minimum as u64);
                push_text(&mut out, ")");
            },
            BringUpFailure::Ramp(why) => {
                push_text(&mut out, why.as_str());
            },
        }
        assert(out@ =~= self.text());
        HashThreadError::InitializationFailed(out)
    }
}

/// Where the bring-up is.
#[derive(Debug)]
pub enum Phase {
    /// The chips are being enabled.
    Enable,
    /// They stabilize; then stale responses are drained.
    Settle,
    /// They are being given addresses.
    Enumerate,
    /// They are being polled, for this attempt.
    Verify { attempt: u8 },
    /// Some did not respond; the next attempt comes after a delay.
    RetryWait { attempt: u8 },
    /// Those at domain boundaries are being configured, where the layout asks for
    /// it.
    Domain { responding: usize },
    /// They are being configured all alike.
    Broadcast { responding: usize },
    /// They are being configured one by one.
    PerChip { responding: usize },
    /// Their frequency is being ramped up.
    Ramp { responding: usize },
    /// They hash.
    Done { responding: usize },
    Failed(BringUpFailure),
}

/// What came of a phase.
#[derive(Debug)]
pub enum PhaseEvent {
    /// It is over.
    Finished,
    /// It went wrong.
    Failed(String),
    /// The chain was polled, and this many chips responded.
    Verified { responding: usize },
}

/// What to do in a phase.
#[derive(Clone, Copy, Debug, PartialEq, Eq, Structural)]
pub enum BringUpAction {
    EnableChips,
    /// Wait, then drop what arrived before the chips are enumerated.
    WaitAndDrain { ms: u64 },
    Wait { ms: u64 },
    Run(Sequence),
    VerifyChain,
    RampFrequency,
    /// Nothing is left to do.
    Stop,
}

/// The phase that follows a verification with this many responses.
pub open spec fn after_verification(
    attempt: u8,
    responding: usize,
    expected: usize,
    domain_config: bool,
) -> Phase {
    if responding != expected && attempt < MAX_VERIFY_ATTEMPTS {
        Phase::RetryWait { attempt }
    } else if responding < expected / 2 {
        Phase::Failed(
            BringUpFailure::TooFewChips {
                expected,
                found: responding,
                minimum: expected / 2,
            },
        )
    } else if domain_config {
        Phase::Domain { responding }
    } else {
        Phase::Broadcast { responding }
    }
}

/// The phase that follows, in a chain of `expected` chips whose layout may ask
/// for settings at domain boundaries. An event that does not belong to the phase
/// changes nothing.
pub open spec fn next_phase(
    phase: Phase,
    event: PhaseEvent,
    expected: usize,
    domain_config: bool,
) -> Phase {
    match (phase, event) {
        (Phase::Enable, PhaseEvent::Finished) => Phase::Settle,
        (Phase::Enable, PhaseEvent::Failed(why)) => Phase::Failed(BringUpFailure::Enable(why)),
        (Phase::Settle, PhaseEvent::Finished) => Phase::Enumerate,
        (Phase::Enumerate, PhaseEvent::Finished) => Phase::Verify { attempt: 1 },
        (Phase::Enumerate, PhaseEvent::Failed(why)) => Phase::Failed(
            BringUpFailure::Send(Sequence::Enumeration, why),
        ),
        (Phase::Verify { attempt }, PhaseEvent::Verified { responding }) => after_verification(
            attempt,
            responding,
            expected,
            domain_config,
        ),
        (Phase::RetryWait { attempt }, PhaseEvent::Finished) => Phase::Verify {
            attempt: if attempt < MAX_VERIFY_ATTEMPTS {
                (attempt + 1) as u8
            } else {
                attempt
            },
        },
        (Phase::Domain { responding }, PhaseEvent::Finished) => Phase::Broadcast { responding },
        (Phase::Domain { .. }, PhaseEvent::Failed(why)) => Phase::Failed(
            BringUpFailure::Send(Sequence::DomainConfig, why),
        ),
        (Phase::Broadcast { responding }, PhaseEvent::Finished) => Phase::PerChip { responding },
        (Phase::Broadcast { .. }, PhaseEvent::Failed(why)) => Phase::Failed(
            BringUpFailure::Send(Sequence::BroadcastConfig, why),
        ),
        (Phase::PerChip { responding }, PhaseEvent::Finished) => Phase::Ramp { responding },
        (Phase::PerChip { .. }, PhaseEvent::Failed(why)) => Phase::Failed(
            BringUpFailure::Send(Sequence::PerChipConfig, why),
        ),
        (Phase::Ramp { responding }, PhaseEvent::Finished) => Phase::Done { responding },
        (Phase::Ramp { .. }, PhaseEvent::Failed(why)) => Phase::Failed(BringUpFailure::Ramp(why)),
        _ => phase,
    }
}

/// What to do in a phase.
pub open spec fn action_of(phase: Phase) -> BringUpAction {
    match phase {
        Phase::Enable => BringUpAction::EnableChips,
        Phase::Settle => BringUpAction::WaitAndDrain { ms: POWER_ON_DELAY_MS },
        Phase::Enumerate => BringUpAction::Run(Sequence::Enumeration),
        Phase::Verify { .. } => BringUpAction::VerifyChain,
        Phase::RetryWait { .. } => BringUpAction::Wait { ms: VERIFY_RETRY_DELAY_MS },
        Phase::Domain { .. } => BringUpAction::Run(Sequence::DomainConfig),
        Phase::Broadcast { .. } => BringUpAction::Run(Sequence::BroadcastConfig),
        Phase::PerChip { .. } => BringUpAction::Run(Sequence::PerChipConfig),
        Phase::Ramp { .. } => BringUpAction::RampFrequency,
        Phase::Done { .. } => BringUpAction::Stop,
        Phase::Failed(_) => BringUpAction::Stop,
    }
}

impl Phase {
    /// What to do in the phase.
    pub fn action(&self) -> (r: BringUpAction)
        ensures
            r == action_of(*self),
    {
        match self {
            Phase::Enable => BringUpAction::EnableChips,
            Phase::Settle => BringUpAction::WaitAndDrain { ms: POWER_ON_DELAY_MS },
            Phase::Enumerate => BringUpAction::Run(Sequence::Enumeration),
            Phase::Verify { .. } => BringUpAction::VerifyChain,
            Phase::RetryWait { .. } => BringUpAction::Wait { ms: VERIFY_RETRY_DELAY_MS },
            Phase::Domain { .. } => BringUpAction::Run(Sequence::DomainConfig),
            Phase::Broadcast { .. } => BringUpAction::Run(Sequence::BroadcastConfig),
            Phase::PerChip { .. } => BringUpAction::Run(Sequence::PerChipConfig),
            Phase::Ramp { .. } => BringUpAction::RampFrequency,
            Phase::Done { .. } => BringUpAction::Stop,
            Phase::Failed(_) => BringUpAction::Stop,
        }
    }

    /// The phase that follows, in a chain of `expected` chips whose layout may
    /// ask for settings at domain boundaries.
    pub fn advance(self, event: PhaseEvent, expected: usize, domain_config: bool) -> (r: Phase)
        ensures
            r == next_phase(self, event, expected, domain_config),
    {
        match (self, event) {
            (Phase::Enable, PhaseEvent::Finished) => Phase::Settle,
            (Phase::Enable, PhaseEvent::Failed(why)) => Phase::Failed(
                BringUpFailure::Enable(why),
            ),
            (Phase::Settle, PhaseEvent::Finished) => Phase::Enumerate,
            (Phase::Enumerate, PhaseEvent::Finished) => Phase::Verify { attempt: 1 },
            (Phase::Enumerate, PhaseEvent::Failed(why)) => Phase::Failed(
                BringUpFailure::Send(Sequence::Enumeration, why),
            ),
            (Phase::Verify { attempt }, PhaseEvent::Verified { responding }) => {
                let minimum: usize = min_viable_chip_count(expected);
                if responding != expected && attempt < MAX_VERIFY_ATTEMPTS {
                    Phase::RetryWait { attempt }
                } else if responding < minimum {
                    Phase::Failed(
                        BringUpFailure::TooFewChips { expected, found: responding, minimum },
                    )
                } else if domain_config {
                    Phase::Domain { responding }
                } else {
                    Phase::Broadcast { responding }
                }
            },
            (Phase::RetryWait { attempt }, PhaseEvent::Finished) => Phase::Verify {
                attempt: if attempt < MAX_VERIFY_ATTEMPTS {
                    attempt + 1
                } else {
                    attempt
                },
            },
            (Phase::Domain { responding }, PhaseEvent::Finished) => Phase::Broadcast {
                responding,
            },
            (Phase::Domain { .. }, PhaseEvent::Failed(why)) => Phase::Failed(
                BringUpFailure::Send(Sequence::DomainConfig, why),
            ),
            (Phase::Broadcast { responding }, PhaseEvent::Finished) => Phase::PerChip {
                responding,
            },
            (Phase::Broadcast { .. }, PhaseEvent::Failed(why)) => Phase::Failed(
                BringUpFailure::Send(Sequence::BroadcastConfig, why),
            ),
            (Phase::PerChip { responding }, PhaseEvent::Finished) => Phase::Ramp { responding },
            (Phase::PerChip { .. }, PhaseEvent::Failed(why)) => Phase::Failed(
                BringUpFailure::Send(Sequence::PerChipConfig, why),
            ),
            (Phase::Ramp { responding }, PhaseEvent::Finished) => Phase::Done { responding },
            (Phase::Ramp { .. }, PhaseEvent::Failed(why)) => Phase::Failed(
                BringUpFailure::Ramp(why),
            ),
            (phase, _) => phase,
        }
    }
}

/// What holds of every phase that can be reached from the first: at most three
/// verifications, and no configuration with fewer than half of the chips.
pub open spec fn phase_sound(phase: Phase, expected: usize) -> bool {
    match phase {
        Phase::Verify { attempt } => 1 <= attempt <= MAX_VERIFY_ATTEMPTS,
        Phase::RetryWait { attempt } => 1 <= attempt < MAX_VERIFY_ATTEMPTS,
        Phase::Domain { responding } => responding >= expected / 2,
        Phase::Broadcast { responding } => responding >= expected / 2,
        Phase::PerChip { responding } => responding >= expected / 2,
        Phase::Ramp { responding } => responding >= expected / 2,
        Phase::Done { responding } => responding >= expected / 2,
        Phase::Failed(BringUpFailure::TooFewChips { expected: e, found, minimum }) => {
            e == expected && minimum == expected / 2 && found < minimum
        },
        _ => true,
    }
}

/// How far a phase is from the end. Every event that belongs to a phase lowers
/// it.
pub open spec fn phases_left(phase: Phase) -> int {
    match phase {
        Phase::Enable => 14,
        Phase::Settle => 13,
        Phase::Enumerate => 12,
        Phase::Verify { attempt } => 5 + 2 * (MAX_VERIFY_ATTEMPTS - attempt),
        Phase::RetryWait { attempt } => 4 + 2 * (MAX_VERIFY_ATTEMPTS - attempt),
        Phase::Domain { .. } => 4,
        Phase::Broadcast { .. } => 3,
        Phase::PerChip { .. } => 2,
        Phase::Ramp { .. } => 1,
        Phase::Done { .. } => 0,
        Phase::Failed(_) => 0,
    }
}

/// Every phase that can be reached is sound, and the bring-up comes to an end:
/// no event takes it back.
pub proof fn law_bring_up(phase: Phase, event: PhaseEvent, expected: usize, domain_config: bool)
    requires
        phase_sound(phase, expected),
    ensures
        phase_sound(Phase::Enable, expected),
        ({
            let next = next_phase(phase, event, expected, domain_config);
            &&& phase_sound(next, expected)
            &&& 0 <= phases_left(next) <= phases_left(phase)
            &&& next == phase || phases_left(next) < phases_left(phase)
        }),
{
}

/// Chips at domain boundaries are configured before the chips are configured all
/// alike, if and only if the layout asks for it.
pub proof fn law_domain_config_when_asked(
    attempt: u8,
    event: PhaseEvent,
    expected: usize,
    domain_config: bool,
)
    ensures
        ({
            let next = next_phase(Phase::Verify { attempt }, event, expected, domain_config);
            &&& next is Domain ==> domain_config
            &&& next is Broadcast ==> !domain_config
        }),
{
}

/// What came of polling a chip.
#[derive(Clone, Copy, Debug, PartialEq, Eq)]
pub enum PollEvent {
    /// The query could not be sent.
    SendFailed,
    /// The chain sent this.
    Response(Response),
    /// The stream failed.
    StreamError,
    /// Nothing more will come.
    Closed,
    /// The chip took too long.
    TimedOut,
}

/// What to do next in a poll of the chain.
#[derive(Clone, Copy, Debug, PartialEq, Eq)]
pub enum PollAction {
    /// Send this.
    Query(Command),
    /// Wait on for the chip.
    KeepWaiting,
    /// Every chip has been polled, or polling broke off.
    Finished { responding: usize },
}

/// A poll of every chip of a chain in turn. One chip is asked at a time, so that
/// responses do not collide.
#[derive(Debug)]
pub struct ChainPoll {
    pub addresses: Vec<u8>,
    /// The chip that is being asked.
    pub current: usize,
    pub responding: usize,
}

/// The question put to the chip at an address.
pub open spec fn query_of(address: u8) -> Command {
    Command::ReadRegister {
        broadcast: false,
        chip_address: address,
        register_address: RegisterAddress::ChipId,
    }
}

/// Whether a response names a chip.
pub open spec fn names_chip(response: Response) -> bool {
    response matches Response::ReadRegister { register: Register::ChipId { .. }, .. }
}

impl ChainPoll {
    pub open spec fn wf(&self) -> bool {
        &&& self.current <= self.addresses@.len()
        &&& self.responding <= self.current
    }

    /// A poll of the chain that has not begun.
    pub fn new(chain: &Chain) -> (r: ChainPoll)
        ensures
            r.wf(),
            r.addresses@ == chain.addresses(),
            r.current == 0,
            r.responding == 0,
    {
        let mut addresses: Vec<u8> = Vec::new();
        let mut i: usize = 0;
        while i < chain.chips.len()
            invariant
                i <= chain.chips@.len(),
                addresses@ =~= chain.addresses().take(i as int),
            decreases chain.chips@.len() - i,
        {
            addresses.push(chain.chips[i].address);
            i = i + 1;
        }
        assert(chain.addresses().take(i as int) =~= chain.addresses());
        ChainPoll { addresses, current: 0, responding: 0 }
    }

    /// The question to put to the current chip, or the end.
    pub fn ask(&self) -> (r: PollAction)
        requires
            self.wf(),
        ensures
            r == asked(*self),
    {
        if self.current < self.addresses.len() {
            PollAction::Query(
                Command::ReadRegister {
                    broadcast: false,
                    chip_address: self.addresses[self.current],
                    register_address: RegisterAddress::ChipId,
                },
            )
        } else {
            PollAction::Finished { responding: self.responding }
        }
    }

    /// Takes what came of the question. Responses that name no chip, and stream
    /// errors, are passed over.
    pub fn on_event(&mut self, event: PollEvent) -> (r: PollAction)
        requires
            old(self).wf(),
            old(self).current < old(self).addresses@.len(),
        ensures
            final(self).wf(),
            polled(*old(self), event, r, *final(self)),
    {
        assert(self.addresses.len() == self.addresses@.len());
        match event {
            PollEvent::SendFailed => PollAction::Finished { responding: self.responding },
            PollEvent::StreamError => PollAction::KeepWaiting,
            PollEvent::Response(
                Response::ReadRegister { chip_address: _, register: Register::ChipId { .. } },
            ) => {
                self.responding = self.responding + 1;
                self.current = self.current + 1;
                self.ask()
            },
            PollEvent::Response(_) => PollAction::KeepWaiting,
            PollEvent::Closed | PollEvent::TimedOut => {
                self.current = self.current + 1;
                self.ask()
            },
        }
    }
}

/// What a poll asks next.
pub open spec fn asked(poll: ChainPoll) -> PollAction {
    if poll.current < poll.addresses@.len() {
        PollAction::Query(query_of(poll.addresses@[poll.current as int]))
    } else {
        PollAction::Finished { responding: poll.responding }
    }
}

/// What a poll makes of what came of its question.
pub open spec fn polled(before: ChainPoll, event: PollEvent, r: PollAction, after: ChainPoll) -> bool {
    &&& after.addresses == before.addresses
    &&& match event {
        PollEvent::SendFailed => after == before && r == (PollAction::Finished {
            responding: before.responding,
        }),
        PollEvent::StreamError => after == before && r
            == PollAction::KeepWaiting,
        PollEvent::Response(response) => if names_chip(response) {
            &&& after.responding == before.responding + 1
            &&& after.current == before.current + 1
            &&& r == asked(after)
        } else {
            after == before && r == PollAction::KeepWaiting
        },
        PollEvent::Closed | PollEvent::TimedOut => {
            &&& after.responding == before.responding
            &&& after.current == before.current + 1
            &&& r == asked(after)
        },
    }
}

/// The event of a phase that goes well, when this many chips respond.
pub open spec fn good_event(phase: Phase, responding: usize) -> PhaseEvent {
    match phase {
        Phase::Verify { .. } => PhaseEvent::Verified { responding },
        _ => PhaseEvent::Finished,
    }
}

/// What a bring-up does from a phase on, for at most `n` phases, when all goes
/// well and this many chips respond each time.
pub open spec fn actions_from(
    phase: Phase,
    responding: usize,
    expected: usize,
    domain_config: bool,
    n: nat,
) -> Seq<BringUpAction>
    decreases n,
{
    if n == 0 {
        Seq::<BringUpAction>::empty()
    } else {
        let next = next_phase(phase, good_event(phase, responding), expected, domain_config);
        seq![action_of(phase)] + actions_from(
            next,
            responding,
            expected,
            domain_config,
            (n - 1) as nat,
        )
    }
}

/// A bring-up in which all chips respond enables them, lets them settle for half
/// a second, enumerates and verifies them once, configures them at domain
/// boundaries where the layout asks for it, all alike, then one by one, ramps the
/// frequency, and stops.
pub proof fn law_bring_up_in_order(expected: usize, domain_config: bool)
    ensures
        actions_from(Phase::Enable, expected, expected, domain_config, 9) == if domain_config {
            seq![
                BringUpAction::EnableChips,
                BringUpAction::WaitAndDrain { ms: 500 },
                BringUpAction::Run(Sequence::Enumeration),
                BringUpAction::VerifyChain,
                BringUpAction::Run(Sequence::DomainConfig),
                BringUpAction::Run(Sequence::BroadcastConfig),
                BringUpAction::Run(Sequence::PerChipConfig),
                BringUpAction::RampFrequency,
                BringUpAction::Stop,
            ]
        } else {
            seq![
                BringUpAction::EnableChips,
                BringUpAction::WaitAndDrain { ms: 500 },
                BringUpAction::Run(Sequence::Enumeration),
                BringUpAction::VerifyChain,
                BringUpAction::Run(Sequence::BroadcastConfig),
                BringUpAction::Run(Sequence::PerChipConfig),
                BringUpAction::RampFrequency,
                BringUpAction::Stop,
                BringUpAction::Stop,
            ]
        },
{
    reveal_with_fuel(actions_from, 10);
    let actions = actions_from(Phase::Enable, expected, expected, domain_config, 9);
    assert(actions =~= if domain_config {
        seq![
            BringUpAction::EnableChips,
            BringUpAction::WaitAndDrain { ms: 500 },
            BringUpAction::Run(Sequence::Enumeration),
            BringUpAction::VerifyChain,
            BringUpAction::Run(Sequence::DomainConfig),
            BringUpAction::Run(Sequence::BroadcastConfig),
            BringUpAction::Run(Sequence::PerChipConfig),
            BringUpAction::RampFrequency,
            BringUpAction::Stop,
        ]
    } else {
        seq![
            BringUpAction::EnableChips,
            BringUpAction::WaitAndDrain { ms: 500 },
            BringUpAction::Run(Sequence::Enumeration),
            BringUpAction::VerifyChain,
            BringUpAction::Run(Sequence::BroadcastConfig),
            BringUpAction::Run(Sequence::PerChipConfig),
            BringUpAction::RampFrequency,
            BringUpAction::Stop,
            BringUpAction::Stop,
        ]
    });
}

/// A chain that is not complete is verified three times, half a second apart. It
/// is then used if at least half of the chips respond, and given up otherwise.
pub proof fn law_incomplete_chain_is_tried_thrice(
    responding: usize,
    expected: usize,
    domain_config: bool,
)
    requires
        responding != expected,
    ensures
        ({
            let actions = actions_from(Phase::Enable, responding, expected, domain_config, 9);
            &&& actions[3] == BringUpAction::VerifyChain
            &&& actions[4] == (BringUpAction::Wait { ms: 500 })
            &&& actions[5] == BringUpAction::VerifyChain
            &&& actions[6] == (BringUpAction::Wait { ms: 500 })
            &&& actions[7] == BringUpAction::VerifyChain
            &&& 2 * responding < expected - expected % 2 ==> actions[8] == BringUpAction::Stop
            &&& 2 * responding >= expected - expected % 2 && domain_config ==> actions[8]
                == BringUpAction::Run(Sequence::DomainConfig)
            &&& 2 * responding >= expected - expected % 2 && !domain_config ==> actions[8]
                == BringUpAction::Run(Sequence::BroadcastConfig)
        }),
{
    reveal_with_fuel(actions_from, 10);
    let actions = actions_from(Phase::Enable, responding, expected, domain_config, 9);
    assert(actions.len() == 9);
}

/// A failure ends the bring-up, and names what failed: enabling the chips, the
/// sequence that was being sent, or the ramp.
pub proof fn law_failure_ends_bring_up(
    phase: Phase,
    why: String,
    expected: usize,
    domain_config: bool,
)
    ensures
        ({
            let next = next_phase(phase, PhaseEvent::Failed(why), expected, domain_config);
            match action_of(phase) {
                BringUpAction::EnableChips => next == Phase::Failed(BringUpFailure::Enable(why)),
                BringUpAction::Run(sequence) => next == Phase::Failed(
                    BringUpFailure::Send(sequence, why),
                ),
                BringUpAction::RampFrequency => next == Phase::Failed(BringUpFailure::Ramp(why)),
                _ => next == phase,
            }
        }),
        forall|failure: BringUpFailure| #[trigger]
            action_of(Phase::Failed(failure)) == BringUpAction::Stop,
{
}

/// How many chips responded is carried from the verification to the end.
pub proof fn law_responding_chips_are_kept(
    phase: Phase,
    attempt: u8,
    responding: usize,
    expected: usize,
    domain_config: bool,
)
    ensures
        next_phase(
            Phase::Verify { attempt },
            PhaseEvent::Verified { responding },
            expected,
            domain_config,
        ) matches Phase::Domain { responding: kept } ==> kept == responding,
        next_phase(
            Phase::Verify { attempt },
            PhaseEvent::Verified { responding },
            expected,
            domain_config,
        ) matches Phase::Broadcast { responding: kept } ==> kept == responding,
        next_phase(
            Phase::Verify { attempt },
            PhaseEvent::Verified { responding },
            expected,
            domain_config,
        ) matches Phase::Failed(failure) ==> failure == (BringUpFailure::TooFewChips {
            expected,
            found: responding,
            minimum: expected / 2,
        }),
        carried(phase) matches Some(n) ==> carried(
            next_phase(phase, PhaseEvent::Finished, expected, domain_config),
        ) == Some(n),
{
}

/// The number of chips that a phase knows to respond.
pub open spec fn carried(phase: Phase) -> Option<usize> {
    match phase {
        Phase::Domain { responding } => Some(responding),
        Phase::Broadcast { responding } => Some(responding),
        Phase::PerChip { responding } => Some(responding),
        Phase::Ramp { responding } => Some(responding),
        Phase::Done { responding } => Some(responding),
        _ => None,
    }
}

/// A poll asks each chip for its identity under its own address, one after the
/// other. A chip that says who it is counts, one that is silent does not, and the
/// next is asked; anything else is waited out. When a question cannot be sent the
/// poll ends with the chips counted so far.
pub proof fn law_poll_asks_each_chip(
    before: ChainPoll,
    event: PollEvent,
    r: PollAction,
    after: ChainPoll,
)
    requires
        before.wf(),
        before.current < before.addresses@.len(),
        polled(before, event, r, after),
    ensures
        ({
            let named = event matches PollEvent::Response(Response::ReadRegister {
                register: Register::ChipId { .. },
                ..
            });
            let silent = event is Closed || event is TimedOut;
            &&& after.addresses == before.addresses
            &&& after.responding == before.responding + if named {
                1int
            } else {
                0
            }
            &&& after.current == before.current + if named || silent {
                1int
            } else {
                0
            }
            &&& event is SendFailed ==> r == (PollAction::Finished {
                responding: before.responding,
            })
            &&& event is StreamError ==> r == PollAction::KeepWaiting
            &&& event is Response && !named ==> r == PollAction::KeepWaiting
            &&& named || silent ==> if before.current + 1 < before.addresses@.len() {
                r == PollAction::Query(
                    Command::ReadRegister {
                        broadcast: false,
                        chip_address: before.addresses@[before.current + 1],
                        register_address: RegisterAddress::ChipId,
                    },
                )
            } else {
                r == (PollAction::Finished { responding: after.responding })
            }
        }),
{
}

/// A poll asks the chip that it has come to under that chip's address, and ends
/// after the last. It never counts more chips than the chain has.
pub proof fn law_poll_counts_chips(poll: ChainPoll)
    requires
        poll.wf(),
    ensures
        asked(poll) matches PollAction::Finished { responding } ==> responding
            <= poll.addresses@.len(),
        poll.current < poll.addresses@.len() ==> asked(poll) == PollAction::Query(
            Command::ReadRegister {
                broadcast: false,
                chip_address: poll.addresses@[poll.current as int],
                register_address: RegisterAddress::ChipId,
            },
        ),
        poll.current == poll.addresses@.len() ==> asked(poll) == (PollAction::Finished {
            responding: poll.responding,
        }),
{
}

} // verus!
