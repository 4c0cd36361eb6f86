//! Which boards are plugged in.
//!
//! Boards plug into the backplane. It starts each one that connects, hands its
//! hash threads to the scheduler one by one, and shuts a board down when it
//! disconnects. The boards themselves and the channels belong to the program
//! around this module, which does what an `Action` says and reports what came of
//! it.

use crate::config::HashboardModel;
use crate::text::same_text;
use crate::transport::amlogic::{AmlogicDeviceInfo, TransportEvent as AmlogicTransportEvent};
use crate::transport::cpu::{CpuDeviceInfo, TransportEvent as CpuTransportEvent};
use crate::transport::usb::{TransportEvent as UsbTransportEvent, UsbDeviceInfo};
use crate::transport::TransportEvent;
use vstd::prelude::*;

verus! {

/// A board driver, held against a device.
#[derive(Clone, Copy, Debug, PartialEq, Eq, Structural)]
pub struct Candidate {
    /// Whether its pattern matches the device.
    pub matches: bool,
    /// How specific its pattern is.
    pub specificity: u32,
}

/// Finds the driver for a device.
#[derive(Debug)]
pub struct BoardRegistry;

impl BoardRegistry {
    /// The most specific of the drivers that match, and the last of several
    /// that are equally specific.
    pub fn find_descriptor(&self, candidates: &Vec<Candidate>) -> (r: Option<usize>)
        ensures
            descriptor_found(candidates@, r),
    {
        let mut best: Option<usize> = None;
        let mut i: usize = 0;
        while i < candidates.len()
            invariant
                i <= candidates@.len(),
                best is None ==> forall|j: int|
                    0 <= j < i ==> !(#[trigger] candidates@[j]).matches,
                best matches Some(b) ==> {
                    &&& b < i
                    &&& candidates@[b as int].matches
                    &&& forall|j: int|
                        0 <= j < i && (#[trigger] candidates@[j]).matches
                            ==> candidates@[j].specificity <= candidates@[b as int].specificity
                    &&& forall|j: int|
                        b < j < i && (#[trigger] candidates@[j]).matches
                            ==> candidates@[j].specificity < candidates@[b as int].specificity
                },
            decreases candidates@.len() - i,
        {
            if candidates[i].matches {
                let better: bool = match best {
                    Some(b) => candidates[i].specificity >= candidates[b].specificity,
                    None => true,
                };
                if better {
                    best = Some(i);
                }
            }
            i = i + 1;
        }
        best
    }
}

/// The key of the driver for a control board with this hashboard model.
pub open spec fn driver_of(model: HashboardModel) -> Seq<char> {
    match model {
        HashboardModel::S19jPro => "s19j_pro_amlogic"@,
        HashboardModel::S19kPro => "s19k_pro_amlogic"@,
    }
}

/// The key of the driver for a control board with this hashboard model.
pub fn descriptor_key(model: HashboardModel) -> (r: &'static str)
    ensures
        r@ == driver_of(model),
{
    match model {
        HashboardModel::S19jPro => "s19j_pro_amlogic",
        HashboardModel::S19kPro => "s19k_pro_amlogic",
    }
}

/// A device that has connected.
#[derive(Debug)]
pub enum Device {
    Amlogic(AmlogicDeviceInfo),
    Usb(UsbDeviceInfo),
    Cpu(CpuDeviceInfo),
}

/// How far the start of a board has come.
#[derive(Clone, Copy, Debug, PartialEq, Eq, Structural)]
pub enum Phase {
    /// The driver is looked up.
    Lookup,
    /// The board is created.
    Create,
    /// The board is made known to the API server.
    Register,
    /// The board is given the miner's state, for its display.
    ShareMinerState,
    /// The board creates its hash threads.
    CreateThreads,
    /// The hash threads go to the scheduler.
    SendThreads { sent: usize, total: usize },
    /// Nothing is left to do.
    Finished,
}

/// What is to be done next for a board that is starting.
#[derive(Clone, Debug)]
pub enum Action {
    /// Find the driver that matches the USB device best.
    FindUsbDriver,
    /// Find the driver of a board that is not plugged in, by its key.
    FindVirtualDriver { key: String },
    CreateBoard,
    RegisterBoard,
    ShareMinerState,
    CreateThreads,
    SendThread { index: usize },
    Nothing,
}

/// What came of an action.
#[derive(Clone, Debug)]
pub enum Outcome {
    Failed,
    Done,
    /// The board was created.
    Created { serial_number: Option<String> },
    /// The hash threads were created.
    Threads { count: usize },
}

/// The start of a board.
#[derive(Debug)]
pub struct Connection {
    pub device: Device,
    /// Identifies the board once it has been created.
    pub board_id: Option<String>,
    pub phase: Phase,
}

/// Identifies a board: by the device's id, or for a USB device by the board's
/// serial number.
pub open spec fn board_id_of(device: Device, serial_number: Option<String>) -> Seq<char> {
    match device {
        Device::Amlogic(info) => info.device_id@,
        Device::Cpu(info) => info.device_id@,
        Device::Usb(_) => match serial_number {
            Some(serial) => serial@,
            None => "unknown"@,
        },
    }
}

/// The phase after an action. Where an action is answered by what does not
/// belong to it, it has failed.
pub open spec fn next_phase(device: Device, phase: Phase, outcome: Outcome) -> Phase {
    match phase {
        Phase::Lookup => if outcome is Done {
            Phase::Create
        } else {
            Phase::Finished
        },
        Phase::Create => if outcome is Created {
            Phase::Register
        } else {
            Phase::Finished
        },
        // A board that the API server does not know of mines all the same.
        Phase::Register => if device is Cpu {
            Phase::CreateThreads
        } else {
            Phase::ShareMinerState
        },
        Phase::ShareMinerState => Phase::CreateThreads,
        Phase::CreateThreads => match outcome {
            Outcome::Threads { count } => if count > 0 {
                Phase::SendThreads { sent: 0, total: count }
            } else {
                Phase::Finished
            },
            _ => Phase::Finished,
        },
        Phase::SendThreads { sent, total } => if outcome is Done && sent + 1 < total {
            Phase::SendThreads { sent: (sent + 1) as usize, total }
        } else {
            Phase::Finished
        },
        Phase::Finished => Phase::Finished,
    }
}

/// The text of an id.
pub open spec fn id_text(id: Option<String>) -> Option<Seq<char>> {
    match id {
        Some(id) => Some(id@),
        None => None,
    }
}

/// Boards with one more; a board of the same id is replaced.
pub open spec fn with_board(boards: Seq<Seq<char>>, id: Seq<char>) -> Seq<Seq<char>> {
    if boards.contains(id) {
        boards
    } else {
        boards.push(id)
    }
}

/// The boards after an action: a board is kept once its hash threads are there.
pub open spec fn boards_after(
    boards: Seq<Seq<char>>,
    phase: Phase,
    board_id: Option<Seq<char>>,
    outcome: Outcome,
) -> Seq<Seq<char>> {
    if phase == Phase::CreateThreads && outcome is Threads {
        with_board(boards, board_id->0)
    } else {
        boards
    }
}

impl Connection {
    /// A board has its id from its creation on.
    pub open spec fn wf(&self) -> bool {
        match self.phase {
            Phase::Lookup | Phase::Create => self.board_id is None,
            Phase::SendThreads { sent, total } => self.board_id is Some && sent < total,
            Phase::Register | Phase::ShareMinerState | Phase::CreateThreads => self.board_id
                is Some,
            Phase::Finished => true,
        }
    }

    /// The start of a board on a device.
    pub fn new(device: Device) -> (r: Connection)
        ensures
            r.wf(),
            r.device == device,
            r.board_id is None,
            r.phase == Phase::Lookup,
    {
        Connection { device, board_id: None, phase: Phase::Lookup }
    }

    /// What is to be done next.
    pub fn action(&self) -> (r: Action)
        ensures
            action_is(*self, r),
    {
        match self.phase {
            Phase::Lookup => match &self.device {
                Device::Amlogic(info) => Action::FindVirtualDriver {
                    key: descriptor_key(info.model).to_string(),
                },
                Device::Usb(_) => Action::FindUsbDriver,
                Device::Cpu(_) => Action::FindVirtualDriver { key: "cpu_miner".to_string() },
            },
            Phase::Create => Action::CreateBoard,
            Phase::Register => Action::RegisterBoard,
            Phase::ShareMinerState => Action::ShareMinerState,
            Phase::CreateThreads => Action::CreateThreads,
            Phase::SendThreads { sent, .. } => Action::SendThread { index: sent },
            Phase::Finished => Action::Nothing,
        }
    }
}

/// What an event asks for.
#[derive(Debug)]
pub enum Handling {
    Nothing,
    /// Start a board.
    Start(Connection),
    /// Shut a board down. Whether that succeeds changes nothing here.
    ShutDown { board_id: String },
}

/// Whether an event asks for the start of a board on a device.
pub open spec fn starts(handling: Handling, device: Device) -> bool {
    handling matches Handling::Start(connection) && connection.wf() && connection.device == device
        && connection.phase == Phase::Lookup
}

/// The boards that are plugged in, by their ids.
#[derive(Debug)]
pub struct Backplane {
    pub boards: Vec<String>,
}

impl View for Backplane {
    type V = Seq<Seq<char>>;

    open spec fn view(&self) -> Seq<Seq<char>> {
        self.boards@.map_values(|id: String| id@)
    }
}

impl Backplane {
    /// No two boards have the same id.
    pub open spec fn wf(&self) -> bool {
        self@.no_duplicates()
    }

    /// No board is plugged in.
    pub fn new() -> (r: Backplane)
        ensures
            r.wf(),
            r@.len() == 0,
    {
        Backplane { boards: Vec::new() }
    }

    fn position(&self, id: &str) -> (r: Option<usize>)
        ensures
            r is None <==> !self@.contains(id@),
            r matches Some(i) ==> i < self@.len() && self@[i as int] == id@ && forall|j: int|
                0 <= j < i ==> self@[j] != id@,
    {
        let mut i: usize = 0;
        while i < self.boards.len()
            invariant
                i <= self.boards@.len() == self@.len(),
                forall|j: int| 0 <= j < i ==> self@[j] != id@,
            decreases self.boards@.len() - i,
        {
            assert(self@[i as int] == self.boards@[i as int]@);
            if same_text(self.boards[i].as_str(), id) {
                return Some(i);
            }
            i = i + 1;
        }
        None
    }

    /// Unplugs a board, if it is there.
    fn remove(&mut self, id: &str) -> (r: Option<String>)
        requires
            old(self).wf(),
        ensures
            final(self).wf(),
            final(self)@ == old(self)@.remove_value(id@),
            r is Some <==> old(self)@.contains(id@),
            r matches Some(removed) ==> removed@ == id@,
    {
        match self.position(id) {
            Some(i) => {
                let ghost before = self@;
                let removed = self.boards.remove(i);
                proof {
                    before.index_of_first_ensures(id@);
                    assert(before.index_of_first(id@) == Some(i as int));
                    assert(self@ =~= before.remove(i as int));
                    assert(removed@ == before[i as int]);
                    assert forall|j: int, k: int|
                        0 <= j < self@.len() && 0 <= k < self@.len() && j != k implies self@[j]
                        != self@[k] by {
                        let from_j = if j < i {
                            j
                        } else {
                            j + 1
                        };
                        let from_k = if k < i {
                            k
                        } else {
                            k + 1
                        };
                        assert(before[from_j] != before[from_k]);
                    }
                }
                Some(removed)
            },
            None => {
                proof {
                    self@.index_of_first_ensures(id@);
                }
                None
            },
        }
    }

    /// Plugs a board in; a board of the same id is replaced.
    fn insert(&mut self, id: &str)
        requires
            old(self).wf(),
        ensures
            final(self).wf(),
            final(self)@ == with_board(old(self)@, id@),
    {
        if self.position(id).is_none() {
            let ghost before = self@;
            self.boards.push(id.to_string());
            assert(self@ =~= before.push(id@));
            assert forall|j: int, k: int|
                0 <= j < self@.len() && 0 <= k < self@.len() && j != k implies self@[j]
                != self@[k] by {
                if j < before.len() && k < before.len() {
                    assert(before[j] != before[k]);
                } else if j < before.len() {
                    assert(before.contains(before[j]));
                } else {
                    assert(before.contains(before[k]));
                }
            }
        }
    }

    /// Handles an event of any transport.
    pub fn handle_event(&mut self, event: TransportEvent) -> (r: Handling)
        requires
            old(self).wf(),
        ensures
            final(self).wf(),
            event_handled(event, old(self)@, final(self)@, r),
    {
        match event {
            TransportEvent::Amlogic(event) => self.handle_amlogic_event(event),
            TransportEvent::Usb(event) => self.handle_usb_event(event),
            TransportEvent::Cpu(event) => self.handle_cpu_event(event),
        }
    }

    /// Handles an event of the Amlogic transport: a configured control board is
    /// started, or shut down if it is there.
    pub fn handle_amlogic_event(&mut self, event: AmlogicTransportEvent) -> (r: Handling)
        requires
            old(self).wf(),
        ensures
            final(self).wf(),
            amlogic_handled(event, old(self)@, final(self)@, r),
    {
        match event {
            AmlogicTransportEvent::DeviceConnected(info) => Handling::Start(
                Connection::new(Device::Amlogic(info)),
            ),
            AmlogicTransportEvent::DeviceDisconnected { device_id } => self.unplug(
                device_id.as_str(),
            ),
        }
    }

    /// Handles an event of the USB transport: a device that connects may be a
    /// board; when one disconnects, one board is shut down.
    ///
    /// The event does not say which board the device was, so the one that has
    /// been there longest is taken.
    pub fn handle_usb_event(&mut self, event: UsbTransportEvent) -> (r: Handling)
        requires
            old(self).wf(),
        ensures
            final(self).wf(),
            usb_handled(event, old(self)@, final(self)@, r),
    {
        match event {
            UsbTransportEvent::UsbDeviceConnected(info) => Handling::Start(
                Connection::new(Device::Usb(info)),
            ),
            UsbTransportEvent::UsbDeviceDisconnected { .. } => {
                if self.boards.len() == 0 {
                    return Handling::Nothing;
                }
                let ghost before = self@;
                let board_id = self.boards.remove(0);
                assert(self@ =~= before.drop_first());
                assert(board_id@ == before[0]);
                assert forall|j: int, k: int|
                    0 <= j < self@.len() && 0 <= k < self@.len() && j != k implies self@[j]
                    != self@[k] by {
                    assert(before[j + 1] != before[k + 1]);
                }
                Handling::ShutDown { board_id }
            },
        }
    }

    /// Handles an event of the CPU transport: a CPU miner is started, or shut
    /// down if it is there.
    pub fn handle_cpu_event(&mut self, event: CpuTransportEvent) -> (r: Handling)
        requires
            old(self).wf(),
        ensures
            final(self).wf(),
            cpu_handled(event, old(self)@, final(self)@, r),
    {
        match event {
            CpuTransportEvent::CpuDeviceConnected(info) => Handling::Start(
                Connection::new(Device::Cpu(info)),
            ),
            CpuTransportEvent::CpuDeviceDisconnected { device_id } => self.unplug(
                device_id.as_str(),
            ),
        }
    }

    fn unplug(&mut self, device_id: &str) -> (r: Handling)
        requires
            old(self).wf(),
        ensures
            final(self).wf(),
            unplugged(device_id@, old(self)@, final(self)@, r),
    {
        match self.remove(device_id) {
            Some(board_id) => Handling::ShutDown { board_id },
            None => Handling::Nothing,
        }
    }

    /// Goes on with the start of a board after an action.
    pub fn advance(&mut self, connection: &mut Connection, outcome: Outcome)
        requires
            old(self).wf(),
            old(connection).wf(),
        ensures
            final(self).wf(),
            advanced(old(self)@, *old(connection), outcome, final(self)@, *final(connection)),
    {
        match connection.phase {
            Phase::Lookup => {
                connection.phase =
                match outcome {
                    Outcome::Done => Phase::Create,
                    _ => Phase::Finished,
                };
            },
            Phase::Create => {
                match outcome {
                    Outcome::Created { serial_number } => {
                        let id: String = match &connection.device {
                            Device::Amlogic(info) => info.device_id.clone(),
                            Device::Cpu(info) => info.device_id.clone(),
                            Device::Usb(_) => match serial_number {
                                Some(serial) => serial,
                                None => "unknown".to_string(),
                            },
                        };
                        connection.board_id = Some(id);
                        connection.phase = Phase::Register;
                    },
                    _ => {
                        connection.phase = Phase::Finished;
                    },
                }
            },
            Phase::Register => {
                connection.phase =
                match &connection.device {
                    Device::Cpu(_) => Phase::CreateThreads,
                    _ => Phase::ShareMinerState,
                };
            },
            Phase::ShareMinerState => {
                connection.phase = Phase::CreateThreads;
            },
            Phase::CreateThreads => {
                match outcome {
                    Outcome::Threads { count } => {
                        match &connection.board_id {
                            Some(id) => self.insert(id.as_str()),
                            None => {},
                        }
                        connection.phase =
                        if count > 0 {
                            Phase::SendThreads { sent: 0, total: count }
                        } else {
                            Phase::Finished
                        };
                    },
                    _ => {
                        connection.phase = Phase::Finished;
                    },
                }
            },
            Phase::SendThreads { sent, total } => {
                connection.phase =
                match outcome {
                    Outcome::Done => if sent + 1 < total {
                        Phase::SendThreads { sent: sent + 1, total }
                    } else {
                        Phase::Finished
                    },
                    _ => Phase::Finished,
                };
            },
            Phase::Finished => {},
        }
    }

    /// Unplugs every board. Each of them is to be shut down, in this order,
    /// whatever comes of it.
    pub fn shutdown_all_boards(&mut self) -> (r: Vec<String>)
        requires
            old(self).wf(),
        ensures
            r@ == old(self).boards@,
            final(self)@.len() == 0,
            final(self).wf(),
    {
        let mut boards: Vec<String> = Vec::new();
        std::mem::swap(&mut boards, &mut self.boards);
        boards
    }
}

/// Whether a board has been unplugged: shut down if it was there.
pub open spec fn unplugged(
    id: Seq<char>,
    before: Seq<Seq<char>>,
    after: Seq<Seq<char>>,
    handling: Handling,
) -> bool {
    &&& after == before.remove_value(id)
    &&& if before.contains(id) {
        handling matches Handling::ShutDown { board_id } && board_id@ == id
    } else {
        handling is Nothing
    }
}

/// What an event of the Amlogic transport does.
pub open spec fn amlogic_handled(
    event: AmlogicTransportEvent,
    before: Seq<Seq<char>>,
    after: Seq<Seq<char>>,
    handling: Handling,
) -> bool {
    match event {
        AmlogicTransportEvent::DeviceConnected(info) => after == before && starts(
            handling,
            Device::Amlogic(info),
        ),
        AmlogicTransportEvent::DeviceDisconnected { device_id } => unplugged(
            device_id@,
            before,
            after,
            handling,
        ),
    }
}

/// What an event of the USB transport does.
pub open spec fn usb_handled(
    event: UsbTransportEvent,
    before: Seq<Seq<char>>,
    after: Seq<Seq<char>>,
    handling: Handling,
) -> bool {
    match event {
        UsbTransportEvent::UsbDeviceConnected(info) => after == before && starts(
            handling,
            Device::Usb(info),
        ),
        UsbTransportEvent::UsbDeviceDisconnected { .. } => if before.len() == 0 {
            after == before && handling is Nothing
        } else {
            &&& after == before.drop_first()
            &&& handling matches Handling::ShutDown { board_id }
            &&& board_id@ == before[0]
        },
    }
}

/// What an event of the CPU transport does.
pub open spec fn cpu_handled(
    event: CpuTransportEvent,
    before: Seq<Seq<char>>,
    after: Seq<Seq<char>>,
    handling: Handling,
) -> bool {
    match event {
        CpuTransportEvent::CpuDeviceConnected(info) => after == before && starts(
            handling,
            Device::Cpu(info),
        ),
        CpuTransportEvent::CpuDeviceDisconnected { device_id } => unplugged(
            device_id@,
            before,
            after,
            handling,
        ),
    }
}

/// Unplugging a board that has just been plugged in leaves the boards that were
/// there before, and an unplugged board is gone.
pub proof fn law_disconnect_undoes_connect(boards: Seq<Seq<char>>, id: Seq<char>)
    requires
        boards.no_duplicates(),
    ensures
        with_board(boards, id).contains(id),
        with_board(boards, id).no_duplicates(),
        with_board(boards, id).remove_value(id) == boards.remove_value(id),
        !boards.contains(id) ==> boards.remove_value(id) == boards,
        !boards.remove_value(id).contains(id),
{
    let with = with_board(boards, id);
    boards.index_of_first_ensures(id);
    with.index_of_first_ensures(id);
    if boards.contains(id) {
        let i = boards.index_of_first(id)->0;
        let left = boards.remove(i);
        if left.contains(id) {
            let j = choose|j: int| 0 <= j < left.len() && left[j] == id;
            let k = if j < i {
                j
            } else {
                j + 1
            };
            assert(boards[k] == id);
            assert(k != i);
        }
    } else {
        assert(with[boards.len() as int] == id);
        let i = with.index_of_first(id)->0;
        if i < boards.len() {
            assert(boards.contains(boards[i]));
        }
        assert(with.remove(i) =~= boards);
        assert forall|j: int, k: int|
            0 <= j < with.len() && 0 <= k < with.len() && j != k implies with[j] != with[k] by {
            if j < boards.len() && k < boards.len() {
                assert(boards[j] != boards[k]);
            } else if j < boards.len() {
                assert(boards.contains(boards[j]));
            } else {
                assert(boards.contains(boards[k]));
            }
        }
    }
}

/// How far a start has come, with the boards that are plugged in.
pub struct Progress {
    pub phase: Phase,
    pub board_id: Option<Seq<char>>,
    pub boards: Seq<Seq<char>>,
}

/// How far a start has come after one more action.
pub open spec fn step(device: Device, progress: Progress, outcome: Outcome) -> Progress {
    Progress {
        phase: next_phase(device, progress.phase, outcome),
        board_id: match outcome {
            Outcome::Created { serial_number } if progress.phase == Phase::Create => Some(
                board_id_of(device, serial_number),
            ),
            _ => progress.board_id,
        },
        boards: boards_after(progress.boards, progress.phase, progress.board_id, outcome),
    }
}

/// How far a start has come after actions.
pub open spec fn steps(device: Device, progress: Progress, outcomes: Seq<Outcome>) -> Progress
    decreases outcomes.len(),
{
    if outcomes.len() == 0 {
        progress
    } else {
        step(device, steps(device, progress, outcomes.drop_last()), outcomes.last())
    }
}

/// A start changes the boards by the board itself at most, and only once its
/// driver was found, it was created, and its hash threads were.
pub proof fn law_only_started_boards_are_kept(
    device: Device,
    boards: Seq<Seq<char>>,
    outcomes: Seq<Outcome>,
)
    ensures
        ({
            let end = steps(
                device,
                Progress { phase: Phase::Lookup, board_id: None, boards },
                outcomes,
            );
            end.boards != boards ==> {
                &&& outcomes.len() >= 4
                &&& outcomes[0] is Done
                &&& outcomes[1] is Created
                &&& end.board_id == Some(
                    board_id_of(device, outcomes[1]->Created_serial_number),
                )
                &&& end.boards == with_board(boards, end.board_id->0)
                &&& outcomes[if device is Cpu {
                    3
                } else {
                    4
                }] is Threads
            }
        }),
{
    lemma_start(device, boards, outcomes);
}

proof fn lemma_start(device: Device, boards: Seq<Seq<char>>, outcomes: Seq<Outcome>)
    ensures
        ({
            let n = outcomes.len();
            let threads_at: int = if device is Cpu {
                3
            } else {
                4
            };
            let end = steps(
                device,
                Progress { phase: Phase::Lookup, board_id: None, boards },
                outcomes,
            );
            let created = n >= 2 && outcomes[0] is Done && outcomes[1] is Created;
            let id = board_id_of(device, outcomes[1]->Created_serial_number);
            match end.phase {
                Phase::Lookup => n == 0 && end.boards == boards,
                Phase::Create => n == 1 && outcomes[0] is Done && end.boards == boards,
                Phase::Register => n == 2 && created && end.board_id == Some(id) && end.boards
                    == boards,
                Phase::ShareMinerState => n == 3 && created && !(device is Cpu) && end.board_id
                    == Some(id) && end.boards == boards,
                Phase::CreateThreads => n == threads_at && created && end.board_id == Some(id)
                    && end.boards == boards,
                Phase::SendThreads { .. } => n > threads_at && created && outcomes[threads_at] is Threads
                    && end.board_id == Some(id) && end.boards == with_board(boards, id),
                Phase::Finished => end.boards == boards || (n > threads_at && created
                    && outcomes[threads_at] is Threads && end.board_id == Some(id) && end.boards
                    == with_board(boards, id)),
            }
        }),
    decreases outcomes.len(),
{
    if outcomes.len() > 0 {
        lemma_start(device, boards, outcomes.drop_last());
    }
}

/// Which driver is used for a device, by its place among the candidates.
pub open spec fn descriptor_found(
    candidates: Seq<Candidate>,
    r: Option<usize>,
) -> bool {
    &&& r is Some <==> exists|i: int|
        0 <= i < candidates.len() && (#[trigger] candidates[i]).matches
    &&& r matches Some(best) ==> {
        &&& best < candidates.len()
        &&& candidates[best as int].matches
        &&& forall|i: int|
            0 <= i < candidates.len() && (#[trigger] candidates[i]).matches
                ==> candidates[i].specificity <= candidates[best as int].specificity
        &&& forall|i: int|
            best < i < candidates.len() && (#[trigger] candidates[i]).matches
                ==> candidates[i].specificity < candidates[best as int].specificity
    }
}

/// What to do in the phase that a connection is in.
pub open spec fn action_is(
    connection: Connection,
    r: Action,
) -> bool {
    &&& match connection.phase {
        Phase::Lookup => match connection.device {
            Device::Amlogic(info) => r matches Action::FindVirtualDriver { key } && key@
                == driver_of(info.model),
            Device::Usb(_) => r is FindUsbDriver,
            Device::Cpu(_) => r matches Action::FindVirtualDriver { key } && key@
                == "cpu_miner"@,
        },
        Phase::Create => r is CreateBoard,
        Phase::Register => r is RegisterBoard,
        Phase::ShareMinerState => r is ShareMinerState,
        Phase::CreateThreads => r is CreateThreads,
        Phase::SendThreads { sent, .. } => r == (Action::SendThread { index: sent }),
        Phase::Finished => r is Nothing,
    }
}

/// What the outcome of an action changes.
pub open spec fn advanced(
    before: Seq<Seq<char>>,
    from: Connection,
    outcome: Outcome,
    after: Seq<Seq<char>>,
    to: Connection,
) -> bool {
    &&& after == boards_after(
        before,
        from.phase,
        id_text(from.board_id),
        outcome,
    )
    &&& to.wf()
    &&& to.device == from.device
    &&& to.phase == next_phase(
        from.device,
        from.phase,
        outcome,
    )
    &&& id_text(to.board_id) == match outcome {
        Outcome::Created { serial_number } if from.phase == Phase::Create => Some(
            board_id_of(from.device, serial_number),
        ),
        _ => id_text(from.board_id),
    }
}

/// The driver that fits best is used: of those that match the most specific, and
/// of several the last. There is always one when any matches, and only one.
pub proof fn law_most_specific_driver(
    candidates: Seq<Candidate>,
    r: Option<usize>,
    other: Option<usize>,
    i: int,
)
    requires
        descriptor_found(candidates, r),
        descriptor_found(candidates, other),
    ensures
        r == other,
        0 <= i < candidates.len() && candidates[i].matches ==> (r matches Some(best) && best
            < candidates.len() && candidates[best as int].matches && candidates[i].specificity
            <= candidates[best as int].specificity && (candidates[i].specificity
            == candidates[best as int].specificity ==> i <= best)),
        r matches Some(best) ==> best < candidates.len() && candidates[best as int].matches,
{
    if r is Some && other is Some {
        let a = r->0 as int;
        let b = other->0 as int;
        assert(candidates[a].matches && candidates[b].matches);
    }
    if r is Some {
        assert(candidates[r->0 as int].matches);
    }
    if other is Some {
        assert(candidates[other->0 as int].matches);
    }
}

/// When all goes well a device gets its driver, its board is created and
/// registered, is told how the miner is doing unless it is the CPU, and its
/// threads are created and handed on one by one.
pub proof fn law_connection_in_order(
    boards: Seq<Seq<char>>,
    connection: Connection,
    r: Action,
    outcome: Outcome,
    after: Seq<Seq<char>>,
    next: Connection,
    then: Action,
)
    requires
        connection.wf(),
        action_is(connection, r),
        advanced(boards, connection, outcome, after, next),
        action_is(next, then),
    ensures
        r is FindUsbDriver <==> connection.phase == Phase::Lookup && connection.device is Usb,
        (r is FindUsbDriver || r is FindVirtualDriver) && outcome is Done ==> then is CreateBoard,
        r is CreateBoard && outcome is Created ==> then is RegisterBoard && next.board_id is Some,
        r is RegisterBoard && connection.device is Cpu ==> then is CreateThreads,
        r is RegisterBoard && !(connection.device is Cpu) ==> then is ShareMinerState,
        r is ShareMinerState ==> then is CreateThreads,
        r is CreateThreads ==> match outcome {
            Outcome::Threads { count } => {
                &&& count > 0 ==> then == (Action::SendThread { index: 0 })
                &&& count == 0 ==> then is Nothing
                &&& after.contains(connection.board_id->0@)
            },
            _ => then is Nothing && after == boards,
        },
        r matches Action::SendThread { index } ==> (then matches Action::SendThread { index: j }
            ==> j == index + 1 && outcome is Done),
        !(r is CreateThreads) ==> after == boards,
        (r is FindUsbDriver || r is FindVirtualDriver || r is CreateBoard) && outcome is Failed
            ==> then is Nothing,
        next.device == connection.device,
{
    if r is CreateThreads && outcome is Threads {
        let id = connection.board_id->0@;
        assert(with_board(boards, id).contains(id)) by {
            if !boards.contains(id) {
                assert(boards.push(id)[boards.len() as int] == id);
            }
        }
    }
}

/// Every thread of a board is handed on: after one that was, the next is, until
/// the last.
pub proof fn law_every_thread_is_sent(device: Device, sent: usize, total: usize)
    requires
        sent < total,
    ensures
        sent + 1 < total ==> next_phase(device, Phase::SendThreads { sent, total }, Outcome::Done)
            == (Phase::SendThreads { sent: (sent + 1) as usize, total }),
        sent + 1 == total ==> next_phase(
            device,
            Phase::SendThreads { sent, total },
            Outcome::Done,
        ) == Phase::Finished,
        next_phase(device, Phase::SendThreads { sent, total }, Outcome::Failed) == Phase::Finished,
{
}

/// A board is known by its device, and one on USB by its serial number.
pub proof fn law_board_identity(
    boards: Seq<Seq<char>>,
    connection: Connection,
    serial_number: Option<String>,
    after: Seq<Seq<char>>,
    next: Connection,
)
    requires
        connection.phase == Phase::Create,
        advanced(boards, connection, Outcome::Created { serial_number }, after, next),
    ensures
        next.board_id matches Some(id) && match connection.device {
            Device::Amlogic(info) => id@ == info.device_id@,
            Device::Cpu(info) => id@ == info.device_id@,
            Device::Usb(_) => match serial_number {
                Some(serial) => id@ == serial@,
                None => id@ == "unknown"@,
            },
        },
{
}

/// A device that goes takes its own board with it and no other; a USB device,
/// which is not named, takes the one that has been there longest.
pub proof fn law_unplugged_board_is_shut_down(
    event: TransportEvent,
    before: Seq<Seq<char>>,
    after: Seq<Seq<char>>,
    r: Handling,
    id: Seq<char>,
)
    requires
        before.no_duplicates(),
        event_handled(event, before, after, r),
    ensures
        (event matches TransportEvent::Amlogic(AmlogicTransportEvent::DeviceDisconnected {
            device_id,
        }) && device_id@ == id) || (event matches TransportEvent::Cpu(
            CpuTransportEvent::CpuDeviceDisconnected { device_id },
        ) && device_id@ == id) ==> {
            &&& !after.contains(id)
            &&& before.contains(id) ==> (r matches Handling::ShutDown { board_id } && board_id@
                == id)
            &&& !before.contains(id) ==> r is Nothing && after == before
        },
        event matches TransportEvent::Usb(UsbTransportEvent::UsbDeviceDisconnected { .. })
            && before.len() > 0 ==> (r matches Handling::ShutDown { board_id } && board_id@
            == before[0] && after == before.drop_first()),
        event matches TransportEvent::Usb(UsbTransportEvent::UsbDeviceConnected(info)) ==> (
        r matches Handling::Start(connection) && connection.device == Device::Usb(info) && after
            == before),
        event matches TransportEvent::Amlogic(AmlogicTransportEvent::DeviceConnected(info)) ==> (
        r matches Handling::Start(connection) && connection.device == Device::Amlogic(info) && after
            == before),
        event matches TransportEvent::Cpu(CpuTransportEvent::CpuDeviceConnected(info)) ==> (
        r matches Handling::Start(connection) && connection.device == Device::Cpu(info) && after
            == before),
{
    law_disconnect_undoes_connect(before, id);
}

/// What comes of a transport event.
pub open spec fn event_handled(
    event: TransportEvent,
    before: Seq<Seq<char>>,
    after: Seq<Seq<char>>,
    r: Handling,
) -> bool {
    match event {
        TransportEvent::Amlogic(event) => amlogic_handled(event, before, after, r),
        TransportEvent::Usb(event) => usb_handled(event, before, after, r),
        TransportEvent::Cpu(event) => cpu_handled(event, before, after, r),
    }
}

} // verus!
