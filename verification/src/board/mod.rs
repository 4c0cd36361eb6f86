//! Hash boards.

pub mod emberone;
pub mod s19j_pro;
pub mod s19j_pro_amlogic;
pub mod s19j_pro_bitcrane;

use crate::api::types::BoardState;
use crate::text::{cuts, first_bytes, push_text, shorter, utf8_len};
use vstd::prelude::*;

verus! {

/// Why a board could not do what it was asked.
#[derive(Debug)]
pub enum BoardError {
    InitializationFailed(String),
    HardwareControl(String),
}

/// What may stand in the way of a board's start, on its ports and threads.
#[derive(Clone, Copy, Debug, PartialEq, Eq, Structural)]
pub enum StartObstacle {
    OpenControlPort,
    InitializeBoard,
    /// The board is the control board itself.
    InitializeNativeBoard,
    OpenDataPort,
    FlushDataPort,
    CreateThread,
}

/// What is said of an obstacle, before the reason.
pub open spec fn obstacle_text(obstacle: StartObstacle) -> Seq<char> {
    match obstacle {
        StartObstacle::OpenControlPort => "Failed to open control port: "@,
        StartObstacle::InitializeBoard => "Failed to initialize board: "@,
        StartObstacle::InitializeNativeBoard => "Failed to initialize native Amlogic board: "@,
        StartObstacle::OpenDataPort => "Failed to open data port: "@,
        StartObstacle::FlushDataPort => "Failed to flush serial buffer: "@,
        StartObstacle::CreateThread => "Failed to create hash thread: "@,
    }
}

impl StartObstacle {
    /// What is said of the obstacle.
    pub fn message(self, why: &str) -> (r: String)
        ensures
            r@ == obstacle_text(self) + why@,
    {
        let mut text = String::new();
        push_text(
            &mut text,
            match self {
                StartObstacle::OpenControlPort => "Failed to open control port: ",
                StartObstacle::InitializeBoard => "Failed to initialize board: ",
                StartObstacle::InitializeNativeBoard =>
                    "Failed to initialize native Amlogic board: ",
                StartObstacle::OpenDataPort => "Failed to open data port: ",
                StartObstacle::FlushDataPort => "Failed to flush serial buffer: ",
                StartObstacle::CreateThread => "Failed to create hash thread: ",
            },
        );
        push_text(&mut text, why);
        assert(text@ =~= obstacle_text(self) + why@);
        text
    }
}

/// What a board says of itself.
#[derive(Debug)]
pub struct BoardInfo {
    pub model: String,
    pub firmware_version: Option<String>,
    pub serial_number: Option<String>,
}

/// The name of a thing, with the board's serial number or `"unknown"`.
pub fn push_serial(out: &mut String, serial: &Option<String>)
    ensures
        final(out)@ == old(out)@ + serial_text(*serial),
{
    match serial {
        Some(serial) => push_text(out, serial.as_str()),
        None => push_text(out, "unknown"),
    }
}

/// A serial number, or `"unknown"`.
pub open spec fn serial_text(serial: Option<String>) -> Seq<char> {
    match serial {
        Some(serial) => serial@,
        None => "unknown"@,
    }
}

/// Whether a board's state says who it is and nothing else.
pub open spec fn is_identity_state(
    state: BoardState,
    name: Seq<char>,
    model: Seq<char>,
    serial: Option<String>,
) -> bool {
    &&& state.name@ == name
    &&& state.model@ == model
    &&& state.serial == serial
    &&& state.frequency_khz is None
    &&& state.hashboard_count is None
    &&& state.active_hashboard_count is None
    &&& state.hashboards@.len() == 0
    &&& state.fans@.len() == 0
    &&& state.temperatures@.len() == 0
    &&& state.powers@.len() == 0
    &&& state.threads@.len() == 0
}

/// The state of a board of which only its identity is known. Its name is the
/// prefix with the serial number or `"unknown"`.
pub fn identity_state(prefix: &str, model: &str, serial: Option<String>) -> (r: BoardState)
    ensures
        is_identity_state(r, prefix@ + serial_text(serial), model@, serial),
{
    let mut name = String::new();
    push_text(&mut name, prefix);
    push_serial(&mut name, &serial);
    assert(name@ =~= prefix@ + serial_text(serial));
    BoardState {
        name,
        model: model.to_string(),
        serial,
        frequency_khz: None,
        hashboard_count: None,
        active_hashboard_count: None,
        hashboards: Vec::new(),
        fans: Vec::new(),
        temperatures: Vec::new(),
        powers: Vec::new(),
        threads: Vec::new(),
    }
}

/// What a board says of itself, by its model and serial number.
pub fn info_of(model: &str, serial: &Option<String>) -> (r: BoardInfo)
    ensures
        r.model@ == model@,
        r.firmware_version is None,
        r.serial_number == *serial,
{
    BoardInfo {
        model: model.to_string(),
        firmware_version: None,
        serial_number: match serial {
            Some(serial) => Some(serial.clone()),
            None => None,
        },
    }
}

/// Whether a name is a prefix with a dash and the first eight bytes of the
/// serial number, or the bare prefix where there is none.
pub open spec fn short_name_text(prefix: Seq<char>, serial: Option<String>, name: Seq<char>) -> bool {
    match serial {
        None => name == prefix,
        Some(serial) => {
            let n = name.len() - prefix.len() - 1;
            &&& 0 <= n <= serial@.len()
            &&& name == prefix + "-"@ + serial@.take(n)
            &&& utf8_len(serial@.take(n)) == shorter(8, utf8_len(serial@))
        },
    }
}

/// A prefix with a dash and the first eight bytes of the serial number, or the
/// bare prefix where there is none.
pub fn short_name(prefix: &str, serial: &Option<String>) -> (r: String)
    requires
        *serial matches Some(s) ==> cuts(s@, shorter(8, utf8_len(s@))),
    ensures
        short_name_text(prefix@, *serial, r@),
{
    let mut name = String::new();
    push_text(&mut name, prefix);
    match serial {
        Some(serial) => {
            let short = first_bytes(serial.as_str(), 8);
            push_text(&mut name, "-");
            push_text(&mut name, short.as_str());
            proof {
                reveal_strlit("-");
            }
            assert(name@ =~= prefix@ + "-"@ + serial@.take(short@.len() as int));
        },
        None => {
            assert(name@ =~= prefix@);
        },
    }
    name
}

/// A board's short name is its prefix and the first eight characters of its
/// serial number, where those are of one byte each; without a serial number it is
/// the prefix alone.
pub proof fn law_short_name(prefix: Seq<char>, serial: Option<String>, name: Seq<char>)
    requires
        short_name_text(prefix, serial, name),
    ensures
        serial is None ==> name == prefix,
        serial matches Some(own) ==> (forall|i: int|
            0 <= i < own@.len() ==> ((#[trigger] own@[i]) as u32) < 0x80) ==> name == prefix + "-"@
            + own@.take(
            if own@.len() < 8 {
                own@.len() as int
            } else {
                8
            },
        ),
{
    if let Some(own) = serial {
        if forall|i: int| 0 <= i < own@.len() ==> ((#[trigger] own@[i]) as u32) < 0x80 {
            reveal_strlit("-");
            let n = name.len() - prefix.len() - 1;
            lemma_one_byte_each(own@);
            lemma_one_byte_each(own@.take(n));
        }
    }
}

proof fn lemma_one_byte_each(s: Seq<char>)
    requires
        forall|i: int| 0 <= i < s.len() ==> ((#[trigger] s[i]) as u32) < 0x80,
    ensures
        utf8_len(s) == s.len(),
    decreases s.len(),
{
    if s.len() > 0 {
        lemma_one_byte_each(s.drop_last());
        assert((s[s.len() - 1] as u32) < 0x80);
    }
}

/// A board that has only just been found is shown by its name, its model and its
/// serial number, and nothing is known of it yet.
pub proof fn law_identity_state(
    state: BoardState,
    name: Seq<char>,
    model: Seq<char>,
    serial: Option<String>,
)
    requires
        is_identity_state(state, name, model, serial),
    ensures
        state.name@ == name,
        state.model@ == model,
        state.serial == serial,
        state.frequency_khz is None,
        state.hashboards@.len() + state.fans@.len() + state.temperatures@.len()
            + state.powers@.len() + state.threads@.len() == 0,
{
}

} // verus!
