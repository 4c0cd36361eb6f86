//! What the HTTP server is told and what it shows.

use crate::api::types::{BoardState, MinerState, SourceState, ThreadState};
use crate::text::same_text;
use vstd::prelude::*;

verus! {

/// Configuration of the API server.
#[derive(Clone, Debug)]
pub struct ApiConfig {
    /// Address and port to bind the server to.
    pub bind_addr: String,
}

/// What threads hash together.
pub open spec fn thread_hashrate(threads: Seq<ThreadState>) -> nat
    decreases threads.len(),
{
    if threads.len() == 0 {
        0
    } else {
        thread_hashrate(threads.drop_last()) + threads.last().hashrate as nat
    }
}

/// What the threads of boards hash together.
pub open spec fn board_hashrate(boards: Seq<BoardState>) -> nat
    decreases boards.len(),
{
    if boards.len() == 0 {
        0
    } else {
        board_hashrate(boards.drop_last()) + thread_hashrate(boards.last().threads@)
    }
}

proof fn lemma_threads_grow(threads: Seq<ThreadState>, i: int)
    requires
        0 <= i <= threads.len(),
    ensures
        thread_hashrate(threads.take(i)) <= thread_hashrate(threads),
    decreases threads.len() - i,
{
    if i < threads.len() {
        lemma_threads_grow(threads, i + 1);
        assert(threads.take(i + 1).drop_last() =~= threads.take(i));
    } else {
        assert(threads.take(i) =~= threads);
    }
}

proof fn lemma_boards_grow(boards: Seq<BoardState>, i: int)
    requires
        0 <= i <= boards.len(),
    ensures
        board_hashrate(boards.take(i)) <= board_hashrate(boards),
    decreases boards.len() - i,
{
    if i < boards.len() {
        lemma_boards_grow(boards, i + 1);
        assert(boards.take(i + 1).drop_last() =~= boards.take(i));
    } else {
        assert(boards.take(i) =~= boards);
    }
}

fn add_threads(total: u64, threads: &Vec<ThreadState>) -> (r: Option<u64>)
    ensures
        r is Some <==> total + thread_hashrate(threads@) <= u64::MAX,
        r matches Some(sum) ==> sum == total + thread_hashrate(threads@),
{
    let mut sum: u64 = total;
    let mut i: usize = 0;
    assert(threads@.take(0) =~= Seq::<ThreadState>::empty());
    while i < threads.len()
        invariant
            i <= threads@.len(),
            sum == total + thread_hashrate(threads@.take(i as int)),
        decreases threads@.len() - i,
    {
        assert(threads@.take(i + 1).drop_last() =~= threads@.take(i as int));
        let hashrate: u64 = threads[i].hashrate;
        if hashrate > u64::MAX - sum {
            proof {
                lemma_threads_grow(threads@, i + 1);
            }
            return None;
        }
        sum = sum + hashrate;
        i = i + 1;
    }
    assert(threads@.take(i as int) =~= threads@);
    Some(sum)
}

/// What the threads of boards hash together, if a `u64` can hold it.
pub fn total_hashrate(boards: &Vec<BoardState>) -> (r: Option<u64>)
    ensures
        r is Some <==> board_hashrate(boards@) <= u64::MAX,
        r matches Some(sum) ==> sum == board_hashrate(boards@),
{
    let mut sum: u64 = 0;
    let mut i: usize = 0;
    assert(boards@.take(0) =~= Seq::<BoardState>::empty());
    while i < boards.len()
        invariant
            i <= boards@.len(),
            sum == board_hashrate(boards@.take(i as int)),
        decreases boards@.len() - i,
    {
        assert(boards@.take(i + 1).drop_last() =~= boards@.take(i as int));
        match add_threads(sum, &boards[i].threads) {
            Some(more) => {
                sum = more;
            },
            None => {
                proof {
                    lemma_boards_grow(boards@, i + 1);
                }
                return None;
            },
        }
        i = i + 1;
    }
    assert(boards@.take(i as int) =~= boards@);
    Some(sum)
}

/// The miner's state as it is shown: what the scheduler published, with the
/// boards, and with what their threads hash in place of the scheduler's figure.
pub fn miner_state(published: MinerState, boards: Vec<BoardState>) -> (r: MinerState)
    requires
        board_hashrate(boards@) <= u64::MAX,
    ensures
        r == shown_state(published, boards),
{
    let hashrate: u64 = match total_hashrate(&boards) {
        Some(sum) => sum,
        None => 0,
    };
    let mut state = published;
    state.boards = boards;
    state.hashrate = hashrate;
    state
}

/// The first board of a name, if there is one.
pub fn board_by_name<'a>(boards: &'a Vec<BoardState>, name: &str) -> (r: Option<&'a BoardState>)
    ensures
        match r {
            Some(board) => exists|i: int|
                #![trigger boards@[i]]
                0 <= i < boards@.len() && *board == boards@[i] && boards@[i].name@ == name@ && (
                forall|j: int| 0 <= j < i ==> (#[trigger] boards@[j]).name@ != name@),
            None => forall|i: int|
                0 <= i < boards@.len() ==> (#[trigger] boards@[i]).name@ != name@,
        },
{
    let mut i: usize = 0;
    while i < boards.len()
        invariant
            i <= boards@.len(),
            forall|j: int| 0 <= j < i ==> (#[trigger] boards@[j]).name@ != name@,
        decreases boards@.len() - i,
    {
        if same_text(boards[i].name.as_str(), name) {
            return Some(&boards[i]);
        }
        i = i + 1;
    }
    None
}

/// The first source of a name, if there is one.
pub fn source_by_name<'a>(sources: &'a Vec<SourceState>, name: &str) -> (r: Option<
    &'a SourceState,
>)
    ensures
        match r {
            Some(source) => exists|i: int|
                #![trigger sources@[i]]
                0 <= i < sources@.len() && *source == sources@[i] && sources@[i].name@ == name@ && (
                forall|j: int| 0 <= j < i ==> (#[trigger] sources@[j]).name@ != name@),
            None => forall|i: int|
                0 <= i < sources@.len() ==> (#[trigger] sources@[i]).name@ != name@,
        },
{
    let mut i: usize = 0;
    while i < sources.len()
        invariant
            i <= sources@.len(),
            forall|j: int| 0 <= j < i ==> (#[trigger] sources@[j]).name@ != name@,
        decreases sources@.len() - i,
    {
        if same_text(sources[i].name.as_str(), name) {
            return Some(&sources[i]);
        }
        i = i + 1;
    }
    None
}

/// The miner as the API shows it: what the scheduler publishes, with the boards
/// and what their threads do together.
pub open spec fn shown_state(published: MinerState, boards: Vec<BoardState>) -> MinerState {
    MinerState { boards, hashrate: board_hashrate(boards@) as u64, ..published }
}

/// Each thread of each board counts once, by its own rate.
pub proof fn law_every_thread_counts(
    boards: Seq<BoardState>,
    board: BoardState,
    threads: Seq<ThreadState>,
    thread: ThreadState,
)
    ensures
        thread_hashrate(Seq::<ThreadState>::empty()) == 0,
        thread_hashrate(threads.push(thread)) == thread_hashrate(threads) + thread.hashrate,
        board_hashrate(Seq::<BoardState>::empty()) == 0,
        board_hashrate(boards.push(board)) == board_hashrate(boards) + thread_hashrate(
            board.threads@,
        ),
{
    assert(threads.push(thread).drop_last() =~= threads);
    assert(boards.push(board).drop_last() =~= boards);
}

/// What is shown of the miner: the boards and their rate, and all else as it was
/// published.
pub proof fn law_shown_state(published: MinerState, boards: Vec<BoardState>)
    requires
        board_hashrate(boards@) <= u64::MAX,
    ensures
        ({
            let shown = shown_state(published, boards);
            &&& shown.boards == boards
            &&& shown.hashrate == board_hashrate(boards@)
            &&& shown.uptime_secs == published.uptime_secs
            &&& shown.shares_submitted == published.shares_submitted
            &&& shown.best_difficulty == published.best_difficulty
            &&& shown.paused == published.paused
            &&& shown.sources == published.sources
        }),
{
}

} // verus!
