use vstd::prelude::*;

verus! {

/// Where the quiescence watcher of one trial stands. A completion
/// subprocess gives no explicit "finished" signal; the only observable
/// boundary is an idle gap after output has begun.
#[derive(Debug, Clone, Copy, PartialEq, Eq, Structural)]
pub enum WatchState {
    /// Nothing has been read yet. Shell warm-up (loading a completion
    /// subsystem) can be silent for a while, so idle time is not counted.
    AwaitingOutput,
    /// Output has begun; idle windows are being measured.
    Settling,
    /// A whole idle window passed with no activity: output has quiesced.
    Quiesced,
}

/// What the watcher observed: the first activity signal from the reader,
/// or the end of one idle window together with the count of activity
/// signals drained during it. Extra signals are counted, never matched on.
#[derive(Debug, Clone, Copy, PartialEq, Eq, Structural)]
pub enum WatchEvent {
    FirstActivity,
    WindowDrained(u64),
}

/// What the trial driver must do after an observation.
#[derive(Debug, Clone, Copy, PartialEq, Eq, Structural)]
pub enum WatchAction {
    /// Keep blocking until the first activity signal arrives.
    AwaitActivity,
    /// Sleep one idle window, then drain and count the signals.
    Sleep,
    /// Set the cancellation flag and force-terminate the child.
    Terminate,
}

/// The quiescence protocol's transition table: wait for the first signal,
/// then sleep in fixed windows until a window drains zero signals.
pub open spec fn spec_watch_step(s: WatchState, e: WatchEvent) -> (WatchState, WatchAction) {
    match s {
        WatchState::AwaitingOutput => match e {
            WatchEvent::FirstActivity => (WatchState::Settling, WatchAction::Sleep),
            WatchEvent::WindowDrained(_) => (WatchState::AwaitingOutput, WatchAction::AwaitActivity),
        },
        WatchState::Settling => match e {
            WatchEvent::FirstActivity => (WatchState::Settling, WatchAction::Sleep),
            WatchEvent::WindowDrained(n) => if n == 0 {
                (WatchState::Quiesced, WatchAction::Terminate)
            } else {
                (WatchState::Settling, WatchAction::Sleep)
            },
        },
        WatchState::Quiesced => (WatchState::Quiesced, WatchAction::Terminate),
    }
}

/// One decision of the quiescence watcher.
pub fn watch_step(s: WatchState, e: WatchEvent) -> (r: (WatchState, WatchAction))
    ensures
        r == spec_watch_step(s, e),
{
    match s {
        WatchState::AwaitingOutput => match e {
            WatchEvent::FirstActivity => (WatchState::Settling, WatchAction::Sleep),
            WatchEvent::WindowDrained(_) => (WatchState::AwaitingOutput, WatchAction::AwaitActivity),
        },
        WatchState::Settling => match e {
            WatchEvent::FirstActivity => (WatchState::Settling, WatchAction::Sleep),
            WatchEvent::WindowDrained(n) => if n == 0 {
                (WatchState::Quiesced, WatchAction::Terminate)
            } else {
                (WatchState::Settling, WatchAction::Sleep)
            },
        },
        WatchState::Quiesced => (WatchState::Quiesced, WatchAction::Terminate),
    }
}

/// The state the watcher reaches after a whole run of observations.
pub open spec fn run_watch(events: Seq<WatchEvent>) -> WatchState
    decreases events.len(),
{
    if events.len() == 0 {
        WatchState::AwaitingOutput
    } else {
        spec_watch_step(run_watch(events.drop_last()), events.last()).0
    }
}

/// Quiescence is never declared during warm-up silence: however many idle
/// windows elapse, the watcher does not terminate the trial before the
/// first activity signal has arrived.
pub proof fn lemma_no_quiesce_before_output(events: Seq<WatchEvent>)
    requires
        forall|i: int| 0 <= i < events.len() ==> #[trigger] events[i] != WatchEvent::FirstActivity,
    ensures
        run_watch(events) == WatchState::AwaitingOutput,
    decreases events.len(),
{
    if events.len() > 0 {
        lemma_no_quiesce_before_output(events.drop_last());
    }
}

/// Once output has begun, windows that drained activity keep the watcher
/// settling, and the first fully idle window terminates the trial: the wait
/// after output ceases is bounded by one idle window.
pub proof fn lemma_first_idle_window_quiesces(events: Seq<WatchEvent>, busy: Seq<WatchEvent>)
    requires
        run_watch(events) == WatchState::Settling,
        forall|i: int| 0 <= i < busy.len() ==> exists|n: u64| n > 0 && #[trigger] busy[i]
            == WatchEvent::WindowDrained(n),
    ensures
        run_watch(events + busy) == WatchState::Settling,
        run_watch((events + busy).push(WatchEvent::WindowDrained(0))) == WatchState::Quiesced,
        spec_watch_step(run_watch(events + busy), WatchEvent::WindowDrained(0)).1
            == WatchAction::Terminate,
    decreases busy.len(),
{
    if busy.len() == 0 {
        assert(events + busy =~= events);
    } else {
        lemma_first_idle_window_quiesces(events, busy.drop_last());
        assert(events + busy.drop_last() =~= (events + busy).drop_last());
    }
    let whole = (events + busy).push(WatchEvent::WindowDrained(0));
    assert(whole.drop_last() =~= events + busy);
}

/// What the reader does with one completed read from the pseudo-terminal.
#[derive(Debug, Clone, Copy, PartialEq, Eq, Structural)]
pub enum ReadDisposition {
    /// Stop reading; the screen is final.
    Stop,
    /// Feed the chunk to the emulator and signal activity.
    Feed,
}

/// The reader's decision for one read. The cancellation flag is checked
/// before the chunk is consumed — not by waiting for end-of-file after the
/// kill — because some shells erase their completion display during
/// teardown: a chunk let through after cancellation could replace a good
/// capture with an emptied screen. An empty chunk is end-of-file.
pub fn read_disposition(cancelled: bool, chunk_len: usize) -> (d: ReadDisposition)
    ensures
        d == ReadDisposition::Stop <==> (cancelled || chunk_len == 0),
        d == ReadDisposition::Feed <==> (!cancelled && chunk_len > 0),
{
    if cancelled || chunk_len == 0 {
        ReadDisposition::Stop
    } else {
        ReadDisposition::Feed
    }
}

} // verus!
