use completest::term::Term;
use completest::watch::{watch_step, read_disposition, ReadDisposition, WatchAction, WatchEvent, WatchState};

#[test]
fn term_defaults_are_120_by_60() {
    let t = Term::new();
    assert_eq!(t.get_width(), 120);
    assert_eq!(t.get_height(), 60);
}

#[test]
fn term_builders_replace_one_dimension() {
    let t = Term::new().width(80);
    assert_eq!(t.get_width(), 80);
    assert_eq!(t.get_height(), 60);
    let t = t.height(24);
    assert_eq!(t.get_width(), 80);
    assert_eq!(t.get_height(), 24);
}

#[test]
fn term_default_equals_new() {
    assert_eq!(Term::default(), Term::new());
}

#[test]
fn watcher_ignores_idle_windows_before_any_output() {
    let (s, a) = watch_step(WatchState::AwaitingOutput, WatchEvent::WindowDrained(0));
    assert_eq!(s, WatchState::AwaitingOutput);
    assert_eq!(a, WatchAction::AwaitActivity);
}

#[test]
fn watcher_starts_settling_on_first_activity() {
    let (s, a) = watch_step(WatchState::AwaitingOutput, WatchEvent::FirstActivity);
    assert_eq!(s, WatchState::Settling);
    assert_eq!(a, WatchAction::Sleep);
}

#[test]
fn watcher_keeps_sleeping_while_windows_drain_activity() {
    let (s, a) = watch_step(WatchState::Settling, WatchEvent::WindowDrained(7));
    assert_eq!(s, WatchState::Settling);
    assert_eq!(a, WatchAction::Sleep);
}

#[test]
fn watcher_terminates_on_first_idle_window() {
    // An input that requests no completion goes silent right after the
    // prompt: one idle window later the trial must end.
    let (s, a) = watch_step(WatchState::Settling, WatchEvent::WindowDrained(0));
    assert_eq!(s, WatchState::Quiesced);
    assert_eq!(a, WatchAction::Terminate);
}

#[test]
fn watcher_full_run_of_a_promptly_silent_trial() {
    let mut state = WatchState::AwaitingOutput;
    let events = [
        WatchEvent::FirstActivity,
        WatchEvent::WindowDrained(3),
        WatchEvent::WindowDrained(0),
    ];
    let mut last_action = WatchAction::AwaitActivity;
    for e in events {
        let (s, a) = watch_step(state, e);
        state = s;
        last_action = a;
    }
    assert_eq!(state, WatchState::Quiesced);
    assert_eq!(last_action, WatchAction::Terminate);
}

#[test]
fn reader_stops_once_cancelled_even_with_data() {
    assert_eq!(read_disposition(true, 100), ReadDisposition::Stop);
}

#[test]
fn reader_stops_at_end_of_file() {
    assert_eq!(read_disposition(false, 0), ReadDisposition::Stop);
}

#[test]
fn reader_feeds_live_chunks() {
    assert_eq!(read_disposition(false, 1), ReadDisposition::Feed);
}
