use completest::render::{render_trimmed, trim_string};
use completest::screen::Screen;
use completest::term::Term;

#[test]
fn trim_removes_leading_and_trailing_blanks() {
    assert_eq!(trim_string("  a b \t "), "a b");
    assert_eq!(trim_string(""), "");
    assert_eq!(trim_string(" \t "), "");
    assert_eq!(trim_string("x"), "x");
}

#[test]
fn render_of_empty_text_is_empty() {
    assert_eq!(render_trimmed(""), "");
}

#[test]
fn render_trims_every_line() {
    assert_eq!(render_trimmed("  a  \n  b c  \n"), "a\nb c\n");
    assert_eq!(render_trimmed("one"), "one");
    assert_eq!(render_trimmed(" \n \n"), "\n\n");
}

#[test]
fn render_is_stable_under_repetition() {
    let raw = "  hello \n world  ";
    let once = render_trimmed(raw);
    let again = render_trimmed(raw);
    assert_eq!(once, again);
    assert_eq!(once, "hello\nworld");
}

#[test]
fn blank_screen_captures_empty_string() {
    let term = Term::new();
    let screen = Screen::new(&term);
    assert_eq!(screen.capture(), "");
}

#[test]
fn capture_is_stable_without_further_output() {
    let term = Term::new();
    let mut screen = Screen::new(&term);
    screen.process(b"stable text");
    let first = screen.capture();
    let second = screen.capture();
    assert_eq!(first, second);
    assert_eq!(first, "stable text");
}

#[test]
fn plain_text_lands_on_the_grid() {
    let term = Term::new();
    let mut screen = Screen::new(&term);
    screen.process(b"hello");
    assert_eq!(screen.capture(), "hello");
}

#[test]
fn styling_sequences_are_discarded_from_the_capture() {
    let term = Term::new();
    let mut screen = Screen::new(&term);
    screen.process(b"ab\x1b[31mcd\x1b[m!");
    let cap = screen.capture();
    assert_eq!(cap, "abcd!");
    assert!(!cap.contains('\u{1b}'));
}

#[test]
fn escape_sequence_split_across_chunks_is_buffered() {
    let term = Term::new();
    let mut screen = Screen::new(&term);
    screen.process(b"\x1b[3");
    screen.process(b"1mRED\x1b[m");
    // Were the split sequence lost or misparsed, "1mRED" would appear.
    assert_eq!(screen.capture(), "RED");
}

#[test]
fn cursor_movement_places_text_on_the_right_row() {
    let term = Term::new();
    let mut screen = Screen::new(&term);
    screen.process(b"\x1b[2;1Hworld");
    assert_eq!(screen.capture(), "\nworld");
}

#[test]
fn carriage_return_and_line_feed_advance_rows() {
    let term = Term::new();
    let mut screen = Screen::new(&term);
    screen.process(b"% greet \r\nalice  bob\r\n");
    assert_eq!(screen.capture(), "% greet\nalice  bob");
}

#[test]
fn bash_style_listing_contains_every_candidate() {
    // What a bash trial leaves on screen after a double-tab listing.
    let term = Term::new();
    let mut screen = Screen::new(&term);
    screen.process(b"% greet \t\t\r\nalice  bob\r\n% greet ");
    let cap = screen.capture();
    assert!(cap.contains("alice"));
    assert!(cap.contains("bob"));
    assert!(cap.lines().next().unwrap().contains("greet"));
}

#[test]
fn fish_style_listing_leaves_no_escape_artifacts() {
    // fish colors its pager and sets the window title; none of that may
    // survive into the capture.
    let term = Term::new();
    let mut screen = Screen::new(&term);
    screen.process(b"\x1b]0;fish\x07% greet \t\r\n");
    screen.process(b"\x1b[32malice\x1b[m  \x1b[32mbob\x1b[m\r\n");
    let cap = screen.capture();
    assert!(cap.contains("alice"));
    assert!(cap.contains("bob"));
    assert!(!cap.contains('\u{1b}'));
    assert!(!cap.contains('\u{7}'));
}

#[test]
fn a_fresh_screen_is_isolated_from_an_earlier_trial() {
    let term = Term::new();
    let mut first = Screen::new(&term);
    first.process(b"leftover junk\x1b[2Jmore");
    let _ = first.capture();
    // A second trial on the same runtime builds a fresh emulator: nothing
    // from the first trial's teardown may leak into it.
    let mut second = Screen::new(&term);
    second.process(b"fresh");
    assert_eq!(second.capture(), "fresh");
}
