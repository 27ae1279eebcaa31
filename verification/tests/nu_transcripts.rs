use completest::error::TrialError;
use completest::nu::{
    first_parse_error, nu_script_stem, nu_transcript, pwd_with_separator, select_completer_block,
    trim_newlines_string, truncate_at_tab, Suggestion,
};
use completest::term::Term;

fn suggestion(value: &str, description: Option<&str>) -> Suggestion {
    Suggestion { value: value.to_owned(), description: description.map(|d| d.to_owned()) }
}

#[test]
fn input_is_truncated_at_the_first_tab() {
    assert_eq!(truncate_at_tab("greet \t"), "greet ");
    assert_eq!(truncate_at_tab("greet \t\t"), "greet ");
    assert_eq!(truncate_at_tab("\tgreet"), "");
    assert_eq!(truncate_at_tab("greet "), "greet ");
    assert_eq!(truncate_at_tab(""), "");
}

#[test]
fn completion_files_are_recognized_by_their_suffix() {
    assert_eq!(nu_script_stem("greet.nu").as_deref(), Some("greet"));
    assert_eq!(nu_script_stem(".nu").as_deref(), Some(""));
    assert_eq!(nu_script_stem("greet.fish"), None);
    assert_eq!(nu_script_stem("nu"), None);
    assert_eq!(nu_script_stem(""), None);
}

#[test]
fn completion_before_registration_is_a_configuration_error() {
    match select_completer_block(0) {
        Err(TrialError::Configuration(m)) => assert_eq!(m, "completer not registered"),
        other => panic!("expected a configuration error, got {other:?}"),
    }
}

#[test]
fn the_most_recently_merged_block_becomes_the_hook() {
    assert_eq!(select_completer_block(3), Ok(2));
    assert_eq!(select_completer_block(1), Ok(0));
}

#[test]
fn parsing_surfaces_the_first_error_only() {
    assert_eq!(first_parse_error(&Vec::new()), None);
    let errors = vec!["unexpected token".to_owned(), "later trouble".to_owned()];
    match first_parse_error(&errors) {
        Some(TrialError::Parse(m)) => assert_eq!(m, "unexpected token"),
        other => panic!("expected a parse error, got {other:?}"),
    }
}

#[test]
fn error_messages_are_readable() {
    assert_eq!(TrialError::Io("spawn failed".to_owned()).message(), "spawn failed");
    assert_eq!(TrialError::Parse("bad token".to_owned()).message(), "bad token");
    assert_eq!(TrialError::Configuration("no hook".to_owned()).message(), "no hook");
}

#[test]
fn working_directory_gets_a_trailing_separator() {
    assert_eq!(pwd_with_separator("/tmp/home", "/"), "/tmp/home/");
}

#[test]
fn descriptions_lose_trailing_newlines_only() {
    assert_eq!(trim_newlines_string("hi\n\n"), "hi");
    assert_eq!(trim_newlines_string("hi"), "hi");
    assert_eq!(trim_newlines_string("a\nb\n"), "a\nb");
    assert_eq!(trim_newlines_string("\n"), "");
}

#[test]
fn transcript_lists_candidates_in_declared_order() {
    let suggestions = vec![suggestion("alice", None), suggestion("bob", None)];
    let out = nu_transcript("greet ", &suggestions, Term::new().get_width());
    assert_eq!(out, "% greet \nalice\nbob\n");
    let lines: Vec<&str> = out.lines().collect();
    assert_eq!(lines.len(), 3);
    for line in &lines {
        assert!(line.len() <= 120);
    }
}

#[test]
fn transcript_of_no_suggestions_is_just_the_prompt() {
    let out = nu_transcript("greet ", &Vec::new(), 120);
    assert_eq!(out, "% greet \n");
}

#[test]
fn descriptions_are_padded_and_kept_within_the_viewport() {
    let suggestions = vec![
        suggestion("ls", Some("lists things\n")),
        suggestion("cat", None),
    ];
    let out = nu_transcript("", &suggestions, 120);
    assert_eq!(out, "% \nls    lists things\ncat\n");
}

#[test]
fn long_descriptions_are_clipped_to_the_width() {
    // The longest value is 3 columns, the spacer 4: a 12-column viewport
    // leaves 5 columns of description.
    let suggestions = vec![suggestion("val", Some("abcdefgh"))];
    let out = nu_transcript("x", &suggestions, 12);
    assert_eq!(out, "% x\nval    abcde\n");
    assert!(out.lines().all(|l| l.len() <= 12));
}

#[test]
fn a_viewport_too_narrow_for_descriptions_drops_them() {
    // With no room left, the spacer goes too: no line outgrows the value.
    let suggestions = vec![suggestion("val", Some("abcdefgh"))];
    let out = nu_transcript("x", &suggestions, 5);
    assert_eq!(out, "% x\nval\n");
}

#[test]
fn a_single_spare_column_shows_one_description_character() {
    let suggestions = vec![suggestion("val", Some("abcdefgh"))];
    let out = nu_transcript("x", &suggestions, 8);
    assert_eq!(out, "% x\nval    a\n");
}
