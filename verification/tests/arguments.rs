use lis::arguments::{starts_with_dash, Arguments, Invocation, Request};
use lis::entries::types::{Entry, FileKind};
use lis::text::same_text;

fn words(line: &[&str]) -> Vec<String> {
    line.iter().map(|word| word.to_string()).collect()
}

fn listed(line: &[&str]) -> (Arguments, String) {
    match Arguments::interpreter(words(line), "/home/me".to_string()) {
        Invocation::List { arguments, path } => (arguments, path),
        other => panic!("not a listing: {:?}", other),
    }
}

fn named(name: &str) -> Entry {
    Entry { name: name.to_string(), file_type: Some(FileKind::File), metadata: None }
}

#[test]
fn no_flag_is_set_by_default() {
    let flags = Arguments::default();
    assert!(!flags.show_hidden());
    assert!(!flags.permissions());
    assert!(!flags.date());
    assert!(!flags.size());
    assert!(!flags.no_order());
    assert!(!flags.force_print_as_lines());
}

#[test]
fn each_option_sets_its_flag() {
    let options = [
        ("--date", "-d", Arguments { date: true, ..Arguments::default() }),
        ("--no-order", "-no", Arguments { no_order: true, ..Arguments::default() }),
        ("--permissions", "-p", Arguments { perm: true, ..Arguments::default() }),
        ("--size", "-s", Arguments { size: true, ..Arguments::default() }),
        ("--show-hidden", "-sh", Arguments { show_hidden: true, ..Arguments::default() }),
        ("--lines", "-l", Arguments { force_print_as_lines: true, ..Arguments::default() }),
    ];
    for (long, short, expected) in options {
        for word in [long, short] {
            let mut flags = Arguments::default();
            assert_eq!(flags.parse_arguments(word), Request::Flags);
            assert_eq!(flags, expected);
        }
    }
}

#[test]
fn all_sets_four_flags() {
    for word in ["--all", "-a"] {
        let mut flags = Arguments::default();
        assert_eq!(flags.parse_arguments(word), Request::Flags);
        assert!(flags.date() && flags.permissions() && flags.size() && flags.show_hidden());
        assert!(!flags.no_order() && !flags.force_print_as_lines());
    }
}

#[test]
fn flags_that_are_set_stay_set() {
    let mut flags = Arguments::default();
    flags.parse_arguments("-no");
    flags.parse_arguments("-l");
    flags.parse_arguments("--all");
    flags.parse_arguments("-d");
    assert_eq!(
        flags,
        Arguments {
            show_hidden: true,
            perm: true,
            date: true,
            size: true,
            no_order: true,
            force_print_as_lines: true,
        }
    );
}

#[test]
fn help_version_and_unknown_words_change_nothing() {
    let before = Arguments { size: true, ..Arguments::default() };
    for (word, request) in [
        ("--help", Request::Help),
        ("-h", Request::Help),
        ("--version", Request::Version),
        ("-v", Request::Version),
        ("--colour", Request::Invalid),
        ("-x", Request::Invalid),
        ("-", Request::Invalid),
        ("", Request::Invalid),
        ("--Date", Request::Invalid),
        ("--date ", Request::Invalid),
        ("date", Request::Invalid),
    ] {
        let mut flags = before;
        assert_eq!(flags.parse_arguments(word), request, "{:?}", word);
        assert_eq!(flags, before);
    }
}

#[test]
fn an_empty_command_line_lists_the_current_directory() {
    let (flags, path) = listed(&[]);
    assert_eq!(flags, Arguments::default());
    assert_eq!(path, "/home/me");
}

#[test]
fn the_last_word_that_is_no_option_is_the_path() {
    let (flags, path) = listed(&["/tmp", "-s", "/var", "--date"]);
    assert_eq!(path, "/var");
    assert_eq!(flags, Arguments { size: true, date: true, ..Arguments::default() });
    let (_, path) = listed(&["", "-l"]);
    assert_eq!(path, "");
}

#[test]
fn the_first_deciding_option_decides() {
    let run = |line: &[&str]| Arguments::interpreter(words(line), ".".to_string());
    assert!(matches!(run(&["-s", "--help", "-x"]), Invocation::Help));
    assert!(matches!(run(&["-v", "--help"]), Invocation::Version));
    assert!(matches!(run(&["/tmp", "--bogus", "-h"]), Invocation::Invalid));
    assert!(matches!(run(&["-"]), Invocation::Invalid));
    assert!(matches!(run(&["-d", "dir"]), Invocation::List { .. }));
}

#[test]
fn options_start_with_a_dash() {
    assert!(starts_with_dash("-a"));
    assert!(starts_with_dash("--all"));
    assert!(starts_with_dash("-"));
    assert!(!starts_with_dash(""));
    assert!(!starts_with_dash("a-"));
    assert!(!starts_with_dash("/tmp"));
}

#[test]
fn hidden_entries_are_left_out_unless_asked_for() {
    let all = vec![named(".git"), named("README"), named("run.sh"), named(".env"), named("link")];
    let visible = Arguments::default().analyze_entries(all.clone());
    let names: Vec<&str> = visible.iter().map(|entry| entry.name.as_str()).collect();
    assert_eq!(names, ["README", "run.sh", "link"]);
    let shown = Arguments { show_hidden: true, ..Arguments::default() }.analyze_entries(all);
    let names: Vec<&str> = shown.iter().map(|entry| entry.name.as_str()).collect();
    assert_eq!(names, [".git", "README", "run.sh", ".env", "link"]);
}

#[test]
fn a_directory_of_hidden_entries_lists_nothing() {
    let all = vec![named(".a"), named(".b")];
    assert!(Arguments::default().analyze_entries(all).is_empty());
    assert!(Arguments::default().analyze_entries(Vec::new()).is_empty());
}

#[test]
fn texts_are_the_same_when_their_characters_are() {
    assert!(same_text("", ""));
    assert!(same_text("--help", "--help"));
    assert!(same_text("日本語", "日本語"));
    assert!(!same_text("--help", "--helq"));
    assert!(!same_text("--help", "--hel"));
    assert!(!same_text("a", ""));
    assert!(!same_text("é", "e"));
}
