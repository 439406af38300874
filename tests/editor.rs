use led::editor::{Action, Printed, State};
use led::error::{CommandError, EdError};
use led::parser::PrintFlag;
use led::parser::{parse_command, Address, AddressRange, Command};
use led::pattern::compile;

fn strings(v: &[&str]) -> Vec<String> {
    v.iter().map(|s| s.to_string()).collect()
}

fn loaded(lines: &[&str]) -> State {
    let mut s = State::new();
    s.load("file.txt", strings(lines));
    s
}

fn run(s: &mut State, line: &str) -> Result<led::editor::Step, EdError> {
    let parsed = parse_command(line).expect("command parses");
    s.exec_command(parsed)
}

fn lines(s: &State) -> Vec<String> {
    s.buffer().lines().clone()
}

#[test]
fn delete_second_line() {
    let mut s = loaded(&["a", "b", "c"]);
    let step = run(&mut s, "2d\n").unwrap();
    assert!(matches!(step.action, Action::Done));
    assert!(step.printed.is_empty());
    assert_eq!(lines(&s), strings(&["a", "c"]));
    assert_eq!(s.buffer().curline(), 1);
    assert!(s.buffer().changed());
}

#[test]
fn delete_last_lines_moves_to_new_last() {
    let mut s = loaded(&["a", "b", "c", "d"]);
    run(&mut s, "3,4d\n").unwrap();
    assert_eq!(lines(&s), strings(&["a", "b"]));
    assert_eq!(s.buffer().curline(), 1);
    run(&mut s, "1,2d\n").unwrap();
    assert_eq!(s.buffer().len(), 0);
    assert_eq!(s.buffer().curline(), 0);
}

#[test]
fn append_after_first_line() {
    let mut s = loaded(&["x", "y"]);
    let step = run(&mut s, "1a\n").unwrap();
    assert!(matches!(step.action, Action::CollectText));
    assert!(s.in_insert_mode());
    assert!(s.input_line("z\n").is_empty());
    assert!(s.input_line(".\n").is_empty());
    assert!(!s.in_insert_mode());
    assert_eq!(lines(&s), strings(&["x", "z", "y"]));
}

#[test]
fn append_at_last_line_falls_back() {
    let mut s = loaded(&["x", "y"]);
    run(&mut s, "2a\n").unwrap();
    s.input_line("z\n");
    s.input_line(".\n");
    assert_eq!(lines(&s), strings(&["x", "z", "y"]));
}

#[test]
fn append_into_empty_buffer() {
    let mut s = State::new();
    run(&mut s, "a\n").unwrap();
    s.input_line("first\n");
    s.input_line("second\n");
    s.input_line(".\n");
    assert_eq!(lines(&s), strings(&["first", "second"]));
}

#[test]
fn insert_and_change_with_echo() {
    let mut s = loaded(&["a", "b", "c"]);
    run(&mut s, "2i\n").unwrap();
    s.input_line("new\n");
    assert!(s.input_line(".\n").is_empty());
    assert_eq!(lines(&s), strings(&["a", "new", "b", "c"]));

    run(&mut s, "2,3cn\n").unwrap();
    s.input_line("X\n");
    s.input_line("Y\n");
    s.input_line("Z\n");
    let printed = s.input_line(".\n");
    assert_eq!(lines(&s), strings(&["a", "X", "Y", "Z", "c"]));
    assert_eq!(
        printed,
        vec![
            Printed::Line(1, PrintFlag::Number),
            Printed::Line(2, PrintFlag::Number),
            Printed::Line(3, PrintFlag::Number),
        ]
    );
}

#[test]
fn single_line_enforced() {
    let mut s = loaded(&["a", "b", "c"]);
    run(&mut s, "ka\n").unwrap();
    for cmd in ["1,2a\n", "1,2i\n", "1,2kb\n"] {
        assert_eq!(run(&mut s, cmd).err(), Some(EdError::ExpectedSingleLine));
        assert!(!s.in_insert_mode());
        assert_eq!(lines(&s), strings(&["a", "b", "c"]));
        assert_eq!(s.buffer().mark(1), None);
        assert!(!s.buffer().changed());
    }
}

#[test]
fn whole_buffer_range_prints_all() {
    let mut s = loaded(&["a", "b", "c"]);
    let step = run(&mut s, "%p\n").unwrap();
    assert_eq!(
        step.printed,
        vec![
            Printed::Line(0, PrintFlag::Print),
            Printed::Line(1, PrintFlag::Print),
            Printed::Line(2, PrintFlag::Print),
        ]
    );
    let mut empty = State::new();
    assert_eq!(run(&mut empty, "%p\n").err(), Some(EdError::InvalidAddress));
}

#[test]
fn bare_address_moves_and_prints() {
    let mut s = loaded(&["a", "b", "c"]);
    let step = run(&mut s, "3\n").unwrap();
    assert_eq!(step.printed, vec![Printed::Line(2, PrintFlag::Print)]);
    assert_eq!(s.buffer().curline(), 2);
    let step = run(&mut s, "=\n").unwrap();
    assert_eq!(step.printed, vec![Printed::Number(3)]);
    assert_eq!(run(&mut s, "1,2\n").err(), Some(EdError::ExpectedSingleLine));
}

#[test]
fn forward_search_wraps_around() {
    let mut s = loaded(&["foo 1", "bar", "foo 2"]);
    run(&mut s, "3\n").unwrap();
    let step = run(&mut s, "/foo/\n").unwrap();
    assert_eq!(step.printed, vec![Printed::Line(0, PrintFlag::Print)]);
    assert_eq!(s.buffer().curline(), 0);
    // repeating the search starts from the last match
    run(&mut s, "//\n").unwrap();
    assert_eq!(s.buffer().curline(), 2);
    run(&mut s, "//\n").unwrap();
    assert_eq!(s.buffer().curline(), 0);
}

#[test]
fn backward_search() {
    let mut s = loaded(&["foo", "bar", "foo", "baz"]);
    run(&mut s, "2\n").unwrap();
    run(&mut s, "?foo?\n").unwrap();
    assert_eq!(s.buffer().curline(), 0);
    run(&mut s, "??\n").unwrap();
    assert_eq!(s.buffer().curline(), 2);
}

#[test]
fn search_matches_only_line_by_wraparound() {
    let mut s = loaded(&["a", "needle", "b"]);
    run(&mut s, "2\n").unwrap();
    run(&mut s, "/needle\n").unwrap();
    assert_eq!(s.buffer().curline(), 1);
}

#[test]
fn search_without_match() {
    let mut s = loaded(&["a", "b", "c"]);
    run(&mut s, "2\n").unwrap();
    assert_eq!(run(&mut s, "/foo/\n").err(), Some(EdError::NoMatch));
    assert_eq!(lines(&s), strings(&["a", "b", "c"]));
    assert_eq!(s.buffer().curline(), 1);
}

#[test]
fn search_errors() {
    let mut s = loaded(&["a"]);
    assert_eq!(run(&mut s, "//\n").err(), Some(EdError::NoPreviousSearch));
    assert_eq!(run(&mut s, "/(/\n").err(), Some(EdError::InvalidRegex));
    assert_eq!(run(&mut s, "??\n").err(), Some(EdError::NoPreviousSearch));
}

#[test]
fn address_errors() {
    let mut s = loaded(&["a", "b", "c"]);
    assert_eq!(run(&mut s, "5p\n").err(), Some(EdError::InvalidAddress));
    assert_eq!(run(&mut s, "3,1p\n").err(), Some(EdError::InvalidAddress));
    assert_eq!(run(&mut s, "-5p\n").err(), Some(EdError::InvalidAddress));
    assert_eq!(run(&mut s, "'q\n").err(), Some(EdError::InvalidMark));
    assert_eq!(run(&mut s, "4d\n").err(), Some(EdError::InvalidAddress));
    assert_eq!(run(&mut s, "3r\n").err(), None);
}

#[test]
fn marks_follow_edits() {
    let mut s = loaded(&["a", "b", "c", "d"]);
    run(&mut s, "4kd\n").unwrap();
    run(&mut s, "2kb\n").unwrap();
    run(&mut s, "1d\n").unwrap();
    let step = run(&mut s, "'dp\n").unwrap();
    assert_eq!(step.printed, vec![Printed::Line(2, PrintFlag::Print)]);
    run(&mut s, "'bd\n").unwrap();
    assert_eq!(run(&mut s, "'b\n").err(), Some(EdError::InvalidMark));
}

#[test]
fn modified_guard_is_one_shot() {
    let mut s = loaded(&["a"]);
    run(&mut s, "1d\n").unwrap();
    assert_eq!(run(&mut s, "q\n").err(), Some(EdError::Modified));
    let step = run(&mut s, "q\n").unwrap();
    assert!(matches!(step.action, Action::Quit));

    let mut s = loaded(&["a"]);
    run(&mut s, "1d\n").unwrap();
    assert_eq!(run(&mut s, "e other\n").err(), Some(EdError::Modified));
    match run(&mut s, "e other\n").unwrap().action {
        Action::Load(p) => assert_eq!(p, "other"),
        _ => panic!("expected a load"),
    }
}

#[test]
fn file_commands_hand_off() {
    let mut s = loaded(&["a", "b"]);
    match run(&mut s, "w\n").unwrap().action {
        Action::Save(p, text) => {
            assert_eq!(p, "file.txt");
            assert_eq!(text, "a\nb\n");
        },
        _ => panic!("expected a save"),
    }
    run(&mut s, "f new.txt\n").unwrap();
    match run(&mut s, "w\n").unwrap().action {
        Action::Save(p, _) => assert_eq!(p, "new.txt"),
        _ => panic!("expected a save"),
    }
    match run(&mut s, "1r extra\n").unwrap().action {
        Action::ReadInto(p, at) => {
            assert_eq!(p, "extra");
            assert_eq!(at, 1);
        },
        _ => panic!("expected a read"),
    }
    match run(&mut s, "!ls -l\n").unwrap().action {
        Action::Shell(c) => assert_eq!(c, "ls -l"),
        _ => panic!("expected a shell command"),
    }
}

#[test]
fn read_inserts_after_line() {
    let mut s = loaded(&["a", "b"]);
    assert_eq!(s.insert_lines(1, strings(&["r1", "r2"])), Ok(()));
    assert_eq!(lines(&s), strings(&["a", "r1", "r2", "b"]));
    assert!(s.buffer().changed());
    assert_eq!(s.insert_lines(9, strings(&["x"])), Err(EdError::InvalidAddress));
    s.saved();
    assert!(!s.buffer().changed());
}

#[test]
fn load_resets_state_and_counts_bytes() {
    let mut s = loaded(&["a"]);
    run(&mut s, "ka\n").unwrap();
    run(&mut s, "/a/\n").unwrap();
    run(&mut s, "H\n").unwrap();
    let printed = s.load("other.txt", strings(&["hello", "wörld"]));
    assert_eq!(printed, vec![Printed::Number(13)]);
    assert!(s.verbose());
    assert!(!s.buffer().changed());
    assert_eq!(s.buffer().mark(0), None);
    assert_eq!(run(&mut s, "//\n").err(), Some(EdError::NoPreviousSearch));
    match run(&mut s, "w\n").unwrap().action {
        Action::Save(p, _) => assert_eq!(p, "other.txt"),
        _ => panic!("expected a save"),
    }
}

#[test]
fn toggles() {
    let mut s = State::new();
    run(&mut s, "P\n").unwrap();
    assert!(s.prompt());
    run(&mut s, "P\n").unwrap();
    assert!(!s.prompt());
    run(&mut s, "H\n").unwrap();
    assert!(s.verbose());
}

#[test]
fn patterns() {
    let p = compile("b+c").unwrap();
    assert!(p.is_match("abbbc"));
    assert!(!p.is_match("ac"));
    assert!(compile("(").is_err());
}

#[test]
fn error_messages() {
    assert_eq!(EdError::InvalidPath.message(), "invalid path");
    assert_eq!(EdError::CommandFailed.message(), "Command failed");
    assert_eq!(EdError::Syntax.message(), "invalid command");
    assert_eq!(CommandError::from_error(EdError::Modified).details(), "warning: file modified");
    assert_eq!(CommandError::new("boom").details(), "boom");
}

#[test]
fn mark_slot_out_of_range() {
    let mut s = loaded(&["a"]);
    let parsed = (
        Some(AddressRange::Range(Address::Abs(0), Address::Abs(0))),
        Some(Command::Mark(30)),
        PrintFlag::Silent,
    );
    assert_eq!(s.exec_command(parsed).err(), Some(EdError::InvalidMark));
}

#[test]
fn file_command_echo_comes_after() {
    let mut s = loaded(&["a", "b"]);
    run(&mut s, "2\n").unwrap();
    let step = run(&mut s, "wn\n").unwrap();
    assert!(step.printed.is_empty());
    assert_eq!(step.echo, (1, 1, PrintFlag::Number));
    assert_eq!(s.print_range(1, 1, PrintFlag::Number), vec![Printed::Line(1, PrintFlag::Number)]);
    assert_eq!(s.print_range(1, 9, PrintFlag::Print), vec![Printed::Line(1, PrintFlag::Print)]);
    assert!(s.print_range(0, 1, PrintFlag::Silent).is_empty());
}

#[test]
fn line_indices() {
    let mut s = loaded(&["a", "b", "c"]);
    run(&mut s, "2\n").unwrap();
    assert_eq!(s.line_to_index(Address::Abs(-1)), Ok(2));
    assert_eq!(s.line_to_index(Address::Abs(-3)), Ok(0));
    assert_eq!(s.line_to_index(Address::Abs(-4)), Err(EdError::InvalidAddress));
    assert_eq!(s.line_to_index(Address::Rel(-1)), Ok(0));
    assert_eq!(s.line_to_index(Address::Rel(-2)), Err(EdError::InvalidAddress));
    assert_eq!(s.line_to_index(Address::Rel(5)), Ok(6));
    assert_eq!(s.line_to_index(Address::Mark(0)), Err(EdError::InvalidMark));
    assert_eq!(s.is_valid(2), Ok(2));
    assert_eq!(s.is_valid(3), Err(EdError::InvalidAddress));
}
