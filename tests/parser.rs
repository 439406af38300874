use led::error::EdError;
use led::parser::{Address, PrintFlag};
use led::parser::{parse_command, parse_terminator, print_flag_set, AddressRange, Command};

fn range_of(line: &str) -> Option<AddressRange> {
    parse_command(line).expect("parses").0
}

fn command_of(line: &str) -> Option<Command> {
    parse_command(line).expect("parses").1
}

fn flag_of(line: &str) -> PrintFlag {
    parse_command(line).expect("parses").2
}

fn is_range(r: Option<AddressRange>, f: Address, t: Address) -> bool {
    matches!(r, Some(AddressRange::Range(a, b)) if a == f && b == t)
}

#[test]
fn flag_precedence() {
    assert_eq!(print_flag_set(PrintFlag::Silent, PrintFlag::Print), PrintFlag::Print);
    assert_eq!(print_flag_set(PrintFlag::Silent, PrintFlag::Number), PrintFlag::Number);
    assert_eq!(print_flag_set(PrintFlag::Print, PrintFlag::Number), PrintFlag::Number);
    assert_eq!(print_flag_set(PrintFlag::Number, PrintFlag::Print), PrintFlag::Number);
    assert_eq!(print_flag_set(PrintFlag::Print, PrintFlag::Silent), PrintFlag::Print);
}

#[test]
fn flags_combine_on_one_line() {
    assert_eq!(flag_of("pn\n"), PrintFlag::Number);
    assert_eq!(flag_of("np\n"), PrintFlag::Number);
    assert_eq!(flag_of("pp\n"), PrintFlag::Print);
    assert_eq!(flag_of("\n"), PrintFlag::Silent);
}

#[test]
fn delete_line_two() {
    let (r, c, f) = parse_command("2d\n").unwrap();
    assert!(is_range(r, Address::Abs(1), Address::Abs(1)));
    assert!(matches!(c, Some(Command::Delete)));
    assert_eq!(f, PrintFlag::Silent);
}

#[test]
fn whole_buffer_shorthands() {
    assert!(is_range(range_of("%p\n"), Address::Abs(0), Address::Abs(-1)));
    assert!(is_range(range_of(",p\n"), Address::Abs(0), Address::Abs(-1)));
    assert!(is_range(range_of(";p\n"), Address::Rel(0), Address::Abs(-1)));
}

#[test]
fn single_addresses() {
    assert!(is_range(range_of(".\n"), Address::Rel(0), Address::Rel(0)));
    assert!(is_range(range_of("$\n"), Address::Abs(-1), Address::Abs(-1)));
    assert!(is_range(range_of("+\n"), Address::Rel(1), Address::Rel(1)));
    assert!(is_range(range_of("-\n"), Address::Rel(-1), Address::Rel(-1)));
    assert!(is_range(range_of("^\n"), Address::Rel(-1), Address::Rel(-1)));
    assert!(is_range(range_of("+3\n"), Address::Rel(3), Address::Rel(3)));
    assert!(is_range(range_of("-2\n"), Address::Rel(-2), Address::Rel(-2)));
    assert!(is_range(range_of("12\n"), Address::Abs(11), Address::Abs(11)));
    assert!(is_range(range_of("'c\n"), Address::Mark(2), Address::Mark(2)));
}

#[test]
fn tuple_range() {
    assert!(is_range(range_of("1,3p\n"), Address::Abs(0), Address::Abs(2)));
    assert!(is_range(range_of(".,$d\n"), Address::Rel(0), Address::Abs(-1)));
    assert!(is_range(range_of("'a,'b\n"), Address::Mark(0), Address::Mark(1)));
}

#[test]
fn rejected_lines() {
    assert!(parse_command("0\n").is_err());
    assert!(parse_command("99999999999\n").is_err());
    assert!(parse_command("'A\n").is_err());
    assert!(parse_command("f\n").is_err());
    assert!(parse_command("!\n").is_err());
    assert!(parse_command("x\n").is_err());
    assert!(parse_command("2d").is_err());
    assert!(parse_command("kA\n").is_err());
    assert_eq!(parse_command("x\n").err(), Some(EdError::Syntax));
}

#[test]
fn largest_numbers() {
    assert!(is_range(range_of("2147483647\n"), Address::Abs(2147483646), Address::Abs(2147483646)));
    assert!(is_range(range_of("-2147483648\n"), Address::Rel(i32::MIN), Address::Rel(i32::MIN)));
    assert!(parse_command("2147483648\n").is_err());
}

#[test]
fn search_addresses() {
    match range_of("/foo/\n") {
        Some(AddressRange::Next(Some(p))) => assert_eq!(p, "foo"),
        _ => panic!("expected a forward search"),
    }
    match range_of("?ba r\n") {
        Some(AddressRange::Prev(Some(p))) => assert_eq!(p, "ba r"),
        _ => panic!("expected a backward search"),
    }
    assert!(matches!(range_of("//\n"), Some(AddressRange::Next(None))));
    assert!(matches!(range_of("??\n"), Some(AddressRange::Prev(None))));
    assert!(parse_command("/a?b/\n").is_err());
}

#[test]
fn commands() {
    assert!(matches!(command_of("a\n"), Some(Command::Append)));
    assert!(matches!(command_of("c\n"), Some(Command::Change)));
    assert!(matches!(command_of("i\n"), Some(Command::Insert)));
    assert!(matches!(command_of("H\n"), Some(Command::Help)));
    assert!(matches!(command_of("P\n"), Some(Command::Prompt)));
    assert!(matches!(command_of("q\n"), Some(Command::Quit)));
    assert!(matches!(command_of("=\n"), Some(Command::CurLine)));
    assert!(matches!(command_of("kz\n"), Some(Command::Mark(25))));
    assert!(matches!(command_of("e\n"), Some(Command::Edit(None))));
    assert!(matches!(command_of("w\n"), Some(Command::Write(None))));
    assert!(matches!(command_of("r\n"), Some(Command::Read(None))));
    match command_of("e notes.txt\n") {
        Some(Command::Edit(Some(p))) => assert_eq!(p, "notes.txt"),
        _ => panic!("expected edit with a path"),
    }
    match command_of("f my file\n") {
        Some(Command::File(p)) => assert_eq!(p, "my file"),
        _ => panic!("expected a file name"),
    }
    match command_of("!echo hi p\n") {
        Some(Command::Exec(c)) => assert_eq!(c, "echo hi p"),
        _ => panic!("expected a shell command"),
    }
    assert!(command_of("p\n").is_none());
    assert_eq!(flag_of("p\n"), PrintFlag::Print);
}

#[test]
fn terminator_line() {
    assert!(parse_terminator(".\n"));
    assert!(!parse_terminator(".."));
    assert!(!parse_terminator("..\n"));
    assert!(!parse_terminator(" .\n"));
    assert!(!parse_terminator("."));
}
