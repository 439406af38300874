//! The executable parser for command lines. Each function reads one rule of
//! [`crate::grammar`] and is proved to give exactly what the rule gives.

use vstd::prelude::*;
use crate::error::EdError;
pub use crate::grammar::{Address, PrintFlag};
use crate::grammar::{
    address, address_range, at, command, command_line, decimal, digit_value, file_command,
    flag_join, flag_of, flags, in_class, is_digit, is_terminator, line_address, mark_address,
    mark_command, number, run, search_range, shell_command, simple_command, simple_range,
    special_address, special_range, tuple_range, CharClass, CommandModel, LineModel, RangeModel,
};

verus! {

/// The address part of a command line.
#[derive(Debug)]
pub enum AddressRange {
    /// `(.,.)` an explicit range.
    Range(Address, Address),
    /// `/re/` the next line matching the pattern; `None` reuses the last one.
    Next(Option<String>),
    /// `?re?` the previous line matching the pattern.
    Prev(Option<String>),
}

/// The commands. Those that take a text block (`a`, `c`, `i`) carry none:
/// the block is collected afterwards, in insert mode.
#[derive(Debug)]
pub enum Command {
    /// `(.)a` append text after the line.
    Append,
    /// `(.,.)c` replace lines by text.
    Change,
    /// `=` print the current line number.
    CurLine,
    /// `(.,.)d` delete lines.
    Delete,
    /// `e file` edit a file.
    Edit(Option<String>),
    /// `!cmd` run a shell command.
    Exec(String),
    /// `f file` set the default file name.
    File(String),
    /// `H` toggle error explanations.
    Help,
    /// `(.)i` insert text before the line.
    Insert,
    /// `(.)kx` mark the line with a lower-case letter.
    Mark(u8),
    /// `P` toggle the prompt.
    Prompt,
    /// `($)r file` read a file in after the line.
    Read(Option<String>),
    /// `w file` write the buffer.
    Write(Option<String>),
    /// `q` quit.
    Quit,
}

pub open spec fn opt_text(o: Option<String>) -> Option<Seq<char>> {
    match o {
        Some(s) => Some(s@),
        None => None,
    }
}

impl View for AddressRange {
    type V = RangeModel;

    open spec fn view(&self) -> RangeModel {
        match self {
            AddressRange::Range(f, t) => RangeModel::Range(*f, *t),
            AddressRange::Next(p) => RangeModel::Next(opt_text(*p)),
            AddressRange::Prev(p) => RangeModel::Prev(opt_text(*p)),
        }
    }
}

impl View for Command {
    type V = CommandModel;

    open spec fn view(&self) -> CommandModel {
        match self {
            Command::Append => CommandModel::Append,
            Command::Change => CommandModel::Change,
            Command::CurLine => CommandModel::CurLine,
            Command::Delete => CommandModel::Delete,
            Command::Edit(p) => CommandModel::Edit(opt_text(*p)),
            Command::Exec(c) => CommandModel::Exec(c@),
            Command::File(p) => CommandModel::File(p@),
            Command::Help => CommandModel::Help,
            Command::Insert => CommandModel::Insert,
            Command::Mark(m) => CommandModel::Mark(*m),
            Command::Prompt => CommandModel::Prompt,
            Command::Read(p) => CommandModel::Read(opt_text(*p)),
            Command::Write(p) => CommandModel::Write(opt_text(*p)),
            Command::Quit => CommandModel::Quit,
        }
    }
}

/// A parsed command line: range, command and print flag.
pub type ParsedLine = (Option<AddressRange>, Option<Command>, PrintFlag);

pub open spec fn parsed_view(p: ParsedLine) -> LineModel {
    (
        match p.0 {
            Some(r) => Some(r@),
            None => None,
        },
        match p.1 {
            Some(c) => Some(c@),
            None => None,
        },
        p.2,
    )
}

/// An executable result `r` read at a position agrees with the rule's `sp`.
pub open spec fn agrees<T>(r: Option<(T, usize)>, sp: Option<(T, int)>) -> bool {
    match r {
        None => sp is None,
        Some((v, j)) => sp == Some((v, j as int)),
    }
}

/// Combines a print flag already seen with a new one: `Number` outranks
/// `Print`, which outranks `Silent`.
pub fn print_flag_set(fs: PrintFlag, flag: PrintFlag) -> (r: PrintFlag)
    ensures
        r == flag_join(fs, flag),
{
    if fs == PrintFlag::Silent || (fs == PrintFlag::Print && flag == PrintFlag::Number) {
        flag
    } else {
        fs
    }
}

fn char_in_class(c: char, k: CharClass) -> (r: bool)
    ensures
        r == in_class(c, k),
{
    match k {
        CharClass::Digit => '0' <= c && c <= '9',
        CharClass::PatternChar => c != '/' && c != '?' && c != '\n',
        CharClass::Text => c != '\n',
    }
}

proof fn lemma_run(s: Seq<char>, i: int, j: int, k: CharClass)
    requires
        0 <= i <= j <= s.len(),
        forall|x: int| i <= x < j ==> #[trigger] in_class(s[x], k),
        j == s.len() || !in_class(s[j], k),
    ensures
        run(s, i, k) == j - i,
    decreases j - i,
{
    if i < j {
        lemma_run(s, i + 1, j, k);
    }
}

/// The position where the run of class `k` that starts at `i` ends.
fn run_end(s: &Vec<char>, i: usize, k: CharClass) -> (j: usize)
    requires
        i <= s@.len(),
    ensures
        j == i + run(s@, i as int, k),
{
    let mut j = i;
    while j < s.len() && char_in_class(s[j], k)
        invariant
            i <= j <= s@.len(),
            forall|x: int| i <= x < j ==> #[trigger] in_class(s@[x], k),
        decreases s@.len() - j,
    {
        j = j + 1;
    }
    proof {
        lemma_run(s@, i as int, j as int, k);
    }
    j
}

/// The characters of a string, in order.
pub fn chars_of(line: &str) -> (v: Vec<char>)
    ensures
        v@ == line@,
{
    let mut v: Vec<char> = Vec::new();
    for c in iter: line.chars()
        invariant
            v@ == iter.seq().take(iter.index() as int),
    {
        v.push(c);
    }
    v
}

fn char_at(s: &Vec<char>, i: usize, c: char) -> (r: bool)
    ensures
        r == at(s@, i as int, c),
        s@.len() <= usize::MAX,
{
    i < s.len() && s[i] == c
}

proof fn lemma_decimal_nonneg(ds: Seq<char>)
    requires
        forall|x: int| 0 <= x < ds.len() ==> #[trigger] is_digit(ds[x]),
    ensures
        decimal(ds) >= 0,
    decreases ds.len(),
{
    if ds.len() > 0 {
        assert(is_digit(ds[ds.len() - 1]));
        lemma_decimal_nonneg(ds.drop_last());
    }
}

proof fn lemma_decimal_grows(s: Seq<char>, j: int, a: int, b: int)
    requires
        0 <= j <= a <= b <= s.len(),
        forall|x: int| j <= x < b ==> #[trigger] is_digit(s[x]),
    ensures
        0 <= decimal(s.subrange(j, a)) <= decimal(s.subrange(j, b)),
    decreases b - a,
{
    if a < b {
        lemma_decimal_grows(s, j, a, b - 1);
        assert(is_digit(s[b - 1]));
        assert(s.subrange(j, b).drop_last() =~= s.subrange(j, b - 1));
        lemma_decimal_nonneg(s.subrange(j, b - 1));
    } else {
        lemma_decimal_nonneg(s.subrange(j, a));
    }
}

/// A signed decimal number that fits in an `i32`.
fn parse_number(s: &Vec<char>, i: usize) -> (r: Option<(i32, usize)>)
    requires
        i <= s@.len(),
    ensures
        agrees(r, number(s@, i as int)),
        r matches Some((_, j)) ==> j <= s@.len(),
{
    let n = s.len();
    let neg = char_at(s, i, '-');
    let signed = neg || char_at(s, i, '+');
    let j = if signed {
        i + 1
    } else {
        i
    };
    let end = run_end(s, j, CharClass::Digit);
    proof {
        lemma_run_all(s@, j as int, CharClass::Digit);
    }
    if end == j {
        return None;
    }
    // magnitude read so far, at most 2^31
    let mut v: i64 = 0;
    let mut x = j;
    assert(s@.subrange(j as int, j as int) =~= Seq::<char>::empty());
    while x < end
        invariant
            i <= s@.len(),
            neg == at(s@, i as int, '-'),
            signed == (at(s@, i as int, '-') || at(s@, i as int, '+')),
            j == if signed { i + 1 } else { i as int },
            j <= x <= end <= s@.len(),
            end == j + run(s@, j as int, CharClass::Digit),
            forall|y: int| j <= y < end ==> #[trigger] in_class(s@[y], CharClass::Digit),
            v == decimal(s@.subrange(j as int, x as int)),
            0 <= v <= 0x8000_0000,
        decreases end - x,
    {
        assert(in_class(s@[x as int], CharClass::Digit));
        let d = (s[x] as u32 - '0' as u32) as i64;
        assert(s@.subrange(j as int, x + 1).drop_last() =~= s@.subrange(j as int, x as int));
        assert(d == digit_value(s@[x as int]));
        assert(s@.subrange(j as int, x + 1).last() == s@[x as int]);
        if v * 10 + d > 0x8000_0000 {
            proof {
                assert forall|y: int| j <= y < end implies #[trigger] is_digit(s@[y]) by {
                    assert(in_class(s@[y], CharClass::Digit));
                }
                lemma_decimal_grows(s@, j as int, x + 1, end as int);
            }
            return None;
        }
        v = v * 10 + d;
        x = x + 1;
    }
    let value = if neg {
        -v
    } else {
        v
    };
    if value > 0x7fff_ffff {
        return None;
    }
    Some((value as i32, end))
}

proof fn lemma_run_all(s: Seq<char>, i: int, k: CharClass)
    requires
        0 <= i <= s.len(),
    ensures
        i + run(s, i, k) <= s.len(),
        forall|x: int| i <= x < i + run(s, i, k) ==> #[trigger] in_class(s[x], k),
    decreases s.len() - i,
{
    if i < s.len() && in_class(s[i], k) {
        lemma_run_all(s, i + 1, k);
    }
}


fn parse_mark_addr(s: &Vec<char>, i: usize) -> (r: Option<(Address, usize)>)
    requires
        i <= s@.len(),
    ensures
        agrees(r, mark_address(s@, i as int)),
        r matches Some((_, j)) ==> j <= s@.len(),
{
    if char_at(s, i, '\'') && i + 1 < s.len() && 'a' <= s[i + 1] && s[i + 1] <= 'z' {
        Some((Address::Mark((s[i + 1] as u32 - 'a' as u32) as u8), i + 2))
    } else {
        None
    }
}

fn parse_line_addr(s: &Vec<char>, i: usize) -> (r: Option<(Address, usize)>)
    requires
        i <= s@.len(),
    ensures
        agrees(r, line_address(s@, i as int)),
        r matches Some((_, j)) ==> j <= s@.len(),
{
    let signed = char_at(s, i, '-') || char_at(s, i, '+');
    match parse_number(s, i) {
        None => None,
        Some((o, j)) => {
            if signed {
                Some((Address::Rel(o), j))
            } else if o > 0 {
                Some((Address::Abs(o - 1), j))
            } else {
                None
            }
        },
    }
}

fn parse_special_addr(s: &Vec<char>, i: usize) -> (r: Option<(Address, usize)>)
    requires
        i <= s@.len(),
    ensures
        agrees(r, special_address(s@, i as int)),
        r matches Some((_, j)) ==> j <= s@.len(),
{
    if i >= s.len() {
        return None;
    }
    let c = s[i];
    if c == '.' {
        Some((Address::Rel(0), i + 1))
    } else if c == '$' {
        Some((Address::Abs(-1), i + 1))
    } else if c == '+' {
        Some((Address::Rel(1), i + 1))
    } else if c == '-' || c == '^' {
        Some((Address::Rel(-1), i + 1))
    } else {
        None
    }
}

fn parse_address(s: &Vec<char>, i: usize) -> (r: Option<(Address, usize)>)
    requires
        i <= s@.len(),
    ensures
        agrees(r, address(s@, i as int)),
        r matches Some((_, j)) ==> j <= s@.len(),
{
    match parse_mark_addr(s, i) {
        Some(r) => Some(r),
        None => match parse_line_addr(s, i) {
            Some(r) => Some(r),
            None => parse_special_addr(s, i),
        },
    }
}

/// An executable range result agrees with the rule's, text compared by view.
pub open spec fn range_agrees(r: Option<(AddressRange, usize)>, sp: Option<(RangeModel, int)>) -> bool {
    match r {
        None => sp is None,
        Some((v, j)) => sp == Some((v@, j as int)),
    }
}

/// An executable command result agrees with the rule's.
pub open spec fn command_agrees(r: Option<(Command, usize)>, sp: Option<(CommandModel, int)>) -> bool {
    match r {
        None => sp is None,
        Some((v, j)) => sp == Some((v@, j as int)),
    }
}

fn parse_special_range(s: &Vec<char>, i: usize) -> (r: Option<(AddressRange, usize)>)
    requires
        i <= s@.len(),
    ensures
        range_agrees(r, special_range(s@, i as int)),
        r matches Some((_, j)) ==> j <= s@.len(),
{
    if char_at(s, i, '%') || char_at(s, i, ',') {
        Some((AddressRange::Range(Address::Abs(0), Address::Abs(-1)), i + 1))
    } else if char_at(s, i, ';') {
        Some((AddressRange::Range(Address::Rel(0), Address::Abs(-1)), i + 1))
    } else {
        None
    }
}

fn parse_tuple_range(s: &Vec<char>, i: usize) -> (r: Option<(AddressRange, usize)>)
    requires
        i <= s@.len(),
    ensures
        range_agrees(r, tuple_range(s@, i as int)),
        r matches Some((_, j)) ==> j <= s@.len(),
{
    match parse_address(s, i) {
        None => None,
        Some((f, j)) => {
            if char_at(s, j, ',') {
                match parse_address(s, j + 1) {
                    None => None,
                    Some((t, k)) => Some((AddressRange::Range(f, t), k)),
                }
            } else {
                None
            }
        },
    }
}

fn parse_simple_range(s: &Vec<char>, i: usize) -> (r: Option<(AddressRange, usize)>)
    requires
        i <= s@.len(),
    ensures
        range_agrees(r, simple_range(s@, i as int)),
        r matches Some((_, j)) ==> j <= s@.len(),
{
    match parse_address(s, i) {
        None => None,
        Some((a, j)) => Some((AddressRange::Range(a, a), j)),
    }
}

/// The text of `line` between character positions `from` and `to`.
fn text_between(line: &str, from: usize, to: usize) -> (r: String)
    requires
        from <= to <= line@.len(),
    ensures
        r@ == line@.subrange(from as int, to as int),
{
    line.substring_char(from, to).to_owned()
}

fn parse_regex(line: &str, s: &Vec<char>, i: usize) -> (r: Option<(AddressRange, usize)>)
    requires
        s@ == line@,
        i <= s@.len(),
    ensures
        range_agrees(r, search_range(s@, i as int)),
        r matches Some((_, j)) ==> j <= s@.len(),
{
    if !(char_at(s, i, '/') || char_at(s, i, '?')) {
        return None;
    }
    let delim = s[i];
    let j = run_end(s, i + 1, CharClass::PatternChar);
    proof {
        lemma_run_all(s@, i + 1, CharClass::PatternChar);
    }
    let pat = if j > i + 1 {
        Some(text_between(line, i + 1, j))
    } else {
        None
    };
    let k = if char_at(s, j, delim) {
        j + 1
    } else {
        j
    };
    if delim == '/' {
        Some((AddressRange::Next(pat), k))
    } else {
        Some((AddressRange::Prev(pat), k))
    }
}

fn parse_address_range(line: &str, s: &Vec<char>, i: usize) -> (r: Option<(AddressRange, usize)>)
    requires
        s@ == line@,
        i <= s@.len(),
    ensures
        range_agrees(r, address_range(s@, i as int)),
        r matches Some((_, j)) ==> j <= s@.len(),
{
    match parse_special_range(s, i) {
        Some(r) => Some(r),
        None => match parse_tuple_range(s, i) {
            Some(r) => Some(r),
            None => match parse_simple_range(s, i) {
                Some(r) => Some(r),
                None => parse_regex(line, s, i),
            },
        },
    }
}

fn parse_simple_cmd(s: &Vec<char>, i: usize) -> (r: Option<(Command, usize)>)
    requires
        i <= s@.len(),
    ensures
        command_agrees(r, simple_command(s@, i as int)),
        r matches Some((_, j)) ==> j <= s@.len(),
{
    if i >= s.len() {
        return None;
    }
    let c = s[i];
    let cmd = if c == 'a' {
        Command::Append
    } else if c == 'c' {
        Command::Change
    } else if c == 'd' {
        Command::Delete
    } else if c == 'H' {
        Command::Help
    } else if c == 'i' {
        Command::Insert
    } else if c == 'P' {
        Command::Prompt
    } else if c == 'q' {
        Command::Quit
    } else if c == '=' {
        Command::CurLine
    } else {
        return None;
    };
    Some((cmd, i + 1))
}

fn parse_mark_cmd(s: &Vec<char>, i: usize) -> (r: Option<(Command, usize)>)
    requires
        i <= s@.len(),
    ensures
        command_agrees(r, mark_command(s@, i as int)),
        r matches Some((_, j)) ==> j <= s@.len(),
{
    if char_at(s, i, 'k') && i + 1 < s.len() && 'a' <= s[i + 1] && s[i + 1] <= 'z' {
        Some((Command::Mark((s[i + 1] as u32 - 'a' as u32) as u8), i + 2))
    } else {
        None
    }
}

/// The path after a space at `i`, running to the line end; `None` where
/// there is no space or nothing follows it.
fn parse_path(line: &str, s: &Vec<char>, i: usize) -> (r: Option<(String, usize)>)
    requires
        s@ == line@,
        i <= s@.len(),
    ensures
        ({
            let n = run(s@, i + 1, CharClass::Text) as int;
            match r {
                Some((p, j)) => at(s@, i as int, ' ') && n > 0 && p@ == s@.subrange(i + 1, i + 1 + n)
                    && j == i + 1 + n,
                None => !(at(s@, i as int, ' ') && n > 0),
            }
        }),
        r matches Some((_, j)) ==> j <= s@.len(),
{
    if !char_at(s, i, ' ') {
        return None;
    }
    let j = run_end(s, i + 1, CharClass::Text);
    proof {
        lemma_run_all(s@, i + 1, CharClass::Text);
    }
    if j == i + 1 {
        None
    } else {
        Some((text_between(line, i + 1, j), j))
    }
}

fn parse_file_cmd(line: &str, s: &Vec<char>, i: usize) -> (r: Option<(Command, usize)>)
    requires
        s@ == line@,
        i <= s@.len(),
    ensures
        command_agrees(r, file_command(s@, i as int)),
        r matches Some((_, j)) ==> j <= s@.len(),
{
    if i >= s.len() {
        return None;
    }
    let c = s[i];
    let (path, j) = match parse_path(line, s, i + 1) {
        Some((p, j)) => (Some(p), j),
        None => (None, i + 1),
    };
    let cmd = if c == 'e' {
        Command::Edit(path)
    } else if c == 'f' {
        match path {
            Some(p) => Command::File(p),
            None => {
                return None;
            },
        }
    } else if c == 'r' {
        Command::Read(path)
    } else if c == 'w' {
        Command::Write(path)
    } else {
        return None;
    };
    Some((cmd, j))
}

fn parse_exec_cmd(line: &str, s: &Vec<char>, i: usize) -> (r: Option<(Command, usize)>)
    requires
        s@ == line@,
        i <= s@.len(),
    ensures
        command_agrees(r, shell_command(s@, i as int)),
        r matches Some((_, j)) ==> j <= s@.len(),
{
    if !char_at(s, i, '!') {
        return None;
    }
    let j = run_end(s, i + 1, CharClass::Text);
    proof {
        lemma_run_all(s@, i + 1, CharClass::Text);
    }
    if j == i + 1 {
        None
    } else {
        Some((Command::Exec(text_between(line, i + 1, j)), j))
    }
}

fn parse_command_verb(line: &str, s: &Vec<char>, i: usize) -> (r: Option<(Command, usize)>)
    requires
        s@ == line@,
        i <= s@.len(),
    ensures
        command_agrees(r, command(s@, i as int)),
        r matches Some((_, j)) ==> j <= s@.len(),
{
    match parse_simple_cmd(s, i) {
        Some(r) => Some(r),
        None => match parse_mark_cmd(s, i) {
            Some(r) => Some(r),
            None => match parse_file_cmd(line, s, i) {
                Some(r) => Some(r),
                None => parse_exec_cmd(line, s, i),
            },
        },
    }
}

/// The flag characters from `i` on, folded into one flag.
fn parse_flags(s: &Vec<char>, i: usize) -> (r: (PrintFlag, usize))
    requires
        i <= s@.len(),
    ensures
        flags(s@, i as int, PrintFlag::Silent) == (r.0, r.1 as int),
{
    let mut acc = PrintFlag::Silent;
    let mut j = i;
    while j < s.len() && (s[j] == 'n' || s[j] == 'p')
        invariant
            i <= j <= s@.len(),
            flags(s@, i as int, PrintFlag::Silent) == flags(s@, j as int, acc),
        decreases s@.len() - j,
    {
        let flag = if s[j] == 'n' {
            PrintFlag::Number
        } else {
            PrintFlag::Print
        };
        assert(flag == flag_of(s@[j as int]));
        acc = print_flag_set(acc, flag);
        j = j + 1;
    }
    (acc, j)
}

/// Reads one command line: an optional address range, an optional command,
/// print flags, then the line end. Fails with `Syntax` exactly where the
/// line does not follow the grammar.
pub fn parse_command(line: &str) -> (r: Result<ParsedLine, EdError>)
    ensures
        match r {
            Ok(p) => command_line(line@) == Some(parsed_view(p)),
            Err(e) => command_line(line@) is None && e == EdError::Syntax,
        },
{
    let s = chars_of(line);
    let (range, i) = match parse_address_range(line, &s, 0) {
        Some((r, i)) => (Some(r), i),
        None => (None, 0),
    };
    let (cmd, j) = match parse_command_verb(line, &s, i) {
        Some((c, j)) => (Some(c), j),
        None => (None, i),
    };
    let (flag, k) = parse_flags(&s, j);
    if char_at(&s, k, '\n') {
        Ok((range, cmd, flag))
    } else {
        Err(EdError::Syntax)
    }
}

/// Whether a line read in insert mode ends it: a single `.` and the line end.
pub fn parse_terminator(line: &str) -> (r: bool)
    ensures
        r == is_terminator(line@),
{
    let s = chars_of(line);
    char_at(&s, 0, '.') && char_at(&s, 1, '\n')
}

} // verus!
