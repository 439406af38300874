//! The command-line grammar, stated over the characters of one input line.
//!
//! Each rule takes the line and a position and gives the value it reads with
//! the position after it, or `None` where the rule does not apply. Where a
//! rule has alternatives they are tried in order and the first that applies
//! wins.

use vstd::prelude::*;

verus! {

/// One endpoint of a range, before it is resolved against a buffer.
#[derive(Clone, Copy, Debug, PartialEq, Eq, Structural)]
pub enum Address {
    /// A line by position, 0-based; negative counts back from the end
    /// (`-1` is the last line).
    Abs(i32),
    /// An offset from the current line.
    Rel(i32),
    /// The line held by a mark, `0` standing for `a`.
    Mark(u8),
}

/// The three print modes, in order of precedence.
#[derive(Clone, Copy, Debug, PartialEq, Eq, Structural)]
pub enum PrintFlag {
    Silent,
    Print,
    Number,
}

/// The address part of a command line, with text as character sequences.
#[verifier::ext_equal]
pub enum RangeModel {
    Range(Address, Address),
    Next(Option<Seq<char>>),
    Prev(Option<Seq<char>>),
}

/// The command part of a command line, with text as character sequences.
#[verifier::ext_equal]
pub enum CommandModel {
    Append,
    Change,
    CurLine,
    Delete,
    Edit(Option<Seq<char>>),
    Exec(Seq<char>),
    File(Seq<char>),
    Help,
    Insert,
    Mark(u8),
    Prompt,
    Read(Option<Seq<char>>),
    Write(Option<Seq<char>>),
    Quit,
}

/// What a whole command line reads as: an optional range, an optional
/// command and the combined print flag.
pub type LineModel = (Option<RangeModel>, Option<CommandModel>, PrintFlag);

/// Combines a print flag already seen with a new one: `Number` outranks
/// `Print`, which outranks `None`.
pub open spec fn flag_join(fs: PrintFlag, flag: PrintFlag) -> PrintFlag {
    if fs == PrintFlag::Silent || (fs == PrintFlag::Print && flag == PrintFlag::Number) {
        flag
    } else {
        fs
    }
}

pub open spec fn is_digit(c: char) -> bool {
    '0' <= c <= '9'
}

pub open spec fn is_lower(c: char) -> bool {
    'a' <= c <= 'z'
}

pub open spec fn digit_value(c: char) -> int {
    c as int - '0' as int
}

/// The number that a string of decimal digits writes.
pub open spec fn decimal(ds: Seq<char>) -> int
    decreases ds.len(),
{
    if ds.len() == 0 {
        0
    } else {
        decimal(ds.drop_last()) * 10 + digit_value(ds.last())
    }
}

/// The classes of characters that the grammar reads in runs.
#[derive(Clone, Copy, Debug, PartialEq, Eq, Structural)]
pub enum CharClass {
    /// Decimal digits.
    Digit,
    /// What may stand in a search pattern: neither delimiter nor line end.
    PatternChar,
    /// Anything but the line end.
    Text,
}

pub open spec fn in_class(c: char, k: CharClass) -> bool {
    match k {
        CharClass::Digit => is_digit(c),
        CharClass::PatternChar => c != '/' && c != '?' && c != '\n',
        CharClass::Text => c != '\n',
    }
}

/// Length of the run of characters of class `k` that starts at `i`.
pub open spec fn run(s: Seq<char>, i: int, k: CharClass) -> nat
    decreases s.len() - i,
{
    if 0 <= i < s.len() && in_class(s[i], k) {
        1 + run(s, i + 1, k)
    } else {
        0
    }
}

/// Whether position `i` holds the character `c`.
pub open spec fn at(s: Seq<char>, i: int, c: char) -> bool {
    0 <= i < s.len() && s[i] == c
}

/// A signed decimal number: an optional `+` or `-`, then at least one digit;
/// the value must fit in an `i32`.
pub open spec fn number(s: Seq<char>, i: int) -> Option<(i32, int)> {
    let signed = at(s, i, '-') || at(s, i, '+');
    let j = if signed { i + 1 } else { i };
    let d = run(s, j, CharClass::Digit) as int;
    let v = decimal(s.subrange(j, j + d));
    let value = if at(s, i, '-') { -v } else { v };
    if d == 0 || value < i32::MIN || value > i32::MAX {
        None
    } else {
        Some((value as i32, j + d))
    }
}

/// `'x` with `x` a lower-case letter.
pub open spec fn mark_address(s: Seq<char>, i: int) -> Option<(Address, int)> {
    if at(s, i, '\'') && i + 1 < s.len() && is_lower(s[i + 1]) {
        Some((Address::Mark((s[i + 1] as int - 'a' as int) as u8), i + 2))
    } else {
        None
    }
}

/// A signed number is an offset from the current line; an unsigned one is a
/// 1-based line number, which must be positive.
pub open spec fn line_address(s: Seq<char>, i: int) -> Option<(Address, int)> {
    match number(s, i) {
        None => None,
        Some((n, j)) => if at(s, i, '-') || at(s, i, '+') {
            Some((Address::Rel(n), j))
        } else if n > 0 {
            Some((Address::Abs((n - 1) as i32), j))
        } else {
            None
        },
    }
}

/// `.` current line, `$` last line, bare `+` next, bare `-` or `^` previous.
pub open spec fn special_address(s: Seq<char>, i: int) -> Option<(Address, int)> {
    if at(s, i, '.') {
        Some((Address::Rel(0i32), i + 1))
    } else if at(s, i, '$') {
        Some((Address::Abs(-1i32), i + 1))
    } else if at(s, i, '+') {
        Some((Address::Rel(1i32), i + 1))
    } else if at(s, i, '-') || at(s, i, '^') {
        Some((Address::Rel(-1i32), i + 1))
    } else {
        None
    }
}

pub open spec fn address(s: Seq<char>, i: int) -> Option<(Address, int)> {
    match mark_address(s, i) {
        Some(r) => Some(r),
        None => match line_address(s, i) {
            Some(r) => Some(r),
            None => special_address(s, i),
        },
    }
}

/// `%` or `,` for the whole buffer, `;` from the current line to the last.
pub open spec fn special_range(s: Seq<char>, i: int) -> Option<(RangeModel, int)> {
    if at(s, i, '%') || at(s, i, ',') {
        Some((RangeModel::Range(Address::Abs(0i32), Address::Abs(-1i32)), i + 1))
    } else if at(s, i, ';') {
        Some((RangeModel::Range(Address::Rel(0i32), Address::Abs(-1i32)), i + 1))
    } else {
        None
    }
}

/// `addr,addr`.
pub open spec fn tuple_range(s: Seq<char>, i: int) -> Option<(RangeModel, int)> {
    match address(s, i) {
        None => None,
        Some((f, j)) => if at(s, j, ',') {
            match address(s, j + 1) {
                None => None,
                Some((t, k)) => Some((RangeModel::Range(f, t), k)),
            }
        } else {
            None
        },
    }
}

/// A single address, standing for both ends.
pub open spec fn simple_range(s: Seq<char>, i: int) -> Option<(RangeModel, int)> {
    match address(s, i) {
        None => None,
        Some((a, j)) => Some((RangeModel::Range(a, a), j)),
    }
}

/// `/pattern/` searches forward and `?pattern?` backward; the closing
/// delimiter is optional and an empty pattern means the previous one.
pub open spec fn search_range(s: Seq<char>, i: int) -> Option<(RangeModel, int)> {
    if at(s, i, '/') || at(s, i, '?') {
        let delim = s[i];
        let n = run(s, i + 1, CharClass::PatternChar) as int;
        let pat = if n > 0 {
            Some(s.subrange(i + 1, i + 1 + n))
        } else {
            None
        };
        let j = i + 1 + n;
        let k = if at(s, j, delim) {
            j + 1
        } else {
            j
        };
        if delim == '/' {
            Some((RangeModel::Next(pat), k))
        } else {
            Some((RangeModel::Prev(pat), k))
        }
    } else {
        None
    }
}

pub open spec fn address_range(s: Seq<char>, i: int) -> Option<(RangeModel, int)> {
    match special_range(s, i) {
        Some(r) => Some(r),
        None => match tuple_range(s, i) {
            Some(r) => Some(r),
            None => match simple_range(s, i) {
                Some(r) => Some(r),
                None => search_range(s, i),
            },
        },
    }
}

/// The one-character commands.
pub open spec fn simple_command(s: Seq<char>, i: int) -> Option<(CommandModel, int)> {
    if !(0 <= i < s.len()) {
        None
    } else {
        let c = s[i];
        if c == 'a' {
            Some((CommandModel::Append, i + 1))
        } else if c == 'c' {
            Some((CommandModel::Change, i + 1))
        } else if c == 'd' {
            Some((CommandModel::Delete, i + 1))
        } else if c == 'H' {
            Some((CommandModel::Help, i + 1))
        } else if c == 'i' {
            Some((CommandModel::Insert, i + 1))
        } else if c == 'P' {
            Some((CommandModel::Prompt, i + 1))
        } else if c == 'q' {
            Some((CommandModel::Quit, i + 1))
        } else if c == '=' {
            Some((CommandModel::CurLine, i + 1))
        } else {
            None
        }
    }
}

/// `kx` marks a line with the letter `x`.
pub open spec fn mark_command(s: Seq<char>, i: int) -> Option<(CommandModel, int)> {
    if at(s, i, 'k') && i + 1 < s.len() && is_lower(s[i + 1]) {
        Some((CommandModel::Mark((s[i + 1] as int - 'a' as int) as u8), i + 2))
    } else {
        None
    }
}

/// `e`, `f`, `r` or `w`, optionally followed by a space and a path that
/// runs to the line end; `f` needs the path.
pub open spec fn file_command(s: Seq<char>, i: int) -> Option<(CommandModel, int)> {
    if !(0 <= i < s.len()) {
        None
    } else {
        let c = s[i];
        let n = run(s, i + 2, CharClass::Text) as int;
        let has_path = at(s, i + 1, ' ') && n > 0;
        let path = if has_path {
            Some(s.subrange(i + 2, i + 2 + n))
        } else {
            None
        };
        let j = if has_path {
            i + 2 + n
        } else {
            i + 1
        };
        if c == 'e' {
            Some((CommandModel::Edit(path), j))
        } else if c == 'f' && has_path {
            Some((CommandModel::File(s.subrange(i + 2, i + 2 + n)), j))
        } else if c == 'r' {
            Some((CommandModel::Read(path), j))
        } else if c == 'w' {
            Some((CommandModel::Write(path), j))
        } else {
            None
        }
    }
}

/// `!` and a non-empty shell command that runs to the line end.
pub open spec fn shell_command(s: Seq<char>, i: int) -> Option<(CommandModel, int)> {
    let n = run(s, i + 1, CharClass::Text) as int;
    if at(s, i, '!') && n > 0 {
        Some((CommandModel::Exec(s.subrange(i + 1, i + 1 + n)), i + 1 + n))
    } else {
        None
    }
}

pub open spec fn command(s: Seq<char>, i: int) -> Option<(CommandModel, int)> {
    match simple_command(s, i) {
        Some(r) => Some(r),
        None => match mark_command(s, i) {
            Some(r) => Some(r),
            None => match file_command(s, i) {
                Some(r) => Some(r),
                None => shell_command(s, i),
            },
        },
    }
}

/// The flag that a flag character stands for.
pub open spec fn flag_of(c: char) -> PrintFlag {
    if c == 'n' {
        PrintFlag::Number
    } else {
        PrintFlag::Print
    }
}

/// Reads the flag characters `n` and `p` from `i` on, folding them into
/// `acc`; gives the combined flag and the position after the last one.
pub open spec fn flags(s: Seq<char>, i: int, acc: PrintFlag) -> (PrintFlag, int)
    decreases s.len() - i,
{
    if 0 <= i < s.len() && (s[i] == 'n' || s[i] == 'p') {
        flags(s, i + 1, flag_join(acc, flag_of(s[i])))
    } else {
        (acc, i)
    }
}

/// A whole command line: an optional range, an optional command, flags,
/// then the line end. What follows the line end is not read.
pub open spec fn command_line(s: Seq<char>) -> Option<LineModel> {
    let (r, i) = match address_range(s, 0) {
        Some((r, i)) => (Some(r), i),
        None => (None, 0),
    };
    let (c, j) = match command(s, i) {
        Some((c, j)) => (Some(c), j),
        None => (None, i),
    };
    let (f, k) = flags(s, j, PrintFlag::Silent);
    if at(s, k, '\n') {
        Some((r, c, f))
    } else {
        None
    }
}

/// The line that ends insert mode: a single `.`, then the line end.
pub open spec fn is_terminator(s: Seq<char>) -> bool {
    at(s, 0, '.') && at(s, 1, '\n')
}

} // verus!
