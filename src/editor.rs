//! The command engine: it resolves addresses against the buffer, runs
//! commands and owns insert mode. Input and output stay with the caller,
//! which performs the [`Action`] a command asks for.

use vstd::prelude::*;
use crate::buffer::{replaced, Buffer, BufferModel, MARK_COUNT};
use crate::error::EdError;
use crate::grammar::{is_terminator, Address, CommandModel, PrintFlag};
use crate::parser::{
    chars_of, opt_text, parse_terminator, parsed_view, AddressRange, Command, ParsedLine,
};
use crate::pattern::{compile, Pattern};
use crate::resolve::{address_index, lemma_first_match_unique, resolve_step, scan, search_step};
use crate::text::{byte_total, text_of};

verus! {

/// A text block being collected in insert mode: when it ends, it replaces
/// the lines `[start, end)`.
pub struct Pending {
    start: usize,
    end: usize,
    flag: PrintFlag,
    block: Vec<String>,
}

/// The mathematical form of a [`Pending`] block.
#[verifier::ext_equal]
pub struct PendingModel {
    pub start: usize,
    pub end: usize,
    pub flag: PrintFlag,
    pub block: Seq<String>,
}

/// The mathematical state of the editor: the buffer, the default file name,
/// the search state (last match and last pattern), the two toggles, and the
/// block being collected while in insert mode.
#[verifier::ext_equal]
pub struct StateModel {
    pub buffer: BufferModel,
    pub file: Seq<char>,
    pub last_match: Option<usize>,
    pub pattern: Option<Seq<char>>,
    pub prompt: bool,
    pub verbose: bool,
    pub pending: Option<PendingModel>,
}

/// The editor: buffer, default file name, search state and modes.
pub struct State {
    buffer: Buffer,
    file: String,
    last_match: Option<usize>,
    pattern: Option<Pattern>,
    prompt: bool,
    verbose: bool,
    pending: Option<Pending>,
}

impl View for State {
    type V = StateModel;

    closed spec fn view(&self) -> StateModel {
        StateModel {
            buffer: self.buffer@,
            file: self.file@,
            last_match: self.last_match,
            pattern: match self.pattern {
                Some(p) => Some(p.source()),
                None => None,
            },
            prompt: self.prompt,
            verbose: self.verbose,
            pending: match self.pending {
                Some(p) => Some(
                    PendingModel { start: p.start, end: p.end, flag: p.flag, block: p.block@ },
                ),
                None => None,
            },
        }
    }
}

impl StateModel {
    /// The buffer's marks name existing lines, and a pending block's
    /// interval lies within the buffer.
    pub open spec fn wf(self) -> bool {
        &&& self.buffer.wf()
        &&& self.pending matches Some(p) ==> p.start <= p.end <= self.buffer.lines.len()
    }
}

/// `line` without one trailing line end.
pub open spec fn without_newline(line: Seq<char>) -> Seq<char> {
    if line.len() > 0 && line.last() == '\n' {
        line.drop_last()
    } else {
        line
    }
}

/// `line` without one trailing line end.
pub fn strip_newline(line: &str) -> (r: String)
    ensures
        r@ == without_newline(line@),
{
    let chars = chars_of(line);
    let n = chars.len();
    if n > 0 && chars[n - 1] == '\n' {
        line.substring_char(0, n - 1).to_owned()
    } else {
        line.to_owned()
    }
}

/// What taking `line` in insert mode does to state `s`, giving state `t`
/// and printing `printed`.
pub open spec fn typed_line(s: StateModel, line: Seq<char>, t: StateModel, printed: Seq<Printed>) -> bool {
    let p = s.pending->0;
    if is_terminator(line) {
        let b = replaced(s.buffer, p.start as int, p.end as int, p.block);
        &&& t =~= StateModel { buffer: b, pending: None, ..s }
        &&& printed =~= echo(p.start as int, p.start + p.block.len() - 1, p.flag, b.lines.len() as int)
    } else {
        &&& t.pending matches Some(q) && q.start == p.start && q.end == p.end && q.flag == p.flag
            && q.block.len() == p.block.len() + 1 && q.block.take(p.block.len() as int) =~= p.block
            && q.block.last()@ == without_newline(line)
        &&& StateModel { pending: None, ..t } =~= StateModel { pending: None, ..s }
        &&& printed.len() == 0
    }
}

/// The line of a single-line range, or `ExpectedSingleLine` for a span.
pub fn is_line(from: usize, to: usize) -> (r: Result<usize, EdError>)
    ensures
        from == to ==> r == Ok::<usize, EdError>(to),
        from != to ==> r == Err::<usize, EdError>(EdError::ExpectedSingleLine),
{
    if from != to {
        return Err(EdError::ExpectedSingleLine);
    }
    Ok(to)
}

/// One line of output.
#[derive(Clone, Copy, Debug, PartialEq, Eq, Structural)]
pub enum Printed {
    /// The buffer line at this index, with its 1-based number when the flag
    /// is `Number`.
    Line(usize, PrintFlag),
    /// A number on a line of its own.
    Number(u128),
}

/// What the caller must do after a command.
pub enum Action {
    /// Nothing: the command is complete.
    Done,
    /// Collect text lines until the terminator, giving each to
    /// [`State::input_line`].
    CollectText,
    /// Read this file and hand its text to [`State::load`].
    Load(String),
    /// Read this file and hand its text to [`State::insert_text`], at this
    /// index.
    ReadInto(String, usize),
    /// Write this text to this file, then call [`State::saved`].
    Save(String, String),
    /// Run this shell command.
    Shell(String),
    /// End the program.
    Quit,
}

#[verifier::ext_equal]
pub enum ActionModel {
    Done,
    CollectText,
    Load(Seq<char>),
    ReadInto(Seq<char>, usize),
    Save(Seq<char>, Seq<char>),
    Shell(Seq<char>),
    Quit,
}

impl View for Action {
    type V = ActionModel;

    open spec fn view(&self) -> ActionModel {
        match self {
            Action::Done => ActionModel::Done,
            Action::CollectText => ActionModel::CollectText,
            Action::Load(p) => ActionModel::Load(p@),
            Action::ReadInto(p, at) => ActionModel::ReadInto(p@, *at),
            Action::Save(p, t) => ActionModel::Save(p@, t@),
            Action::Shell(c) => ActionModel::Shell(c@),
            Action::Quit => ActionModel::Quit,
        }
    }
}

/// The outcome of a command: lines to print now, an action for the caller,
/// and the range to echo once that action has been carried out.
pub struct Step {
    pub printed: Vec<Printed>,
    pub action: Action,
    pub echo: (usize, usize, PrintFlag),
}

#[verifier::ext_equal]
pub struct StepModel {
    pub printed: Seq<Printed>,
    pub action: ActionModel,
    pub echo: (usize, usize, PrintFlag),
}

impl View for Step {
    type V = StepModel;

    open spec fn view(&self) -> StepModel {
        StepModel { printed: self.printed@, action: self.action@, echo: self.echo }
    }
}

/// The executable outcome `r` is the outcome `m` of the model.
pub open spec fn step_agrees(r: Result<Step, EdError>, m: Result<StepModel, EdError>) -> bool {
    match (r, m) {
        (Ok(s), Ok(sm)) => s@ =~= sm,
        (Err(a), Err(b)) => a == b,
        _ => false,
    }
}

/// The lines `from` to `to` of a buffer of `len` lines as printed with
/// `flag`: nothing when the flag is `Silent`, and only lines that exist.
pub open spec fn echo(from: int, to: int, flag: PrintFlag, len: int) -> Seq<Printed> {
    if flag == PrintFlag::Silent || from >= len || to < from {
        Seq::empty()
    } else {
        let last = if to < len {
            to
        } else {
            len - 1
        };
        Seq::new((last - from + 1) as nat, |k: int| Printed::Line((from + k) as usize, flag))
    }
}

/// A command that completes at once, printing `printed`.
pub open spec fn done(printed: Seq<Printed>) -> StepModel {
    StepModel { printed, action: ActionModel::Done, echo: (0, 0, PrintFlag::Silent) }
}

/// A command that needs the caller to act, echoing `[from, to]` after.
pub open spec fn handoff(action: ActionModel, from: usize, to: usize, flag: PrintFlag) -> StepModel {
    StepModel { printed: Seq::empty(), action, echo: (from, to, flag) }
}

/// The current line after deleting `[from, to]` from a buffer of `len`
/// lines: the line that followed the deleted ones, or else the new last
/// line.
pub open spec fn line_after_delete(from: int, to: int, len: int) -> usize {
    let new_len = len - (to - from + 1);
    if from < new_len {
        from as usize
    } else if new_len > 0 {
        (new_len - 1) as usize
    } else {
        0
    }
}

/// What the guard of `e` and `q` does when the buffer has unsaved changes:
/// refuse once, clearing the flag so that a second attempt goes ahead.
pub open spec fn refuse_modified(m: StateModel) -> (StateModel, Result<StepModel, EdError>) {
    (
        StateModel { buffer: BufferModel { changed: false, ..m.buffer }, ..m },
        Err(EdError::Modified),
    )
}

pub open spec fn path_or(p: Option<Seq<char>>, default: Seq<char>) -> Seq<char> {
    match p {
        Some(p) => p,
        None => default,
    }
}

/// What a command does once its range resolved to `(from, to)`: the next
/// state and the outcome. Lines must exist where a command reads or changes
/// them; a command that needs one line fails on a span.
pub open spec fn command_step(
    m: StateModel,
    cmd: Option<CommandModel>,
    flag: PrintFlag,
    from: usize,
    to: usize,
) -> (StateModel, Result<StepModel, EdError>) {
    let len = m.buffer.lines.len() as int;
    let valid = from < len && to < len;
    match cmd {
        None => if !valid {
            (m, Err(EdError::InvalidAddress))
        } else if flag == PrintFlag::Silent {
            if from != to {
                (m, Err(EdError::ExpectedSingleLine))
            } else {
                (
                    StateModel { buffer: BufferModel { curline: to, ..m.buffer }, ..m },
                    Ok(done(echo(from as int, to as int, PrintFlag::Print, len))),
                )
            }
        } else {
            (m, Ok(done(echo(from as int, to as int, flag, len))))
        },
        Some(CommandModel::Append) | Some(CommandModel::Insert) => if from != to {
            (m, Err(EdError::ExpectedSingleLine))
        } else {
            let at = if cmd == Some(CommandModel::Append) && to + 1 < len {
                to + 1
            } else {
                to as int
            };
            if at > len {
                (m, Err(EdError::InvalidAddress))
            } else {
                (
                    StateModel {
                        pending: Some(
                            PendingModel {
                                start: at as usize,
                                end: at as usize,
                                flag,
                                block: Seq::empty(),
                            },
                        ),
                        ..m
                    },
                    Ok(handoff(ActionModel::CollectText, 0, 0, PrintFlag::Silent)),
                )
            }
        },
        Some(CommandModel::Change) => if !valid {
            (m, Err(EdError::InvalidAddress))
        } else {
            (
                StateModel {
                    pending: Some(
                        PendingModel {
                            start: from,
                            end: (to + 1) as usize,
                            flag,
                            block: Seq::empty(),
                        },
                    ),
                    ..m
                },
                Ok(handoff(ActionModel::CollectText, 0, 0, PrintFlag::Silent)),
            )
        },
        Some(CommandModel::Delete) => if !valid {
            (m, Err(EdError::InvalidAddress))
        } else {
            let b = replaced(m.buffer, from as int, to + 1, Seq::empty());
            let cur = line_after_delete(from as int, to as int, len);
            (
                StateModel { buffer: BufferModel { curline: cur, ..b }, ..m },
                Ok(done(echo(from as int, to as int, flag, b.lines.len() as int))),
            )
        },
        Some(CommandModel::CurLine) => (
            m,
            Ok(
                done(
                    seq![Printed::Number((m.buffer.curline + 1) as u128)] + echo(
                        from as int,
                        to as int,
                        flag,
                        len,
                    ),
                ),
            ),
        ),
        Some(CommandModel::Edit(p)) => if m.buffer.changed {
            refuse_modified(m)
        } else {
            (m, Ok(handoff(ActionModel::Load(path_or(p, m.file)), from, to, flag)))
        },
        Some(CommandModel::Exec(c)) => (m, Ok(handoff(ActionModel::Shell(c), from, to, flag))),
        Some(CommandModel::File(f)) => (
            StateModel { file: f, ..m },
            Ok(done(echo(from as int, to as int, flag, len))),
        ),
        Some(CommandModel::Help) => (
            StateModel { verbose: !m.verbose, ..m },
            Ok(done(echo(from as int, to as int, flag, len))),
        ),
        Some(CommandModel::Prompt) => (
            StateModel { prompt: !m.prompt, ..m },
            Ok(done(echo(from as int, to as int, flag, len))),
        ),
        Some(CommandModel::Mark(k)) => if from != to {
            (m, Err(EdError::ExpectedSingleLine))
        } else if !valid {
            (m, Err(EdError::InvalidAddress))
        } else if k >= MARK_COUNT {
            (m, Err(EdError::InvalidMark))
        } else {
            (
                StateModel {
                    buffer: BufferModel {
                        marks: m.buffer.marks.update(k as int, Some(to)),
                        ..m.buffer
                    },
                    ..m
                },
                Ok(done(echo(from as int, to as int, flag, len))),
            )
        },
        Some(CommandModel::Read(p)) => if from != to {
            (m, Err(EdError::ExpectedSingleLine))
        } else if to >= len {
            (m, Err(EdError::InvalidAddress))
        } else {
            (
                m,
                Ok(
                    handoff(
                        ActionModel::ReadInto(path_or(p, m.file), (to + 1) as usize),
                        from,
                        to,
                        flag,
                    ),
                ),
            )
        },
        Some(CommandModel::Write(p)) => (
            m,
            Ok(
                handoff(
                    ActionModel::Save(path_or(p, m.file), text_of(m.buffer.lines)),
                    from,
                    to,
                    flag,
                ),
            ),
        ),
        Some(CommandModel::Quit) => if m.buffer.changed {
            refuse_modified(m)
        } else {
            (m, Ok(handoff(ActionModel::Quit, from, to, flag)))
        },
    }
}

/// Append, insert and mark need a single line: on a range with `from != to`
/// they fail with `ExpectedSingleLine` and leave the state as it was.
pub proof fn lemma_single_line(
    m: StateModel,
    cmd: CommandModel,
    flag: PrintFlag,
    from: usize,
    to: usize,
)
    requires
        from != to,
        cmd is Append || cmd is Insert || cmd is Mark,
    ensures
        command_step(m, Some(cmd), flag, from, to) == (
            m,
            Err::<StepModel, EdError>(EdError::ExpectedSingleLine),
        ),
{
}

impl State {
    /// A fresh editor: empty buffer, no file name, no search, command mode.
    pub fn new() -> (s: State)
        ensures
            s@.wf(),
            s@.buffer.lines.len() == 0,
            !s@.buffer.changed,
            s@.buffer.curline == 0,
            forall|i: int| 0 <= i < MARK_COUNT ==> #[trigger] s@.buffer.marks[i] is None,
            s@.file.len() == 0,
            s@.last_match is None,
            s@.pattern is None,
            !s@.prompt,
            !s@.verbose,
            s@.pending is None,
    {
        State {
            buffer: Buffer::new(),
            file: String::new(),
            last_match: None,
            pattern: None,
            prompt: false,
            verbose: false,
            pending: None,
        }
    }

    pub fn buffer(&self) -> (r: &Buffer)
        ensures
            r@ == self@.buffer,
    {
        &self.buffer
    }

    pub fn prompt(&self) -> (r: bool)
        ensures
            r == self@.prompt,
    {
        self.prompt
    }

    pub fn verbose(&self) -> (r: bool)
        ensures
            r == self@.verbose,
    {
        self.verbose
    }

    pub fn in_insert_mode(&self) -> (r: bool)
        ensures
            r == self@.pending is Some,
    {
        self.pending.is_some()
    }

    /// The index one address names in the current buffer.
    pub fn line_to_index(&self, l: Address) -> (r: Result<usize, EdError>)
        ensures
            r == address_index(l, self@.buffer),
    {
        match l {
            Address::Mark(m) => {
                if (m as usize) < MARK_COUNT {
                    match self.buffer.mark(m as usize) {
                        Some(i) => Ok(i),
                        None => Err(EdError::InvalidMark),
                    }
                } else {
                    Err(EdError::InvalidMark)
                }
            },
            Address::Abs(c) => {
                let len = self.buffer.len();
                if c < 0 {
                    let back = (-(c as i64)) as usize;
                    if back <= len {
                        Ok(len - back)
                    } else {
                        Err(EdError::InvalidAddress)
                    }
                } else {
                    Ok(c as usize)
                }
            },
            Address::Rel(c) => {
                let cur = self.buffer.curline();
                if c < 0 {
                    let back = (-(c as i64)) as usize;
                    if back <= cur {
                        Ok(cur - back)
                    } else {
                        Err(EdError::InvalidAddress)
                    }
                } else {
                    let ahead = c as usize;
                    if cur <= usize::MAX - ahead {
                        Ok(cur + ahead)
                    } else {
                        Err(EdError::InvalidAddress)
                    }
                }
            },
        }
    }

    /// Runs a pattern search as [`search_step`] describes.
    pub fn find_regex(&mut self, regex: Option<&String>, forward: bool) -> (r: Result<
        (usize, usize),
        EdError,
    >)
        requires
            old(self)@.wf(),
        ensures
            final(self)@.wf(),
            (final(self)@, r) == search_step(
                old(self)@,
                match regex {
                    Some(t) => Some(t@),
                    None => None,
                },
                forward,
            ),
    {
        let start = match regex {
            Some(re) => {
                let p = match compile(re.as_str()) {
                    Ok(p) => p,
                    Err(e) => {
                        return Err(e);
                    },
                };
                self.pattern = Some(p);
                self.buffer.curline()
            },
            None => {
                match (self.last_match, &self.pattern) {
                    (Some(i), Some(_)) => i,
                    _ => {
                        return Err(EdError::NoPreviousSearch);
                    },
                }
            },
        };
        let found = match &self.pattern {
            Some(p) => scan(p, &self.buffer, forward, start),
            None => None,
        };
        match found {
            Some(j) => {
                proof {
                    lemma_first_match_unique(
                        self@.pattern->0,
                        self@.buffer.lines,
                        forward,
                        start as int,
                        j as int,
                    );
                }
                self.last_match = Some(j);
                Ok((j, j))
            },
            None => {
                self.last_match = Some(start);
                Err(EdError::NoMatch)
            },
        }
    }

    /// Resolves a command line's range as [`resolve_step`] describes.
    pub fn extract_addr_range(&mut self, range: &Option<AddressRange>) -> (r: Result<
        (usize, usize),
        EdError,
    >)
        requires
            old(self)@.wf(),
        ensures
            final(self)@.wf(),
            (final(self)@, r) == resolve_step(
                old(self)@,
                match range {
                    Some(x) => Some(x@),
                    None => None,
                },
            ),
    {
        match range {
            Some(AddressRange::Range(f, t)) => {
                let from = match self.line_to_index(*f) {
                    Ok(i) => i,
                    Err(e) => {
                        return Err(e);
                    },
                };
                let to = match self.line_to_index(*t) {
                    Ok(i) => i,
                    Err(e) => {
                        return Err(e);
                    },
                };
                if from > to {
                    return Err(EdError::InvalidAddress);
                }
                Ok((from, to))
            },
            Some(AddressRange::Next(re)) => self.find_regex(re.as_ref(), true),
            Some(AddressRange::Prev(re)) => self.find_regex(re.as_ref(), false),
            None => {
                let cur = self.buffer.curline();
                Ok((cur, cur))
            },
        }
    }

    /// The index `i` if it names a line of the buffer, else
    /// `InvalidAddress`.
    pub fn is_valid(&self, i: usize) -> (r: Result<usize, EdError>)
        ensures
            i < self@.buffer.lines.len() ==> r == Ok::<usize, EdError>(i),
            i >= self@.buffer.lines.len() ==> r == Err::<usize, EdError>(EdError::InvalidAddress),
    {
        if i < self.buffer.len() {
            Ok(i)
        } else {
            Err(EdError::InvalidAddress)
        }
    }

    /// The lines `from` to `to` as printed with `flag`.
    pub fn print_range(&self, from: usize, to: usize, flag: PrintFlag) -> (r: Vec<Printed>)
        ensures
            r@ == echo(from as int, to as int, flag, self@.buffer.lines.len() as int),
    {
        let len = self.buffer.len();
        let mut out: Vec<Printed> = Vec::new();
        if flag == PrintFlag::Silent || from >= len || to < from {
            return out;
        }
        let last = if to < len {
            to
        } else {
            len - 1
        };
        let mut i = from;
        while i <= last
            invariant
                from <= i <= last + 1,
                last < len,
                out@ =~= Seq::new((i - from) as nat, |k: int| Printed::Line((from + k) as usize, flag)),
            decreases last + 1 - i,
        {
            out.push(Printed::Line(i, flag));
            i = i + 1;
        }
        out
    }

    /// Runs a command whose range resolved to `(from, to)`, as
    /// [`command_step`] describes.
    fn run_command(&mut self, cmd: Option<Command>, flag: PrintFlag, from: usize, to: usize) -> (r:
        Result<Step, EdError>)
        requires
            old(self)@.wf(),
            old(self)@.pending is None,
            from <= to,
        ensures
            final(self)@.wf(),
            ({
                let (m, outcome) = command_step(
                    old(self)@,
                    match cmd {
                        Some(c) => Some(c@),
                        None => None,
                    },
                    flag,
                    from,
                    to,
                );
                final(self)@ == m && step_agrees(r, outcome)
            }),
    {
        let len = self.buffer.len();
        let valid = self.is_valid(from).is_ok() && self.is_valid(to).is_ok();
        match cmd {
            None => {
                if !valid {
                    return Err(EdError::InvalidAddress);
                }
                let mut shown = flag;
                if flag == PrintFlag::Silent {
                    let line = match is_line(from, to) {
                        Ok(l) => l,
                        Err(e) => {
                            return Err(e);
                        },
                    };
                    self.buffer.set_curline(line);
                    shown = PrintFlag::Print;
                }
                Ok(self.finish(self.print_range(from, to, shown)))
            },
            Some(Command::Append) | Some(Command::Insert) => {
                if let Err(e) = is_line(from, to) {
                    return Err(e);
                }
                let append = cmd matches Some(Command::Append);
                let at = if append && to < len && to + 1 < len {
                    to + 1
                } else {
                    to
                };
                if at > len {
                    return Err(EdError::InvalidAddress);
                }
                self.pending = Some(Pending { start: at, end: at, flag, block: Vec::new() });
                Ok(Step { printed: Vec::new(), action: Action::CollectText, echo: (0, 0, PrintFlag::Silent) })
            },
            Some(Command::Change) => {
                if !valid {
                    return Err(EdError::InvalidAddress);
                }
                self.pending = Some(Pending { start: from, end: to + 1, flag, block: Vec::new() });
                Ok(Step { printed: Vec::new(), action: Action::CollectText, echo: (0, 0, PrintFlag::Silent) })
            },
            Some(Command::Delete) => {
                if !valid {
                    return Err(EdError::InvalidAddress);
                }
                self.buffer.replace_iter(from, to + 1, Vec::new());
                let new_len = self.buffer.len();
                let cur = if from < new_len {
                    from
                } else if new_len > 0 {
                    new_len - 1
                } else {
                    0
                };
                self.buffer.set_curline(cur);
                Ok(self.finish(self.print_range(from, to, flag)))
            },
            Some(Command::CurLine) => {
                let mut printed = vec![Printed::Number(self.buffer.curline() as u128 + 1)];
                let mut rest = self.print_range(from, to, flag);
                printed.append(&mut rest);
                Ok(self.finish(printed))
            },
            Some(Command::Edit(p)) => {
                if self.buffer.changed() {
                    self.buffer.set_changed(false);
                    return Err(EdError::Modified);
                }
                let path = self.path_or_default(p);
                Ok(Step { printed: Vec::new(), action: Action::Load(path), echo: (from, to, flag) })
            },
            Some(Command::Exec(c)) => {
                Ok(Step { printed: Vec::new(), action: Action::Shell(c), echo: (from, to, flag) })
            },
            Some(Command::File(f)) => {
                self.file = f;
                Ok(self.finish(self.print_range(from, to, flag)))
            },
            Some(Command::Help) => {
                self.verbose = !self.verbose;
                Ok(self.finish(self.print_range(from, to, flag)))
            },
            Some(Command::Prompt) => {
                self.prompt = !self.prompt;
                Ok(self.finish(self.print_range(from, to, flag)))
            },
            Some(Command::Mark(k)) => {
                if let Err(e) = is_line(from, to) {
                    return Err(e);
                }
                if !valid {
                    return Err(EdError::InvalidAddress);
                }
                if (k as usize) >= MARK_COUNT {
                    return Err(EdError::InvalidMark);
                }
                self.buffer.set_mark(k as usize, to);
                Ok(self.finish(self.print_range(from, to, flag)))
            },
            Some(Command::Read(p)) => {
                if let Err(e) = is_line(from, to) {
                    return Err(e);
                }
                if to >= len {
                    return Err(EdError::InvalidAddress);
                }
                let path = self.path_or_default(p);
                Ok(Step { printed: Vec::new(), action: Action::ReadInto(path, to + 1), echo: (from, to, flag) })
            },
            Some(Command::Write(p)) => {
                let path = self.path_or_default(p);
                let text = self.buffer.to_text();
                Ok(Step { printed: Vec::new(), action: Action::Save(path, text), echo: (from, to, flag) })
            },
            Some(Command::Quit) => {
                if self.buffer.changed() {
                    self.buffer.set_changed(false);
                    return Err(EdError::Modified);
                }
                Ok(Step { printed: Vec::new(), action: Action::Quit, echo: (from, to, flag) })
            },
        }
    }

    fn finish(&self, printed: Vec<Printed>) -> (r: Step)
        ensures
            r@ == done(printed@),
    {
        Step { printed, action: Action::Done, echo: (0, 0, PrintFlag::Silent) }
    }

    fn path_or_default(&self, p: Option<String>) -> (r: String)
        ensures
            r@ == path_or(opt_text(p), self@.file),
    {
        match p {
            Some(p) => p,
            None => self.file.clone(),
        }
    }

    /// Runs one parsed command line: resolves its range as [`resolve_step`]
    /// says, then runs the command as [`command_step`] says. On an error the
    /// buffer is as it was (a search may still have moved the search state,
    /// and the guard of `e` and `q` clears the changed flag).
    pub fn exec_command(&mut self, c: ParsedLine) -> (r: Result<Step, EdError>)
        requires
            old(self)@.wf(),
            old(self)@.pending is None,
        ensures
            final(self)@.wf(),
            ({
                let (mid, res) = resolve_step(old(self)@, parsed_view(c).0);
                match res {
                    Err(e) => r == Err::<Step, EdError>(e) && final(self)@ == mid,
                    Ok((from, to)) => {
                        let (m, outcome) = command_step(
                            mid,
                            parsed_view(c).1,
                            parsed_view(c).2,
                            from,
                            to,
                        );
                        final(self)@ == m && step_agrees(r, outcome)
                    },
                }
            }),
    {
        let (range, command, flags) = c;
        let (from, to) = match self.extract_addr_range(&range) {
            Ok(r) => r,
            Err(e) => {
                return Err(e);
            },
        };
        self.run_command(command, flags, from, to)
    }

    /// Takes one line typed in insert mode. The terminator line ends insert
    /// mode: the collected block replaces its interval, and the block's
    /// lines are echoed with the flag given when insert mode began. Any
    /// other line joins the block, without its line end.
    pub fn input_line(&mut self, line: &str) -> (r: Vec<Printed>)
        requires
            old(self)@.wf(),
            old(self)@.pending is Some,
        ensures
            final(self)@.wf(),
            typed_line(old(self)@, line@, final(self)@, r@),
    {
        if parse_terminator(line) {
            let pending = self.pending.take();
            match pending {
                Some(p) => {
                    let k = p.block.len();
                    let start = p.start;
                    let flag = p.flag;
                    self.buffer.replace_iter(p.start, p.end, p.block);
                    let new_len = self.buffer.len();
                    if k == 0 {
                        Vec::new()
                    } else {
                        assert(start + k <= new_len);
                        self.print_range(start, start + k - 1, flag)
                    }
                },
                None => Vec::new(),
            }
        } else {
            let text = strip_newline(line);
            match self.pending.take() {
                Some(p) => {
                    let mut block = p.block;
                    block.push(text);
                    self.pending = Some(Pending { start: p.start, end: p.end, flag: p.flag, block });
                },
                None => {},
            }
            Vec::new()
        }
    }

    /// Replaces the whole editor state by a buffer freshly loaded from the
    /// file at `path` whose lines are `lines` (the result of `e`). The file
    /// name becomes the default; marks, search state and the changed flag
    /// start afresh; prompt and verbosity stay. Prints the size of the text
    /// in bytes.
    pub fn load(&mut self, path: &str, lines: Vec<String>) -> (r: Vec<Printed>)
        ensures
            final(self)@.wf(),
            final(self)@.buffer.lines == lines@,
            forall|i: int| 0 <= i < MARK_COUNT ==> #[trigger] final(self)@.buffer.marks[i] is None,
            !final(self)@.buffer.changed,
            final(self)@.buffer.curline == 0,
            final(self)@.file == path@,
            final(self)@.last_match is None,
            final(self)@.pattern is None,
            final(self)@.prompt == old(self)@.prompt,
            final(self)@.verbose == old(self)@.verbose,
            final(self)@.pending is None,
            r@ == seq![Printed::Number(byte_total(lines@) as u128)],
    {
        let buffer = Buffer::from_lines(lines);
        let bytes = buffer.byte_count();
        self.buffer = buffer;
        self.file = path.to_owned();
        self.last_match = None;
        self.pattern = None;
        self.pending = None;
        vec![Printed::Number(bytes)]
    }

    /// Inserts the lines read from a file at index `at` (the result of `r`),
    /// or fails where `at` lies past the end.
    pub fn insert_lines(&mut self, at: usize, lines: Vec<String>) -> (r: Result<(), EdError>)
        requires
            old(self)@.wf(),
        ensures
            final(self)@.wf(),
            at <= old(self)@.buffer.lines.len() ==> r is Ok && final(self)@ == (StateModel {
                buffer: replaced(old(self)@.buffer, at as int, at as int, lines@),
                ..old(self)@
            }),
            at > old(self)@.buffer.lines.len() ==> r == Err::<(), EdError>(EdError::InvalidAddress)
                && final(self)@ == old(self)@,
    {
        if at > self.buffer.len() {
            return Err(EdError::InvalidAddress);
        }
        self.buffer.replace_iter(at, at, lines);
        Ok(())
    }

    /// Records that the buffer was written out (the result of `w`).
    pub fn saved(&mut self)
        ensures
            final(self)@ == (StateModel {
                buffer: BufferModel { changed: false, ..old(self)@.buffer },
                ..old(self)@
            }),
    {
        self.buffer.set_changed(false);
    }
}

} // verus!
