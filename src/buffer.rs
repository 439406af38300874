//! The text buffer: an ordered sequence of lines, a table of 26 marks (one
//! per lower-case letter) and a flag telling whether the lines changed since
//! they were last loaded or written.

use vstd::prelude::*;
use crate::text::{byte_total, count_bytes, join_lines, text_of};

verus! {

/// Number of mark slots, one per letter `a` to `z`.
pub const MARK_COUNT: usize = 26;

/// The mathematical state of a [`Buffer`].
#[verifier::ext_equal]
pub struct BufferModel {
    pub lines: Seq<String>,
    pub marks: Seq<Option<usize>>,
    pub changed: bool,
    pub curline: usize,
}

impl BufferModel {
    /// Every mark that is set names an existing line.
    pub open spec fn wf(self) -> bool {
        &&& self.marks.len() == MARK_COUNT
        &&& forall|i: int|
            0 <= i < MARK_COUNT ==> (#[trigger] self.marks[i] matches Some(m) ==> m
                < self.lines.len())
    }
}

/// Where a mark at line `m` goes when the half-open interval `[start, end)`
/// is replaced by `k` lines: cleared inside the interval, moved by the change
/// of length after it, untouched before it.
pub open spec fn shifted_mark(m: Option<usize>, start: int, end: int, k: int) -> Option<usize> {
    match m {
        None => None,
        Some(x) => if start <= x < end {
            None
        } else if x >= end {
            Some((x + k - (end - start)) as usize)
        } else {
            Some(x)
        },
    }
}

/// The lines that result from replacing `[start, end)` of `lines` by `repl`.
pub open spec fn spliced(lines: Seq<String>, start: int, end: int, repl: Seq<String>) -> Seq<
    String,
> {
    lines.subrange(0, start) + repl + lines.subrange(end, lines.len() as int)
}

/// The buffer after `[start, end)` is replaced by `repl`: the lines spliced,
/// each mark moved as [`shifted_mark`] says, the flag set.
pub open spec fn replaced(b: BufferModel, start: int, end: int, repl: Seq<String>) -> BufferModel {
    BufferModel {
        lines: spliced(b.lines, start, end, repl),
        marks: Seq::new(
            MARK_COUNT as nat,
            |i: int| shifted_mark(b.marks[i], start, end, repl.len() as int),
        ),
        changed: true,
        curline: b.curline,
    }
}

/// Replacing the closed interval `[from, to]` by `k` lines: a mark after
/// `to` moves by `k - (to - from + 1)`, a mark inside the interval is
/// cleared, a mark before `from` stays.
pub proof fn lemma_mark_shift(b: BufferModel, from: int, to: int, repl: Seq<String>)
    requires
        b.wf(),
        0 <= from <= to < b.lines.len(),
    ensures
        forall|i: int|
            0 <= i < MARK_COUNT ==> {
                let after = #[trigger] replaced(b, from, to + 1, repl).marks[i];
                match b.marks[i] {
                    None => after is None,
                    Some(m) => if m > to {
                        after == Some((m + (repl.len() - (to - from + 1))) as usize)
                    } else if from <= m {
                        after is None
                    } else {
                        after == Some(m)
                    },
                }
            },
{
}

/// Lines of text with their marks, the changed flag and the current line.
/// Every edit goes through [`Buffer::replace_iter`], which keeps the marks
/// pointing at existing lines.
pub struct Buffer {
    marks: [Option<usize>; 26],
    changed: bool,
    curline: usize,
    lines: Vec<String>,
}

impl View for Buffer {
    type V = BufferModel;

    closed spec fn view(&self) -> BufferModel {
        BufferModel {
            lines: self.lines@,
            marks: self.marks@,
            changed: self.changed,
            curline: self.curline,
        }
    }
}

/// Whether `item` lies at or after the exclusive end `end` of a range.
pub fn range_after(end: usize, item: usize) -> (r: bool)
    ensures
        r == (item >= end),
{
    item >= end
}

impl Buffer {
    /// An empty, unchanged buffer without marks, positioned at line 0.
    pub fn new() -> (b: Buffer)
        ensures
            b@.wf(),
            b@.lines.len() == 0,
            forall|i: int| 0 <= i < MARK_COUNT ==> #[trigger] b@.marks[i] is None,
            !b@.changed,
            b@.curline == 0,
    {
        Buffer { lines: Vec::new(), marks: [None; 26], changed: false, curline: 0 }
    }

    pub fn len(&self) -> (n: usize)
        ensures
            n == self@.lines.len(),
    {
        self.lines.len()
    }

    /// Appends a line at the end, leaving marks and the flag as they are.
    pub fn push(&mut self, val: String)
        requires
            old(self)@.wf(),
        ensures
            final(self)@.wf(),
            final(self)@.lines == old(self)@.lines.push(val),
            final(self)@.marks == old(self)@.marks,
            final(self)@.changed == old(self)@.changed,
            final(self)@.curline == old(self)@.curline,
    {
        self.lines.push(val);
    }

    /// The line at index `i`.
    pub fn line(&self, i: usize) -> (r: &String)
        requires
            i < self@.lines.len(),
        ensures
            *r == self@.lines[i as int],
    {
        &self.lines[i]
    }

    /// The line held by mark slot `m`, if any.
    pub fn mark(&self, m: usize) -> (r: Option<usize>)
        requires
            m < MARK_COUNT,
        ensures
            r == self@.marks[m as int],
    {
        self.marks[m]
    }

    /// Sets mark slot `m` to line `line`.
    pub fn set_mark(&mut self, m: usize, line: usize)
        requires
            old(self)@.wf(),
            m < MARK_COUNT,
            line < old(self)@.lines.len(),
        ensures
            final(self)@ == (BufferModel { marks: old(self)@.marks.update(m as int, Some(line)), ..old(self)@ }),
            final(self)@.wf(),
    {
        self.marks[m] = Some(line);
    }

    pub fn curline(&self) -> (r: usize)
        ensures
            r == self@.curline,
    {
        self.curline
    }

    pub fn set_curline(&mut self, line: usize)
        ensures
            final(self)@ == (BufferModel { curline: line, ..old(self)@ }),
    {
        self.curline = line;
    }

    pub fn changed(&self) -> (r: bool)
        ensures
            r == self@.changed,
    {
        self.changed
    }

    pub fn set_changed(&mut self, changed: bool)
        ensures
            final(self)@ == (BufferModel { changed, ..old(self)@ }),
    {
        self.changed = changed;
    }

    /// The buffer as text: each line followed by a line end.
    pub fn to_text(&self) -> (r: String)
        ensures
            r@ == text_of(self@.lines),
    {
        join_lines(&self.lines)
    }

    /// The lines, in order.
    pub fn iter(&self) -> (r: std::slice::Iter<'_, String>)
        ensures
            vstd::std_specs::slice::into_iter_elts(r) == self@.lines,
    {
        let r = self.lines.as_slice().iter();
        assert(vstd::std_specs::iter::IteratorSpec::remaining(&r).unref() =~= self@.lines);
        r
    }

    /// The lines, in order.
    pub fn lines(&self) -> (r: &Vec<String>)
        ensures
            r@ == self@.lines,
    {
        &self.lines
    }

    /// A buffer holding `lines`, unchanged, without marks, at line 0.
    pub fn from_lines(lines: Vec<String>) -> (b: Buffer)
        ensures
            b@.wf(),
            b@.lines == lines@,
            forall|i: int| 0 <= i < MARK_COUNT ==> #[trigger] b@.marks[i] is None,
            !b@.changed,
            b@.curline == 0,
    {
        Buffer { lines, marks: [None; 26], changed: false, curline: 0 }
    }

    /// The lines, given up by the buffer.
    pub fn into_lines(self) -> (r: Vec<String>)
        ensures
            r@ == self@.lines,
    {
        self.lines
    }

    /// Appends `more` at the end, leaving marks and the flag as they are.
    pub fn extend(&mut self, more: Vec<String>)
        requires
            old(self)@.wf(),
        ensures
            final(self)@ == (BufferModel { lines: old(self)@.lines + more@, ..old(self)@ }),
            final(self)@.wf(),
    {
        let mut more = more;
        self.lines.append(&mut more);
    }

    /// The size of the buffer's text in bytes: each line and its line end.
    pub fn byte_count(&self) -> (r: u128)
        ensures
            r == byte_total(self@.lines),
    {
        count_bytes(&self.lines)
    }

    /// Replaces the lines `[start, end)` by `replace_with` and keeps the marks
    /// valid: a mark inside the interval is cleared, one at or after its end
    /// moves by the change of length, one before it stays. Sets the changed
    /// flag.
    pub fn replace_iter(&mut self, start: usize, end: usize, replace_with: Vec<String>)
        requires
            old(self)@.wf(),
            start <= end <= old(self)@.lines.len(),
        ensures
            final(self)@.wf(),
            final(self)@.lines == spliced(
                old(self)@.lines,
                start as int,
                end as int,
                replace_with@,
            ),
            forall|i: int|
                0 <= i < MARK_COUNT ==> #[trigger] final(self)@.marks[i] == shifted_mark(
                    old(self)@.marks[i],
                    start as int,
                    end as int,
                    replace_with@.len() as int,
                ),
            final(self)@.changed,
            final(self)@.curline == old(self)@.curline,
            final(self)@ == replaced(old(self)@, start as int, end as int, replace_with@),
    {
        let ghost old_lines = self.lines@;
        let k = replace_with.len();
        let mut repl = replace_with;
        let mut tail = self.lines.split_off(end);
        self.lines.truncate(start);
        self.lines.append(&mut repl);
        self.lines.append(&mut tail);
        assert(self.lines@ =~= spliced(old_lines, start as int, end as int, replace_with@));
        let removed = end - start;
        let new_len = self.lines.len();
        let mut i: usize = 0;
        while i < MARK_COUNT
            invariant
                i <= MARK_COUNT,
                self.lines@ == spliced(old_lines, start as int, end as int, replace_with@),
                old_lines == old(self)@.lines,
                start <= end <= old_lines.len(),
                removed == end - start,
                new_len == self.lines@.len(),
                k == replace_with@.len(),
                old(self)@.wf(),
                forall|j: int|
                    0 <= j < i ==> #[trigger] self.marks@[j] == shifted_mark(
                        old(self)@.marks[j],
                        start as int,
                        end as int,
                        k as int,
                    ),
                forall|j: int| i <= j < MARK_COUNT ==> #[trigger] self.marks@[j] == old(self)@.marks[j],
                self.curline == old(self)@.curline,
            decreases MARK_COUNT - i,
        {
            let cur = self.marks[i];
            let next = match cur {
                None => None,
                Some(index) => {
                    assert(old(self)@.marks[i as int] == cur);
                    if start <= index && index < end {
                        None
                    } else if range_after(end, index) {
                        Some(index - removed + k)
                    } else {
                        Some(index)
                    }
                },
            };
            self.marks[i] = next;
            i = i + 1;
        }
        self.changed = true;
        assert(self@.marks =~= replaced(old(self)@, start as int, end as int, replace_with@).marks);
    }
}

} // verus!
