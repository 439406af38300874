//! Address resolution: turning a range of the grammar into line indices of
//! the current buffer, by arithmetic or by a circular pattern search.

use vstd::prelude::*;
use crate::buffer::{Buffer, BufferModel, MARK_COUNT};
use crate::editor::StateModel;
use crate::error::EdError;
use crate::grammar::{Address, RangeModel};
use crate::pattern::{pattern_compiles, pattern_matches, Pattern};

verus! {

/// `v` as a line index, if it is one.
pub open spec fn as_index(v: int) -> Result<usize, EdError> {
    if 0 <= v <= usize::MAX {
        Ok(v as usize)
    } else {
        Err(EdError::InvalidAddress)
    }
}

/// The index that one address names, or why it names none: an absolute
/// address counts from the start, or from the end when negative; a relative
/// one from the current line; a mark gives the line it holds.
pub open spec fn address_index(a: Address, b: BufferModel) -> Result<usize, EdError> {
    match a {
        Address::Abs(n) => as_index(
            if n < 0 {
                b.lines.len() + n
            } else {
                n as int
            },
        ),
        Address::Rel(d) => as_index(b.curline + d),
        Address::Mark(m) => if m < MARK_COUNT && b.marks[m as int] is Some {
            Ok(b.marks[m as int]->0)
        } else {
            Err(EdError::InvalidMark)
        },
    }
}

/// The pair of indices that an explicit range names; it may not run
/// backwards. The indices are not yet checked against the buffer length.
pub open spec fn range_indices(f: Address, t: Address, b: BufferModel) -> Result<
    (usize, usize),
    EdError,
> {
    match address_index(f, b) {
        Err(e) => Err(e),
        Ok(from) => match address_index(t, b) {
            Err(e) => Err(e),
            Ok(to) => if from > to {
                Err(EdError::InvalidAddress)
            } else {
                Ok((from, to))
            },
        },
    }
}

/// The whole-buffer range `%` (`Abs(0)` to `Abs(-1)`) names the first and
/// the last line of any buffer that has lines.
pub proof fn lemma_whole_buffer_range(b: BufferModel)
    requires
        1 <= b.lines.len() <= usize::MAX,
    ensures
        range_indices(Address::Abs(0i32), Address::Abs(-1i32), b) == Ok::<(usize, usize), EdError>(
            (0usize, (b.lines.len() - 1) as usize),
        ),
{
}

/// Whether line `j` matches pattern `p`.
pub open spec fn line_matches(p: Seq<char>, lines: Seq<String>, j: int) -> bool {
    pattern_matches(p, lines[j]@)
}

/// The position of line `j` in the order a search from `start` visits lines:
/// forward it visits `start + 1` up to the end, then `0` up to `start`;
/// backward `start - 1` down to `0`, then the end down to `start`. A start
/// past the end visits every line, from the first forward and from the last
/// backward.
pub open spec fn search_rank(forward: bool, start: int, len: int, j: int) -> int {
    if forward {
        if start >= len {
            j
        } else if j > start {
            j - start - 1
        } else {
            len - start - 1 + j
        }
    } else {
        let s = if start < len {
            start
        } else {
            len
        };
        if j < s {
            s - 1 - j
        } else {
            s + len - 1 - j
        }
    }
}

/// Line `j` matches and no line that the search visits before it does.
pub open spec fn is_first_match(
    p: Seq<char>,
    lines: Seq<String>,
    forward: bool,
    start: int,
    j: int,
) -> bool {
    &&& 0 <= j < lines.len()
    &&& line_matches(p, lines, j)
    &&& forall|k: int|
        0 <= k < lines.len() && search_rank(forward, start, lines.len() as int, k) < search_rank(
            forward,
            start,
            lines.len() as int,
            j,
        ) ==> !#[trigger] line_matches(p, lines, k)
}

pub open spec fn some_line_matches(p: Seq<char>, lines: Seq<String>) -> bool {
    exists|k: int| 0 <= k < lines.len() && #[trigger] line_matches(p, lines, k)
}

/// The line visited at step `k` of a search from `start`.
pub fn search_candidate(forward: bool, start: usize, len: usize, k: usize) -> (j: usize)
    requires
        k < len,
    ensures
        j < len,
        search_rank(forward, start as int, len as int, j as int) == k,
{
    if forward {
        if start >= len {
            k
        } else if k < len - start - 1 {
            start + 1 + k
        } else {
            k - (len - start - 1)
        }
    } else {
        let s = if start < len {
            start
        } else {
            len
        };
        if k < s {
            s - 1 - k
        } else {
            len - 1 - (k - s)
        }
    }
}

pub proof fn lemma_rank_bounds(forward: bool, start: int, len: int, j: int)
    requires
        0 <= start,
        0 <= j < len,
    ensures
        0 <= search_rank(forward, start, len, j) < len,
        forall|i: int|
            0 <= i < len && #[trigger] search_rank(forward, start, len, i) == search_rank(
                forward,
                start,
                len,
                j,
            ) ==> i == j,
{
}

/// Scans the lines in search order for the first one that `p` matches.
pub fn scan(p: &Pattern, buffer: &Buffer, forward: bool, start: usize) -> (r: Option<usize>)
    ensures
        match r {
            Some(j) => is_first_match(p.source(), buffer@.lines, forward, start as int, j as int),
            None => !some_line_matches(p.source(), buffer@.lines),
        },
{
    let len = buffer.len();
    let ghost lines = buffer@.lines;
    let mut k: usize = 0;
    while k < len
        invariant
            k <= len == lines.len(),
            lines == buffer@.lines,
            forall|i: int|
                0 <= i < len && search_rank(forward, start as int, len as int, i) < k
                    ==> !#[trigger] line_matches(p.source(), lines, i),
        decreases len - k,
    {
        let j = search_candidate(forward, start, len, k);
        if p.is_match(buffer.line(j).as_str()) {
            proof {
                lemma_rank_bounds(forward, start as int, len as int, j as int);
            }
            return Some(j);
        }
        proof {
            lemma_rank_bounds(forward, start as int, len as int, j as int);
        }
        k = k + 1;
    }
    proof {
        assert forall|i: int| 0 <= i < len implies !#[trigger] line_matches(p.source(), lines, i) by {
            lemma_rank_bounds(forward, start as int, len as int, i);
        }
    }
    None
}


/// The search that a pattern address asks for: with a pattern, compile it,
/// keep it and start from the current line; without one, reuse the kept
/// pattern and start from the last match. The line found becomes the last
/// match.
pub open spec fn search_step(s: StateModel, pat: Option<Seq<char>>, forward: bool) -> (
    StateModel,
    Result<(usize, usize), EdError>,
) {
    let lines = s.buffer.lines;
    let found = |p: Seq<char>, start: usize, miss: Option<usize>|
        if some_line_matches(p, lines) {
            let j = choose|j: int| is_first_match(p, lines, forward, start as int, j);
            (
                StateModel { pattern: Some(p), last_match: Some(j as usize), ..s },
                Ok::<(usize, usize), EdError>((j as usize, j as usize)),
            )
        } else {
            (StateModel { pattern: Some(p), last_match: miss, ..s }, Err(EdError::NoMatch))
        };
    match pat {
        Some(t) => if !pattern_compiles(t) {
            (s, Err(EdError::InvalidRegex))
        } else {
            found(t, s.buffer.curline, Some(s.buffer.curline))
        },
        None => match (s.last_match, s.pattern) {
            (Some(start), Some(p)) => found(p, start, Some(start)),
            _ => (s, Err(EdError::NoPreviousSearch)),
        },
    }
}

/// What resolving a command line's range does: to the state (a search moves
/// the search state) and as a result, the pair `(from, to)` or an error. No
/// range means the current line.
pub open spec fn resolve_step(s: StateModel, range: Option<RangeModel>) -> (
    StateModel,
    Result<(usize, usize), EdError>,
) {
    match range {
        None => (s, Ok((s.buffer.curline, s.buffer.curline))),
        Some(RangeModel::Range(f, t)) => (s, range_indices(f, t, s.buffer)),
        Some(RangeModel::Next(p)) => search_step(s, p, true),
        Some(RangeModel::Prev(p)) => search_step(s, p, false),
    }
}

pub proof fn lemma_first_match_unique(p: Seq<char>, lines: Seq<String>, forward: bool, start: int, j: int)
    requires
        0 <= start,
        is_first_match(p, lines, forward, start, j),
    ensures
        forall|k: int| #[trigger] is_first_match(p, lines, forward, start, k) ==> k == j,
{
    assert forall|k: int| #[trigger] is_first_match(p, lines, forward, start, k) implies k == j by {
        lemma_rank_bounds(forward, start, lines.len() as int, j);
        lemma_rank_bounds(forward, start, lines.len() as int, k);
    }
}

proof fn lemma_exists_first(p: Seq<char>, lines: Seq<String>, forward: bool, start: int, r: int)
    requires
        0 <= start,
        0 <= r <= lines.len(),
        some_line_matches(p, lines),
        forall|k: int|
            0 <= k < lines.len() && search_rank(forward, start, lines.len() as int, k) < r
                ==> !#[trigger] line_matches(p, lines, k),
    ensures
        exists|j: int| #[trigger] is_first_match(p, lines, forward, start, j),
    decreases lines.len() - r,
{
    let len = lines.len() as int;
    if exists|k: int|
        0 <= k < len && search_rank(forward, start, len, k) == r && #[trigger] line_matches(
            p,
            lines,
            k,
        ) {
        let k = choose|k: int|
            0 <= k < len && search_rank(forward, start, len, k) == r && #[trigger] line_matches(
                p,
                lines,
                k,
            );
        assert(is_first_match(p, lines, forward, start, k));
    } else if r < len {
        lemma_exists_first(p, lines, forward, start, r + 1);
    } else {
        let w = choose|k: int| 0 <= k < lines.len() && #[trigger] line_matches(p, lines, k);
        lemma_rank_bounds(forward, start, len, w);
    }
}

/// A search that finds a matching line visits at most every line once: for
/// a buffer where some line matches, from any start, there is exactly one
/// first match in search order, and it is the matching line closest after
/// the start (circularly).
pub proof fn lemma_search_total(p: Seq<char>, lines: Seq<String>, forward: bool, start: int)
    requires
        0 <= start,
        some_line_matches(p, lines),
    ensures
        exists|j: int| #[trigger] is_first_match(p, lines, forward, start, j),
        forall|j: int, k: int|
            #[trigger] is_first_match(p, lines, forward, start, j) && #[trigger] is_first_match(
                p,
                lines,
                forward,
                start,
                k,
            ) ==> j == k,
        forall|j: int|
            #[trigger] is_first_match(p, lines, forward, start, j) ==> 0 <= search_rank(
                forward,
                start,
                lines.len() as int,
                j,
            ) < lines.len(),
{
    let len = lines.len() as int;
    lemma_exists_first(p, lines, forward, start, 0);
    assert forall|j: int, k: int|
        #[trigger] is_first_match(p, lines, forward, start, j) && #[trigger] is_first_match(
            p,
            lines,
            forward,
            start,
            k,
        ) implies j == k by {
        lemma_first_match_unique(p, lines, forward, start, j);
    }
    assert forall|j: int| #[trigger] is_first_match(p, lines, forward, start, j) implies 0
        <= search_rank(forward, start, lines.len() as int, j) < lines.len() by {
        lemma_rank_bounds(forward, start, len, j);
    }
}


} // verus!
