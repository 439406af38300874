//! The plain-text form of a buffer: each line followed by a line end.

use vstd::prelude::*;
use crate::grammar::{in_class, run, CharClass};

verus! {

/// The text that holds `lines`, each followed by `\n`.
pub open spec fn text_of(lines: Seq<String>) -> Seq<char>
    decreases lines.len(),
{
    if lines.len() == 0 {
        Seq::empty()
    } else {
        lines[0]@ + seq!['\n'] + text_of(lines.drop_first())
    }
}

/// `line` without one trailing carriage return.
pub open spec fn strip_cr(line: Seq<char>) -> Seq<char> {
    if line.len() > 0 && line.last() == '\r' {
        line.drop_last()
    } else {
        line
    }
}

/// The lines of a text: split at each `\n`, a `\r` just before a `\n`
/// dropped, and no empty line after a final `\n`.
pub open spec fn lines_of(s: Seq<char>) -> Seq<Seq<char>>
    decreases s.len(),
{
    if s.len() == 0 {
        Seq::empty()
    } else {
        let n = run(s, 0, CharClass::Text) as int;
        if n < s.len() {
            seq![strip_cr(s.subrange(0, n))] + lines_of(s.subrange(n + 1, s.len() as int))
        } else {
            seq![s]
        }
    }
}

/// The character views of `lines`.
pub open spec fn views(lines: Seq<String>) -> Seq<Seq<char>> {
    lines.map_values(|l: String| l@)
}

/// A line that survives the trip through text: no line end inside it and
/// no carriage return at its end.
pub open spec fn is_plain_line(l: Seq<char>) -> bool {
    &&& forall|i: int| 0 <= i < l.len() ==> #[trigger] l[i] != '\n'
    &&& !(l.len() > 0 && l.last() == '\r')
}

proof fn lemma_run_to_newline(s: Seq<char>, i: int, n: int)
    requires
        0 <= i <= n < s.len(),
        s[n] == '\n',
        forall|x: int| i <= x < n ==> s[x] != '\n',
    ensures
        run(s, i, CharClass::Text) == n - i,
    decreases n - i,
{
    if i < n {
        assert(in_class(s[i], CharClass::Text));
        lemma_run_to_newline(s, i + 1, n);
    }
}

/// Writing lines out as text and splitting that text again gives back the
/// same lines, provided each line is plain.
pub proof fn lemma_round_trip(lines: Seq<String>)
    requires
        forall|i: int| 0 <= i < lines.len() ==> is_plain_line(#[trigger] lines[i]@),
    ensures
        lines_of(text_of(lines)) == views(lines),
    decreases lines.len(),
{
    if lines.len() > 0 {
        let l = lines[0]@;
        let rest = lines.drop_first();
        let s = text_of(lines);
        assert(is_plain_line(lines[0]@));
        assert forall|i: int| 0 <= i < rest.len() implies is_plain_line(#[trigger] rest[i]@) by {
            assert(is_plain_line(lines[i + 1]@));
        }
        lemma_round_trip(rest);
        assert(s[l.len() as int] == '\n');
        assert forall|x: int| 0 <= x < l.len() implies s[x] != '\n' by {
            assert(s[x] == l[x]);
        }
        lemma_run_to_newline(s, 0, l.len() as int);
        assert(s.subrange(0, l.len() as int) =~= l);
        assert(s.subrange(l.len() as int + 1, s.len() as int) =~= text_of(rest));
        assert(views(lines) =~= seq![l] + views(rest));
    } else {
        assert(views(lines) =~= Seq::empty());
    }
}

proof fn lemma_text_of_push(lines: Seq<String>, l: String)
    ensures
        text_of(lines.push(l)) == text_of(lines) + l@ + seq!['\n'],
    decreases lines.len(),
{
    if lines.len() == 0 {
        assert(lines.push(l).drop_first() =~= Seq::<String>::empty());
        assert(text_of(Seq::<String>::empty()) =~= Seq::<char>::empty());
        assert(lines.push(l)[0] == l);
        assert(text_of(lines.push(l)) =~= l@ + seq!['\n']);
    } else {
        assert(lines.push(l).drop_first() =~= lines.drop_first().push(l));
        lemma_text_of_push(lines.drop_first(), l);
        assert(text_of(lines.push(l)) =~= text_of(lines) + l@ + seq!['\n']);
    }
}

/// The text of `lines`, each followed by a line end.
pub fn join_lines(lines: &Vec<String>) -> (r: String)
    ensures
        r@ == text_of(lines@),
{
    let mut out = String::new();
    let newline = "\n";
    proof {
        reveal_strlit("\n");
    }
    let mut k: usize = 0;
    while k < lines.len()
        invariant
            k <= lines@.len(),
            out@ == text_of(lines@.take(k as int)),
            newline@ == seq!['\n'],
        decreases lines@.len() - k,
    {
        proof {
            assert(lines@.take(k + 1) =~= lines@.take(k as int).push(lines@[k as int]));
            lemma_text_of_push(lines@.take(k as int), lines@[k as int]);
        }
        out.append(lines[k].as_str());
        out.append(newline);
        k = k + 1;
    }
    assert(lines@.take(k as int) =~= lines@);
    out
}

/// Relies on `str::lines`: splits at `\n`, drops a `\r` just before a `\n`,
/// and yields no empty line after a final line end; each line is copied
/// into a `String`.
#[verifier::external_body]
fn str_lines(text: &str) -> (r: Vec<String>)
    ensures
        views(r@) == lines_of(text@),
{
    text.lines().map(|l| l.to_string()).collect()
}

/// The lines of a text as read from a file.
pub fn split_lines(text: &str) -> (r: Vec<String>)
    ensures
        views(r@) == lines_of(text@),
{
    str_lines(text)
}


/// The size of a line in bytes, as `str::len` gives it.
pub open spec fn byte_len(l: String) -> int {
    (vstd::utf8::encode_utf8(l@).len() as usize) as int
}

/// The size of the text of `lines` in bytes: each line and its line end.
pub open spec fn byte_total(lines: Seq<String>) -> int
    decreases lines.len(),
{
    if lines.len() == 0 {
        0
    } else {
        byte_total(lines.drop_last()) + byte_len(lines.last()) + 1
    }
}

/// The size of the text of `lines` in bytes.
pub fn count_bytes(lines: &Vec<String>) -> (r: u128)
    ensures
        r == byte_total(lines@),
{
    let n = lines.len();
    let mut total: u128 = 0;
    let mut k: usize = 0;
    while k < n
        invariant
            k <= n == lines@.len(),
            total == byte_total(lines@.take(k as int)),
            total <= k * 0x1_0000_0000_0000_0000,
        decreases n - k,
    {
        let b = lines[k].as_str().len();
        assert(lines@.take(k + 1).drop_last() =~= lines@.take(k as int));
        assert(b == byte_len(lines@[k as int]));
        assert(total + b + 1 <= (k + 1) * 0x1_0000_0000_0000_0000) by (nonlinear_arith)
            requires
                total <= k * 0x1_0000_0000_0000_0000,
                b <= usize::MAX,
                usize::MAX < 0x1_0000_0000_0000_0000,
        ;
        assert((k + 1) * 0x1_0000_0000_0000_0000 <= u128::MAX) by (nonlinear_arith)
            requires
                k < usize::MAX,
                usize::MAX < 0x1_0000_0000_0000_0000,
        ;
        total = total + b as u128 + 1;
        k = k + 1;
    }
    assert(lines@.take(n as int) =~= lines@);
    total
}

} // verus!
