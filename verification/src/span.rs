//! Spans and line numbering.
//!
//! A span is a half-open range of character offsets into the original
//! source. Spans are the source of truth: line numbers are computed from
//! them on demand, never stored eagerly.

use vstd::prelude::*;
use vstd::string::StrSliceExecFns;

verus! {

/// A half-open character-offset range `[start, end)` into the source.
#[derive(Clone, Copy, PartialEq, Eq, Structural, Debug)]
pub struct Span {
    pub start: usize,
    pub end: usize,
}

/// 1-based line number of the character offset `off` in `s`:
/// one more than the number of newlines strictly before `off`.
pub open spec fn spec_line_of(s: Seq<char>, off: int) -> nat {
    1 + crate::chars::spec_count_char(s, '\n', if off > s.len() {
        s.len() as int
    } else {
        off
    })
}

/// Number of physical lines of the source: zero for an empty source;
/// otherwise the number of newlines, plus one if the source does not
/// end with a newline.
pub open spec fn spec_line_count(s: Seq<char>) -> nat {
    if s.len() == 0 {
        0
    } else {
        crate::chars::spec_count_char(s, '\n', s.len() as int) + (if s[s.len() - 1] == '\n' {
            0nat
        } else {
            1nat
        })
    }
}

/// 1-based line number of a character offset, counting over a character vector.
pub fn line_of(v: &Vec<char>, off: usize) -> (r: usize)
    requires
        v@.len() < usize::MAX,
    ensures
        r == spec_line_of(v@, off as int),
{
    let upto = if off > v.len() {
        v.len()
    } else {
        off
    };
    let mut i: usize = 0;
    let mut n: usize = 1;
    while i < upto
        invariant
            upto <= v@.len() < usize::MAX,
            i <= upto,
            n == 1 + crate::chars::spec_count_char(v@, '\n', i as int),
            n <= 1 + i,
        decreases upto - i,
    {
        if v[i] == '\n' {
            n += 1;
        }
        i += 1;
    }
    n
}

/// 1-based line number of a character offset in a source string.
pub fn calculate_line(source: &str, offset: usize) -> (r: usize)
    requires
        source@.len() < usize::MAX,
    ensures
        r == spec_line_of(source@, offset as int),
{
    let v = crate::chars::chars_of(source);
    line_of(&v, offset)
}

/// Number of physical lines of a source held as characters.
pub fn line_count(v: &Vec<char>) -> (r: usize)
    requires
        v@.len() < usize::MAX,
    ensures
        r == spec_line_count(v@),
{
    if v.len() == 0 {
        return 0;
    }
    let newlines = crate::chars::count_char(v, '\n');
    if v[v.len() - 1] == '\n' {
        newlines
    } else {
        newlines + 1
    }
}

/// Character offset at which line `ln` (1-based) begins: offset 0 for line 1,
/// one past the `ln - 1`-th newline otherwise.
pub open spec fn spec_line_start(s: Seq<char>, ln: nat) -> int
    decreases ln,
{
    if ln <= 1 {
        0
    } else {
        spec_after_newline(s, spec_line_start(s, (ln - 1) as nat))
    }
}

/// One past the next newline at or after `i`, or `s.len()` if none remains.
pub open spec fn spec_after_newline(s: Seq<char>, i: int) -> int
    decreases s.len() - i,
{
    if i < 0 {
        0
    } else if i >= s.len() {
        s.len() as int
    } else if s[i] == '\n' {
        i + 1
    } else {
        spec_after_newline(s, i + 1)
    }
}

/// Offset of the end of the line starting at `i`: the next newline at or
/// after `i`, or `s.len()` if none remains.
pub open spec fn spec_line_end_from(s: Seq<char>, i: int) -> int
    decreases s.len() - i,
{
    if i < 0 {
        0
    } else if i >= s.len() {
        s.len() as int
    } else if s[i] == '\n' {
        i
    } else {
        spec_line_end_from(s, i + 1)
    }
}

fn after_newline(v: &Vec<char>, i: usize) -> (r: usize)
    requires
        i <= v@.len(),
    ensures
        r == spec_after_newline(v@, i as int),
        i <= r <= v@.len(),
    decreases v@.len() - i,
{
    if i >= v.len() {
        v.len()
    } else if v[i] == '\n' {
        i + 1
    } else {
        after_newline(v, i + 1)
    }
}

pub fn line_end_from(v: &Vec<char>, i: usize) -> (r: usize)
    requires
        i <= v@.len(),
    ensures
        r == spec_line_end_from(v@, i as int),
        i <= r <= v@.len(),
    decreases v@.len() - i,
{
    if i >= v.len() {
        v.len()
    } else if v[i] == '\n' {
        i
    } else {
        line_end_from(v, i + 1)
    }
}

/// Bounds for `spec_line_end_from`.
pub proof fn lemma_line_end_bounds(s: Seq<char>, i: int)
    requires
        0 <= i <= s.len(),
    ensures
        i <= spec_line_end_from(s, i) <= s.len(),
    decreases s.len() - i,
{
    if i < s.len() && s[i] != '\n' {
        lemma_line_end_bounds(s, i + 1);
    }
}

fn line_start(v: &Vec<char>, ln: usize) -> (r: usize)
    ensures
        r == spec_line_start(v@, ln as nat),
        0 <= r <= v@.len(),
    decreases ln,
{
    if ln <= 1 {
        0
    } else {
        let prev = line_start(v, ln - 1);
        after_newline(v, prev)
    }
}

/// The span `[start, end)` of physical line `ln` (1-based), excluding the
/// terminating line break: neither the newline nor a carriage return
/// just before it belongs to the line.
pub open spec fn spec_line_span(s: Seq<char>, ln: nat) -> Span {
    let start = spec_line_start(s, ln);
    let brk = spec_line_end_from(s, start);
    let end = if brk > start && brk - 1 < s.len() && s[brk - 1] == '\r' {
        brk - 1
    } else {
        brk
    };
    Span { start: start as usize, end: end as usize }
}

pub fn line_span(v: &Vec<char>, ln: usize) -> (r: Span)
    ensures
        r == spec_line_span(v@, ln as nat),
        r.start <= r.end <= v@.len(),
{
    let s = line_start(v, ln);
    let brk = line_end_from(v, s);
    let e = if brk > s && v[brk - 1] == '\r' {
        brk - 1
    } else {
        brk
    };
    Span { start: s, end: e }
}

} // verus!
