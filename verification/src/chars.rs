//! Character and character-vector utilities shared by every stage.
//!
//! All text that the pipeline computes is held as `Vec<char>`, whose view
//! is a `Seq<char>`, so every contract can speak about text directly.

use vstd::prelude::*;
use vstd::string::StrSliceExecFns;

verus! {

/// Whitespace as the lexer understands it (ASCII blanks and line breaks).
pub open spec fn spec_is_space(c: char) -> bool {
    c == ' ' || c == '\t' || c == '\r' || c == '\n' || c == '\x0b' || c == '\x0c'
}

pub fn is_space(c: char) -> (r: bool)
    ensures
        r == spec_is_space(c),
{
    c == ' ' || c == '\t' || c == '\r' || c == '\n' || c == '\x0b' || c == '\x0c'
}

/// Characters that may form a word (identifier, keyword or number).
pub open spec fn spec_is_word_char(c: char) -> bool {
    ('a' <= c && c <= 'z') || ('A' <= c && c <= 'Z') || ('0' <= c && c <= '9') || c == '_'
}

pub fn is_word_char(c: char) -> (r: bool)
    ensures
        r == spec_is_word_char(c),
{
    ('a' <= c && c <= 'z') || ('A' <= c && c <= 'Z') || ('0' <= c && c <= '9') || c == '_'
}

pub open spec fn spec_is_digit(c: char) -> bool {
    '0' <= c && c <= '9'
}

pub fn is_digit(c: char) -> (r: bool)
    ensures
        r == spec_is_digit(c),
{
    '0' <= c && c <= '9'
}

pub open spec fn spec_is_hex_digit(c: char) -> bool {
    ('0' <= c && c <= '9') || ('a' <= c && c <= 'f') || ('A' <= c && c <= 'F')
}

pub fn is_hex_digit(c: char) -> (r: bool)
    ensures
        r == spec_is_hex_digit(c),
{
    ('0' <= c && c <= '9') || ('a' <= c && c <= 'f') || ('A' <= c && c <= 'F')
}

pub open spec fn spec_is_bin_digit(c: char) -> bool {
    c == '0' || c == '1'
}

pub fn is_bin_digit(c: char) -> (r: bool)
    ensures
        r == spec_is_bin_digit(c),
{
    c == '0' || c == '1'
}

/// Numeric value of a single hexadecimal digit.
pub open spec fn spec_hex_digit_val(c: char) -> u64 {
    if '0' <= c && c <= '9' {
        (c as u64 - '0' as u64) as u64
    } else if 'a' <= c && c <= 'f' {
        (c as u64 - 'a' as u64 + 10) as u64
    } else if 'A' <= c && c <= 'F' {
        (c as u64 - 'A' as u64 + 10) as u64
    } else {
        0
    }
}

pub fn hex_digit_val(c: char) -> (r: u64)
    ensures
        r == spec_hex_digit_val(c),
{
    let u = c as u32;
    if c >= '0' && c <= '9' {
        (u - 48) as u64
    } else if c >= 'a' && c <= 'f' {
        (u - 97 + 10) as u64
    } else if c >= 'A' && c <= 'F' {
        (u - 65 + 10) as u64
    } else {
        0
    }
}

/// Upper-case folding for the ASCII letters; other characters unchanged.
pub open spec fn spec_upper_char(c: char) -> char {
    if 'a' <= c && c <= 'z' {
        ((c as u32 - 32) as char)
    } else {
        c
    }
}

pub fn upper_char(c: char) -> (r: char)
    ensures
        r == spec_upper_char(c),
{
    match c {
        'a' => 'A',
        'b' => 'B',
        'c' => 'C',
        'd' => 'D',
        'e' => 'E',
        'f' => 'F',
        'g' => 'G',
        'h' => 'H',
        'i' => 'I',
        'j' => 'J',
        'k' => 'K',
        'l' => 'L',
        'm' => 'M',
        'n' => 'N',
        'o' => 'O',
        'p' => 'P',
        'q' => 'Q',
        'r' => 'R',
        's' => 'S',
        't' => 'T',
        'u' => 'U',
        'v' => 'V',
        'w' => 'W',
        'x' => 'X',
        'y' => 'Y',
        'z' => 'Z',
        _ => c,
    }
}

/// Lower-case folding for the ASCII letters; other characters unchanged.
pub open spec fn spec_lower_char(c: char) -> char {
    if 'A' <= c && c <= 'Z' {
        ((c as u32 + 32) as char)
    } else {
        c
    }
}

pub fn lower_char(c: char) -> (r: char)
    ensures
        r == spec_lower_char(c),
{
    match c {
        'A' => 'a',
        'B' => 'b',
        'C' => 'c',
        'D' => 'd',
        'E' => 'e',
        'F' => 'f',
        'G' => 'g',
        'H' => 'h',
        'I' => 'i',
        'J' => 'j',
        'K' => 'k',
        'L' => 'l',
        'M' => 'm',
        'N' => 'n',
        'O' => 'o',
        'P' => 'p',
        'Q' => 'q',
        'R' => 'r',
        'S' => 's',
        'T' => 't',
        'U' => 'u',
        'V' => 'v',
        'W' => 'w',
        'X' => 'x',
        'Y' => 'y',
        'Z' => 'z',
        _ => c,
    }
}

pub open spec fn spec_upper(s: Seq<char>) -> Seq<char> {
    s.map_values(|c: char| spec_upper_char(c))
}

pub open spec fn spec_lower(s: Seq<char>) -> Seq<char> {
    s.map_values(|c: char| spec_lower_char(c))
}

/// Upper-cased copy of a character vector.
pub fn upper_chars(v: &Vec<char>) -> (r: Vec<char>)
    ensures
        r@ == spec_upper(v@),
{
    let mut out: Vec<char> = Vec::new();
    let mut i: usize = 0;
    while i < v.len()
        invariant
            i <= v.len(),
            out@.len() == i,
            forall|k: int| 0 <= k < i ==> out@[k] == spec_upper_char(v@[k]),
        decreases v.len() - i,
    {
        out.push(upper_char(v[i]));
        i += 1;
    }
    proof {
        assert(out@ =~= spec_upper(v@));
    }
    out
}

/// Lower-cased copy of a character vector.
pub fn lower_chars(v: &Vec<char>) -> (r: Vec<char>)
    ensures
        r@ == spec_lower(v@),
{
    let mut out: Vec<char> = Vec::new();
    let mut i: usize = 0;
    while i < v.len()
        invariant
            i <= v.len(),
            out@.len() == i,
            forall|k: int| 0 <= k < i ==> out@[k] == spec_lower_char(v@[k]),
        decreases v.len() - i,
    {
        out.push(lower_char(v[i]));
        i += 1;
    }
    proof {
        assert(out@ =~= spec_lower(v@));
    }
    out
}

/// The characters of a string slice, in order.
pub fn chars_of(s: &str) -> (v: Vec<char>)
    ensures
        v@ == s@,
{
    let n = s.unicode_len();
    let mut v: Vec<char> = Vec::new();
    let mut i: usize = 0;
    while i < n
        invariant
            i <= n,
            n == s@.len(),
            v@ == s@.subrange(0, i as int),
        decreases n - i,
    {
        let c = s.get_char(i);
        v.push(c);
        i += 1;
        proof {
            assert(v@ =~= s@.subrange(0, i as int));
        }
    }
    proof {
        assert(v@ =~= s@);
    }
    v
}

/// A copy of a character vector (clone, with its contents pinned).
pub fn copy_chars(v: &Vec<char>) -> (r: Vec<char>)
    ensures
        r@ == v@,
{
    let r = v.clone();
    proof {
        assert forall|i: int| 0 <= i < v@.len() implies r@[i] == v@[i] by {
            assert(cloned::<char>(v@[i], r@[i]));
        }
        assert(r@ =~= v@);
    }
    r
}

/// Equality of two character vectors.
pub fn chars_eq(a: &Vec<char>, b: &Vec<char>) -> (r: bool)
    ensures
        r == (a@ == b@),
{
    if a.len() != b.len() {
        proof {
            assert(a@.len() != b@.len());
        }
        return false;
    }
    let mut i: usize = 0;
    while i < a.len()
        invariant
            i <= a.len(),
            a@.len() == b@.len(),
            forall|k: int| 0 <= k < i ==> a@[k] == b@[k],
        decreases a.len() - i,
    {
        if a[i] != b[i] {
            return false;
        }
        i += 1;
    }
    proof {
        assert(a@ =~= b@);
    }
    true
}

/// Does a character vector equal the characters of a string slice?
pub fn chars_eq_str(a: &Vec<char>, s: &str) -> (r: bool)
    ensures
        r == (a@ == s@),
{
    let n = s.unicode_len();
    if a.len() != n {
        proof {
            assert(a@.len() != s@.len());
        }
        return false;
    }
    let mut i: usize = 0;
    while i < n
        invariant
            i <= n,
            n == s@.len(),
            a@.len() == s@.len(),
            forall|k: int| 0 <= k < i ==> a@[k] == s@[k],
        decreases n - i,
    {
        if a[i] != s.get_char(i) {
            return false;
        }
        i += 1;
    }
    proof {
        assert(a@ =~= s@);
    }
    true
}

/// The slice `v[from..to]` as a fresh vector.
pub fn slice_chars(v: &Vec<char>, from: usize, to: usize) -> (r: Vec<char>)
    requires
        from <= to <= v@.len(),
    ensures
        r@ == v@.subrange(from as int, to as int),
{
    let mut out: Vec<char> = Vec::new();
    let mut i: usize = from;
    while i < to
        invariant
            from <= i <= to <= v@.len(),
            out@ == v@.subrange(from as int, i as int),
        decreases to - i,
    {
        out.push(v[i]);
        i += 1;
        proof {
            assert(out@ =~= v@.subrange(from as int, i as int));
        }
    }
    out
}

/// Append a copy of `tail` to `out`.
pub fn append_chars(out: &mut Vec<char>, tail: &Vec<char>)
    ensures
        final(out)@ == old(out)@ + tail@,
{
    let mut i: usize = 0;
    while i < tail.len()
        invariant
            i <= tail@.len(),
            out@ == old(out)@ + tail@.subrange(0, i as int),
        decreases tail.len() - i,
    {
        out.push(tail[i]);
        i += 1;
        proof {
            assert(out@ =~= old(out)@ + tail@.subrange(0, i as int));
        }
    }
    proof {
        assert(out@ =~= old(out)@ + tail@);
    }
}

/// Append the characters of a string slice to `out`.
pub fn append_str(out: &mut Vec<char>, s: &str)
    ensures
        final(out)@ == old(out)@ + s@,
{
    let n = s.unicode_len();
    let mut i: usize = 0;
    while i < n
        invariant
            i <= n,
            n == s@.len(),
            out@ == old(out)@ + s@.subrange(0, i as int),
        decreases n - i,
    {
        out.push(s.get_char(i));
        i += 1;
        proof {
            assert(out@ =~= old(out)@ + s@.subrange(0, i as int));
        }
    }
    proof {
        assert(out@ =~= old(out)@ + s@);
    }
}

/// Does `s` contain `pat` as a contiguous subsequence?
pub open spec fn spec_contains_at(s: Seq<char>, pat: Seq<char>, i: int) -> bool {
    0 <= i && i + pat.len() <= s.len() && s.subrange(i, i + pat.len() as int) == pat
}

pub open spec fn spec_contains(s: Seq<char>, pat: Seq<char>) -> bool {
    exists|i: int| spec_contains_at(s, pat, i)
}

/// Search for `pat` inside `v`.
pub fn contains_chars(v: &Vec<char>, pat: &Vec<char>) -> (r: bool)
    ensures
        r == spec_contains(v@, pat@),
{
    if pat.len() == 0 {
        proof {
            assert(v@.subrange(0, 0) =~= pat@);
            assert(spec_contains_at(v@, pat@, 0));
        }
        return true;
    }
    if pat.len() > v.len() {
        proof {
            assert forall|i: int| !spec_contains_at(v@, pat@, i) by {}
        }
        return false;
    }
    let last = v.len() - pat.len();
    let mut i: usize = 0;
    while i <= last
        invariant
            v@.len() <= usize::MAX,
            1 <= pat@.len() <= v@.len(),
            last == v@.len() - pat@.len(),
            i <= last + 1,
            forall|k: int| 0 <= k < i ==> !spec_contains_at(v@, pat@, k),
        decreases last - i + 1,
    {
        let mut j: usize = 0;
        let mut all: bool = true;
        while j < pat.len()
            invariant
                v@.len() <= usize::MAX,
                1 <= pat@.len(),
                i + pat@.len() <= v@.len(),
                j <= pat@.len(),
                all == (forall|k: int| 0 <= k < j ==> v@[i + k] == pat@[k]),
            decreases pat.len() - j,
        {
            if v[i + j] != pat[j] {
                all = false;
            }
            j += 1;
        }
        if all {
            proof {
                assert(v@.subrange(i as int, i + pat@.len() as int) =~= pat@);
                assert(spec_contains_at(v@, pat@, i as int));
            }
            return true;
        }
        proof {
            if spec_contains_at(v@, pat@, i as int) {
                assert forall|k: int| 0 <= k < pat@.len() implies v@[i + k] == pat@[k] by {
                    assert(v@.subrange(i as int, i + pat@.len() as int)[k] == v@[i + k]);
                }
                assert(false);
            }
        }
        i += 1;
    }
    proof {
        if spec_contains(v@, pat@) {
            let k = choose|k: int| spec_contains_at(v@, pat@, k);
            assert(!spec_contains_at(v@, pat@, k));
        }
    }
    false
}

/// Count occurrences of a character in a prefix of `s`.
pub open spec fn spec_count_char(s: Seq<char>, c: char, upto: int) -> nat
    decreases upto,
{
    if upto <= 0 || upto > s.len() {
        0
    } else {
        spec_count_char(s, c, upto - 1) + (if s[upto - 1] == c {
            1nat
        } else {
            0nat
        })
    }
}

/// Count occurrences of a character in the whole of `v`.
pub fn count_char(v: &Vec<char>, c: char) -> (r: usize)
    ensures
        r == spec_count_char(v@, c, v@.len() as int),
        r <= v@.len(),
{
    let mut i: usize = 0;
    let mut n: usize = 0;
    while i < v.len()
        invariant
            i <= v@.len(),
            n == spec_count_char(v@, c, i as int),
            n <= i,
        decreases v.len() - i,
    {
        if v[i] == c {
            n += 1;
        }
        i += 1;
    }
    n
}

/// Lexicographic order on character sequences, by code point.
pub open spec fn spec_chars_le(a: Seq<char>, b: Seq<char>) -> bool
    decreases a.len(),
{
    if a.len() == 0 {
        true
    } else if b.len() == 0 {
        false
    } else if a[0] != b[0] {
        (a[0] as u32) < (b[0] as u32)
    } else {
        spec_chars_le(a.skip(1), b.skip(1))
    }
}

pub fn chars_le(a: &Vec<char>, b: &Vec<char>) -> (r: bool)
    ensures
        r == spec_chars_le(a@, b@),
{
    let r = chars_le_from(a, b, 0);
    proof {
        assert(a@.skip(0) =~= a@);
        assert(b@.skip(0) =~= b@);
    }
    r
}

fn chars_le_from(a: &Vec<char>, b: &Vec<char>, i: usize) -> (r: bool)
    requires
        i <= a@.len(),
        i <= b@.len(),
    ensures
        r == spec_chars_le(a@.skip(i as int), b@.skip(i as int)),
    decreases a@.len() - i,
{
    if i == a.len() {
        proof {
            assert(a@.skip(i as int).len() == 0);
        }
        true
    } else if i == b.len() {
        proof {
            assert(b@.skip(i as int).len() == 0);
            assert(a@.skip(i as int).len() > 0);
        }
        false
    } else if a[i] != b[i] {
        proof {
            assert(a@.skip(i as int)[0] == a@[i as int]);
            assert(b@.skip(i as int)[0] == b@[i as int]);
        }
        (a[i] as u32) < (b[i] as u32)
    } else {
        let r = chars_le_from(a, b, i + 1);
        proof {
            assert(a@.skip(i as int)[0] == a@[i as int]);
            assert(b@.skip(i as int)[0] == b@[i as int]);
            assert(a@.skip(i as int).skip(1) =~= a@.skip(i + 1));
            assert(b@.skip(i as int).skip(1) =~= b@.skip(i + 1));
        }
        r
    }
}

/// First position at or after `i` holding `c`, or the length.
pub open spec fn spec_find_char(s: Seq<char>, i: int, c: char) -> int
    decreases s.len() - i,
{
    if i < 0 || i >= s.len() {
        s.len() as int
    } else if s[i] == c {
        i
    } else {
        spec_find_char(s, i + 1, c)
    }
}

pub fn find_char(v: &Vec<char>, i: usize, c: char) -> (r: usize)
    requires
        i <= v@.len(),
    ensures
        r == spec_find_char(v@, i as int, c),
        i <= r <= v@.len(),
    decreases v@.len() - i,
{
    if i >= v.len() {
        v.len()
    } else if v[i] == c {
        i
    } else {
        find_char(v, i + 1, c)
    }
}

/// `s` without trailing whitespace.
pub open spec fn spec_trim_end(s: Seq<char>) -> Seq<char>
    decreases s.len(),
{
    if s.len() > 0 && spec_is_space(s.last()) {
        spec_trim_end(s.drop_last())
    } else {
        s
    }
}

/// `s` without leading whitespace.
pub open spec fn spec_trim_start(s: Seq<char>) -> Seq<char>
    decreases s.len(),
{
    if s.len() > 0 && spec_is_space(s[0]) {
        spec_trim_start(s.skip(1))
    } else {
        s
    }
}

/// `s` without leading or trailing whitespace.
pub open spec fn spec_trim(s: Seq<char>) -> Seq<char> {
    spec_trim_start(spec_trim_end(s))
}

/// A copy of `v` without leading or trailing whitespace.
pub fn trim_chars(v: &Vec<char>) -> (r: Vec<char>)
    ensures
        r@ == spec_trim(v@),
{
    let mut cur = copy_chars(v);
    while cur.len() > 0 && is_space(cur[cur.len() - 1])
        invariant
            spec_trim_end(cur@) == spec_trim_end(v@),
        decreases cur.len(),
    {
        proof {
            assert(cur@.last() == cur@[cur@.len() - 1]);
        }
        let _ = cur.pop();
    }
    proof {
        if cur@.len() > 0 {
            assert(cur@.last() == cur@[cur@.len() - 1]);
        }
        assert(spec_trim_end(cur@) == cur@);
    }
    while cur.len() > 0 && is_space(cur[0])
        invariant
            spec_trim_start(cur@) == spec_trim_start(spec_trim_end(v@)),
        decreases cur.len(),
    {
        let ghost before = cur@;
        let _ = cur.remove(0);
        proof {
            assert(cur@ =~= before.skip(1));
        }
    }
    proof {
        assert(spec_trim_start(cur@) == cur@);
    }
    cur
}

/// Decimal digits of a 64-bit value, most significant first.
pub open spec fn spec_dec_chars(n: u64) -> Seq<char>
    decreases n,
{
    if n < 10 {
        seq![((n + '0' as u64) as char)]
    } else {
        spec_dec_chars(n / 10) + seq![((n % 10 + '0' as u64) as char)]
    }
}

pub fn dec_chars(n: u64) -> (r: Vec<char>)
    ensures
        r@ == spec_dec_chars(n),
    decreases n,
{
    if n < 10 {
        let c = match n {
            0 => '0',
            1 => '1',
            2 => '2',
            3 => '3',
            4 => '4',
            5 => '5',
            6 => '6',
            7 => '7',
            8 => '8',
            _ => '9',
        };
        let mut v: Vec<char> = Vec::new();
        v.push(c);
        proof {
            assert(v@ =~= spec_dec_chars(n));
        }
        v
    } else {
        let mut v = dec_chars(n / 10);
        let d = n % 10;
        let c = match d {
            0 => '0',
            1 => '1',
            2 => '2',
            3 => '3',
            4 => '4',
            5 => '5',
            6 => '6',
            7 => '7',
            8 => '8',
            _ => '9',
        };
        v.push(c);
        proof {
            assert(v@ =~= spec_dec_chars(n));
        }
        v
    }
}

} // verus!
