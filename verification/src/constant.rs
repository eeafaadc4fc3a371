//! Literal constants: their model and their strict validity rules.
//!
//! A hexadecimal literal is digits followed by `h`/`H` and must begin with
//! a decimal digit; a binary literal is `0`/`1` digits followed by `b`/`B`
//! and must have exactly 8 or 16 digits; a decimal literal is digits only.
//! A value too large for 64 bits parses as 0.

use vstd::prelude::*;
use crate::chars::{spec_is_bin_digit, spec_is_digit, spec_is_hex_digit, spec_hex_digit_val};

verus! {

/// A literal constant as the lexer classifies it. The raw spelling of a
/// hex or binary literal is preserved for diagnostics.
#[derive(Debug, Clone, PartialEq)]
pub enum Type {
    Text(Vec<char>),
    NumberDecimal(u64),
    NumberHex(u64, Vec<char>),
    NumberBinary(u64, Vec<char>),
    Char(char),
}

/// Mathematical model of a literal constant.
pub enum TypeView {
    Text(Seq<char>),
    NumberDecimal(u64),
    NumberHex(u64, Seq<char>),
    NumberBinary(u64, Seq<char>),
    Char(char),
}

impl View for Type {
    type V = TypeView;

    open spec fn view(&self) -> TypeView {
        match self {
            Type::Text(s) => TypeView::Text(s@),
            Type::NumberDecimal(v) => TypeView::NumberDecimal(*v),
            Type::NumberHex(v, raw) => TypeView::NumberHex(*v, raw@),
            Type::NumberBinary(v, raw) => TypeView::NumberBinary(*v, raw@),
            Type::Char(c) => TypeView::Char(*c),
        }
    }
}

/// Are all characters decimal digits?
pub open spec fn spec_all_digits(s: Seq<char>) -> bool {
    forall|i: int| 0 <= i < s.len() ==> spec_is_digit(#[trigger] s[i])
}

/// Are all characters hexadecimal digits?
pub open spec fn spec_all_hex(s: Seq<char>) -> bool {
    forall|i: int| 0 <= i < s.len() ==> spec_is_hex_digit(#[trigger] s[i])
}

/// Are all characters binary digits?
pub open spec fn spec_all_bin(s: Seq<char>) -> bool {
    forall|i: int| 0 <= i < s.len() ==> spec_is_bin_digit(#[trigger] s[i])
}

pub fn all_digits(v: &Vec<char>, from: usize, to: usize) -> (r: bool)
    requires
        from <= to <= v@.len(),
    ensures
        r == spec_all_digits(v@.subrange(from as int, to as int)),
{
    let mut i: usize = from;
    while i < to
        invariant
            from <= i <= to <= v@.len(),
            forall|k: int| from <= k < i ==> spec_is_digit(#[trigger] v@[k]),
        decreases to - i,
    {
        if !crate::chars::is_digit(v[i]) {
            proof {
                assert(v@.subrange(from as int, to as int)[i - from] == v@[i as int]);
            }
            return false;
        }
        i += 1;
    }
    proof {
        assert forall|k: int|
            0 <= k < v@.subrange(from as int, to as int).len() implies spec_is_digit(
            #[trigger] v@.subrange(from as int, to as int)[k],
        ) by {
            assert(v@.subrange(from as int, to as int)[k] == v@[from + k]);
        }
    }
    true
}

pub fn all_hex(v: &Vec<char>, from: usize, to: usize) -> (r: bool)
    requires
        from <= to <= v@.len(),
    ensures
        r == spec_all_hex(v@.subrange(from as int, to as int)),
{
    let mut i: usize = from;
    while i < to
        invariant
            from <= i <= to <= v@.len(),
            forall|k: int| from <= k < i ==> spec_is_hex_digit(#[trigger] v@[k]),
        decreases to - i,
    {
        if !crate::chars::is_hex_digit(v[i]) {
            proof {
                assert(v@.subrange(from as int, to as int)[i - from] == v@[i as int]);
            }
            return false;
        }
        i += 1;
    }
    proof {
        assert forall|k: int|
            0 <= k < v@.subrange(from as int, to as int).len() implies spec_is_hex_digit(
            #[trigger] v@.subrange(from as int, to as int)[k],
        ) by {
            assert(v@.subrange(from as int, to as int)[k] == v@[from + k]);
        }
    }
    true
}

pub fn all_bin(v: &Vec<char>, from: usize, to: usize) -> (r: bool)
    requires
        from <= to <= v@.len(),
    ensures
        r == spec_all_bin(v@.subrange(from as int, to as int)),
{
    let mut i: usize = from;
    while i < to
        invariant
            from <= i <= to <= v@.len(),
            forall|k: int| from <= k < i ==> spec_is_bin_digit(#[trigger] v@[k]),
        decreases to - i,
    {
        if !crate::chars::is_bin_digit(v[i]) {
            proof {
                assert(v@.subrange(from as int, to as int)[i - from] == v@[i as int]);
            }
            return false;
        }
        i += 1;
    }
    proof {
        assert forall|k: int|
            0 <= k < v@.subrange(from as int, to as int).len() implies spec_is_bin_digit(
            #[trigger] v@.subrange(from as int, to as int)[k],
        ) by {
            assert(v@.subrange(from as int, to as int)[k] == v@[from + k]);
        }
    }
    true
}

/// Value of a digit sequence in the given base, as an unbounded natural.
pub open spec fn spec_digits_nat(s: Seq<char>, base: nat) -> nat
    decreases s.len(),
{
    if s.len() == 0 {
        0
    } else {
        spec_digits_nat(s.drop_last(), base) * base + spec_hex_digit_val(s.last()) as nat
    }
}

/// Value of a digit sequence as a 64-bit number; 0 if it does not fit.
pub open spec fn spec_digits_u64(s: Seq<char>, base: nat) -> u64 {
    if spec_digits_nat(s, base) > u64::MAX {
        0
    } else {
        spec_digits_nat(s, base) as u64
    }
}

/// Parse the digits `v[from..to]` in the given base (2, 10 or 16);
/// a value that does not fit in 64 bits parses as 0.
pub fn digits_value(v: &Vec<char>, from: usize, to: usize, base: u64) -> (r: u64)
    requires
        from <= to <= v@.len(),
        2 <= base <= 16,
    ensures
        r == spec_digits_u64(v@.subrange(from as int, to as int), base as nat),
{
    let ghost s = v@.subrange(from as int, to as int);
    let mut i: usize = from;
    let mut acc: u64 = 0;
    let mut over: bool = false;
    while i < to
        invariant
            from <= i <= to <= v@.len(),
            2 <= base <= 16,
            s == v@.subrange(from as int, to as int),
            !over ==> acc == spec_digits_nat(s.take(i - from), base as nat),
            over ==> spec_digits_nat(s.take(i - from), base as nat) > u64::MAX,
        decreases to - i,
    {
        let d = crate::chars::hex_digit_val(v[i]);
        proof {
            assert(s.take(i + 1 - from).drop_last() =~= s.take(i - from));
            assert(s.take(i + 1 - from).last() == v@[i as int]);
            assert(spec_hex_digit_val(v@[i as int]) <= 15) by {};
        }
        if over {
            proof {
                let prev = spec_digits_nat(s.take(i - from), base as nat);
                assert(spec_digits_nat(s.take(i + 1 - from), base as nat) == prev * (
                base as nat) + spec_hex_digit_val(v@[i as int]) as nat);
                assert(prev * (base as nat) >= prev * 2) by (nonlinear_arith)
                    requires
                        base >= 2,
                        prev >= 0,
                ;
            }
        } else {
            if acc > (u64::MAX - d) / base {
                proof {
                    let prev = spec_digits_nat(s.take(i - from), base as nat);
                    assert(prev == acc);
                    assert((prev * (base as nat) + spec_hex_digit_val(v@[i as int]) as nat) as int
                        > u64::MAX as int) by (nonlinear_arith)
                        requires
                            prev == acc as nat,
                            acc as int > (u64::MAX as int - d as int) / (base as int),
                            d == spec_hex_digit_val(v@[i as int]),
                            2 <= base as int <= 16,
                            d as int <= 15,
                    ;
                }
                over = true;
            } else {
                proof {
                    assert(acc as int * base as int + d as int <= u64::MAX as int)
                        by (nonlinear_arith)
                        requires
                            acc as int <= (u64::MAX as int - d as int) / (base as int),
                            2 <= base as int <= 16,
                            0 <= d as int <= 15,
                    ;
                }
                acc = acc * base + d;
            }
        }
        i += 1;
    }
    proof {
        assert(s.take(to - from) =~= s);
    }
    if over {
        0
    } else {
        acc
    }
}

} // verus!
