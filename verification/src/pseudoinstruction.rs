//! The reserved assembler directive keywords.

use vstd::prelude::*;

verus! {

/// Is the upper-case word a reserved directive keyword?
pub open spec fn spec_is_reserved(s: Seq<char>) -> bool {
    s == "DB"@ || s == "DW"@ || s == "DD"@ || s == "EQU"@ || s == "ORG"@ || s == "OFFSET"@ || s
        == "ENDS"@ || s == "SEGMENT"@ || s == "END"@ || s == ".CODE"@ || s == ".DATA"@ || s
        == ".STACK"@ || s == ".MODEL"@
}

/// Reserved-keyword test on a character vector (upper-case input).
pub fn is_reserved_chars(v: &Vec<char>) -> (r: bool)
    ensures
        r == spec_is_reserved(v@),
{
    crate::chars::chars_eq_str(v, "DB") || crate::chars::chars_eq_str(v, "DW")
        || crate::chars::chars_eq_str(v, "DD") || crate::chars::chars_eq_str(v, "EQU")
        || crate::chars::chars_eq_str(v, "ORG") || crate::chars::chars_eq_str(v, "OFFSET")
        || crate::chars::chars_eq_str(v, "ENDS") || crate::chars::chars_eq_str(v, "SEGMENT")
        || crate::chars::chars_eq_str(v, "END") || crate::chars::chars_eq_str(v, ".CODE")
        || crate::chars::chars_eq_str(v, ".DATA") || crate::chars::chars_eq_str(v, ".STACK")
        || crate::chars::chars_eq_str(v, ".MODEL")
}

/// Is the upper-case word a reserved directive keyword?
pub fn is_reserved(s: &str) -> (r: bool)
    ensures
        r == spec_is_reserved(s@),
{
    let v = crate::chars::chars_of(s);
    is_reserved_chars(&v)
}

} // verus!
