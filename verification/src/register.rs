//! The CPU register table.

use vstd::prelude::*;

verus! {

/// Is the upper-case word a recognized register name?
pub open spec fn spec_is_valid_register(s: Seq<char>) -> bool {
    s == "AX"@ || s == "BX"@ || s == "CX"@ || s == "DX"@ || s == "AL"@ || s == "AH"@ || s == "BL"@
        || s == "BH"@ || s == "CL"@ || s == "CH"@ || s == "DL"@ || s == "DH"@ || s == "SI"@ || s
        == "DI"@ || s == "SP"@ || s == "BP"@ || s == "CS"@ || s == "DS"@ || s == "SS"@ || s
        == "ES"@
}

/// Register-name test on a character vector (upper-case input).
pub fn is_valid_chars(v: &Vec<char>) -> (r: bool)
    ensures
        r == spec_is_valid_register(v@),
{
    crate::chars::chars_eq_str(v, "AX") || crate::chars::chars_eq_str(v, "BX")
        || crate::chars::chars_eq_str(v, "CX") || crate::chars::chars_eq_str(v, "DX")
        || crate::chars::chars_eq_str(v, "AL") || crate::chars::chars_eq_str(v, "AH")
        || crate::chars::chars_eq_str(v, "BL") || crate::chars::chars_eq_str(v, "BH")
        || crate::chars::chars_eq_str(v, "CL") || crate::chars::chars_eq_str(v, "CH")
        || crate::chars::chars_eq_str(v, "DL") || crate::chars::chars_eq_str(v, "DH")
        || crate::chars::chars_eq_str(v, "SI") || crate::chars::chars_eq_str(v, "DI")
        || crate::chars::chars_eq_str(v, "SP") || crate::chars::chars_eq_str(v, "BP")
        || crate::chars::chars_eq_str(v, "CS") || crate::chars::chars_eq_str(v, "DS")
        || crate::chars::chars_eq_str(v, "SS") || crate::chars::chars_eq_str(v, "ES")
}

/// Is the upper-case word a recognized register name?
pub fn is_valid(s: &str) -> (r: bool)
    ensures
        r == spec_is_valid_register(s@),
{
    let v = crate::chars::chars_of(s);
    is_valid_chars(&v)
}

} // verus!
