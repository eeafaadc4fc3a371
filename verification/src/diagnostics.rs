//! Secondary diagnosis of lines that failed to parse.
//!
//! The parser's recovery only says that a line matched no grammar
//! alternative; this pass re-inspects the raw source text of the failed
//! line with heuristics to produce a more actionable, localized message.

use vstd::prelude::*;
use crate::chars::{spec_contains, spec_count_char, spec_is_word_char, spec_lower};
use crate::lexer::{clamp_next, spec_hex_shaped, spec_word_end};

verus! {

/// The first word of the line shaped like a hexadecimal literal whose
/// first character is not the digit `0`, if any.
pub open spec fn spec_bad_hex_word(s: Seq<char>, i: int) -> Option<Seq<char>>
    decreases s.len() - i,
{
    if i < 0 || i >= s.len() {
        None
    } else if spec_is_word_char(s[i]) {
        let we = clamp_next(spec_word_end(s, i), i + 1, s.len() as int);
        let w = s.subrange(i, we);
        if spec_hex_shaped(w) && w[0] != '0' {
            Some(w)
        } else {
            spec_bad_hex_word(s, we)
        }
    } else {
        spec_bad_hex_word(s, i + 1)
    }
}

/// The diagnosis of a line that failed to parse, tried in order:
/// a malformed segment declaration, a hex literal missing its leading
/// zero (named in the message), unbalanced brackets, an odd number of
/// quotes, and otherwise a generic syntax message.
pub open spec fn spec_diagnose(line: Seq<char>) -> Seq<char> {
    if spec_contains(spec_lower(line), "segment"@) {
        "Declaración de segmento inválida"@
    } else if spec_bad_hex_word(line, 0) is Some {
        "Constante Hex inválida '"@ + spec_bad_hex_word(line, 0)->Some_0 + "' (falta 0 inicial)"@
    } else if spec_contains(line, "["@) && !spec_contains(line, "]"@) {
        "Corchetes desbalanceados"@
    } else if spec_count_char(line, '"', line.len() as int) % 2 != 0 || spec_count_char(
        line,
        '\'',
        line.len() as int,
    ) % 2 != 0 {
        "Faltan comillas de cierre"@
    } else {
        "Sintaxis inválida o token faltante"@
    }
}

/// View of an optional character vector, for contracts.
pub open spec fn spec_chars_opt(r: Option<Vec<char>>) -> Option<Seq<char>> {
    match r {
        Some(v) => Some(v@),
        None => None,
    }
}

fn bad_hex_word(v: &Vec<char>, i: usize) -> (r: Option<Vec<char>>)
    requires
        i <= v@.len(),
    ensures
        spec_chars_opt(r) == spec_bad_hex_word(v@, i as int),
    decreases v@.len() - i,
{
    if i >= v.len() {
        None
    } else if crate::chars::is_word_char(v[i]) {
        proof {
            crate::lexer::lemma_word_end_bounds(v@, i + 1);
            assert(spec_word_end(v@, i as int) == spec_word_end(v@, i + 1));
        }
        let we = word_end_local(v, i);
        let w = crate::chars::slice_chars(v, i, we);
        let bad = {
            let n = w.len();
            if n >= 2 {
                let last = w[n - 1];
                if last == 'h' || last == 'H' {
                    let body_hex = crate::constant::all_hex(&w, 0, n - 1);
                    proof {
                        assert(w@.subrange(0, w@.len() - 1) =~= w@.drop_last());
                        assert(w@.last() == w@[w@.len() - 1]);
                    }
                    body_hex && w[0] != '0'
                } else {
                    false
                }
            } else {
                false
            }
        };
        if bad {
            Some(w)
        } else {
            bad_hex_word(v, we)
        }
    } else {
        bad_hex_word(v, i + 1)
    }
}

fn word_end_local(v: &Vec<char>, i: usize) -> (r: usize)
    requires
        i < v@.len(),
        spec_is_word_char(v@[i as int]),
    ensures
        r == spec_word_end(v@, i as int),
        i < r <= v@.len(),
    decreases v@.len() - i,
{
    let n = v.len();
    proof {
        assert(n == v@.len());
        crate::lexer::lemma_word_end_bounds(v@, i + 1);
        assert(spec_word_end(v@, i as int) == spec_word_end(v@, i + 1));
    }
    let mut j: usize = i + 1;
    loop
        invariant
            i < j <= v@.len(),
            spec_word_end(v@, i as int) == spec_word_end(v@, j as int),
        decreases v@.len() - j,
    {
        if j >= v.len() || !crate::chars::is_word_char(v[j]) {
            return j;
        }
        proof {
            assert(spec_word_end(v@, j as int) == spec_word_end(v@, j + 1));
        }
        j += 1;
    }
}

/// Diagnose one raw source line that failed to parse.
pub fn diagnose_syntax_error(line: &str) -> (r: Vec<char>)
    ensures
        r@ == spec_diagnose(line@),
{
    let v = crate::chars::chars_of(line);
    diagnose_chars(&v)
}

/// Diagnose one raw source line held as characters.
pub fn diagnose_chars(v: &Vec<char>) -> (r: Vec<char>)
    ensures
        r@ == spec_diagnose(v@),
{
    let low = crate::chars::lower_chars(v);
    let seg_pat = crate::chars::chars_of("segment");
    if crate::chars::contains_chars(&low, &seg_pat) {
        return crate::chars::chars_of("Declaración de segmento inválida");
    }
    if let Some(word) = bad_hex_word(v, 0) {
        let mut msg = crate::chars::chars_of("Constante Hex inválida '");
        crate::chars::append_chars(&mut msg, &word);
        crate::chars::append_str(&mut msg, "' (falta 0 inicial)");
        return msg;
    }
    let lb = crate::chars::chars_of("[");
    let rb = crate::chars::chars_of("]");
    if crate::chars::contains_chars(v, &lb) && !crate::chars::contains_chars(v, &rb) {
        return crate::chars::chars_of("Corchetes desbalanceados");
    }
    let dq = crate::chars::count_char(v, '"');
    let sq = crate::chars::count_char(v, '\'');
    if dq % 2 != 0 || sq % 2 != 0 {
        return crate::chars::chars_of("Faltan comillas de cierre");
    }
    crate::chars::chars_of("Sintaxis inválida o token faltante")
}

} // verus!
