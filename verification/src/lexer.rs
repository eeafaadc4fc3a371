//! The lexer: longest-match tokenization with compound-token lookahead.
//!
//! Scanning priority: quoted literals and bracketed memory references
//! first, then words. A word is checked for a compound directive
//! (`.DATA SEGMENT`, `BYTE PTR`), a `DUP(...)` construct, a numeric
//! literal, and only then against the keyword tables; anything left over
//! is a symbol. Comments (`;` to end of line) and whitespace never
//! become tokens. Unrecognized input becomes an `Error` token, so the
//! lexer is total.

use vstd::prelude::*;
use crate::chars::{
    spec_is_space, spec_is_word_char, spec_is_digit, spec_lower, spec_upper, spec_contains,
};
use crate::constant::{Type, TypeView, spec_all_digits, spec_all_hex, spec_all_bin, spec_digits_u64};
use crate::span::Span;
use crate::token::{PunctuationType, Token, TokenView};

verus! {

/// Clamp `j` into `[lo, hi]`; every scanning helper already returns a
/// value in that range, so the clamp only serves the termination checker.
pub open spec fn clamp_next(j: int, lo: int, hi: int) -> int {
    if j < lo {
        lo
    } else if j > hi {
        hi
    } else {
        j
    }
}

/// End of the word starting at `i`: the first position at or after `i`
/// holding a non-word character.
pub open spec fn spec_word_end(s: Seq<char>, i: int) -> int
    decreases s.len() - i,
{
    if i < 0 || i >= s.len() {
        s.len() as int
    } else if spec_is_word_char(s[i]) {
        spec_word_end(s, i + 1)
    } else {
        i
    }
}

/// First position at or after `i` that is not inline whitespace
/// (whitespace other than a newline).
pub open spec fn spec_skip_inline(s: Seq<char>, i: int) -> int
    decreases s.len() - i,
{
    if i < 0 || i >= s.len() {
        s.len() as int
    } else if spec_is_space(s[i]) && s[i] != '\n' {
        spec_skip_inline(s, i + 1)
    } else {
        i
    }
}

/// First position at or after `i` holding `c` or a newline, or the end.
pub open spec fn spec_find_stop(s: Seq<char>, i: int, c: char) -> int
    decreases s.len() - i,
{
    if i < 0 || i >= s.len() {
        s.len() as int
    } else if s[i] == c || s[i] == '\n' {
        i
    } else {
        spec_find_stop(s, i + 1, c)
    }
}

/// First position at or after `i` where a token can start: whitespace is
/// skipped, and a `;` comment is skipped up to its end of line.
pub open spec fn spec_skip_ws(s: Seq<char>, i: int) -> int
    decreases s.len() - i,
{
    if i < 0 || i >= s.len() {
        s.len() as int
    } else if s[i] == ';' {
        spec_skip_ws(s, clamp_next(crate::span::spec_line_end_from(s, i), i + 1, s.len() as int))
    } else if spec_is_space(s[i]) {
        spec_skip_ws(s, i + 1)
    } else {
        i
    }
}

/// Is the word shaped like a hexadecimal literal (digits then `h`/`H`)?
pub open spec fn spec_hex_shaped(w: Seq<char>) -> bool {
    w.len() >= 2 && (w.last() == 'h' || w.last() == 'H') && spec_all_hex(w.drop_last())
}

/// Is the word shaped like a binary literal (0/1 digits then `b`/`B`)?
pub open spec fn spec_bin_shaped(w: Seq<char>) -> bool {
    w.len() >= 2 && (w.last() == 'b' || w.last() == 'B') && spec_all_bin(w.drop_last())
}

/// Classify a word that begins with a decimal digit as a numeric literal,
/// or as an `Error` token when it violates a literal rule.
pub open spec fn spec_number_token(w: Seq<char>) -> TokenView {
    if spec_all_digits(w) {
        TokenView::Constant(TypeView::NumberDecimal(spec_digits_u64(w, 10)))
    } else if spec_hex_shaped(w) {
        TokenView::Constant(TypeView::NumberHex(spec_digits_u64(w.drop_last(), 16), w))
    } else if spec_bin_shaped(w) {
        if w.len() - 1 == 8 || w.len() - 1 == 16 {
            TokenView::Constant(TypeView::NumberBinary(spec_digits_u64(w.drop_last(), 2), w))
        } else {
            TokenView::Error(
                w.drop_last() + "b (Invalid length: "@ + crate::chars::spec_dec_chars(
                    (w.len() - 1) as u64,
                ) + ", expected 8 or 16)"@,
            )
        }
    } else {
        TokenView::Error(w + " (unrecognized numeric literal)"@)
    }
}

/// Classify a word against the keyword tables: instruction mnemonics,
/// then registers, then reserved directives; a leftover word shaped like
/// a hexadecimal literal is an error (it must begin with a decimal
/// digit), and anything else is a symbol.
pub open spec fn spec_ident_token(w: Seq<char>) -> TokenView {
    let up = spec_upper(w);
    if crate::instruction::spec_classify_instruction(up) is Some {
        TokenView::Instruction(crate::instruction::spec_classify_instruction(up)->Some_0, up)
    } else if crate::register::spec_is_valid_register(up) {
        TokenView::Register(up)
    } else if crate::pseudoinstruction::spec_is_reserved(up) {
        TokenView::Pseudoinstruction(up)
    } else if spec_hex_shaped(w) {
        TokenView::Error(w + " (missing leading zero: hex literal must start with a decimal digit)"@)
    } else {
        TokenView::Symbol(w)
    }
}

/// Token for the word `s[ws..we]`, with compound-directive, `DUP(...)`
/// and numeric-literal lookahead. Returns the token and the position
/// after it (past the second word of a compound).
pub open spec fn spec_word_token(s: Seq<char>, ws: int, we: int) -> (TokenView, int) {
    let w = s.subrange(ws, we);
    let low = spec_lower(w);
    if low == ".data"@ || low == ".code"@ || low == ".stack"@ {
        let p = spec_skip_inline(s, we);
        let q = spec_word_end(s, p);
        if spec_lower(s.subrange(p, q)) == "segment"@ {
            (TokenView::Pseudoinstruction(spec_upper(w) + " SEGMENT"@), q)
        } else {
            (spec_ident_token(w), we)
        }
    } else if low == "byte"@ || low == "word"@ || low == "dword"@ {
        let p = spec_skip_inline(s, we);
        let q = spec_word_end(s, p);
        if spec_lower(s.subrange(p, q)) == "ptr"@ {
            (TokenView::Pseudoinstruction(spec_upper(w) + " PTR"@), q)
        } else {
            (spec_ident_token(w), we)
        }
    } else if low == "dup"@ {
        let p = spec_skip_inline(s, we);
        if p < s.len() && s[p] == '(' {
            let j = spec_find_stop(s, p + 1, ')');
            if j < s.len() && s[j] == ')' {
                (TokenView::Pseudoinstruction("dup("@ + s.subrange(p + 1, j) + ")"@), j + 1)
            } else {
                (spec_ident_token(w), we)
            }
        } else {
            (spec_ident_token(w), we)
        }
    } else if w.len() > 0 && spec_is_digit(w[0]) {
        (spec_number_token(w), we)
    } else {
        (spec_ident_token(w), we)
    }
}

/// The token starting at position `i` (which holds neither whitespace
/// nor a comment), and the position after it.
pub open spec fn spec_scan_at(s: Seq<char>, i: int) -> (TokenView, int) {
    let c = s[i];
    if c == '"' || c == '\'' {
        let j = spec_find_stop(s, i + 1, c);
        if j < s.len() && s[j] == c {
            let content = s.subrange(i + 1, j);
            if c == '\'' && content.len() == 1 {
                (TokenView::Constant(TypeView::Char(content[0])), j + 1)
            } else {
                (TokenView::Constant(TypeView::Text(content)), j + 1)
            }
        } else {
            // The error token's payload is the partial content collected
            // so far, opening quote included.
            (TokenView::Error(s.subrange(i, j)), j)
        }
    } else if c == '[' {
        let j = spec_find_stop(s, i + 1, ']');
        if j < s.len() && s[j] == ']' {
            (TokenView::Symbol(s.subrange(i, j + 1)), j + 1)
        } else {
            (TokenView::Punctuation(PunctuationType::LBracket), i + 1)
        }
    } else if spec_is_word_char(c) {
        spec_word_token(s, i, spec_word_end(s, i))
    } else if c == '.' && i + 1 < s.len() && spec_is_word_char(s[i + 1]) {
        spec_word_token(s, i, spec_word_end(s, i + 1))
    } else if c == ',' {
        (TokenView::Punctuation(PunctuationType::Comma), i + 1)
    } else if c == ':' {
        (TokenView::Punctuation(PunctuationType::Colon), i + 1)
    } else if c == ']' {
        (TokenView::Punctuation(PunctuationType::RBracket), i + 1)
    } else if c == '(' {
        (TokenView::Punctuation(PunctuationType::LParen), i + 1)
    } else if c == ')' {
        (TokenView::Punctuation(PunctuationType::RParen), i + 1)
    } else if c == '+' {
        (TokenView::Punctuation(PunctuationType::Plus), i + 1)
    } else if c == '-' {
        (TokenView::Punctuation(PunctuationType::Minus), i + 1)
    } else if c == '.' {
        (TokenView::Punctuation(PunctuationType::Dot), i + 1)
    } else {
        (TokenView::Error(seq![c]), i + 1)
    }
}

/// The token stream of `s` from position `i` on.
pub open spec fn spec_tokens_from(s: Seq<char>, i: int) -> Seq<(TokenView, Span)>
    decreases s.len() - i,
{
    let j = clamp_next(spec_skip_ws(s, i), i, s.len() as int);
    if j >= s.len() || i > s.len() {
        Seq::empty()
    } else {
        let te = spec_scan_at(s, j);
        let e = clamp_next(te.1, j + 1, s.len() as int);
        seq![(te.0, Span { start: j as usize, end: e as usize })] + spec_tokens_from(s, e)
    }
}

/// The whole token stream of a source text.
pub open spec fn spec_tokenize(s: Seq<char>) -> Seq<(TokenView, Span)> {
    spec_tokens_from(s, 0)
}

/// Bounds for `spec_word_end`.
pub proof fn lemma_word_end_bounds(s: Seq<char>, i: int)
    requires
        0 <= i <= s.len(),
    ensures
        i <= spec_word_end(s, i) <= s.len(),
    decreases s.len() - i,
{
    if i < s.len() && spec_is_word_char(s[i]) {
        lemma_word_end_bounds(s, i + 1);
    }
}

/// Bounds for `spec_skip_inline`.
pub proof fn lemma_skip_inline_bounds(s: Seq<char>, i: int)
    requires
        0 <= i <= s.len(),
    ensures
        i <= spec_skip_inline(s, i) <= s.len(),
    decreases s.len() - i,
{
    if i < s.len() && spec_is_space(s[i]) && s[i] != '\n' {
        lemma_skip_inline_bounds(s, i + 1);
    }
}

/// Bounds for `spec_find_stop`.
pub proof fn lemma_find_stop_bounds(s: Seq<char>, i: int, c: char)
    requires
        0 <= i <= s.len(),
    ensures
        i <= spec_find_stop(s, i, c) <= s.len(),
    decreases s.len() - i,
{
    if i < s.len() && !(s[i] == c || s[i] == '\n') {
        lemma_find_stop_bounds(s, i + 1, c);
    }
}

/// Bounds for `spec_skip_ws`.
pub proof fn lemma_skip_ws_bounds(s: Seq<char>, i: int)
    requires
        0 <= i <= s.len(),
    ensures
        i <= spec_skip_ws(s, i) <= s.len(),
    decreases s.len() - i,
{
    if i < s.len() {
        if s[i] == ';' {
            lemma_skip_ws_bounds(
                s,
                clamp_next(crate::span::spec_line_end_from(s, i), i + 1, s.len() as int),
            );
        } else if spec_is_space(s[i]) {
            lemma_skip_ws_bounds(s, i + 1);
        }
    }
}

/// Scanning always makes progress: the end of the token at `i` lies
/// strictly after `i` and within the source.
pub proof fn lemma_scan_progress(s: Seq<char>, i: int)
    requires
        0 <= i < s.len(),
    ensures
        i < spec_scan_at(s, i).1 <= s.len(),
{
    let c = s[i];
    if c == '"' || c == '\'' {
        lemma_find_stop_bounds(s, i + 1, c);
    } else if c == '[' {
        lemma_find_stop_bounds(s, i + 1, ']');
    } else if spec_is_word_char(c) {
        lemma_word_end_bounds(s, i + 1);
        assert(spec_word_end(s, i) == spec_word_end(s, i + 1));
        lemma_word_token_progress(s, i, spec_word_end(s, i));
    } else if c == '.' && i + 1 < s.len() && spec_is_word_char(s[i + 1]) {
        lemma_word_end_bounds(s, i + 2);
        assert(spec_word_end(s, i + 1) == spec_word_end(s, i + 2));
        lemma_word_token_progress(s, i, spec_word_end(s, i + 1));
    }
}

proof fn lemma_word_token_progress(s: Seq<char>, ws: int, we: int)
    requires
        0 <= ws < we <= s.len(),
    ensures
        we <= spec_word_token(s, ws, we).1 <= s.len(),
{
    lemma_skip_inline_bounds(s, we);
    let p = spec_skip_inline(s, we);
    lemma_word_end_bounds(s, p);
    if p < s.len() {
        lemma_find_stop_bounds(s, p + 1, ')');
    }
}

/// The lexer state: the source characters and the scanning position.
pub struct AssemblyLexer {
    chars: Vec<char>,
    pos: usize,
}

/// View of an optional spanned token, for contracts.
pub open spec fn spec_token_opt(r: Option<(Token, Span)>) -> Option<(TokenView, Span)> {
    match r {
        Some(ts) => Some((ts.0@, ts.1)),
        None => None,
    }
}

impl AssemblyLexer {
    /// A lexer positioned at the start of the source.
    pub fn new(source: &str) -> (r: AssemblyLexer)
        ensures
            r.spec_chars() == source@,
            r.spec_pos() == 0,
    {
        AssemblyLexer { chars: crate::chars::chars_of(source), pos: 0 }
    }

    pub closed spec fn spec_chars(&self) -> Seq<char> {
        self.chars@
    }

    pub closed spec fn spec_pos(&self) -> int {
        self.pos as int
    }

    /// The character `offset` places past the current position, if any.
    pub fn peek_char(&self, offset: usize) -> (r: Option<char>)
        ensures
            r == (if self.spec_pos() + offset < self.spec_chars().len() {
                Some(self.spec_chars()[self.spec_pos() + offset])
            } else {
                None::<char>
            }),
    {
        if self.pos < self.chars.len() && offset < self.chars.len() - self.pos {
            Some(self.chars[self.pos + offset])
        } else {
            None
        }
    }

    /// The next token and its span, advancing past it; `None` once only
    /// whitespace and comments remain.
    pub fn next_token(&mut self) -> (r: Option<(Token, Span)>)
        requires
            old(self).spec_pos() <= old(self).spec_chars().len(),
        ensures
            final(self).spec_chars() == old(self).spec_chars(),
            final(self).spec_pos() <= final(self).spec_chars().len(),
            ({
                let s = old(self).spec_chars();
                let j = spec_skip_ws(s, old(self).spec_pos());
                if j >= s.len() {
                    spec_token_opt(r) == None::<(TokenView, Span)> && final(self).spec_pos()
                        == s.len()
                } else {
                    spec_token_opt(r) == Some(
                        (
                            spec_scan_at(s, j).0,
                            Span { start: j as usize, end: spec_scan_at(s, j).1 as usize },
                        ),
                    ) && final(self).spec_pos() == spec_scan_at(s, j).1 && final(self).spec_pos()
                        > j >= old(self).spec_pos()
                }
            }),
    {
        proof {
            lemma_skip_ws_bounds(self.chars@, self.pos as int);
        }
        let j = skip_ws(&self.chars, self.pos);
        if j >= self.chars.len() {
            self.pos = self.chars.len();
            return None;
        }
        proof {
            lemma_scan_progress(self.chars@, j as int);
        }
        let (tok, end) = scan_at(&self.chars, j);
        self.pos = end;
        Some((tok, Span { start: j, end }))
    }
}

/// A lexer over the given source text.
pub fn lexer(source: &str) -> (r: AssemblyLexer)
    ensures
        r.spec_chars() == source@,
        r.spec_pos() == 0,
{
    AssemblyLexer::new(source)
}

/// View of a spanned token vector, for contracts.
pub open spec fn spec_tokens_view(v: Seq<(Token, Span)>) -> Seq<(TokenView, Span)> {
    v.map_values(|ts: (Token, Span)| (ts.0@, ts.1))
}

/// Tokenize a whole source held as characters.
pub fn tokenize_chars(chars: &Vec<char>) -> (r: Vec<(Token, Span)>)
    ensures
        spec_tokens_view(r@) == spec_tokenize(chars@),
{
    let mut lx = AssemblyLexer { chars: crate::chars::copy_chars(chars), pos: 0 };
    let mut out: Vec<(Token, Span)> = Vec::new();
    loop
        invariant
            lx.spec_chars() == chars@,
            lx.spec_pos() <= chars@.len(),
            spec_tokenize(chars@) == spec_tokens_view(out@) + spec_tokens_from(
                chars@,
                lx.spec_pos(),
            ),
        decreases chars@.len() - lx.spec_pos() + 1,
    {
        let ghost old_pos = lx.spec_pos();
        let nt = lx.next_token();
        proof {
            lemma_skip_ws_bounds(chars@, old_pos);
        }
        match nt {
            Some(ts) => {
                proof {
                    let s = chars@;
                    let j = spec_skip_ws(s, old_pos);
                    assert(clamp_next(j, old_pos, s.len() as int) == j);
                    lemma_scan_progress(s, j);
                    let e = spec_scan_at(s, j).1;
                    assert(clamp_next(e, j + 1, s.len() as int) == e);
                    assert(spec_tokens_from(s, old_pos) == seq![
                        (spec_scan_at(s, j).0, Span { start: j as usize, end: e as usize }),
                    ] + spec_tokens_from(s, e));
                    assert(spec_tokens_view(out@.push(ts)) =~= spec_tokens_view(out@) + seq![
                        (ts.0@, ts.1),
                    ]);
                }
                out.push(ts);
            },
            None => {
                proof {
                    let s = chars@;
                    let j = spec_skip_ws(s, old_pos);
                    assert(clamp_next(j, old_pos, s.len() as int) == j);
                    assert(spec_tokens_from(s, old_pos) =~= Seq::<(TokenView, Span)>::empty());
                    assert(spec_tokens_view(out@) + Seq::<(TokenView, Span)>::empty()
                        =~= spec_tokens_view(out@));
                }
                return out;
            },
        }
    }
}

/// Tokenize a source string: the ordered spanned tokens of the text.
pub fn tokenize(source: &str) -> (r: Vec<(Token, Span)>)
    ensures
        spec_tokens_view(r@) == spec_tokenize(source@),
{
    let chars = crate::chars::chars_of(source);
    tokenize_chars(&chars)
}

fn word_end(v: &Vec<char>, i: usize) -> (r: usize)
    requires
        i <= v@.len(),
    ensures
        r == spec_word_end(v@, i as int),
        i <= r <= v@.len(),
    decreases v@.len() - i,
{
    if i >= v.len() {
        v.len()
    } else if crate::chars::is_word_char(v[i]) {
        word_end(v, i + 1)
    } else {
        i
    }
}

fn skip_inline(v: &Vec<char>, i: usize) -> (r: usize)
    requires
        i <= v@.len(),
    ensures
        r == spec_skip_inline(v@, i as int),
        i <= r <= v@.len(),
    decreases v@.len() - i,
{
    if i >= v.len() {
        v.len()
    } else if crate::chars::is_space(v[i]) && v[i] != '\n' {
        skip_inline(v, i + 1)
    } else {
        i
    }
}

fn find_stop(v: &Vec<char>, i: usize, c: char) -> (r: usize)
    requires
        i <= v@.len(),
    ensures
        r == spec_find_stop(v@, i as int, c),
        i <= r <= v@.len(),
    decreases v@.len() - i,
{
    if i >= v.len() {
        v.len()
    } else if v[i] == c || v[i] == '\n' {
        i
    } else {
        find_stop(v, i + 1, c)
    }
}

fn skip_ws(v: &Vec<char>, i: usize) -> (r: usize)
    requires
        i <= v@.len(),
    ensures
        r == spec_skip_ws(v@, i as int),
        i <= r <= v@.len(),
    decreases v@.len() - i,
{
    if i >= v.len() {
        v.len()
    } else if v[i] == ';' {
        let e = crate::span::line_end_from(v, i);
        proof {
            assert(v@[i as int] != '\n');
            crate::span::lemma_line_end_bounds(v@, i + 1);
            assert(crate::span::spec_line_end_from(v@, i as int) == crate::span::spec_line_end_from(
                v@,
                i + 1,
            ));
            assert(clamp_next(e as int, i + 1, v@.len() as int) == e as int);
        }
        skip_ws(v, e)
    } else if crate::chars::is_space(v[i]) {
        skip_ws(v, i + 1)
    } else {
        i
    }
}

fn ident_token(w: &Vec<char>) -> (r: Token)
    ensures
        r@ == spec_ident_token(w@),
{
    let up = crate::chars::upper_chars(w);
    let cls = crate::instruction::classify_instruction_chars(&up);
    if let Some(t) = cls {
        Token::Instruction(t, up)
    } else if crate::register::is_valid_chars(&up) {
        Token::Register(up)
    } else if crate::pseudoinstruction::is_reserved_chars(&up) {
        Token::Pseudoinstruction(up)
    } else if hex_shaped(w) {
        let mut msg = crate::chars::copy_chars(w);
        crate::chars::append_str(
            &mut msg,
            " (missing leading zero: hex literal must start with a decimal digit)",
        );
        Token::Error(msg)
    } else {
        Token::Symbol(crate::chars::copy_chars(w))
    }
}

fn hex_shaped(w: &Vec<char>) -> (r: bool)
    ensures
        r == spec_hex_shaped(w@),
{
    if w.len() < 2 {
        return false;
    }
    let last = w[w.len() - 1];
    if !(last == 'h' || last == 'H') {
        return false;
    }
    let r = crate::constant::all_hex(w, 0, w.len() - 1);
    proof {
        assert(w@.subrange(0, w@.len() - 1) =~= w@.drop_last());
    }
    r
}

fn bin_shaped(w: &Vec<char>) -> (r: bool)
    ensures
        r == spec_bin_shaped(w@),
{
    if w.len() < 2 {
        return false;
    }
    let last = w[w.len() - 1];
    if !(last == 'b' || last == 'B') {
        return false;
    }
    let r = crate::constant::all_bin(w, 0, w.len() - 1);
    proof {
        assert(w@.subrange(0, w@.len() - 1) =~= w@.drop_last());
    }
    r
}

fn number_token(w: &Vec<char>) -> (r: Token)
    ensures
        r@ == spec_number_token(w@),
{
    let n = w.len();
    if crate::constant::all_digits(w, 0, n) {
        proof {
            assert(w@.subrange(0, w@.len() as int) =~= w@);
        }
        let val = crate::constant::digits_value(w, 0, n, 10);
        Token::Constant(Type::NumberDecimal(val))
    } else if hex_shaped(w) {
        let val = crate::constant::digits_value(w, 0, n - 1, 16);
        proof {
            assert(w@.subrange(0, w@.len() - 1) =~= w@.drop_last());
            assert(!spec_all_digits(w@)) by {
                assert(w@.subrange(0, w@.len() as int) =~= w@);
            }
        }
        Token::Constant(Type::NumberHex(val, crate::chars::copy_chars(w)))
    } else if bin_shaped(w) {
        proof {
            assert(w@.subrange(0, w@.len() as int) =~= w@);
            assert(w@.subrange(0, w@.len() - 1) =~= w@.drop_last());
        }
        if n - 1 == 8 || n - 1 == 16 {
            let val = crate::constant::digits_value(w, 0, n - 1, 2);
            Token::Constant(Type::NumberBinary(val, crate::chars::copy_chars(w)))
        } else {
            let mut msg = crate::chars::slice_chars(w, 0, n - 1);
            crate::chars::append_str(&mut msg, "b (Invalid length: ");
            let count = crate::chars::dec_chars((n - 1) as u64);
            crate::chars::append_chars(&mut msg, &count);
            crate::chars::append_str(&mut msg, ", expected 8 or 16)");
            Token::Error(msg)
        }
    } else {
        proof {
            assert(w@.subrange(0, w@.len() as int) =~= w@);
        }
        let mut msg = crate::chars::copy_chars(w);
        crate::chars::append_str(&mut msg, " (unrecognized numeric literal)");
        Token::Error(msg)
    }
}

fn word_token(v: &Vec<char>, ws: usize, we: usize) -> (r: (Token, usize))
    requires
        ws < we <= v@.len(),
    ensures
        (r.0@, r.1 as int) == spec_word_token(v@, ws as int, we as int),
        we <= r.1 <= v@.len(),
{
    proof {
        lemma_word_token_progress(v@, ws as int, we as int);
    }
    let w = crate::chars::slice_chars(v, ws, we);
    let low = crate::chars::lower_chars(&w);
    if crate::chars::chars_eq_str(&low, ".data") || crate::chars::chars_eq_str(&low, ".code")
        || crate::chars::chars_eq_str(&low, ".stack") {
        let p = skip_inline(v, we);
        let q = word_end(v, p);
        let second = crate::chars::slice_chars(v, p, q);
        let second_low = crate::chars::lower_chars(&second);
        if crate::chars::chars_eq_str(&second_low, "segment") {
            let mut text = crate::chars::upper_chars(&w);
            crate::chars::append_str(&mut text, " SEGMENT");
            (Token::Pseudoinstruction(text), q)
        } else {
            (ident_token(&w), we)
        }
    } else if crate::chars::chars_eq_str(&low, "byte") || crate::chars::chars_eq_str(&low, "word")
        || crate::chars::chars_eq_str(&low, "dword") {
        let p = skip_inline(v, we);
        let q = word_end(v, p);
        let second = crate::chars::slice_chars(v, p, q);
        let second_low = crate::chars::lower_chars(&second);
        if crate::chars::chars_eq_str(&second_low, "ptr") {
            let mut text = crate::chars::upper_chars(&w);
            crate::chars::append_str(&mut text, " PTR");
            (Token::Pseudoinstruction(text), q)
        } else {
            (ident_token(&w), we)
        }
    } else if crate::chars::chars_eq_str(&low, "dup") {
        let p = skip_inline(v, we);
        if p < v.len() && v[p] == '(' {
            let j = find_stop(v, p + 1, ')');
            if j < v.len() && v[j] == ')' {
                let mut text = crate::chars::chars_of("dup(");
                let inner = crate::chars::slice_chars(v, p + 1, j);
                crate::chars::append_chars(&mut text, &inner);
                crate::chars::append_str(&mut text, ")");
                (Token::Pseudoinstruction(text), j + 1)
            } else {
                (ident_token(&w), we)
            }
        } else {
            (ident_token(&w), we)
        }
    } else if w.len() > 0 && crate::chars::is_digit(w[0]) {
        (number_token(&w), we)
    } else {
        (ident_token(&w), we)
    }
}

fn scan_at(v: &Vec<char>, i: usize) -> (r: (Token, usize))
    requires
        i < v@.len(),
    ensures
        (r.0@, r.1 as int) == spec_scan_at(v@, i as int),
        i < r.1 <= v@.len(),
{
    let n = v.len();
    proof {
        lemma_scan_progress(v@, i as int);
        assert(n == v@.len());
    }
    let c = v[i];
    if c == '"' || c == '\'' {
        let j = find_stop(v, i + 1, c);
        if j < v.len() && v[j] == c {
            let content = crate::chars::slice_chars(v, i + 1, j);
            if c == '\'' && content.len() == 1 {
                let ch = content[0];
                (Token::Constant(Type::Char(ch)), j + 1)
            } else {
                (Token::Constant(Type::Text(content)), j + 1)
            }
        } else {
            (Token::Error(crate::chars::slice_chars(v, i, j)), j)
        }
    } else if c == '[' {
        let j = find_stop(v, i + 1, ']');
        if j < v.len() && v[j] == ']' {
            (Token::Symbol(crate::chars::slice_chars(v, i, j + 1)), j + 1)
        } else {
            (Token::Punctuation(PunctuationType::LBracket), i + 1)
        }
    } else if crate::chars::is_word_char(c) {
        let we = word_end(v, i);
        proof {
            assert(spec_word_end(v@, i as int) == spec_word_end(v@, i + 1));
        }
        word_token(v, i, we)
    } else if c == '.' && i + 1 < v.len() && crate::chars::is_word_char(v[i + 1]) {
        let we = word_end(v, i + 1);
        word_token(v, i, we)
    } else if c == ',' {
        (Token::Punctuation(PunctuationType::Comma), i + 1)
    } else if c == ':' {
        (Token::Punctuation(PunctuationType::Colon), i + 1)
    } else if c == ']' {
        (Token::Punctuation(PunctuationType::RBracket), i + 1)
    } else if c == '(' {
        (Token::Punctuation(PunctuationType::LParen), i + 1)
    } else if c == ')' {
        (Token::Punctuation(PunctuationType::RParen), i + 1)
    } else if c == '+' {
        (Token::Punctuation(PunctuationType::Plus), i + 1)
    } else if c == '-' {
        (Token::Punctuation(PunctuationType::Minus), i + 1)
    } else if c == '.' {
        (Token::Punctuation(PunctuationType::Dot), i + 1)
    } else {
        let mut msg: Vec<char> = Vec::new();
        msg.push(c);
        proof {
            assert(msg@ =~= seq![c]);
        }
        (Token::Error(msg), i + 1)
    }
}

} // verus!
