//! The analysis entry point: the whole pipeline as one pure function.
//!
//! `analyze` runs lexer, parser, validator and encoder over a source
//! string and attributes every diagnostic, address and encoding back
//! onto its physical source line. Each stage is a pure function of its
//! input, so two analyses of the same text are identical.

use vstd::prelude::*;
use crate::ast::{LineEntryView, LineNode, LineNodeView, Program, spec_program_view};
use crate::chars::spec_chars_le;
use crate::encoder::{spec_code_opt, spec_p1_run, spec_pass_two};
use crate::lexer::{spec_tokenize, spec_tokens_view};
use crate::parser::spec_parse;
use crate::span::{Span, spec_line_count, spec_line_of, spec_line_span};
use crate::token::{Token, TokenView};
use crate::validator::{CompilerError, CompilerErrorView, Stage, SymbolRecord, SymbolRecordView,
    spec_errs_view, spec_syms_view, spec_validate};

verus! {

/// Everything the analysis knows about one physical source line.
#[derive(Debug, PartialEq)]
pub struct LineAnalysis {
    pub line_number: usize,
    pub is_correct: bool,
    pub error_message: Option<Vec<char>>,
    pub instruction: Vec<char>,
    pub address: Option<u64>,
    pub machine_code: Option<Vec<u8>>,
}

/// Mathematical model of a line analysis entry.
pub struct LineAnalysisView {
    pub line_number: usize,
    pub is_correct: bool,
    pub error_message: Option<Seq<char>>,
    pub instruction: Seq<char>,
    pub address: Option<u64>,
    pub machine_code: Option<Seq<u8>>,
}

impl View for LineAnalysis {
    type V = LineAnalysisView;

    open spec fn view(&self) -> LineAnalysisView {
        LineAnalysisView {
            line_number: self.line_number,
            is_correct: self.is_correct,
            error_message: match &self.error_message {
                Some(m) => Some(m@),
                None => None,
            },
            instruction: self.instruction@,
            address: self.address,
            machine_code: match &self.machine_code {
                Some(b) => Some(b@),
                None => None,
            },
        }
    }
}

/// The result of analyzing a source text.
#[derive(Debug, PartialEq)]
pub struct AnalysisResult {
    pub success: bool,
    pub tokens: Option<Vec<(Token, Span)>>,
    pub errors: Vec<CompilerError>,
    pub program: Option<Program>,
    pub symbol_table: Vec<SymbolRecord>,
    pub line_analysis: Vec<LineAnalysis>,
}

/// Mathematical model of an analysis result.
pub struct AnalysisResultView {
    pub success: bool,
    pub tokens: Option<Seq<(TokenView, Span)>>,
    pub errors: Seq<CompilerErrorView>,
    pub program: Option<Seq<LineEntryView>>,
    pub symbol_table: Seq<SymbolRecordView>,
    pub line_analysis: Seq<LineAnalysisView>,
}

impl View for AnalysisResult {
    type V = AnalysisResultView;

    open spec fn view(&self) -> AnalysisResultView {
        AnalysisResultView {
            success: self.success,
            tokens: match &self.tokens {
                Some(v) => Some(spec_tokens_view(v@)),
                None => None,
            },
            errors: spec_errs_view(self.errors@),
            program: match &self.program {
                Some(p) => Some(spec_program_view(p@)),
                None => None,
            },
            symbol_table: spec_syms_view(self.symbol_table@),
            line_analysis: self.line_analysis@.map_values(|la: LineAnalysis| la@),
        }
    }
}

/// The diagnostics carried by error tokens, in token order, attributed
/// to the line their span starts on.
pub open spec fn spec_lex_errors(ts: Seq<(TokenView, Span)>, src: Seq<char>) -> Seq<
    CompilerErrorView,
>
    decreases ts.len(),
{
    if ts.len() == 0 {
        Seq::empty()
    } else {
        spec_lex_errors(ts.drop_last(), src) + (match ts.last().0 {
            TokenView::Error(msg) => seq![
                CompilerErrorView {
                    stage: Stage::Lex,
                    message: msg,
                    line: spec_line_of(src, ts.last().1.start as int) as usize,
                    fatal: false,
                },
            ],
            _ => Seq::empty(),
        })
    }
}

/// The text of the span, or empty when the span is malformed.
pub open spec fn spec_span_text(src: Seq<char>, sp: Span) -> Seq<char> {
    if sp.start <= sp.end <= src.len() {
        src.subrange(sp.start as int, sp.end as int)
    } else {
        Seq::empty()
    }
}

/// One diagnosed parse error per line whose node is an error, in line
/// order.
pub open spec fn spec_parse_errors(prog: Seq<LineEntryView>, src: Seq<char>) -> Seq<
    CompilerErrorView,
>
    decreases prog.len(),
{
    if prog.len() == 0 {
        Seq::empty()
    } else {
        spec_parse_errors(prog.drop_last(), src) + (match prog.last().node {
            LineNodeView::Error(_) => seq![
                CompilerErrorView {
                    stage: Stage::Parse,
                    message: crate::diagnostics::spec_diagnose(
                        spec_span_text(src, prog.last().span),
                    ),
                    line: prog.len() as usize,
                    fatal: false,
                },
            ],
            _ => Seq::empty(),
        })
    }
}

/// The message of the first diagnostic attributed to line `ln`, if any.
pub open spec fn spec_first_err(errs: Seq<CompilerErrorView>, ln: nat) -> Option<Seq<char>>
    decreases errs.len(),
{
    if errs.len() == 0 {
        None
    } else if errs[0].line == ln {
        Some(errs[0].message)
    } else {
        spec_first_err(errs.skip(1), ln)
    }
}

/// Insert a record into a name-sorted sequence, before the first record
/// whose name is not smaller.
pub open spec fn spec_insert_sym(sorted: Seq<SymbolRecordView>, x: SymbolRecordView) -> Seq<
    SymbolRecordView,
>
    decreases sorted.len(),
{
    if sorted.len() == 0 {
        seq![x]
    } else if spec_chars_le(x.name, sorted[0].name) {
        seq![x] + sorted
    } else {
        seq![sorted[0]] + spec_insert_sym(sorted.skip(1), x)
    }
}

/// Insertion sort of the symbol table by name.
pub open spec fn spec_sort_syms(s: Seq<SymbolRecordView>) -> Seq<SymbolRecordView>
    decreases s.len(),
{
    if s.len() == 0 {
        Seq::empty()
    } else {
        spec_insert_sym(spec_sort_syms(s.drop_last()), s.last())
    }
}

/// The whole analysis of a source text. When lexing yields no tokens at
/// all, the later stages are skipped early: the result then carries no
/// token list, no program and no symbols, only the per-line breakdown.
/// Since a total lexer collects no diagnostics on such input, the
/// success flag — defined solely as "the diagnostic list is empty" —
/// still reads true for it; success never means more than the absence
/// of diagnostics. Otherwise every diagnostic, address and encoding is
/// computed and attributed by line.
pub open spec fn spec_analyze(src: Seq<char>) -> AnalysisResultView {
    let toks = spec_tokenize(src);
    if toks.len() == 0 {
        AnalysisResultView {
            success: true,
            tokens: None,
            errors: Seq::empty(),
            program: None,
            symbol_table: Seq::empty(),
            line_analysis: Seq::new(
                spec_line_count(src),
                |ix: int|
                    LineAnalysisView {
                        line_number: (ix + 1) as usize,
                        is_correct: true,
                        error_message: None,
                        instruction: spec_span_text(src, spec_line_span(src, (ix + 1) as nat)),
                        address: None,
                        machine_code: None,
                    },
            ),
        }
    } else {
        let prog = spec_parse(src, toks);
        let errors = spec_lex_errors(toks, src) + spec_parse_errors(prog, src) + spec_validate(
            prog,
        ).0;
        let p1 = spec_p1_run(prog, spec_validate(prog).1, prog.len() as int);
        let codes = spec_pass_two(prog);
        AnalysisResultView {
            success: errors.len() == 0,
            tokens: Some(toks),
            errors: errors,
            program: Some(prog),
            symbol_table: spec_sort_syms(p1.syms),
            line_analysis: Seq::new(
                spec_line_count(src),
                |ix: int|
                    LineAnalysisView {
                        line_number: (ix + 1) as usize,
                        is_correct: spec_first_err(errors, (ix + 1) as nat) is None,
                        error_message: spec_first_err(errors, (ix + 1) as nat),
                        instruction: spec_span_text(src, spec_line_span(src, (ix + 1) as nat)),
                        address: if 0 <= ix < p1.addrs.len() {
                            Some(p1.addrs[ix])
                        } else {
                            None
                        },
                        machine_code: if 0 <= ix < codes.len() {
                            codes[ix]
                        } else {
                            None
                        },
                    },
            ),
        }
    }
}

/// Every analysis has exactly one line-analysis entry per physical line
/// of the source, and, when a program is produced, one program entry
/// per physical line as well.
pub proof fn lemma_line_analysis_length(src: Seq<char>)
    ensures
        spec_analyze(src).line_analysis.len() == spec_line_count(src),
        spec_analyze(src).program matches Some(p) ==> p.len() == spec_line_count(src),
{
}

/// Analysis is a pure function of the source text: two results of
/// analyzing the same text are identical. Together with the contract of
/// `analyze`, this states that repeated calls yield identical results —
/// there is no hidden state.
pub proof fn lemma_analyze_idempotent(
    src: Seq<char>,
    r1: AnalysisResultView,
    r2: AnalysisResultView,
)
    requires
        r1 == spec_analyze(src),
        r2 == spec_analyze(src),
    ensures
        r1 == r2,
{
}

fn lex_errors(tokens: &Vec<(Token, Span)>, src: &Vec<char>) -> (r: Vec<CompilerError>)
    requires
        src@.len() < usize::MAX,
    ensures
        spec_errs_view(r@) == spec_lex_errors(spec_tokens_view(tokens@), src@),
{
    let ghost tv = spec_tokens_view(tokens@);
    let mut out: Vec<CompilerError> = Vec::new();
    let mut i: usize = 0;
    while i < tokens.len()
        invariant
            i <= tokens@.len(),
            src@.len() < usize::MAX,
            tv == spec_tokens_view(tokens@),
            spec_errs_view(out@) == spec_lex_errors(tv.take(i as int), src@),
        decreases tokens.len() - i,
    {
        proof {
            assert(tv.take(i + 1).drop_last() =~= tv.take(i as int));
            assert(tv.take(i + 1).last() == tv[i as int]);
            assert(tv[i as int] == (tokens@[i as int].0@, tokens@[i as int].1));
        }
        match &tokens[i].0 {
            Token::Error(msg) => {
                let ln = crate::span::line_of(src, tokens[i].1.start);
                let e = CompilerError {
                    stage: Stage::Lex,
                    message: crate::chars::copy_chars(msg),
                    line: ln,
                    fatal: false,
                };
                proof {
                    assert(spec_errs_view(out@.push(e)) =~= spec_errs_view(out@).push(e@));
                    assert(spec_errs_view(out@).push(e@) =~= spec_lex_errors(
                        tv.take(i + 1),
                        src@,
                    ));
                }
                out.push(e);
            },
            _ => {
                proof {
                    assert(spec_errs_view(out@) =~= spec_lex_errors(tv.take(i + 1), src@));
                }
            },
        }
        i += 1;
    }
    proof {
        assert(tv.take(tokens@.len() as int) =~= tv);
    }
    out
}

fn parse_errors(prog: &Program, src: &Vec<char>) -> (r: Vec<CompilerError>)
    ensures
        spec_errs_view(r@) == spec_parse_errors(spec_program_view(prog@), src@),
{
    let ghost pv = spec_program_view(prog@);
    let mut out: Vec<CompilerError> = Vec::new();
    let mut i: usize = 0;
    while i < prog.len()
        invariant
            i <= prog@.len(),
            pv == spec_program_view(prog@),
            pv.len() == prog@.len(),
            spec_errs_view(out@) == spec_parse_errors(pv.take(i as int), src@),
        decreases prog.len() - i,
    {
        proof {
            assert(pv.take(i + 1).drop_last() =~= pv.take(i as int));
            assert(pv.take(i + 1).last() == pv[i as int]);
            assert(pv[i as int] == prog@[i as int]@);
        }
        let entry = &prog[i];
        match &entry.node {
            LineNode::Error(_) => {
                let sp = entry.span;
                let text: Vec<char> = if sp.start <= sp.end && sp.end <= src.len() {
                    crate::chars::slice_chars(src, sp.start, sp.end)
                } else {
                    Vec::new()
                };
                proof {
                    assert(text@ == spec_span_text(src@, sp));
                }
                let msg = crate::diagnostics::diagnose_chars(&text);
                let e = CompilerError { stage: Stage::Parse, message: msg, line: i + 1, fatal: false };
                proof {
                    assert(spec_errs_view(out@.push(e)) =~= spec_errs_view(out@).push(e@));
                    assert(spec_errs_view(out@).push(e@) =~= spec_parse_errors(
                        pv.take(i + 1),
                        src@,
                    ));
                }
                out.push(e);
            },
            _ => {
                proof {
                    assert(spec_errs_view(out@) =~= spec_parse_errors(pv.take(i + 1), src@));
                }
            },
        }
        i += 1;
    }
    proof {
        assert(pv.take(prog@.len() as int) =~= pv);
    }
    out
}

/// Append the contents of `more` onto `dst`, in order.
fn extend_errors(dst: &mut Vec<CompilerError>, mut more: Vec<CompilerError>)
    ensures
        spec_errs_view(final(dst)@) == spec_errs_view(old(dst)@) + spec_errs_view(more@),
{
    let ghost base = spec_errs_view(dst@);
    let ghost mv = spec_errs_view(more@);
    let total = more.len();
    proof {
        assert(mv.len() == total);
    }
    let mut taken_count: usize = 0;
    while more.len() > 0
        invariant
            taken_count <= mv.len(),
            mv.len() == total,
            taken_count + more@.len() == mv.len(),
            spec_errs_view(more@) == mv.skip(taken_count as int),
            spec_errs_view(dst@) == base + mv.take(taken_count as int),
        decreases more.len(),
    {
        let e = more.remove(0);
        proof {
            assert(spec_errs_view(more@) =~= mv.skip(taken_count as int).skip(1));
            assert(mv.skip(taken_count as int).skip(1) =~= mv.skip(taken_count + 1));
            assert(e@ == mv.skip(taken_count as int)[0]);
            assert(e@ == mv[taken_count as int]);
            assert(spec_errs_view(dst@.push(e)) =~= spec_errs_view(dst@).push(e@));
            assert((base + mv.take(taken_count as int)).push(mv[taken_count as int]) =~= base
                + mv.take(taken_count + 1));
        }
        dst.push(e);
        taken_count += 1;
    }
    proof {
        assert(mv.take(taken_count as int) =~= mv);
    }
}

proof fn lemma_insert_sym_at(sorted: Seq<SymbolRecordView>, x: SymbolRecordView, ix: int)
    requires
        0 <= ix <= sorted.len(),
        forall|k: int| 0 <= k < ix ==> !spec_chars_le(x.name, (#[trigger] sorted[k]).name),
        ix < sorted.len() ==> spec_chars_le(x.name, sorted[ix].name),
    ensures
        spec_insert_sym(sorted, x) == sorted.insert(ix, x),
    decreases ix,
{
    if ix == 0 {
        if sorted.len() == 0 {
            assert(spec_insert_sym(sorted, x) =~= sorted.insert(0, x));
        } else {
            assert(spec_insert_sym(sorted, x) =~= sorted.insert(0, x));
        }
    } else {
        assert(!spec_chars_le(x.name, sorted[0].name));
        lemma_insert_sym_at(sorted.skip(1), x, ix - 1);
        assert(spec_insert_sym(sorted, x) =~= sorted.insert(ix, x));
    }
}

fn insert_symbol(sorted: &mut Vec<SymbolRecord>, x: SymbolRecord)
    ensures
        spec_syms_view(final(sorted)@) == spec_insert_sym(spec_syms_view(old(sorted)@), x@),
{
    let ghost sv = spec_syms_view(sorted@);
    let mut ix: usize = 0;
    while ix < sorted.len() && !crate::chars::chars_le(&x.name, &sorted[ix].name)
        invariant
            ix <= sorted@.len(),
            sv == spec_syms_view(sorted@),
            forall|k: int| 0 <= k < ix ==> !spec_chars_le(x@.name, (#[trigger] sv[k]).name),
        decreases sorted.len() - ix,
    {
        proof {
            assert(sv[ix as int] == sorted@[ix as int]@);
        }
        ix += 1;
    }
    proof {
        if ix < sorted@.len() {
            assert(sv[ix as int] == sorted@[ix as int]@);
        }
        lemma_insert_sym_at(sv, x@, ix as int);
    }
    let ghost xv = x@;
    sorted.insert(ix, x);
    proof {
        assert(spec_syms_view(sorted@) =~= sv.insert(ix as int, xv));
    }
}

/// Sort the symbol table by name, with insertion sort.
fn sort_symbols(mut syms: Vec<SymbolRecord>) -> (r: Vec<SymbolRecord>)
    ensures
        spec_syms_view(r@) == spec_sort_syms(spec_syms_view(syms@)),
{
    let ghost sv = spec_syms_view(syms@);
    let total = syms.len();
    proof {
        assert(sv.len() == total);
    }
    let mut out: Vec<SymbolRecord> = Vec::new();
    let mut taken: usize = 0;
    while syms.len() > 0
        invariant
            taken <= sv.len(),
            sv.len() == total,
            taken + syms@.len() == sv.len(),
            spec_syms_view(syms@) == sv.skip(taken as int),
            spec_syms_view(out@) == spec_sort_syms(sv.take(taken as int)),
        decreases syms.len(),
    {
        let rec = syms.remove(0);
        proof {
            assert(spec_syms_view(syms@) =~= sv.skip(taken as int).skip(1));
            assert(sv.skip(taken as int).skip(1) =~= sv.skip(taken + 1));
            assert(rec@ == sv.skip(taken as int)[0]);
            assert(rec@ == sv[taken as int]);
            assert(sv.take(taken + 1).drop_last() =~= sv.take(taken as int));
            assert(sv.take(taken + 1).last() == sv[taken as int]);
        }
        insert_symbol(&mut out, rec);
        taken += 1;
    }
    proof {
        assert(sv.take(taken as int) =~= sv);
    }
    out
}

fn first_err(errs: &Vec<CompilerError>, ln: usize) -> (r: Option<Vec<char>>)
    ensures
        match r {
            Some(m) => spec_first_err(spec_errs_view(errs@), ln as nat) == Some(m@),
            None => spec_first_err(spec_errs_view(errs@), ln as nat) is None,
        },
{
    let ghost ev = spec_errs_view(errs@);
    proof {
        assert(ev.skip(0) =~= ev);
    }
    let mut i: usize = 0;
    while i < errs.len()
        invariant
            i <= errs@.len(),
            ev == spec_errs_view(errs@),
            spec_first_err(ev, ln as nat) == spec_first_err(ev.skip(i as int), ln as nat),
        decreases errs.len() - i,
    {
        proof {
            assert(ev.skip(i as int)[0] == ev[i as int]);
            assert(ev[i as int] == errs@[i as int]@);
            assert(ev.skip(i as int).skip(1) =~= ev.skip(i + 1));
        }
        if errs[i].line == ln {
            return Some(crate::chars::copy_chars(&errs[i].message));
        }
        i += 1;
    }
    proof {
        assert(ev.skip(errs@.len() as int).len() == 0);
    }
    None
}

/// Analyze a source text: tokenize, parse, validate and encode it, and
/// attribute every diagnostic, address and encoding back onto its
/// physical source line. The result is a pure function of the text.
#[verifier::loop_isolation(false)]
pub fn analyze(source: &str) -> (r: AnalysisResult)
    requires
        source@.len() < usize::MAX,
    ensures
        r@ == spec_analyze(source@),
{
    let src = crate::chars::chars_of(source);
    let tokens = crate::lexer::tokenize_chars(&src);
    let n = crate::span::line_count(&src);
    if tokens.len() == 0 {
        proof {
            assert(spec_tokens_view(tokens@).len() == 0);
        }
        let mut la: Vec<LineAnalysis> = Vec::new();
        let mut ix: usize = 0;
        while ix < n
            invariant
                ix <= n,
                n == spec_line_count(src@),
                src@ == source@,
                src@.len() < usize::MAX,
                la@.len() == ix,
                forall|k: int|
                    0 <= k < ix ==> (#[trigger] la@[k])@ == spec_analyze(
                        source@,
                    ).line_analysis[k],
            decreases n - ix,
        {
            let sp = crate::span::line_span(&src, ix + 1);
            let text = crate::chars::slice_chars(&src, sp.start, sp.end);
            proof {
                assert(text@ == spec_span_text(src@, sp));
            }
            let entry = LineAnalysis {
                line_number: ix + 1,
                is_correct: true,
                error_message: None,
                instruction: text,
                address: None,
                machine_code: None,
            };
            proof {
                assert(entry@ == spec_analyze(source@).line_analysis[ix as int]);
            }
            la.push(entry);
            ix += 1;
        }
        let r = AnalysisResult {
            success: true,
            tokens: None,
            errors: Vec::new(),
            program: None,
            symbol_table: Vec::new(),
            line_analysis: la,
        };
        proof {
            assert(spec_errs_view(r.errors@) =~= Seq::<CompilerErrorView>::empty());
            assert(spec_syms_view(r.symbol_table@) =~= Seq::<SymbolRecordView>::empty());
            assert(r.line_analysis@.map_values(|x: LineAnalysis| x@) =~= spec_analyze(
                source@,
            ).line_analysis);
        }
        return r;
    }
    let ghost toks = spec_tokenize(source@);
    let ghost pv = spec_parse(source@, toks);
    let mut errors = lex_errors(&tokens, &src);
    let prog = crate::parser::parse(&src, &tokens);
    let perrs = parse_errors(&prog, &src);
    extend_errors(&mut errors, perrs);
    let (serrs, mut syms) = crate::validator::validate(&prog);
    extend_errors(&mut errors, serrs);
    let addrs = crate::encoder::pass_one(&prog, &mut syms);
    let mut codes = crate::encoder::pass_two(&prog);
    let sorted = sort_symbols(syms);
    let success = errors.len() == 0;
    let ghost ev = spec_lex_errors(toks, source@) + spec_parse_errors(pv, source@) + spec_validate(
        pv,
    ).0;
    let ghost codesv = spec_pass_two(pv);
    proof {
        assert(spec_errs_view(errors@) == ev);
        assert(codes@.map_values(|o: Option<Vec<u8>>| spec_code_opt(o)) == codesv);
        assert(pv.len() == spec_line_count(source@));
        assert(addrs@.len() == pv.len());
        assert(codes@.len() == codesv.len());
    }
    let mut la: Vec<LineAnalysis> = Vec::new();
    let mut ix: usize = 0;
    while ix < n
        invariant
            ix <= n,
            n == spec_line_count(src@),
            src@ == source@,
            src@.len() < usize::MAX,
            ev == spec_errs_view(errors@),
            addrs@.len() == n,
            codes@.len() == n - ix,
            codesv.len() == n,
            codes@.map_values(|o: Option<Vec<u8>>| spec_code_opt(o)) == codesv.skip(ix as int),
            la@.len() == ix,
            forall|k: int|
                0 <= k < ix ==> (#[trigger] la@[k])@ == spec_analyze(source@).line_analysis[k],
        decreases n - ix,
    {
        let sp = crate::span::line_span(&src, ix + 1);
        let text = crate::chars::slice_chars(&src, sp.start, sp.end);
        proof {
            assert(text@ == spec_span_text(src@, sp));
        }
        let msg = first_err(&errors, ix + 1);
        let is_ok = msg.is_none();
        let code = codes.remove(0);
        proof {
            let ghost old_codes = codesv.skip(ix as int);
            assert(spec_code_opt(code) == old_codes[0]);
            assert(old_codes[0] == codesv[ix as int]);
            assert(codes@.map_values(|o: Option<Vec<u8>>| spec_code_opt(o)) =~= codesv.skip(
                ix as int,
            ).skip(1));
            assert(codesv.skip(ix as int).skip(1) =~= codesv.skip(ix + 1));
        }
        let entry = LineAnalysis {
            line_number: ix + 1,
            is_correct: is_ok,
            error_message: msg,
            instruction: text,
            address: Some(addrs[ix]),
            machine_code: code,
        };
        proof {
            assert(entry@ == spec_analyze(source@).line_analysis[ix as int]);
        }
        la.push(entry);
        ix += 1;
    }
    let r = AnalysisResult {
        success,
        tokens: Some(tokens),
        errors,
        program: Some(prog),
        symbol_table: sorted,
        line_analysis: la,
    };
    proof {
        assert(r.line_analysis@.map_values(|x: LineAnalysis| x@) =~= spec_analyze(
            source@,
        ).line_analysis);
        assert(r@ == spec_analyze(source@));
    }
    r
}

} // verus!
