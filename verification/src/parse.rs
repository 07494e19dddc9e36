//! turns lexical tokens into syntactic tokens, and those into semantic tokens

use vstd::prelude::*;
use crate::types::{Tok, Token, TokV, TokenV, Keyword, Type, Section, well_sized, toks_view, tok_view, lemma_toks_view_push, lemma_tokens_view_subrange, token_view, tokens_view, copy_token,
    lemma_tokens_view_push, lemma_tokens_view_index};
use crate::errors::{Report, ReportV, reports_view, error_at, error_about, report_error, report_error_about,
    Subject, SubjectV, shown_of, show};
use crate::text::{lit, bytes_eq_str};

verus! {

/// the keyword that a word after `!` names
pub open spec fn spec_keyword_of(w: Seq<u8>) -> Option<Keyword> {
    if w == lit("section") {
        Some(Keyword::Section)
    } else if w == lit("purpose") {
        Some(Keyword::Purpose)
    } else if w == lit("name") {
        Some(Keyword::Name)
    } else if w == lit("invar") {
        Some(Keyword::Invar)
    } else if w == lit("some") {
        Some(Keyword::SomeFlags)
    } else if w == lit("none") {
        Some(Keyword::NoneFlags)
    } else if w == lit("str") {
        Some(Keyword::Str)
    } else if w == lit("fstr") {
        Some(Keyword::Fstr)
    } else if w == lit("s32") {
        Some(Keyword::S32)
    } else if w == lit("f64") {
        Some(Keyword::F64)
    } else if w == lit("res") {
        Some(Keyword::Res)
    } else if w == lit("cutoff") {
        Some(Keyword::Cutoff)
    } else {
        None
    }
}

/// recognizes the word of a keyword declaration
pub fn keyword_of(w: &[u8]) -> (r: Option<Keyword>)
    ensures
        r == spec_keyword_of(w@),
{
    if bytes_eq_str(w, "section") {
        return Some(Keyword::Section);
    }
    if bytes_eq_str(w, "purpose") {
        return Some(Keyword::Purpose);
    }
    if bytes_eq_str(w, "name") {
        return Some(Keyword::Name);
    }
    if bytes_eq_str(w, "invar") {
        return Some(Keyword::Invar);
    }
    if bytes_eq_str(w, "some") {
        return Some(Keyword::SomeFlags);
    }
    if bytes_eq_str(w, "none") {
        return Some(Keyword::NoneFlags);
    }
    if bytes_eq_str(w, "str") {
        return Some(Keyword::Str);
    }
    if bytes_eq_str(w, "fstr") {
        return Some(Keyword::Fstr);
    }
    if bytes_eq_str(w, "s32") {
        return Some(Keyword::S32);
    }
    if bytes_eq_str(w, "f64") {
        return Some(Keyword::F64);
    }
    if bytes_eq_str(w, "res") {
        return Some(Keyword::Res);
    }
    if bytes_eq_str(w, "cutoff") {
        return Some(Keyword::Cutoff);
    }
    None
}

/// the state of a pass over a token stream: what it has built, what it has reported, and whether
/// an error occurred
pub struct PassSt {
    pub build: Seq<TokenV>,
    pub reports: Seq<ReportV>,
    pub haderr: bool,
}

pub open spec fn err_st(st: PassSt, message: &str, line: u32, column: u32) -> PassSt {
    PassSt { reports: st.reports.push(error_at(message, line, column)), haderr: true, ..st }
}

/// an error that shows the offending token `n`, at its position
pub open spec fn err_tok_st(st: PassSt, message: &str, n: TokenV) -> PassSt {
    PassSt { reports: st.reports.push(error_about(message, SubjectV::Token(shown_of(n.tok)), n.line, n.column)), haderr: true, ..st }
}

pub open spec fn push_st(st: PassSt, t: TokenV) -> PassSt {
    PassSt { build: st.build.push(t), ..st }
}

/// one step of the syntactic pass at position `i`: the new state and the next position
pub open spec fn syn_step(ts: Seq<TokenV>, i: int, st: PassSt) -> (PassSt, int) {
    let t = ts[i];
    match t.tok {
        TokV::Symbol(c) => if c == 58 {
            if st.build.len() > 0 && st.build.last().tok is Word {
                let last = st.build.last();
                (PassSt { build: st.build.update(st.build.len() - 1, TokenV { tok: TokV::Label(last.tok->Word_0), ..last }), ..st }, i + 1)
            } else {
                (err_st(st, "invalid label", t.line, t.column), i + 1)
            }
        } else if c == 33 {
            if i + 1 < ts.len() {
                let n = ts[i + 1];
                match n.tok {
                    TokV::Word(w) => match spec_keyword_of(w) {
                        Some(kw) => (push_st(st, TokenV { tok: TokV::Keyword(kw), line: n.line, column: n.column }), i + 2),
                        None => (err_tok_st(st, "invalid keyword", n), i + 1),
                    },
                    TokV::Symbol(d) => if d == 33 {
                        (push_st(st, TokenV { tok: TokV::Type(crate::types::Type::Invalid), line: n.line, column: n.column }), i + 2)
                    } else {
                        (err_tok_st(st, "invalid keyword", n), i + 1)
                    },
                    _ => (err_tok_st(st, "invalid keyword", n), i + 1),
                }
            } else {
                (err_st(st, "incomplete keyword declaration", t.line, t.column), i + 1)
            }
        } else if c == 36 {
            if i + 1 < ts.len() {
                let n = ts[i + 1];
                match n.tok {
                    TokV::UInt(v) => (push_st(st, TokenV { tok: TokV::Addr(v as u32), line: t.line, column: t.column }), i + 2),
                    _ => (err_tok_st(st, "invalid memory address", n), i + 1),
                }
            } else {
                (err_st(st, "incomplete memory address declaration", t.line, t.column), i + 1)
            }
        } else {
            (push_st(st, t), i + 1)
        },
        _ => (push_st(st, t), i + 1),
    }
}

pub open spec fn syn_run(ts: Seq<TokenV>, i: int, st: PassSt) -> PassSt
    decreases ts.len() - i,
{
    if i >= ts.len() || i < 0 {
        st
    } else {
        let (st2, j) = syn_step(ts, i, st);
        if j <= i {
            st2
        } else {
            syn_run(ts, j, st2)
        }
    }
}

pub open spec fn pass_init() -> PassSt {
    PassSt { build: seq![], reports: seq![], haderr: false }
}

/// what the syntactic pass makes of a token stream
pub open spec fn spec_syntactic_parse(ts: Seq<TokenV>) -> PassSt {
    syn_run(ts, 0, pass_init())
}

/// the result of a pass matches its state: the tokens it built, as `Err` where an error occurred,
/// and the diagnostics it appended
pub open spec fn pass_result_matches<'a>(st: PassSt, r: Result<Vec<Token<'a>>, Vec<Token<'a>>>, old_reports: Seq<Report>, new_reports: Seq<Report>) -> bool {
    &&& reports_view(new_reports) == reports_view(old_reports) + st.reports
    &&& match r {
        Ok(t) => !st.haderr && tokens_view(t@) == st.build,
        Err(t) => st.haderr && tokens_view(t@) == st.build,
    }
}

/// convert lexical tokens into syntactic tokens: labels, keywords and addresses
pub fn syntactic_parse<'a>(toks: Vec<Token<'a>>, reports: &mut Vec<Report>) -> (r: Result<Vec<Token<'a>>, Vec<Token<'a>>>)
    ensures
        pass_result_matches(spec_syntactic_parse(tokens_view(toks@)), r, old(reports)@, final(reports)@),
{
    let ghost ts = tokens_view(toks@);
    proof { lemma_tokens_view_index(toks@); }
    let mut build: Vec<Token<'a>> = Vec::new();
    let mut reps: Vec<Report> = Vec::new();
    let mut haderr = false;
    let l = toks.len();
    let mut i: usize = 0;
    assert(tokens_view(build@) =~= seq![]);
    assert(reports_view(reps@) =~= seq![]);
    while i < l
        invariant
            l == toks@.len(),
            ts == tokens_view(toks@),
            ts.len() == toks@.len(),
            forall|k: int| 0 <= k < toks@.len() ==> #[trigger] ts[k] == token_view(toks@[k]),
            i <= l,
            spec_syntactic_parse(ts) == syn_run(ts, i as int, PassSt { build: tokens_view(build@), reports: reports_view(reps@), haderr }),
        decreases l - i,
    {
        let ghost st = PassSt { build: tokens_view(build@), reports: reports_view(reps@), haderr };
        let ghost gi = i;
        proof { lemma_tokens_view_index(build@); }
        let mut pushed: Option<Token<'a>> = None;
        match &toks[i].tok {
            Tok::Symbol(c) => {
                if *c == 58 {
                    let n = build.len();
                    let mut relabel: Option<Token<'a>> = None;
                    if n > 0 {
                        if let Tok::Word(w) = &build[n - 1].tok {
                            relabel = Some(Token { tok: Tok::Label(*w), line: build[n - 1].line, column: build[n - 1].column });
                        }
                    }
                    match relabel {
                        Some(t) => {
                            let ghost old_build = build@;
                            build.set(n - 1, t);
                            proof {
                                assert(build@ == old_build.update(n - 1, t));
                                assert(build@.drop_last() =~= old_build.drop_last());
                                assert(tokens_view(build@) =~= st.build.update(n - 1, token_view(t)));
                            }
                        },
                        None => {
                            haderr = true;
                            report_error(&mut reps, "invalid label", toks[i].line, toks[i].column);
                        },
                    }
                    i += 1;
                } else if *c == 33 {
                    if i + 1 < l {
                        match &toks[i + 1].tok {
                            Tok::Word(w) => {
                                match keyword_of(*w) {
                                    Some(kw) => {
                                        i += 1;
                                        pushed = Some(Token { tok: Tok::Keyword(kw), line: toks[i].line, column: toks[i].column });
                                    },
                                    None => {
                                        haderr = true;
                                        report_error_about(&mut reps, "invalid keyword", Subject::Token(show(&toks[i + 1].tok)), toks[i + 1].line, toks[i + 1].column);
                                    },
                                }
                            },
                            Tok::Symbol(d) => {
                                if *d == 33 {
                                    i += 1;
                                    pushed = Some(Token { tok: Tok::Type(crate::types::Type::Invalid), line: toks[i].line, column: toks[i].column });
                                } else {
                                    haderr = true;
                                    report_error_about(&mut reps, "invalid keyword", Subject::Token(show(&toks[i + 1].tok)), toks[i + 1].line, toks[i + 1].column);
                                }
                            },
                            _ => {
                                haderr = true;
                                report_error_about(&mut reps, "invalid keyword", Subject::Token(show(&toks[i + 1].tok)), toks[i + 1].line, toks[i + 1].column);
                            },
                        }
                    } else {
                        haderr = true;
                        report_error(&mut reps, "incomplete keyword declaration", toks[i].line, toks[i].column);
                    }
                    i += 1;
                } else if *c == 36 {
                    if i + 1 < l {
                        match &toks[i + 1].tok {
                            Tok::UInt(v) => {
                                pushed = Some(Token { tok: Tok::Addr(*v as u32), line: toks[i].line, column: toks[i].column });
                                i += 1;
                            },
                            _ => {
                                haderr = true;
                                report_error_about(&mut reps, "invalid memory address", Subject::Token(show(&toks[i + 1].tok)), toks[i + 1].line, toks[i + 1].column);
                            },
                        }
                    } else {
                        haderr = true;
                        report_error(&mut reps, "incomplete memory address declaration", toks[i].line, toks[i].column);
                    }
                    i += 1;
                } else {
                    pushed = Some(copy_token(&toks[i]));
                    i += 1;
                }
            },
            _ => {
                pushed = Some(copy_token(&toks[i]));
                i += 1;
            },
        }
        match pushed {
            Some(t) => {
                proof { lemma_tokens_view_push(build@, t); }
                build.push(t);
            },
            None => {},
        }
        proof {
            let (st2, j) = syn_step(ts, gi as int, st);
            assert(j == i);
            assert(tokens_view(build@) =~= st2.build);
            assert(reports_view(reps@) =~= st2.reports);
        }
    }
    let ghost fin = PassSt { build: tokens_view(build@), reports: reports_view(reps@), haderr };
    let ghost before = reports@;
    let ghost added = reps@;
    reports.append(&mut reps);
    assert(reports_view(reports@) =~= reports_view(before) + reports_view(added));
    if haderr {
        Err(build)
    } else {
        Ok(build)
    }
}

/// the type that a word names in a parameter or return type
pub open spec fn spec_type_of_word(w: Seq<u8>) -> Option<Type> {
    if w == lit("u8") {
        Some(Type::U8)
    } else if w == lit("u16") {
        Some(Type::U16)
    } else if w == lit("u32") {
        Some(Type::U32)
    } else if w == lit("u64") {
        Some(Type::U64)
    } else if w == lit("u128") {
        Some(Type::U128)
    } else if w == lit("s8") {
        Some(Type::S8)
    } else if w == lit("s16") {
        Some(Type::S16)
    } else if w == lit("s32") {
        Some(Type::S32)
    } else if w == lit("s64") {
        Some(Type::S64)
    } else if w == lit("s128") {
        Some(Type::S128)
    } else if w == lit("void") {
        Some(Type::Void)
    } else if w == lit("sstr") {
        Some(Type::Sstr)
    } else if w == lit("lstr") {
        Some(Type::Lstr)
    } else if w == lit("struct") {
        Some(Type::Struct)
    } else if w == lit("any") {
        Some(Type::Any)
    } else {
        None
    }
}

/// recognizes the word of a basic type
pub fn type_of_word(w: &[u8]) -> (r: Option<Type>)
    ensures
        r == spec_type_of_word(w@),
{
    if bytes_eq_str(w, "u8") {
        return Some(Type::U8);
    }
    if bytes_eq_str(w, "u16") {
        return Some(Type::U16);
    }
    if bytes_eq_str(w, "u32") {
        return Some(Type::U32);
    }
    if bytes_eq_str(w, "u64") {
        return Some(Type::U64);
    }
    if bytes_eq_str(w, "u128") {
        return Some(Type::U128);
    }
    if bytes_eq_str(w, "s8") {
        return Some(Type::S8);
    }
    if bytes_eq_str(w, "s16") {
        return Some(Type::S16);
    }
    if bytes_eq_str(w, "s32") {
        return Some(Type::S32);
    }
    if bytes_eq_str(w, "s64") {
        return Some(Type::S64);
    }
    if bytes_eq_str(w, "s128") {
        return Some(Type::S128);
    }
    if bytes_eq_str(w, "void") {
        return Some(Type::Void);
    }
    if bytes_eq_str(w, "sstr") {
        return Some(Type::Sstr);
    }
    if bytes_eq_str(w, "lstr") {
        return Some(Type::Lstr);
    }
    if bytes_eq_str(w, "struct") {
        return Some(Type::Struct);
    }
    if bytes_eq_str(w, "any") {
        return Some(Type::Any);
    }
    None
}

/// the type read from tokens `k..` in bracket state `b`, with its diagnostics and whether an error
/// occurred; reading stops at the first error
pub open spec fn pt_run(ts: Seq<TokenV>, k: int, t: Type, b: int) -> (Type, Seq<ReportV>, bool)
    decreases ts.len() - k,
{
    if k >= ts.len() || k < 0 {
        (t, seq![], false)
    } else {
        let part = ts[k];
        if b == 2 {
            if part.tok == TokV::Symbol(93) {
                pt_run(ts, k + 1, t, 0)
            } else {
                (t, seq![error_at("expected closing bracket", part.line, part.column)], true)
            }
        } else if b == 1 {
            match part.tok {
                TokV::UInt(n) => if n < 64 {
                    pt_run(ts, k + 1, Type::Sarr(n as u8, Box::new(t)), 2)
                } else {
                    (t, seq![error_at("size too large", part.line, part.column)], true)
                },
                TokV::Symbol(c) => if c == 93 {
                    pt_run(ts, k + 1, Type::Uarr(Box::new(t)), 0)
                } else {
                    (t, seq![error_at("expected closing bracket or size", part.line, part.column)], true)
                },
                _ => (t, seq![error_at("expected closing bracket or size", part.line, part.column)], true),
            }
        } else {
            match part.tok {
                TokV::Symbol(c) => if c == 42 {
                    if t == Type::Unset {
                        (t, seq![error_at("invalid parameter type", part.line, part.column)], true)
                    } else {
                        pt_run(ts, k + 1, Type::Ptr(Box::new(t)), 0)
                    }
                } else if c == 91 {
                    pt_run(ts, k + 1, t, 1)
                } else {
                    (t, seq![error_at("invalid parameter type", part.line, part.column)], true)
                },
                TokV::Type(ty) => if ty == Type::Invalid && t == Type::Unset {
                    pt_run(ts, k + 1, Type::Invalid, 0)
                } else {
                    (t, seq![error_at("invalid parameter type", part.line, part.column)], true)
                },
                TokV::Word(w) => if t == Type::Unset {
                    match spec_type_of_word(w) {
                        Some(ty) => pt_run(ts, k + 1, ty, 0),
                        None => (t, seq![error_at("invalid type", part.line, part.column)], true),
                    }
                } else {
                    (t, seq![error_at("invalid parameter type", part.line, part.column)], true)
                },
                _ => (t, seq![error_at("invalid parameter type", part.line, part.column)], true),
            }
        }
    }
}

/// the type that a sequence of tokens spells, its diagnostics, and whether an error occurred
pub open spec fn spec_parse_type(ts: Seq<TokenV>) -> (Type, Seq<ReportV>, bool) {
    pt_run(ts, 0, Type::Unset, 0)
}

/// reads the type of a parameter or a return value; the diagnostics are appended to `reports`,
/// and the type read so far comes back as `Err` where an error occurred
pub fn parse_type<'a>(toks: Vec<Token<'a>>, reports: &mut Vec<Report>) -> (r: Result<Type, Type>)
    ensures
        ({
            let (t, reps, e) = spec_parse_type(tokens_view(toks@));
            &&& reports_view(final(reports)@) == reports_view(old(reports)@) + reps
            &&& r == (if e { Err::<Type, Type>(t) } else { Ok::<Type, Type>(t) })
        }),
{
    let ghost ts = tokens_view(toks@);
    proof { lemma_tokens_view_index(toks@); }
    let ghost start = reports@;
    let mut t: Type = Type::Unset;
    let mut brackseq: u8 = 0;
    let mut k: usize = 0;
    while k < toks.len()
        invariant
            ts == tokens_view(toks@),
            ts.len() == toks@.len(),
            forall|j: int| 0 <= j < toks@.len() ==> #[trigger] ts[j] == token_view(toks@[j]),
            k <= toks@.len(),
            brackseq <= 2,
            reports@ == start,
            start == old(reports)@,
            spec_parse_type(ts) == pt_run(ts, k as int, t, brackseq as int),
        decreases toks@.len() - k,
    {
        let part = &toks[k];
        let mut fail: Option<&'static str> = None;
        if brackseq == 2 {
            match &part.tok {
                Tok::Symbol(c) => {
                    if *c == 93 {
                        brackseq = 0;
                    } else {
                        fail = Some("expected closing bracket");
                    }
                },
                _ => {
                    fail = Some("expected closing bracket");
                },
            }
        } else if brackseq == 1 {
            match &part.tok {
                Tok::UInt(n) => {
                    if *n < 64 {
                        brackseq = 2;
                        t = Type::Sarr(*n as u8, Box::new(t));
                    } else {
                        fail = Some("size too large");
                    }
                },
                Tok::Symbol(c) => {
                    if *c == 93 {
                        t = Type::Uarr(Box::new(t));
                        brackseq = 0;
                    } else {
                        fail = Some("expected closing bracket or size");
                    }
                },
                _ => {
                    fail = Some("expected closing bracket or size");
                },
            }
        } else {
            match &part.tok {
                Tok::Symbol(c) => {
                    if *c == 42 {
                        if let Type::Unset = t {
                            fail = Some("invalid parameter type");
                        } else {
                            t = Type::Ptr(Box::new(t));
                        }
                    } else if *c == 91 {
                        brackseq = 1;
                    } else {
                        fail = Some("invalid parameter type");
                    }
                },
                Tok::Type(Type::Invalid) => {
                    if let Type::Unset = t {
                        t = Type::Invalid;
                    } else {
                        fail = Some("invalid parameter type");
                    }
                },
                Tok::Word(w) => {
                    if let Type::Unset = t {
                        match type_of_word(*w) {
                            Some(ty) => {
                                t = ty;
                            },
                            None => {
                                fail = Some("invalid type");
                            },
                        }
                    } else {
                        fail = Some("invalid parameter type");
                    }
                },
                _ => {
                    fail = Some("invalid parameter type");
                },
            }
        }
        match fail {
            Some(m) => {
                assert(token_view(*part) == ts[k as int]);
                assert(pt_run(ts, k as int, t, brackseq as int) == (t, seq![error_at(m, part.line, part.column)], true));
                report_error(reports, m, part.line, part.column);
                assert(reports_view(reports@) =~= reports_view(start) + spec_parse_type(ts).1);
                return Err(t);
            },
            None => {},
        }
        k += 1;
    }
    assert(reports_view(reports@) =~= reports_view(start) + seq![]);
    Ok(t)
}

pub open spec fn spec_section_of(w: Seq<u8>) -> Option<Section> {
    if w == lit(".conf") {
        Some(Section::Conf)
    } else if w == lit(".data") {
        Some(Section::Data)
    } else if w == lit(".code") {
        Some(Section::Code)
    } else if w == lit(".indx") {
        Some(Section::Indx)
    } else {
        None
    }
}

/// recognizes the name of a section
pub fn section_of(w: &[u8]) -> (r: Option<Section>)
    ensures
        r == spec_section_of(w@),
{
    if bytes_eq_str(w, ".conf") {
        return Some(Section::Conf);
    }
    if bytes_eq_str(w, ".data") {
        return Some(Section::Data);
    }
    if bytes_eq_str(w, ".code") {
        return Some(Section::Code);
    }
    if bytes_eq_str(w, ".indx") {
        return Some(Section::Indx);
    }
    None
}

pub open spec fn spec_purpose_of(w: Seq<u8>) -> Option<u64> {
    if w == lit("3tr") {
        Some(0)
    } else if w == lit("gpc") {
        Some(1)
    } else if w == lit("bot") {
        Some(2)
    } else if w == lit("sbc") {
        Some(3)
    } else {
        None
    }
}

/// recognizes the name of a purpose
pub fn purpose_of(w: &[u8]) -> (r: Option<u64>)
    ensures
        r == spec_purpose_of(w@),
{
    if bytes_eq_str(w, "3tr") {
        return Some(0);
    }
    if bytes_eq_str(w, "gpc") {
        return Some(1);
    }
    if bytes_eq_str(w, "bot") {
        return Some(2);
    }
    if bytes_eq_str(w, "sbc") {
        return Some(3);
    }
    None
}

/// what a keyword declaration makes of the token after the keyword
pub enum DeclV {
    /// a declaration with this value
    Value(TokV),
    /// no declaration, and nothing reported
    Ignore,
    /// no declaration; an error with this message at the value, showing the value where the flag
    /// is set
    Bad(Seq<char>, bool),
    /// the keyword does not belong in the section
    NotValid,
}

pub enum DeclOut<'a> {
    Value(Tok<'a>),
    Ignore,
    Bad(&'static str, bool),
    NotValid,
}

pub open spec fn decl_view<'a>(d: DeclOut<'a>) -> DeclV {
    match d {
        DeclOut::Value(t) => DeclV::Value(t.view()),
        DeclOut::Ignore => DeclV::Ignore,
        DeclOut::Bad(m, b) => DeclV::Bad(m@, b),
        DeclOut::NotValid => DeclV::NotValid,
    }
}

/// the value of a declaration of `kw` in section `sec`, given the token after the keyword
pub open spec fn spec_decl_value(sec: Section, kw: Keyword, n: TokV) -> DeclV {
    if sec == Section::Conf {
        match kw {
            Keyword::Purpose => match n {
                TokV::Word(w) => match spec_purpose_of(w) {
                    Some(p) => DeclV::Value(TokV::UInt(p)),
                    None => DeclV::Ignore,
                },
                TokV::String(w) => match spec_purpose_of(w) {
                    Some(p) => DeclV::Value(TokV::UInt(p)),
                    None => DeclV::Ignore,
                },
                TokV::UInt(v) => DeclV::Value(TokV::UInt(v)),
                _ => DeclV::Bad("invalid purpose"@, true),
            },
            Keyword::Name => match n {
                TokV::String(s) => if s.len() < 256 {
                    DeclV::Value(TokV::String(s))
                } else {
                    DeclV::Bad("string too long"@, false)
                },
                _ => DeclV::Bad("invalid name"@, true),
            },
            Keyword::Fstr => match n {
                TokV::String(s) => DeclV::Value(TokV::String(s)),
                _ => DeclV::Bad("invalid fstr"@, true),
            },
            Keyword::Invar => match n {
                TokV::UInt(c) => if c < 256 {
                    DeclV::Value(TokV::UInt(c))
                } else {
                    DeclV::Ignore
                },
                _ => DeclV::Bad("invalid invar count"@, true),
            },
            Keyword::SomeFlags => match n {
                TokV::UInt(v) => DeclV::Value(TokV::UInt(v)),
                _ => DeclV::Bad("invalid some flags"@, true),
            },
            Keyword::NoneFlags => match n {
                TokV::UInt(v) => DeclV::Value(TokV::UInt(v)),
                _ => DeclV::Bad("invalid none flags"@, true),
            },
            _ => DeclV::NotValid,
        }
    } else {
        match kw {
            Keyword::Str => match n {
                TokV::String(s) => if s.len() < 256 {
                    DeclV::Value(TokV::String(s))
                } else {
                    DeclV::Bad("string too long"@, false)
                },
                _ => DeclV::Bad("invalid string"@, true),
            },
            Keyword::F64 => match n {
                TokV::Float(v) => DeclV::Value(TokV::Float(v)),
                _ => DeclV::Bad("invalid floating point literal"@, true),
            },
            Keyword::S32 => match n {
                TokV::SInt(v) => DeclV::Value(TokV::SInt(v)),
                TokV::UInt(v) => DeclV::Value(TokV::SInt(v as i64)),
                _ => DeclV::Bad("invalid s32 literal"@, true),
            },
            Keyword::Res => match n {
                TokV::UInt(v) => DeclV::Value(TokV::UInt(v)),
                _ => DeclV::Bad("invalid reserve literal"@, true),
            },
            _ => DeclV::NotValid,
        }
    }
}

/// reads the value of a declaration of `kw` in the configuration section (or, for any other
/// section, the data section)
pub fn decl_value<'a>(sec: Section, kw: Keyword, n: &Tok<'a>) -> (r: DeclOut<'a>)
    ensures
        decl_view(r) == spec_decl_value(sec, kw, n.view()),
{
    if let Section::Conf = sec {
        match kw {
            Keyword::Purpose => match n {
                Tok::Word(w) => match purpose_of(*w) {
                    Some(p) => DeclOut::Value(Tok::UInt(p)),
                    None => DeclOut::Ignore,
                },
                Tok::String(w) => match purpose_of(*w) {
                    Some(p) => DeclOut::Value(Tok::UInt(p)),
                    None => DeclOut::Ignore,
                },
                Tok::UInt(v) => DeclOut::Value(Tok::UInt(*v)),
                _ => DeclOut::Bad("invalid purpose", true),
            },
            Keyword::Name => match n {
                Tok::String(s) => if s.len() < 256 {
                    DeclOut::Value(Tok::String(*s))
                } else {
                    DeclOut::Bad("string too long", false)
                },
                _ => DeclOut::Bad("invalid name", true),
            },
            Keyword::Fstr => match n {
                Tok::String(s) => DeclOut::Value(Tok::String(*s)),
                _ => DeclOut::Bad("invalid fstr", true),
            },
            Keyword::Invar => match n {
                Tok::UInt(c) => if *c < 256 {
                    DeclOut::Value(Tok::UInt(*c))
                } else {
                    DeclOut::Ignore
                },
                _ => DeclOut::Bad("invalid invar count", true),
            },
            Keyword::SomeFlags => match n {
                Tok::UInt(v) => DeclOut::Value(Tok::UInt(*v)),
                _ => DeclOut::Bad("invalid some flags", true),
            },
            Keyword::NoneFlags => match n {
                Tok::UInt(v) => DeclOut::Value(Tok::UInt(*v)),
                _ => DeclOut::Bad("invalid none flags", true),
            },
            _ => DeclOut::NotValid,
        }
    } else {
        match kw {
            Keyword::Str => match n {
                Tok::String(s) => if s.len() < 256 {
                    DeclOut::Value(Tok::String(*s))
                } else {
                    DeclOut::Bad("string too long", false)
                },
                _ => DeclOut::Bad("invalid string", true),
            },
            Keyword::F64 => match n {
                Tok::Float(v) => DeclOut::Value(Tok::Float(*v)),
                _ => DeclOut::Bad("invalid floating point literal", true),
            },
            Keyword::S32 => match n {
                Tok::SInt(v) => DeclOut::Value(Tok::SInt(*v)),
                Tok::UInt(v) => DeclOut::Value(Tok::SInt(*v as i64)),
                _ => DeclOut::Bad("invalid s32 literal", true),
            },
            Keyword::Res => match n {
                Tok::UInt(v) => DeclOut::Value(Tok::UInt(*v)),
                _ => DeclOut::Bad("invalid reserve literal", true),
            },
            _ => DeclOut::NotValid,
        }
    }
}

/// where the reading of an index entry stands
#[derive(Clone, Copy, PartialEq, Eq, Structural)]
pub enum IndexSeq {
    Scan,
    LPar,
    Args,
    Rett,
}

/// the state of the semantic pass: what it has built and reported, the current section, and the
/// reading of index entries (the position of the entry's name, the position where the current
/// parameter starts, and the stage)
#[verifier::ext_equal]
pub struct SemSt {
    pub build: Seq<TokenV>,
    pub reports: Seq<ReportV>,
    pub haderr: bool,
    pub csec: Section,
    pub r0: int,
    pub r1: int,
    pub iseq: IndexSeq,
}

pub open spec fn sem_push(st: SemSt, t: TokenV) -> SemSt {
    SemSt { build: st.build.push(t), ..st }
}

pub open spec fn sem_err(st: SemSt, message: Seq<char>, subject: SubjectV, line: u32, column: u32) -> SemSt {
    SemSt { reports: st.reports.push(ReportV { warning: false, message, subject, line, column }), haderr: true, ..st }
}

pub open spec fn sem_warn_push(st: SemSt, t: TokenV) -> SemSt {
    SemSt {
        reports: st.reports.push(ReportV { warning: true, message: "unknown token"@, subject: SubjectV::Nothing, line: t.line, column: t.column }),
        build: st.build.push(t),
        ..st
    }
}

/// the index entry being read is well formed: its name is a word below the parameters
pub open spec fn sem_wf(st: SemSt) -> bool {
    &&& st.iseq != IndexSeq::Scan ==> 0 <= st.r0 < st.build.len() && st.build[st.r0].tok is Word
    &&& (st.iseq == IndexSeq::Args || st.iseq == IndexSeq::Rett) ==> st.r0 + 1 <= st.r1 <= st.build.len()
}

/// the end of a parameter: the word on top is its name, the tokens before it (from `r1`) its type
pub open spec fn close_param(st: SemSt) -> SemSt {
    if st.build.len() > st.r1 {
        let nt = st.build.last();
        let b = st.build.drop_last();
        match nt.tok {
            TokV::Word(pname) => {
                let (ty, reps, e) = spec_parse_type(b.subrange(st.r1, b.len() as int));
                SemSt {
                    build: b.subrange(0, st.r1).push(TokenV { tok: TokV::Param(pname, ty), line: nt.line, column: nt.column }),
                    reports: st.reports + reps,
                    haderr: st.haderr || e,
                    r1: st.r1 + 1,
                    ..st
                }
            },
            _ => SemSt {
                build: b,
                reports: st.reports.push(error_at("invalid parameter name", nt.line, nt.column)),
                haderr: true,
                ..st
            },
        }
    } else {
        st
    }
}

/// the end of an index entry: the tokens from `r1` are the return type, those between the name and
/// `r1` the parameters
pub open spec fn finish_signature(st: SemSt) -> SemSt {
    let (ty, reps, e) = spec_parse_type(st.build.subrange(st.r1, st.build.len() as int));
    let b1 = st.build.subrange(0, st.r1);
    let params = b1.subrange(st.r0 + 1, st.r1).map_values(|x: TokenV| x.tok);
    let n = b1[st.r0];
    SemSt {
        build: b1.subrange(0, st.r0).push(TokenV { tok: TokV::Signature(n.tok->Word_0, params, ty), line: n.line, column: n.column }),
        reports: st.reports + reps,
        haderr: st.haderr || e,
        iseq: IndexSeq::Scan,
        ..st
    }
}

/// one token of the index section
pub open spec fn indx_step(st: SemSt, t: TokenV) -> SemSt {
    match st.iseq {
        IndexSeq::Scan => match t.tok {
            TokV::Word(_) => SemSt { r0: st.build.len() as int, build: st.build.push(t), iseq: IndexSeq::LPar, ..st },
            TokV::Newline => st,
            _ => sem_err(st, "expected word as start of index entry"@, SubjectV::Nothing, t.line, t.column),
        },
        IndexSeq::LPar => if t.tok == TokV::Symbol(40) {
            SemSt { iseq: IndexSeq::Args, r1: st.build.len() as int, ..st }
        } else {
            sem_err(st, "expected left parenthesis, got"@, SubjectV::Token(shown_of(t.tok)), t.line, t.column)
        },
        IndexSeq::Args => if t.tok == TokV::Symbol(41) {
            SemSt { iseq: IndexSeq::Rett, ..close_param(st) }
        } else if t.tok == TokV::Symbol(44) {
            close_param(st)
        } else {
            sem_push(st, t)
        },
        IndexSeq::Rett => if t.tok == TokV::Newline {
            finish_signature(st)
        } else {
            sem_push(st, t)
        },
    }
}

/// a token in the configuration or the data section, or in none or the code section
pub open spec fn other_step(ts: Seq<TokenV>, i: int, st: SemSt) -> (SemSt, int) {
    let t = ts[i];
    if st.csec == Section::Conf || st.csec == Section::Data {
        match t.tok {
            TokV::Keyword(kw) => if i + 1 < ts.len() {
                let n = ts[i + 1];
                match spec_decl_value(st.csec, kw, n.tok) {
                    DeclV::Value(v) => (sem_push(st, TokenV { tok: TokV::KwDecl(kw, Box::new(v)), line: t.line, column: t.column }), i + 2),
                    DeclV::Ignore => (st, i + 1),
                    DeclV::Bad(m, shows) => (sem_err(st, m, if shows { SubjectV::Token(shown_of(n.tok)) } else { SubjectV::Nothing }, n.line, n.column), i + 1),
                    DeclV::NotValid => (sem_err(
                        st,
                        if st.csec == Section::Conf {
                            "keyword declaration not valid for .conf section"@
                        } else {
                            "keyword declaration not valid for .data section"@
                        },
                        SubjectV::Nothing,
                        t.line,
                        t.column,
                    ), i + 1),
                }
            } else {
                (sem_err(st, "bad keword declaration"@, SubjectV::Nothing, t.line, t.column), i + 1)
            },
            TokV::Newline => (sem_push(st, t), i + 1),
            TokV::Label(_) => if st.csec == Section::Data {
                (sem_push(st, t), i + 1)
            } else {
                (sem_warn_push(st, t), i + 1)
            },
            _ => (sem_warn_push(st, t), i + 1),
        }
    } else if st.csec == Section::Indx {
        (indx_step(st, t), i + 1)
    } else {
        (sem_push(st, t), i + 1)
    }
}

/// one step of the semantic pass at position `i`; `None` at a cutoff keyword, where the pass stops
#[verifier::opaque]
pub open spec fn sem_step(ts: Seq<TokenV>, i: int, st: SemSt) -> Option<(SemSt, int)> {
    let t = ts[i];
    match t.tok {
        TokV::Keyword(kw) => if kw == Keyword::Cutoff {
            None
        } else if kw == Keyword::Section {
            if i + 1 < ts.len() {
                let n = ts[i + 1];
                match n.tok {
                    TokV::Word(w) => match spec_section_of(w) {
                        Some(sec) => Some((SemSt { csec: sec, build: st.build.push(TokenV { tok: TokV::Section(sec), line: t.line, column: t.column }), ..st }, i + 2)),
                        None => Some((st, i + 1)),
                    },
                    _ => Some((SemSt { reports: st.reports.push(error_about("invalid section", SubjectV::Token(shown_of(n.tok)), n.line, n.column)), ..st }, i + 1)),
                }
            } else {
                Some((sem_err(st, "no section given"@, SubjectV::Nothing, t.line, t.column), i + 1))
            }
        } else {
            Some(other_step(ts, i, st))
        },
        _ => Some(other_step(ts, i, st)),
    }
}

/// the semantic pass from position `i` in state `st`: the final state, and whether it stopped at a
/// cutoff keyword
pub open spec fn sem_run(ts: Seq<TokenV>, i: int, st: SemSt) -> (SemSt, bool)
    decreases ts.len() - i,
{
    if i >= ts.len() || i < 0 {
        (st, false)
    } else {
        match sem_step(ts, i, st) {
            None => (st, true),
            Some((st2, j)) => if j <= i || j > ts.len() {
                (st2, false)
            } else {
                sem_run(ts, j, st2)
            },
        }
    }
}

pub open spec fn sem_init() -> SemSt {
    SemSt { build: seq![], reports: seq![], haderr: false, csec: Section::Outside, r0: 0, r1: 0, iseq: IndexSeq::Scan }
}

/// what the semantic pass makes of a token stream
pub open spec fn spec_semantic_parse(ts: Seq<TokenV>) -> (SemSt, bool) {
    sem_run(ts, 0, sem_init())
}

pub open spec fn sem_view<'a>(build: Seq<Token<'a>>, reps: Seq<Report>, haderr: bool, csec: Section, r0: usize, r1: usize, iseq: IndexSeq) -> SemSt {
    SemSt { build: tokens_view(build), reports: reports_view(reps), haderr, csec, r0: r0 as int, r1: r1 as int, iseq }
}

/// reads one token of the index section
fn indx_step_exec<'a>(
    t: &Token<'a>,
    csec: Section,
    build: &mut Vec<Token<'a>>,
    reps: &mut Vec<Report>,
    haderr: &mut bool,
    r0: &mut usize,
    r1: &mut usize,
    iseq: &mut IndexSeq,
)
    requires
        sem_wf(sem_view(old(build)@, old(reps)@, *old(haderr), csec, *old(r0), *old(r1), *old(iseq))),
    ensures
        sem_view(final(build)@, final(reps)@, *final(haderr), csec, *final(r0), *final(r1), *final(iseq))
            == indx_step(sem_view(old(build)@, old(reps)@, *old(haderr), csec, *old(r0), *old(r1), *old(iseq)), token_view(*t)),
        sem_wf(sem_view(final(build)@, final(reps)@, *final(haderr), csec, *final(r0), *final(r1), *final(iseq))),
{
    let ghost st = sem_view(build@, reps@, *haderr, csec, *r0, *r1, *iseq);
    proof { lemma_tokens_view_index(build@); }
    match *iseq {
        IndexSeq::Scan => {
            match &t.tok {
                Tok::Word(_) => {
                    *r0 = build.len();
                    let c = copy_token(t);
                    proof { lemma_tokens_view_push(build@, c); }
                    build.push(c);
                    *iseq = IndexSeq::LPar;
                    proof { lemma_tokens_view_index(build@); }
                },
                Tok::Newline => {},
                _ => {
                    report_error(reps, "expected word as start of index entry", t.line, t.column);
                    *haderr = true;
                },
            }
        },
        IndexSeq::LPar => {
            if let Tok::Symbol(40) = t.tok {
                *iseq = IndexSeq::Args;
                *r1 = build.len();
            } else {
                report_error_about(reps, "expected left parenthesis, got", Subject::Token(show(&t.tok)), t.line, t.column);
                *haderr = true;
            }
        },
        IndexSeq::Args => {
            let is_close = match t.tok {
                Tok::Symbol(41) => true,
                _ => false,
            };
            let is_comma = match t.tok {
                Tok::Symbol(44) => true,
                _ => false,
            };
            if is_close || is_comma {
                close_param_exec(csec, build, reps, haderr, r0, r1, iseq);
                if is_close {
                    *iseq = IndexSeq::Rett;
                }
            } else {
                let c = copy_token(t);
                proof { lemma_tokens_view_push(build@, c); }
                build.push(c);
                proof { lemma_tokens_view_index(build@); }
            }
        },
        IndexSeq::Rett => {
            if let Tok::Newline = t.tok {
                finish_signature_exec(csec, build, reps, haderr, r0, r1, iseq);
            } else {
                let c = copy_token(t);
                proof { lemma_tokens_view_push(build@, c); }
                build.push(c);
                proof { lemma_tokens_view_index(build@); }
            }
        },
    }
}

fn close_param_exec<'a>(
    csec: Section,
    build: &mut Vec<Token<'a>>,
    reps: &mut Vec<Report>,
    haderr: &mut bool,
    r0: &mut usize,
    r1: &mut usize,
    iseq: &mut IndexSeq,
)
    requires
        *old(iseq) == IndexSeq::Args,
        sem_wf(sem_view(old(build)@, old(reps)@, *old(haderr), csec, *old(r0), *old(r1), *old(iseq))),
    ensures
        sem_view(final(build)@, final(reps)@, *final(haderr), csec, *final(r0), *final(r1), *final(iseq))
            == close_param(sem_view(old(build)@, old(reps)@, *old(haderr), csec, *old(r0), *old(r1), *old(iseq))),
        sem_wf(sem_view(final(build)@, final(reps)@, *final(haderr), csec, *final(r0), *final(r1), *final(iseq))),
        *final(iseq) == IndexSeq::Args,
{
    let ghost st = sem_view(build@, reps@, *haderr, csec, *r0, *r1, *iseq);
    proof { lemma_tokens_view_index(build@); }
    if build.len() > *r1 {
        let ghost b0 = build@;
        let nt = match build.pop() {
            Some(x) => x,
            None => {
                assert(false);
                return;
            },
        };
        assert(build@ == b0.drop_last());
        assert(tokens_view(build@) == st.build.drop_last()) by {
            lemma_tokens_view_index(build@);
            assert(tokens_view(build@) =~= st.build.drop_last());
        }
        let line = nt.line;
        let column = nt.column;
        match nt.tok {
            Tok::Word(pname) => {
                let ghost b1 = build@;
                let tail = build.split_off(*r1);
                proof {
                    lemma_tokens_view_subrange(b1, *r1 as int, b1.len() as int);
                    lemma_tokens_view_subrange(b1, 0, *r1 as int);
                }
                let ty = match parse_type(tail, reps) {
                    Ok(v) => v,
                    Err(v) => {
                        *haderr = true;
                        v
                    },
                };
                let p = Token { tok: Tok::Param(pname, ty), line, column };
                proof { lemma_tokens_view_push(build@, p); }
                build.push(p);
                *r1 = *r1 + 1;
                proof {
                    lemma_tokens_view_index(build@);
                    assert(build@[*r0 as int] == b0[*r0 as int]);
                }
            },
            _ => {
                report_error(reps, "invalid parameter name", line, column);
                *haderr = true;
                proof {
                    lemma_tokens_view_index(build@);
                    assert(build@[*r0 as int] == b0[*r0 as int]);
                }
            },
        }
    }
}

fn finish_signature_exec<'a>(
    csec: Section,
    build: &mut Vec<Token<'a>>,
    reps: &mut Vec<Report>,
    haderr: &mut bool,
    r0: &mut usize,
    r1: &mut usize,
    iseq: &mut IndexSeq,
)
    requires
        *old(iseq) == IndexSeq::Rett,
        sem_wf(sem_view(old(build)@, old(reps)@, *old(haderr), csec, *old(r0), *old(r1), *old(iseq))),
    ensures
        sem_view(final(build)@, final(reps)@, *final(haderr), csec, *final(r0), *final(r1), *final(iseq))
            == finish_signature(sem_view(old(build)@, old(reps)@, *old(haderr), csec, *old(r0), *old(r1), *old(iseq))),
        sem_wf(sem_view(final(build)@, final(reps)@, *final(haderr), csec, *final(r0), *final(r1), *final(iseq))),
{
    let ghost st = sem_view(build@, reps@, *haderr, csec, *r0, *r1, *iseq);
    proof { lemma_tokens_view_index(build@); }
    let ghost b0 = build@;
    let tail = build.split_off(*r1);
    proof {
        lemma_tokens_view_subrange(b0, *r1 as int, b0.len() as int);
        lemma_tokens_view_subrange(b0, 0, *r1 as int);
    }
    let ty = match parse_type(tail, reps) {
        Ok(v) => v,
        Err(v) => {
            *haderr = true;
            v
        },
    };
    let ghost b1 = build@;
    let mid = build.split_off(*r0 + 1);
    proof {
        lemma_tokens_view_subrange(b1, *r0 + 1, b1.len() as int);
        lemma_tokens_view_subrange(b1, 0, *r0 + 1);
        lemma_tokens_view_index(mid@);
    }
    let mut params: Vec<Tok<'a>> = Vec::new();
    let mut k: usize = 0;
    while k < mid.len()
        invariant
            k <= mid@.len(),
            toks_view(params@) == tokens_view(mid@).subrange(0, k as int).map_values(|x: TokenV| x.tok),
            tokens_view(mid@).len() == mid@.len(),
            forall|j: int| 0 <= j < mid@.len() ==> #[trigger] tokens_view(mid@)[j] == token_view(mid@[j]),
        decreases mid@.len() - k,
    {
        let c = crate::types::copy_tok(&mid[k].tok);
        proof { lemma_toks_view_push(params@, c); }
        params.push(c);
        proof {
            assert(toks_view(params@) =~= tokens_view(mid@).subrange(0, k + 1).map_values(|x: TokenV| x.tok));
        }
        k += 1;
    }
    assert(tokens_view(mid@).subrange(0, mid@.len() as int) =~= tokens_view(mid@));
    let ghost b2 = build@;
    let n = match build.pop() {
        Some(x) => x,
        None => {
            assert(false);
            return;
        },
    };
    proof {
        lemma_tokens_view_index(b2);
        assert(token_view(n) == st.build[*r0 as int]);
        assert(build@ == b2.drop_last());
        lemma_tokens_view_subrange(b2, 0, *r0 as int);
        assert(b2.drop_last() =~= b2.subrange(0, *r0 as int));
    }
    let line = n.line;
    let column = n.column;
    match n.tok {
        Tok::Word(nv) => {
            let sig = Token { tok: Tok::Signature(nv, params, ty), line, column };
            proof { lemma_tokens_view_push(build@, sig); }
            build.push(sig);
            *iseq = IndexSeq::Scan;
            proof {
                let ghost s2 = finish_signature(st);
                assert(tokens_view(mid@) =~= st.build.subrange(0, *r1 as int).subrange(*r0 + 1, *r1 as int));
                assert(tokens_view(build@) =~= s2.build);
            }
        },
        _ => {
            assert(false);
        },
    }
}

/// the result of the semantic pass: the tokens it built, as `Ok` where it stopped at a cutoff
/// keyword or no error occurred, and the diagnostics it appended
pub open spec fn sem_result_matches<'a>(res: (SemSt, bool), r: Result<Vec<Token<'a>>, Vec<Token<'a>>>, old_reports: Seq<Report>, new_reports: Seq<Report>) -> bool {
    let (st, cut) = res;
    &&& reports_view(new_reports) == reports_view(old_reports) + st.reports
    &&& match r {
        Ok(t) => (cut || !st.haderr) && tokens_view(t@) == st.build,
        Err(t) => !cut && st.haderr && tokens_view(t@) == st.build,
    }
}

/// convert syntactic tokens into semantic tokens, which take the section they stand in into
/// account: declarations, sections and index signatures
pub fn semantic_parse<'a>(toks: Vec<Token<'a>>, reports: &mut Vec<Report>) -> (r: Result<Vec<Token<'a>>, Vec<Token<'a>>>)
    ensures
        sem_result_matches(spec_semantic_parse(tokens_view(toks@)), r, old(reports)@, final(reports)@),
{
    let ghost ts = tokens_view(toks@);
    proof { lemma_tokens_view_index(toks@); }
    let mut build: Vec<Token<'a>> = Vec::new();
    let mut reps: Vec<Report> = Vec::new();
    let mut haderr = false;
    let mut csec = Section::Outside;
    let mut r0: usize = 0;
    let mut r1: usize = 0;
    let mut iseq = IndexSeq::Scan;
    let l = toks.len();
    let mut i: usize = 0;
    assert(tokens_view(build@) =~= seq![]);
    assert(reports_view(reps@) =~= seq![]);
    assert(sem_view(build@, reps@, haderr, csec, r0, r1, iseq) == sem_init());
    while i < l
        invariant
            l == toks@.len(),
            ts == tokens_view(toks@),
            ts.len() == l,
            i <= l,
            reports@ == old(reports)@,
            sem_wf(sem_view(build@, reps@, haderr, csec, r0, r1, iseq)),
            spec_semantic_parse(ts) == sem_run(ts, i as int, sem_view(build@, reps@, haderr, csec, r0, r1, iseq)),
        decreases l - i,
    {
        let ghost st = sem_view(build@, reps@, haderr, csec, r0, r1, iseq);
        let ghost gi = i;
        let cutoff = sem_step_exec(&toks, &mut i, &mut build, &mut reps, &mut haderr, &mut csec, &mut r0, &mut r1, &mut iseq);
        if cutoff {
            proof {
                assert(sem_run(ts, gi as int, st) == (st, true));
            }
            let ghost before = reports@;
            let ghost added = reps@;
            reports.append(&mut reps);
            assert(reports_view(reports@) =~= reports_view(before) + reports_view(added));
            return Ok(build);
        }
    }
    proof {
        assert(sem_run(ts, i as int, sem_view(build@, reps@, haderr, csec, r0, r1, iseq)) == (sem_view(build@, reps@, haderr, csec, r0, r1, iseq), false));
    }
    let ghost before = reports@;
    let ghost added = reps@;
    reports.append(&mut reps);
    assert(reports_view(reports@) =~= reports_view(before) + reports_view(added));
    if haderr {
        Err(build)
    } else {
        Ok(build)
    }
}

/// a token in the configuration or the data section
fn other_decl_exec<'a>(
    toks: &Vec<Token<'a>>,
    i: usize,
    csec: Section,
    build: &mut Vec<Token<'a>>,
    reps: &mut Vec<Report>,
    haderr: &mut bool,
    next: &mut usize,
)
    requires
        i < toks@.len(),
        csec == Section::Conf || csec == Section::Data,
        *old(next) == i,
    ensures
        ({
            let st = SemSt { build: tokens_view(old(build)@), reports: reports_view(old(reps)@), haderr: *old(haderr), csec, r0: 0, r1: 0, iseq: IndexSeq::Scan };
            let (st2, j) = other_step(tokens_view(toks@), i as int, st);
            &&& tokens_view(final(build)@) == st2.build
            &&& reports_view(final(reps)@) == st2.reports
            &&& *final(haderr) == st2.haderr
            &&& *final(next) as int == j
        }),
{
    proof { lemma_tokens_view_index(toks@); }
    let l = toks.len();
    let t = &toks[i];
    let ghost ts = tokens_view(toks@);
    let ghost st = SemSt { build: tokens_view(build@), reports: reports_view(reps@), haderr: *haderr, csec, r0: 0, r1: 0, iseq: IndexSeq::Scan };
    match &t.tok {
        Tok::Keyword(kw) => {
            if i + 1 < l {
                let n = &toks[i + 1];
                match decl_value(csec, *kw, &n.tok) {
                    DeclOut::Value(v) => {
                        let c = Token { tok: Tok::KwDecl(*kw, Box::new(v)), line: t.line, column: t.column };
                        proof { lemma_tokens_view_push(build@, c); }
                        build.push(c);
                        *next = i + 2;
                    },
                    DeclOut::Ignore => {
                        *next = i + 1;
                    },
                    DeclOut::Bad(m, shows) => {
                        if shows {
                            report_error_about(reps, m, Subject::Token(show(&n.tok)), n.line, n.column);
                        } else {
                            report_error(reps, m, n.line, n.column);
                        }
                        *haderr = true;
                        *next = i + 1;
                    },
                    DeclOut::NotValid => {
                        if let Section::Conf = csec {
                            report_error(reps, "keyword declaration not valid for .conf section", t.line, t.column);
                        } else {
                            report_error(reps, "keyword declaration not valid for .data section", t.line, t.column);
                        }
                        *haderr = true;
                        *next = i + 1;
                    },
                }
            } else {
                report_error(reps, "bad keword declaration", t.line, t.column);
                *haderr = true;
                *next = i + 1;
            }
        },
        Tok::Newline => {
            let c = copy_token(t);
            proof { lemma_tokens_view_push(build@, c); }
            build.push(c);
            *next = i + 1;
        },
        Tok::Label(_) => {
            if let Section::Data = csec {
            } else {
                crate::errors::report_warning(reps, "unknown token", t.line, t.column);
            }
            let c = copy_token(t);
            proof { lemma_tokens_view_push(build@, c); }
            build.push(c);
            *next = i + 1;
        },
        _ => {
            crate::errors::report_warning(reps, "unknown token", t.line, t.column);
            let c = copy_token(t);
            proof { lemma_tokens_view_push(build@, c); }
            build.push(c);
            *next = i + 1;
        },
    }
}

/// one step of the semantic pass; `true` at a cutoff keyword, where the state is left as it was
fn sem_step_exec<'a>(
    toks: &Vec<Token<'a>>,
    i: &mut usize,
    build: &mut Vec<Token<'a>>,
    reps: &mut Vec<Report>,
    haderr: &mut bool,
    csec: &mut Section,
    r0: &mut usize,
    r1: &mut usize,
    iseq: &mut IndexSeq,
) -> (cutoff: bool)
    requires
        *old(i) < toks@.len(),
        sem_wf(sem_view(old(build)@, old(reps)@, *old(haderr), *old(csec), *old(r0), *old(r1), *old(iseq))),
    ensures
        ({
            let st = sem_view(old(build)@, old(reps)@, *old(haderr), *old(csec), *old(r0), *old(r1), *old(iseq));
            let st2 = sem_view(final(build)@, final(reps)@, *final(haderr), *final(csec), *final(r0), *final(r1), *final(iseq));
            &&& cutoff ==> sem_step(tokens_view(toks@), *old(i) as int, st) is None && st2 == st
            &&& !cutoff ==> sem_step(tokens_view(toks@), *old(i) as int, st) == Some((st2, *final(i) as int))
            &&& !cutoff ==> *old(i) < *final(i) <= toks@.len()
            &&& sem_wf(st2)
        }),
{
    reveal(sem_step);
    proof { lemma_tokens_view_index(toks@); }
    let ghost ts = tokens_view(toks@);
    let ghost st = sem_view(build@, reps@, *haderr, *csec, *r0, *r1, *iseq);
    proof { lemma_tokens_view_index(build@); }
    let l = toks.len();
    let t = &toks[*i];
    if let Tok::Keyword(kw) = t.tok {
        if let Keyword::Cutoff = kw {
            return true;
        } else if let Keyword::Section = kw {
            if *i + 1 < l {
                let n = &toks[*i + 1];
                match &n.tok {
                    Tok::Word(w) => {
                        match section_of(*w) {
                            Some(sec) => {
                                *csec = sec;
                                let c = Token { tok: Tok::Section(sec), line: t.line, column: t.column };
                                proof { lemma_tokens_view_push(build@, c); }
                                build.push(c);
                                *i = *i + 1;
                            },
                            None => {},
                        }
                    },
                    _ => {
                        report_error_about(reps, "invalid section", Subject::Token(show(&n.tok)), n.line, n.column);
                    },
                }
            } else {
                report_error(reps, "no section given", t.line, t.column);
                *haderr = true;
            }
            *i = *i + 1;
            proof { lemma_tokens_view_index(build@); }
            return false;
        }
    }
    if let Section::Conf = *csec {
        let gi = *i;
        other_decl_exec(toks, gi, *csec, build, reps, haderr, i);
    } else if let Section::Data = *csec {
        let gi = *i;
        other_decl_exec(toks, gi, *csec, build, reps, haderr, i);
    } else if let Section::Indx = *csec {
        indx_step_exec(t, *csec, build, reps, haderr, r0, r1, iseq);
        *i = *i + 1;
    } else {
        let c = copy_token(t);
        proof { lemma_tokens_view_push(build@, c); }
        build.push(c);
        *i = *i + 1;
    }
    proof { lemma_tokens_view_index(build@); }
    false
}

proof fn lemma_syn_run_props(ts: Seq<TokenV>, i: int, st: PassSt)
    requires
        0 <= i <= ts.len(),
    ensures
        syn_run(ts, i, st).build.len() <= st.build.len() + (ts.len() - i),
        syn_run(ts, i, st).haderr == (st.haderr || syn_run(ts, i, st).reports.len() > st.reports.len()),
        syn_run(ts, i, st).reports.len() >= st.reports.len(),
        forall|k: int|
            st.reports.len() <= k < syn_run(ts, i, st).reports.len() ==> !(#[trigger] syn_run(ts, i, st).reports[k]).warning,
        st.reports.len() <= syn_run(ts, i, st).reports.len() ==> syn_run(ts, i, st).reports.subrange(0, st.reports.len() as int) == st.reports,
    decreases ts.len() - i,
{
    if i < ts.len() {
        let (st2, j) = syn_step(ts, i, st);
        lemma_syn_run_props(ts, j, st2);
        let fin = syn_run(ts, j, st2);
        assert(fin.reports.subrange(0, st.reports.len() as int) =~= st.reports) by {
            assert(fin.reports.subrange(0, st2.reports.len() as int) == st2.reports);
            assert(st2.reports.subrange(0, st.reports.len() as int) =~= st.reports);
        }
        assert forall|k: int| st.reports.len() <= k < fin.reports.len() implies !(#[trigger] fin.reports[k]).warning by {
            if k < st2.reports.len() {
                assert(fin.reports.subrange(0, st2.reports.len() as int)[k] == fin.reports[k]);
            }
        }
    } else {
        assert(st.reports.subrange(0, st.reports.len() as int) =~= st.reports);
    }
}

/// Law: the syntactic pass never makes the token stream longer, reports only errors, and gives its
/// tokens back as an error exactly when it has reported one.
pub proof fn law_syntactic_parse_shrinks(ts: Seq<TokenV>)
    ensures
        spec_syntactic_parse(ts).build.len() <= ts.len(),
        spec_syntactic_parse(ts).haderr <==> spec_syntactic_parse(ts).reports.len() > 0,
        forall|k: int|
            0 <= k < spec_syntactic_parse(ts).reports.len() ==> !(#[trigger] spec_syntactic_parse(ts).reports[k]).warning,
{
    lemma_syn_run_props(ts, 0, pass_init());
}

/// a token that the syntactic pass leaves alone: anything but the symbols `:`, `!` and `$`
pub open spec fn syn_plain(t: TokenV) -> bool {
    t.tok != TokV::Symbol(58) && t.tok != TokV::Symbol(33) && t.tok != TokV::Symbol(36)
}

proof fn lemma_syn_identity(ts: Seq<TokenV>, i: int)
    requires
        0 <= i <= ts.len(),
        forall|k: int| 0 <= k < ts.len() ==> syn_plain(#[trigger] ts[k]),
    ensures
        syn_run(ts, i, (PassSt { build: ts.subrange(0, i), reports: seq![], haderr: false }))
            == (PassSt { build: ts, reports: seq![], haderr: false }),
    decreases ts.len() - i,
{
    if i < ts.len() {
        assert(syn_plain(ts[i]));
        let (st2, j) = syn_step(ts, i, PassSt { build: ts.subrange(0, i), reports: seq![], haderr: false });
        assert(st2.build =~= ts.subrange(0, i + 1));
        lemma_syn_identity(ts, i + 1);
    } else {
        assert(ts.subrange(0, i) =~= ts);
    }
}

/// Law: a stream without the symbols `:`, `!` and `$` passes the syntactic pass unchanged and
/// without a diagnostic.
pub proof fn law_syntactic_parse_identity(ts: Seq<TokenV>)
    requires
        forall|k: int| 0 <= k < ts.len() ==> syn_plain(#[trigger] ts[k]),
    ensures
        spec_syntactic_parse(ts) == (PassSt { build: ts, reports: seq![], haderr: false }),
{
    assert(ts.subrange(0, 0) =~= Seq::<TokenV>::empty());
    lemma_syn_identity(ts, 0);
}

/// a token that the semantic pass leaves alone outside every section: anything but the section
/// and cutoff keywords
pub open spec fn sem_plain(t: TokenV) -> bool {
    t.tok != TokV::Keyword(Keyword::Section) && t.tok != TokV::Keyword(Keyword::Cutoff)
}

proof fn lemma_sem_identity(ts: Seq<TokenV>, i: int)
    requires
        0 <= i <= ts.len(),
        forall|k: int| 0 <= k < ts.len() ==> sem_plain(#[trigger] ts[k]),
    ensures
        sem_run(ts, i, (SemSt { build: ts.subrange(0, i), ..sem_init() })) == ((SemSt { build: ts, ..sem_init() }), false),
    decreases ts.len() - i,
{
    reveal(sem_step);
    if i < ts.len() {
        assert(sem_plain(ts[i]));
        let st = SemSt { build: ts.subrange(0, i), ..sem_init() };
        let (st2, j) = sem_step(ts, i, st).unwrap();
        assert(st2.build =~= ts.subrange(0, i + 1));
        assert(st2 == SemSt { build: ts.subrange(0, i + 1), ..sem_init() });
        lemma_sem_identity(ts, i + 1);
    } else {
        assert(ts.subrange(0, i) =~= ts);
    }
}

/// Law: a stream without section and cutoff keywords passes the semantic pass unchanged and
/// without a diagnostic, since it never enters a section (other keywords stay as they are).
pub proof fn law_semantic_parse_identity(ts: Seq<TokenV>)
    requires
        forall|k: int| 0 <= k < ts.len() ==> sem_plain(#[trigger] ts[k]),
    ensures
        spec_semantic_parse(ts).0.build == ts,
        spec_semantic_parse(ts).0.reports.len() == 0,
        !spec_semantic_parse(ts).0.haderr,
        !spec_semantic_parse(ts).1,
{
    assert(ts.subrange(0, 0) =~= Seq::<TokenV>::empty());
    assert(sem_init() == SemSt { build: ts.subrange(0, 0), ..sem_init() });
    lemma_sem_identity(ts, 0);
}

proof fn lemma_pt_run_well_sized(ts: Seq<TokenV>, k: int, t: Type, b: int)
    requires
        well_sized(t),
    ensures
        well_sized(pt_run(ts, k, t, b).0),
    decreases ts.len() - k,
{
    if 0 <= k < ts.len() {
        let part = ts[k];
        if b == 2 {
            lemma_pt_run_well_sized(ts, k + 1, t, 0);
        } else if b == 1 {
            match part.tok {
                TokV::UInt(n) => if n < 64 {
                    lemma_pt_run_well_sized(ts, k + 1, Type::Sarr(n as u8, Box::new(t)), 2);
                },
                TokV::Symbol(c) => if c == 93 {
                    lemma_pt_run_well_sized(ts, k + 1, Type::Uarr(Box::new(t)), 0);
                },
                _ => {},
            }
        } else {
            match part.tok {
                TokV::Symbol(c) => {
                    if c == 42 && t != Type::Unset {
                        lemma_pt_run_well_sized(ts, k + 1, Type::Ptr(Box::new(t)), 0);
                    } else if c == 91 {
                        lemma_pt_run_well_sized(ts, k + 1, t, 1);
                    }
                },
                TokV::Type(ty) => if ty == Type::Invalid && t == Type::Unset {
                    lemma_pt_run_well_sized(ts, k + 1, Type::Invalid, 0);
                },
                TokV::Word(w) => if t == Type::Unset {
                    match spec_type_of_word(w) {
                        Some(ty) => lemma_pt_run_well_sized(ts, k + 1, ty, 0),
                        None => {},
                    }
                },
                _ => {},
            }
        }
    }
}

/// Law: every type that `parse_type` reads has its fixed array sizes below 64 and no `Auto`
/// inside it.
pub proof fn law_parsed_types_well_sized(ts: Seq<TokenV>)
    ensures
        well_sized(spec_parse_type(ts).0),
{
    lemma_pt_run_well_sized(ts, 0, Type::Unset, 0);
}

/// two states of the semantic pass that agree on all but what was reported
pub open spec fn sem_same(a: SemSt, b: SemSt) -> bool {
    &&& a.build == b.build
    &&& a.csec == b.csec
    &&& a.r0 == b.r0
    &&& a.r1 == b.r1
    &&& a.iseq == b.iseq
}

/// no token before position `c` is a cutoff keyword
pub open spec fn no_cutoff_before(ts: Seq<TokenV>, c: int) -> bool {
    forall|k: int| 0 <= k < c ==> (#[trigger] ts[k]).tok != TokV::Keyword(Keyword::Cutoff)
}

proof fn lemma_sem_step_prefix(ts: Seq<TokenV>, c: int, i: int, st: SemSt)
    requires
        0 <= i < c < ts.len(),
        no_cutoff_before(ts, c),
        ts[c].tok == TokV::Keyword(Keyword::Cutoff),
    ensures
        ({
            let tp = ts.subrange(0, c);
            let a = sem_step(ts, i, st);
            let b = sem_step(tp, i, st);
            &&& a is Some && b is Some
            &&& i + 1 < c ==> a == b
            &&& i + 1 == c ==> a.unwrap().1 == c && b.unwrap().1 == c && sem_same(a.unwrap().0, b.unwrap().0)
            &&& i < a.unwrap().1 <= c
        }),
{
    reveal(sem_step);
    let tp = ts.subrange(0, c);
    assert(tp[i] == ts[i]);
    assert(ts[i].tok != TokV::Keyword(Keyword::Cutoff));
    if i + 1 < c {
        assert(tp[i + 1] == ts[i + 1]);
    }
}

proof fn lemma_sem_step_cutoff(ts: Seq<TokenV>, c: int, st: SemSt)
    requires
        0 <= c < ts.len(),
        ts[c].tok == TokV::Keyword(Keyword::Cutoff),
    ensures
        sem_step(ts, c, st) is None,
{
    reveal(sem_step);
}

proof fn lemma_sem_run_cutoff(ts: Seq<TokenV>, c: int, i: int, st: SemSt)
    requires
        0 <= i <= c < ts.len(),
        no_cutoff_before(ts, c),
        ts[c].tok == TokV::Keyword(Keyword::Cutoff),
    ensures
        sem_run(ts, i, st).1,
        !sem_run(ts.subrange(0, c), i, st).1,
        sem_same(sem_run(ts, i, st).0, sem_run(ts.subrange(0, c), i, st).0),
    decreases c - i,
{
    let tp = ts.subrange(0, c);
    if i == c {
        lemma_sem_step_cutoff(ts, c, st);
    } else {
        lemma_sem_step_prefix(ts, c, i, st);
        let (s1, j) = sem_step(ts, i, st).unwrap();
        if i + 1 < c {
            assert(sem_run(ts, i, st) == sem_run(ts, j, s1));
            assert(sem_run(tp, i, st) == sem_run(tp, j, s1));
            lemma_sem_run_cutoff(ts, c, j, s1);
        } else {
            let (s2, j2) = sem_step(tp, i, st).unwrap();
            lemma_sem_step_cutoff(ts, c, s1);
            assert(sem_run(ts, c, s1) == (s1, true));
            assert(sem_run(ts, i, st) == sem_run(ts, c, s1));
            assert(sem_run(tp, c, s2) == (s2, false));
            assert(sem_run(tp, i, st) == sem_run(tp, c, s2));
        }
    }
}

/// Law: the semantic pass stops at the first cutoff keyword, whatever follows it. It builds the
/// same tokens as on the stream cut off before that keyword, and it gives them back as `Ok`,
/// even where it has reported errors before.
pub proof fn law_semantic_parse_cutoff(ts: Seq<TokenV>, c: int)
    requires
        0 <= c < ts.len(),
        ts[c].tok == TokV::Keyword(Keyword::Cutoff),
        no_cutoff_before(ts, c),
    ensures
        spec_semantic_parse(ts).1,
        spec_semantic_parse(ts).0.build == spec_semantic_parse(ts.subrange(0, c)).0.build,
{
    lemma_sem_run_cutoff(ts, c, 0, sem_init());
}

/// Law: a purpose declaration names its purpose as a word or a string, one of `3tr`, `gpc`,
/// `bot` and `sbc`, which stand for 0, 1, 2 and 3, matched byte for byte; any other name is
/// passed over; a number stands for itself.
pub proof fn law_purpose_names(w: Seq<u8>, n: u64)
    ensures
        spec_decl_value(Section::Conf, Keyword::Purpose, TokV::Word(w)) == (if w == seq![51u8, 116u8, 114u8] { DeclV::Value(TokV::UInt(0)) } else if w == seq![103u8, 112u8, 99u8] { DeclV::Value(TokV::UInt(1)) } else if w == seq![98u8, 111u8, 116u8] { DeclV::Value(TokV::UInt(2)) } else if w == seq![115u8, 98u8, 99u8] { DeclV::Value(TokV::UInt(3)) } else { DeclV::Ignore }),
        spec_decl_value(Section::Conf, Keyword::Purpose, TokV::String(w)) == (if w == seq![51u8, 116u8, 114u8] { DeclV::Value(TokV::UInt(0)) } else if w == seq![103u8, 112u8, 99u8] { DeclV::Value(TokV::UInt(1)) } else if w == seq![98u8, 111u8, 116u8] { DeclV::Value(TokV::UInt(2)) } else if w == seq![115u8, 98u8, 99u8] { DeclV::Value(TokV::UInt(3)) } else { DeclV::Ignore }),
        spec_decl_value(Section::Conf, Keyword::Purpose, TokV::UInt(n)) == DeclV::Value(TokV::UInt(n)),
{
    reveal_strlit("3tr");
    vstd::string::is_ascii_spec_bytes("3tr");
    assert(lit("3tr") =~= seq![51u8, 116u8, 114u8]);
    reveal_strlit("gpc");
    vstd::string::is_ascii_spec_bytes("gpc");
    assert(lit("gpc") =~= seq![103u8, 112u8, 99u8]);
    reveal_strlit("bot");
    vstd::string::is_ascii_spec_bytes("bot");
    assert(lit("bot") =~= seq![98u8, 111u8, 116u8]);
    reveal_strlit("sbc");
    vstd::string::is_ascii_spec_bytes("sbc");
    assert(lit("sbc") =~= seq![115u8, 98u8, 99u8]);
}

/// the word of each keyword
pub open spec fn keyword_word(v: Keyword) -> Seq<u8> {
    match v {
        Keyword::Section => seq![115u8, 101u8, 99u8, 116u8, 105u8, 111u8, 110u8],
        Keyword::Purpose => seq![112u8, 117u8, 114u8, 112u8, 111u8, 115u8, 101u8],
        Keyword::Name => seq![110u8, 97u8, 109u8, 101u8],
        Keyword::Invar => seq![105u8, 110u8, 118u8, 97u8, 114u8],
        Keyword::SomeFlags => seq![115u8, 111u8, 109u8, 101u8],
        Keyword::NoneFlags => seq![110u8, 111u8, 110u8, 101u8],
        Keyword::Str => seq![115u8, 116u8, 114u8],
        Keyword::Fstr => seq![102u8, 115u8, 116u8, 114u8],
        Keyword::S32 => seq![115u8, 51u8, 50u8],
        Keyword::F64 => seq![102u8, 54u8, 52u8],
        Keyword::Res => seq![114u8, 101u8, 115u8],
        Keyword::Cutoff => seq![99u8, 117u8, 116u8, 111u8, 102u8, 102u8],
    }
}

proof fn lemma_keyword_word_bytes()
    ensures
        lit("section") == seq![115u8, 101u8, 99u8, 116u8, 105u8, 111u8, 110u8],
        lit("purpose") == seq![112u8, 117u8, 114u8, 112u8, 111u8, 115u8, 101u8],
        lit("name") == seq![110u8, 97u8, 109u8, 101u8],
        lit("invar") == seq![105u8, 110u8, 118u8, 97u8, 114u8],
        lit("some") == seq![115u8, 111u8, 109u8, 101u8],
        lit("none") == seq![110u8, 111u8, 110u8, 101u8],
        lit("str") == seq![115u8, 116u8, 114u8],
        lit("fstr") == seq![102u8, 115u8, 116u8, 114u8],
        lit("s32") == seq![115u8, 51u8, 50u8],
        lit("f64") == seq![102u8, 54u8, 52u8],
        lit("res") == seq![114u8, 101u8, 115u8],
        lit("cutoff") == seq![99u8, 117u8, 116u8, 111u8, 102u8, 102u8],
{
    reveal_strlit("section");
    vstd::string::is_ascii_spec_bytes("section");
    assert(lit("section") =~= seq![115u8, 101u8, 99u8, 116u8, 105u8, 111u8, 110u8]);
    reveal_strlit("purpose");
    vstd::string::is_ascii_spec_bytes("purpose");
    assert(lit("purpose") =~= seq![112u8, 117u8, 114u8, 112u8, 111u8, 115u8, 101u8]);
    reveal_strlit("name");
    vstd::string::is_ascii_spec_bytes("name");
    assert(lit("name") =~= seq![110u8, 97u8, 109u8, 101u8]);
    reveal_strlit("invar");
    vstd::string::is_ascii_spec_bytes("invar");
    assert(lit("invar") =~= seq![105u8, 110u8, 118u8, 97u8, 114u8]);
    reveal_strlit("some");
    vstd::string::is_ascii_spec_bytes("some");
    assert(lit("some") =~= seq![115u8, 111u8, 109u8, 101u8]);
    reveal_strlit("none");
    vstd::string::is_ascii_spec_bytes("none");
    assert(lit("none") =~= seq![110u8, 111u8, 110u8, 101u8]);
    reveal_strlit("str");
    vstd::string::is_ascii_spec_bytes("str");
    assert(lit("str") =~= seq![115u8, 116u8, 114u8]);
    reveal_strlit("fstr");
    vstd::string::is_ascii_spec_bytes("fstr");
    assert(lit("fstr") =~= seq![102u8, 115u8, 116u8, 114u8]);
    reveal_strlit("s32");
    vstd::string::is_ascii_spec_bytes("s32");
    assert(lit("s32") =~= seq![115u8, 51u8, 50u8]);
    reveal_strlit("f64");
    vstd::string::is_ascii_spec_bytes("f64");
    assert(lit("f64") =~= seq![102u8, 54u8, 52u8]);
    reveal_strlit("res");
    vstd::string::is_ascii_spec_bytes("res");
    assert(lit("res") =~= seq![114u8, 101u8, 115u8]);
    reveal_strlit("cutoff");
    vstd::string::is_ascii_spec_bytes("cutoff");
    assert(lit("cutoff") =~= seq![99u8, 117u8, 116u8, 111u8, 102u8, 102u8]);
}

/// Law: each keyword is read back from its word, and only from it, byte for byte: `section`,
/// `purpose`, `name`, `invar`, `some`, `none`, `str`, `fstr`, `s32`, `f64`, `res` and `cutoff`.
pub proof fn law_keyword_words(v: Keyword, w: Seq<u8>)
    ensures
        spec_keyword_of(keyword_word(v)) == Some(v),
        spec_keyword_of(w) == Some(v) <==> keyword_word(v) == w,
{
    lemma_keyword_word_bytes();
    match v {
        Keyword::Section => {
        },
        Keyword::Purpose => {
            assert(lit("section")[0] != seq![112u8, 117u8, 114u8, 112u8, 111u8, 115u8, 101u8][0]);
        },
        Keyword::Name => {
            assert(lit("section").len() != seq![110u8, 97u8, 109u8, 101u8].len());
            assert(lit("purpose").len() != seq![110u8, 97u8, 109u8, 101u8].len());
        },
        Keyword::Invar => {
            assert(lit("section").len() != seq![105u8, 110u8, 118u8, 97u8, 114u8].len());
            assert(lit("purpose").len() != seq![105u8, 110u8, 118u8, 97u8, 114u8].len());
            assert(lit("name").len() != seq![105u8, 110u8, 118u8, 97u8, 114u8].len());
        },
        Keyword::SomeFlags => {
            assert(lit("section").len() != seq![115u8, 111u8, 109u8, 101u8].len());
            assert(lit("purpose").len() != seq![115u8, 111u8, 109u8, 101u8].len());
            assert(lit("name")[0] != seq![115u8, 111u8, 109u8, 101u8][0]);
            assert(lit("invar").len() != seq![115u8, 111u8, 109u8, 101u8].len());
        },
        Keyword::NoneFlags => {
            assert(lit("section").len() != seq![110u8, 111u8, 110u8, 101u8].len());
            assert(lit("purpose").len() != seq![110u8, 111u8, 110u8, 101u8].len());
            assert(lit("name")[1] != seq![110u8, 111u8, 110u8, 101u8][1]);
            assert(lit("invar").len() != seq![110u8, 111u8, 110u8, 101u8].len());
            assert(lit("some")[0] != seq![110u8, 111u8, 110u8, 101u8][0]);
        },
        Keyword::Str => {
            assert(lit("section").len() != seq![115u8, 116u8, 114u8].len());
            assert(lit("purpose").len() != seq![115u8, 116u8, 114u8].len());
            assert(lit("name").len() != seq![115u8, 116u8, 114u8].len());
            assert(lit("invar").len() != seq![115u8, 116u8, 114u8].len());
            assert(lit("some").len() != seq![115u8, 116u8, 114u8].len());
            assert(lit("none").len() != seq![115u8, 116u8, 114u8].len());
        },
        Keyword::Fstr => {
            assert(lit("section").len() != seq![102u8, 115u8, 116u8, 114u8].len());
            assert(lit("purpose").len() != seq![102u8, 115u8, 116u8, 114u8].len());
            assert(lit("name")[0] != seq![102u8, 115u8, 116u8, 114u8][0]);
            assert(lit("invar").len() != seq![102u8, 115u8, 116u8, 114u8].len());
            assert(lit("some")[0] != seq![102u8, 115u8, 116u8, 114u8][0]);
            assert(lit("none")[0] != seq![102u8, 115u8, 116u8, 114u8][0]);
            assert(lit("str").len() != seq![102u8, 115u8, 116u8, 114u8].len());
        },
        Keyword::S32 => {
            assert(lit("section").len() != seq![115u8, 51u8, 50u8].len());
            assert(lit("purpose").len() != seq![115u8, 51u8, 50u8].len());
            assert(lit("name").len() != seq![115u8, 51u8, 50u8].len());
            assert(lit("invar").len() != seq![115u8, 51u8, 50u8].len());
            assert(lit("some").len() != seq![115u8, 51u8, 50u8].len());
            assert(lit("none").len() != seq![115u8, 51u8, 50u8].len());
            assert(lit("str")[1] != seq![115u8, 51u8, 50u8][1]);
            assert(lit("fstr").len() != seq![115u8, 51u8, 50u8].len());
        },
        Keyword::F64 => {
            assert(lit("section").len() != seq![102u8, 54u8, 52u8].len());
            assert(lit("purpose").len() != seq![102u8, 54u8, 52u8].len());
            assert(lit("name").len() != seq![102u8, 54u8, 52u8].len());
            assert(lit("invar").len() != seq![102u8, 54u8, 52u8].len());
            assert(lit("some").len() != seq![102u8, 54u8, 52u8].len());
            assert(lit("none").len() != seq![102u8, 54u8, 52u8].len());
            assert(lit("str")[0] != seq![102u8, 54u8, 52u8][0]);
            assert(lit("fstr").len() != seq![102u8, 54u8, 52u8].len());
            assert(lit("s32")[0] != seq![102u8, 54u8, 52u8][0]);
        },
        Keyword::Res => {
            assert(lit("section").len() != seq![114u8, 101u8, 115u8].len());
            assert(lit("purpose").len() != seq![114u8, 101u8, 115u8].len());
            assert(lit("name").len() != seq![114u8, 101u8, 115u8].len());
            assert(lit("invar").len() != seq![114u8, 101u8, 115u8].len());
            assert(lit("some").len() != seq![114u8, 101u8, 115u8].len());
            assert(lit("none").len() != seq![114u8, 101u8, 115u8].len());
            assert(lit("str")[0] != seq![114u8, 101u8, 115u8][0]);
            assert(lit("fstr").len() != seq![114u8, 101u8, 115u8].len());
            assert(lit("s32")[0] != seq![114u8, 101u8, 115u8][0]);
            assert(lit("f64")[0] != seq![114u8, 101u8, 115u8][0]);
        },
        Keyword::Cutoff => {
            assert(lit("section").len() != seq![99u8, 117u8, 116u8, 111u8, 102u8, 102u8].len());
            assert(lit("purpose").len() != seq![99u8, 117u8, 116u8, 111u8, 102u8, 102u8].len());
            assert(lit("name").len() != seq![99u8, 117u8, 116u8, 111u8, 102u8, 102u8].len());
            assert(lit("invar").len() != seq![99u8, 117u8, 116u8, 111u8, 102u8, 102u8].len());
            assert(lit("some").len() != seq![99u8, 117u8, 116u8, 111u8, 102u8, 102u8].len());
            assert(lit("none").len() != seq![99u8, 117u8, 116u8, 111u8, 102u8, 102u8].len());
            assert(lit("str").len() != seq![99u8, 117u8, 116u8, 111u8, 102u8, 102u8].len());
            assert(lit("fstr").len() != seq![99u8, 117u8, 116u8, 111u8, 102u8, 102u8].len());
            assert(lit("s32").len() != seq![99u8, 117u8, 116u8, 111u8, 102u8, 102u8].len());
            assert(lit("f64").len() != seq![99u8, 117u8, 116u8, 111u8, 102u8, 102u8].len());
            assert(lit("res").len() != seq![99u8, 117u8, 116u8, 111u8, 102u8, 102u8].len());
        },
    }
}

/// the name of each section
pub open spec fn section_word(v: Section) -> Option<Seq<u8>> {
    match v {
        Section::Conf => Some(seq![46u8, 99u8, 111u8, 110u8, 102u8]),
        Section::Data => Some(seq![46u8, 100u8, 97u8, 116u8, 97u8]),
        Section::Code => Some(seq![46u8, 99u8, 111u8, 100u8, 101u8]),
        Section::Indx => Some(seq![46u8, 105u8, 110u8, 100u8, 120u8]),
        Section::Outside => None,
    }
}

proof fn lemma_section_word_bytes()
    ensures
        lit(".conf") == seq![46u8, 99u8, 111u8, 110u8, 102u8],
        lit(".data") == seq![46u8, 100u8, 97u8, 116u8, 97u8],
        lit(".code") == seq![46u8, 99u8, 111u8, 100u8, 101u8],
        lit(".indx") == seq![46u8, 105u8, 110u8, 100u8, 120u8],
{
    reveal_strlit(".conf");
    vstd::string::is_ascii_spec_bytes(".conf");
    assert(lit(".conf") =~= seq![46u8, 99u8, 111u8, 110u8, 102u8]);
    reveal_strlit(".data");
    vstd::string::is_ascii_spec_bytes(".data");
    assert(lit(".data") =~= seq![46u8, 100u8, 97u8, 116u8, 97u8]);
    reveal_strlit(".code");
    vstd::string::is_ascii_spec_bytes(".code");
    assert(lit(".code") =~= seq![46u8, 99u8, 111u8, 100u8, 101u8]);
    reveal_strlit(".indx");
    vstd::string::is_ascii_spec_bytes(".indx");
    assert(lit(".indx") =~= seq![46u8, 105u8, 110u8, 100u8, 120u8]);
}

/// Law: each section is read back from its name, and only from it, byte for byte: `.conf`,
/// `.data`, `.code` and `.indx`.
pub proof fn law_section_words(v: Section, w: Seq<u8>)
    ensures
        section_word(v) matches Some(n) ==> spec_section_of(n) == Some(v),
        spec_section_of(w) == Some(v) <==> section_word(v) == Some(w),
{
    lemma_section_word_bytes();
    match v {
        Section::Conf => {
        },
        Section::Data => {
            assert(lit(".conf")[1] != seq![46u8, 100u8, 97u8, 116u8, 97u8][1]);
        },
        Section::Code => {
            assert(lit(".conf")[3] != seq![46u8, 99u8, 111u8, 100u8, 101u8][3]);
            assert(lit(".data")[1] != seq![46u8, 99u8, 111u8, 100u8, 101u8][1]);
        },
        Section::Indx => {
            assert(lit(".conf")[1] != seq![46u8, 105u8, 110u8, 100u8, 120u8][1]);
            assert(lit(".data")[1] != seq![46u8, 105u8, 110u8, 100u8, 120u8][1]);
            assert(lit(".code")[1] != seq![46u8, 105u8, 110u8, 100u8, 120u8][1]);
        },
        Section::Outside => {},
    }
}

/// Law: `purpose`, `name`, `fstr`, `invar`, `some` and `none` are declared in the configuration
/// section, `str`, `f64`, `s32` and `res` in the others; a keyword out of its place is not valid
/// there. A name or a string takes at most 255 bytes, and an invariant count at most 255.
pub proof fn law_declaration_places(sec: Section, kw: Keyword, n: TokV)
    ensures
        spec_decl_value(sec, kw, n) is NotValid <==> (if sec == Section::Conf {
            !(kw == Keyword::Purpose || kw == Keyword::Name || kw == Keyword::Fstr || kw == Keyword::Invar
                || kw == Keyword::SomeFlags || kw == Keyword::NoneFlags)
        } else {
            !(kw == Keyword::Str || kw == Keyword::F64 || kw == Keyword::S32 || kw == Keyword::Res)
        }),
        ((sec == Section::Conf && kw == Keyword::Name) || (sec != Section::Conf && kw == Keyword::Str)) ==> (n matches TokV::String(t)
            ==> (spec_decl_value(sec, kw, n) == DeclV::Value(n) <==> t.len() <= 255)),
        (sec == Section::Conf && kw == Keyword::Invar) ==> (n matches TokV::UInt(c)
            ==> (spec_decl_value(sec, kw, n) == DeclV::Value(n) <==> c <= 255)),
{
}

} // verus!
