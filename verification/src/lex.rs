//! turns source text into a stream of lexical tokens

use vstd::prelude::*;
use vstd::string::StringSliceAdditionalSpecFns;
use crate::types::{Tok, Token, TokV, TokenV, token_view, tokens_view, lemma_tokens_view_push, lemma_tokens_view_index};
use crate::errors::{Report, ReportV, reports_view, error_at, report_error};

verus! {

pub open spec fn spec_is_digit(c: u8) -> bool {
    48 <= c <= 57
}

pub open spec fn spec_is_alnum(c: u8) -> bool {
    spec_is_digit(c) || (65 <= c <= 90) || (97 <= c <= 122)
}

/// letters, digits, `@`, `_` and `.` make up words
pub open spec fn spec_is_wordchar(c: u8) -> bool {
    spec_is_alnum(c) || c == 64 || c == 95 || c == 46
}

/// the characters `! [ ] ( ) , : * $ &` are tokens by themselves
pub open spec fn spec_is_symchar(c: u8) -> bool {
    c == 33 || c == 91 || c == 93 || c == 40 || c == 41 || c == 44 || c == 58 || c == 42 || c == 36
        || c == 38
}

/// space, tab, line feed, form feed and carriage return
pub open spec fn spec_is_whitespace(c: u8) -> bool {
    c == 32 || c == 9 || c == 10 || c == 12 || c == 13
}

/// whether a byte may be part of a word
pub fn is_wordchar(c: u8) -> (r: bool)
    ensures
        r == spec_is_wordchar(c),
{
    (48 <= c && c <= 57) || (65 <= c && c <= 90) || (97 <= c && c <= 122) || c == 64 || c == 95
        || c == 46
}

fn is_symchar(c: u8) -> (r: bool)
    ensures
        r == spec_is_symchar(c),
{
    c == 33 || c == 91 || c == 93 || c == 40 || c == 41 || c == 44 || c == 58 || c == 42 || c == 36
        || c == 38
}

fn is_whitespace(c: u8) -> (r: bool)
    ensures
        r == spec_is_whitespace(c),
{
    c == 32 || c == 9 || c == 10 || c == 12 || c == 13
}

/// which kinds of literal a piece of text may still be
#[derive(Clone, Copy)]
pub struct CanBe {
    pub uint: bool,
    pub sint: bool,
    pub float: bool,
    pub word: bool,
}

/// the kinds a piece of text may be before its characters are looked at, the number of leading
/// characters that the scan skips, and whether a decimal point has been seen
pub open spec fn canbe_init(t: Seq<u8>) -> (CanBe, int, bool) {
    if t[0] == 35 {
        (CanBe { uint: false, sint: false, float: false, word: true }, 1, false)
    } else if t[0] == 45 {
        (CanBe { uint: false, sint: true, float: true, word: true }, 1, false)
    } else if t[0] == 46 {
        (CanBe { uint: false, sint: false, float: true, word: true }, 1, true)
    } else {
        (CanBe { uint: true, sint: true, float: true, word: true }, 0, false)
    }
}

/// what one character does to the kinds a piece of text may be
pub open spec fn canbe_step(cb: CanBe, dot: bool, c: u8) -> (CanBe, bool) {
    let cb1 = if !spec_is_wordchar(c) { CanBe { word: false, ..cb } } else { cb };
    if c == 46 {
        if dot {
            (CanBe { uint: false, sint: false, float: false, word: false }, true)
        } else {
            (CanBe { uint: false, sint: false, float: true, word: false }, true)
        }
    } else if !spec_is_digit(c) {
        (CanBe { uint: false, sint: false, float: false, word: cb1.word }, dot)
    } else {
        (cb1, dot)
    }
}

pub open spec fn canbe_scan(t: Seq<u8>, k: int, cb: CanBe, dot: bool) -> CanBe
    decreases t.len() - k,
{
    if k >= t.len() {
        cb
    } else {
        let (cb2, dot2) = canbe_step(cb, dot, t[k]);
        canbe_scan(t, k + 1, cb2, dot2)
    }
}

/// the kinds of literal a piece of text may be
pub open spec fn classify(t: Seq<u8>) -> CanBe {
    let (cb, off, dot) = canbe_init(t);
    canbe_scan(t, off, cb, dot)
}

/// the decimal value of a string of digits
pub open spec fn digits_value(t: Seq<u8>) -> nat
    decreases t.len(),
{
    if t.len() == 0 {
        0
    } else {
        digits_value(t.drop_last()) * 10 + (t.last() - 48) as nat
    }
}

/// the token that a piece of text (of at least one byte) stands for; `None` where reading its
/// number fails
pub open spec fn spec_lex_other(t: Seq<u8>) -> Option<TokV> {
    let cb = classify(t);
    if cb.uint {
        if digits_value(t) <= u64::MAX {
            Some(TokV::UInt(digits_value(t) as u64))
        } else {
            None
        }
    } else if cb.sint {
        if t.len() >= 2 && digits_value(t.drop_first()) <= 0x8000_0000_0000_0000 {
            Some(TokV::SInt((0 - digits_value(t.drop_first())) as i64))
        } else {
            None
        }
    } else if cb.float {
        Some(TokV::Float(t))
    } else if cb.word {
        Some(TokV::Word(t))
    } else {
        Some(TokV::Invalid)
    }
}

proof fn lemma_digits_value_prefix(t: Seq<u8>, k: int)
    requires
        0 <= k <= t.len(),
    ensures
        digits_value(t.subrange(0, k)) <= digits_value(t),
    decreases t.len() - k,
{
    if k < t.len() {
        lemma_digits_value_prefix(t, k + 1);
        assert(t.subrange(0, k + 1).drop_last() =~= t.subrange(0, k));
    } else {
        assert(t.subrange(0, k) =~= t);
    }
}

/// reads a string of digits; `None` where its value does not fit in 64 bits
fn parse_digits(t: &[u8], from: usize) -> (r: Option<u64>)
    requires
        from <= t@.len(),
        forall|j: int| from <= j < t@.len() ==> spec_is_digit(#[trigger] t@[j]),
    ensures
        r matches Some(v) ==> v == digits_value(t@.subrange(from as int, t@.len() as int)),
        r is None <==> digits_value(t@.subrange(from as int, t@.len() as int)) > u64::MAX,
{
    let ghost d = t@.subrange(from as int, t@.len() as int);
    let mut acc: u64 = 0;
    let mut k: usize = from;
    while k < t.len()
        invariant
            from <= k <= t@.len(),
            d == t@.subrange(from as int, t@.len() as int),
            forall|j: int| from <= j < t@.len() ==> spec_is_digit(#[trigger] t@[j]),
            acc == digits_value(d.subrange(0, k - from)),
        decreases t@.len() - k,
    {
        let c = t[k];
        let dv: u64 = (c - 48) as u64;
        assert(d.subrange(0, k + 1 - from).drop_last() =~= d.subrange(0, k - from));
        assert(d.subrange(0, k + 1 - from).last() == c);
        if acc > (u64::MAX - dv) / 10 {
            proof {
                assert(acc * 10 + dv > u64::MAX) by (nonlinear_arith)
                    requires
                        acc > (u64::MAX - dv) / 10,
                        dv <= 9,
                ;
                lemma_digits_value_prefix(d, k + 1 - from);
            }
            return None;
        }
        proof {
            assert(acc * 10 + dv <= u64::MAX) by (nonlinear_arith)
                requires
                    acc <= (u64::MAX - dv) / 10,
                    dv <= 9,
            ;
        }
        acc = acc * 10 + dv;
        k += 1;
    }
    assert(d.subrange(0, k - from) =~= d);
    Some(acc)
}

/// reads the token that the bytes `tokstart..tokend` of the source stand for; `None` where the
/// text has the form of a number that cannot be read
pub fn lex_other<'a>(source: &'a [u8], tokstart: usize, tokend: usize) -> (r: Option<Tok<'a>>)
    requires
        tokstart < tokend <= source@.len(),
    ensures
        r is None <==> spec_lex_other(source@.subrange(tokstart as int, tokend as int)) is None,
        r matches Some(t) ==> spec_lex_other(source@.subrange(tokstart as int, tokend as int))
            == Some(t.view()),
{
    let t = vstd::slice::slice_subrange(source, tokstart, tokend);
    let ghost tv = t@;
    let first = t[0];
    let mut cb: CanBe;
    let mut off: usize;
    let mut dot: bool;
    if first == 35 {
        cb = CanBe { uint: false, sint: false, float: false, word: true };
        off = 1;
        dot = false;
    } else if first == 45 {
        cb = CanBe { uint: false, sint: true, float: true, word: true };
        off = 1;
        dot = false;
    } else if first == 46 {
        cb = CanBe { uint: false, sint: false, float: true, word: true };
        off = 1;
        dot = true;
    } else {
        cb = CanBe { uint: true, sint: true, float: true, word: true };
        off = 0;
        dot = false;
    }
    let mut k: usize = off;
    while k < t.len()
        invariant
            off <= k <= t@.len(),
            t@ == tv,
            tv.len() >= 1,
            classify(tv) == canbe_scan(tv, k as int, cb, dot),
            cb.uint ==> forall|j: int| 0 <= j < k ==> spec_is_digit(#[trigger] tv[j]),
            cb.uint ==> off == 0,
            cb.sint && !cb.uint ==> tv[0] == 45 && off == 1 && forall|j: int|
                1 <= j < k ==> spec_is_digit(#[trigger] tv[j]),
            cb.sint ==> tv[0] == 45 || off == 0,
            cb.sint && off == 0 ==> cb.uint,
        decreases t@.len() - k,
    {
        let c = t[k];
        if !is_wordchar(c) {
            cb = CanBe { word: false, ..cb };
        }
        if c == 46 {
            if dot {
                cb = CanBe { uint: false, sint: false, float: false, word: false };
            } else {
                cb = CanBe { uint: false, sint: false, float: true, word: false };
                dot = true;
            }
        } else if !(48 <= c && c <= 57) {
            cb = CanBe { uint: false, sint: false, float: false, word: cb.word };
        }
        k += 1;
    }
    if cb.uint {
        match parse_digits(t, 0) {
            Some(v) => {
                assert(tv.subrange(0, tv.len() as int) =~= tv);
                return Some(Tok::UInt(v));
            },
            None => {
                assert(tv.subrange(0, tv.len() as int) =~= tv);
                return None;
            },
        }
    }
    if cb.sint {
        if t.len() < 2 {
            return None;
        }
        match parse_digits(t, 1) {
            Some(v) => {
                assert(tv.subrange(1, tv.len() as int) =~= tv.drop_first());
                if v > 0x8000_0000_0000_0000 {
                    return None;
                }
                let s: i64 = if v == 0x8000_0000_0000_0000 {
                    i64::MIN
                } else {
                    0 - (v as i64)
                };
                return Some(Tok::SInt(s));
            },
            None => {
                assert(tv.subrange(1, tv.len() as int) =~= tv.drop_first());
                return None;
            },
        }
    }
    if cb.float {
        return Some(Tok::Float(t));
    }
    if cb.word {
        return Some(Tok::Word(t));
    }
    Some(Tok::Invalid)
}

/// the longest source that the lexer takes: in a source of this length every line and column
/// number fits in the 32 bits that a token keeps of its position
pub const MAX_SOURCE: usize = 0xffff_fff0;

#[derive(Clone, Copy, PartialEq, Eq, Structural)]
pub enum LexMode {
    Scan,
    Comment,
    Str,
    Other,
}

/// the lexer's state between two bytes
pub struct LexSt {
    pub mode: LexMode,
    pub tokstart: int,
    pub startcol: int,
    pub line: int,
    pub column: int,
    pub haderr: bool,
}

/// what the lexer produces from a position onwards: tokens, diagnostics, and whether an error occurred
pub struct LexOut {
    pub toks: Seq<TokenV>,
    pub reports: Seq<ReportV>,
    pub haderr: bool,
}

pub open spec fn prepend(t: Seq<TokenV>, r: Seq<ReportV>, o: Option<LexOut>) -> Option<LexOut> {
    match o {
        Some(out) => Some(LexOut { toks: t + out.toks, reports: r + out.reports, haderr: out.haderr }),
        None => None,
    }
}

pub open spec fn tokv(tok: TokV, line: int, column: int) -> TokenV {
    TokenV { tok, line: line as u32, column: column as u32 }
}

/// the state after a byte has been read in scanning mode
pub open spec fn scan_state(c: u8, i: int, st: LexSt) -> LexSt {
    if c == 59 {
        LexSt { mode: LexMode::Comment, ..st }
    } else if c == 34 {
        LexSt { mode: LexMode::Str, tokstart: i + 1, startcol: st.column, ..st }
    } else if spec_is_symchar(c) {
        st
    } else if !spec_is_whitespace(c) {
        LexSt { mode: LexMode::Other, tokstart: i, startcol: st.column, ..st }
    } else {
        st
    }
}

/// the tokens produced by a byte read in scanning mode
pub open spec fn scan_toks(c: u8, st: LexSt) -> Seq<TokenV> {
    if c != 59 && c != 34 && spec_is_symchar(c) {
        seq![tokv(TokV::Symbol(c), st.line, st.column)]
    } else {
        seq![]
    }
}

/// the end of a word or number that ends at `i`: its token or its error
pub open spec fn flush_other(src: Seq<u8>, i: int, st: LexSt) -> Option<(Seq<TokenV>, Seq<ReportV>, bool)> {
    match spec_lex_other(src.subrange(st.tokstart, i)) {
        None => None,
        Some(tv) => if tv == TokV::Invalid {
            Some((seq![], seq![error_at("invalid token", st.line as u32, st.startcol as u32)], true))
        } else {
            Some((seq![tokv(tv, st.line, st.startcol)], seq![], false))
        },
    }
}

pub open spec fn advance(st: LexSt) -> LexSt {
    LexSt { column: st.column + 1, ..st }
}

/// what the lexer produces at the end of the source: the word or number that it is reading, or
/// the report of a string left open, then a newline token
pub open spec fn lex_end(src: Seq<u8>, st: LexSt) -> Option<LexOut> {
    let nl = tokv(TokV::Newline, st.line, st.column);
    if st.mode == LexMode::Other {
        match flush_other(src, src.len() as int, st) {
            None => None,
            Some((t, r, e)) => Some(LexOut { toks: t.push(nl), reports: r, haderr: st.haderr || e }),
        }
    } else if st.mode == LexMode::Str {
        Some(LexOut {
            toks: seq![nl],
            reports: seq![error_at("unterminated string literal", st.line as u32, st.startcol as u32)],
            haderr: true,
        })
    } else {
        Some(LexOut { toks: seq![nl], reports: seq![], haderr: st.haderr })
    }
}

/// the lexer, run from position `i` in state `st` to the end of the source; `None` where it
/// cannot go on (a backslash as the last byte of a string, or a number that cannot be read)
pub open spec fn lex_run(src: Seq<u8>, i: int, st: LexSt) -> Option<LexOut>
    decreases src.len() + 4 - i,
{
    if i >= src.len() || i < 0 {
        lex_end(src, st)
    } else {
        let c = src[i];
        if c == 10 {
            let next = LexSt { mode: LexMode::Scan, line: st.line + 1, column: 1, ..st };
            let nl = tokv(TokV::Newline, st.line, st.column);
            if st.mode == LexMode::Str {
                prepend(
                    seq![nl],
                    seq![error_at("unterminated string literal", st.line as u32, st.startcol as u32)],
                    lex_run(src, i + 1, LexSt { haderr: true, ..next }),
                )
            } else if st.mode == LexMode::Other {
                match flush_other(src, i, st) {
                    None => None,
                    Some((t, r, e)) => prepend(t.push(nl), r, lex_run(src, i + 1, LexSt { haderr: st.haderr || e, ..next })),
                }
            } else {
                prepend(seq![nl], seq![], lex_run(src, i + 1, next))
            }
        } else if st.mode == LexMode::Scan {
            prepend(scan_toks(c, st), seq![], lex_run(src, i + 1, advance(scan_state(c, i, st))))
        } else if st.mode == LexMode::Comment {
            lex_run(src, i + 1, advance(st))
        } else if st.mode == LexMode::Str {
            if c == 92 {
                if i + 1 >= src.len() {
                    None
                } else if src[i + 1] == 120 {
                    lex_run(src, i + 4, advance(st))
                } else {
                    lex_run(src, i + 2, advance(st))
                }
            } else if c == 34 {
                prepend(
                    seq![tokv(TokV::String(src.subrange(st.tokstart, i)), st.line, st.startcol)],
                    seq![],
                    lex_run(src, i + 1, advance(LexSt { mode: LexMode::Scan, ..st })),
                )
            } else {
                lex_run(src, i + 1, advance(st))
            }
        } else {
            if !spec_is_wordchar(c) {
                match flush_other(src, i, st) {
                    None => None,
                    Some((t, r, e)) => {
                        let st2 = LexSt { mode: LexMode::Scan, haderr: st.haderr || e, ..st };
                        prepend(t + scan_toks(c, st2), r, lex_run(src, i + 1, advance(scan_state(c, i, st2))))
                    },
                }
            } else {
                lex_run(src, i + 1, advance(st))
            }
        }
    }
}

pub open spec fn lex_init() -> LexSt {
    LexSt { mode: LexMode::Scan, tokstart: 0, startcol: 1, line: 1, column: 1, haderr: false }
}

/// what the lexer produces from a whole source; `None` where the source cannot be lexed
pub open spec fn spec_lex(src: Seq<u8>) -> Option<LexOut> {
    lex_run(src, 0, lex_init())
}

proof fn lemma_prepend_assoc(a: Seq<TokenV>, b: Seq<ReportV>, c: Seq<TokenV>, d: Seq<ReportV>, o: Option<LexOut>)
    ensures
        prepend(a, b, prepend(c, d, o)) == prepend(a + c, b + d, o),
{
    match o {
        Some(out) => {
            assert(a + (c + out.toks) =~= (a + c) + out.toks);
            assert(b + (d + out.reports) =~= (b + d) + out.reports);
        },
        None => {},
    }
}

pub open spec fn st_of(mode: LexMode, tokstart: usize, startcol: u32, line: u32, column: u32, haderr: bool) -> LexSt {
    LexSt { mode, tokstart: tokstart as int, startcol: startcol as int, line: line as int, column: column as int, haderr }
}

/// runs the lexer; `None` exactly where the source cannot be lexed
fn lex_core<'a>(source: &'a [u8]) -> (r: Option<(Vec<Token<'a>>, Vec<Report>, bool)>)
    requires
        source@.len() <= MAX_SOURCE,
    ensures
        r is None <==> spec_lex(source@) is None,
        r matches Some((t, rep, e)) ==> spec_lex(source@) == Some(
            LexOut { toks: tokens_view(t@), reports: reports_view(rep@), haderr: e },
        ),
{
    let sl = source.len();
    let mut toks: Vec<Token<'a>> = Vec::new();
    let mut reps: Vec<Report> = Vec::new();
    let mut haderr = false;
    let mut mode = LexMode::Scan;
    let mut tokstart: usize = 0;
    let mut startcol: u32 = 1;
    let mut i: usize = 0;
    let mut line: u32 = 1;
    let mut column: u32 = 1;
    assert(tokens_view(toks@) =~= seq![]);
    assert(reports_view(reps@) =~= seq![]);
    proof {
        assert(prepend(seq![], seq![], spec_lex(source@)) == spec_lex(source@)) by {
            match spec_lex(source@) {
                Some(out) => {
                    assert(Seq::<TokenV>::empty() + out.toks =~= out.toks);
                    assert(Seq::<ReportV>::empty() + out.reports =~= out.reports);
                },
                None => {},
            }
        }
    }
    while i < sl
        invariant
            sl == source@.len(),
            sl <= MAX_SOURCE,
            i <= sl + 3,
            tokstart <= i,
            mode == LexMode::Other ==> tokstart < i <= sl,
            1 <= line <= i + 1,
            column <= i + 1,
            startcol <= i + 1,
            spec_lex(source@) == prepend(
                tokens_view(toks@),
                reports_view(reps@),
                lex_run(source@, i as int, st_of(mode, tokstart, startcol, line, column, haderr)),
            ),
        decreases sl + 4 - i,
    {
        let ghost st = st_of(mode, tokstart, startcol, line, column, haderr);
        let ghost old_toks = toks@;
        let ghost old_reps = reps@;
        let ghost gi = i;
        let ghost mut exp_t: Seq<TokenV> = seq![];
        let ghost mut exp_r: Seq<ReportV> = seq![];
        let c = source[i];
        if c == 10 {
            if mode == LexMode::Str {
                haderr = true;
                report_error(&mut reps, "unterminated string literal", line, startcol);
                proof { exp_r = seq![error_at("unterminated string literal", line, startcol)]; }
            } else if mode == LexMode::Other {
                match lex_other(source, tokstart, i) {
                    None => {
                        return None;
                    },
                    Some(tok) => {
                        if let Tok::Invalid = tok {
                            haderr = true;
                            report_error(&mut reps, "invalid token", line, startcol);
                            proof { exp_r = seq![error_at("invalid token", line, startcol)]; }
                        } else {
                            let t = Token { tok, line, column: startcol };
                            proof {
                                lemma_tokens_view_push(toks@, t);
                                exp_t = seq![token_view(t)];
                            }
                            toks.push(t);
                        }
                    },
                }
            }
            mode = LexMode::Scan;
            let t = Token { tok: Tok::Newline, line, column };
            proof {
                lemma_tokens_view_push(toks@, t);
                exp_t = exp_t.push(token_view(t));
            }
            toks.push(t);
            column = 0;
            line += 1;
        } else if mode == LexMode::Scan {
            scan_byte(source, i, c, &mut mode, &mut tokstart, &mut startcol, line, column, &mut toks);
            proof { exp_t = scan_toks(c, st); }
        } else if mode == LexMode::Comment {
        } else if mode == LexMode::Str {
            if c == 92 {
                if i + 1 >= sl {
                    return None;
                }
                if source[i + 1] == 120 {
                    i += 3;
                } else {
                    i += 1;
                }
            } else if c == 34 {
                let t = Token { tok: Tok::String(vstd::slice::slice_subrange(source, tokstart, i)), line, column: startcol };
                proof {
                    lemma_tokens_view_push(toks@, t);
                    exp_t = seq![token_view(t)];
                }
                toks.push(t);
                mode = LexMode::Scan;
            }
        } else {
            if !is_wordchar(c) {
                match lex_other(source, tokstart, i) {
                    None => {
                        return None;
                    },
                    Some(tok) => {
                        if let Tok::Invalid = tok {
                            haderr = true;
                            report_error(&mut reps, "invalid token", line, startcol);
                            proof { exp_r = seq![error_at("invalid token", line, startcol)]; }
                        } else {
                            let t = Token { tok, line, column: startcol };
                            proof {
                                lemma_tokens_view_push(toks@, t);
                                exp_t = seq![token_view(t)];
                            }
                            toks.push(t);
                        }
                    },
                }
                mode = LexMode::Scan;
                let ghost mid_toks = toks@;
                let ghost st2 = st_of(mode, tokstart, startcol, line, column, haderr);
                scan_byte(source, i, c, &mut mode, &mut tokstart, &mut startcol, line, column, &mut toks);
                proof {
                    assert(tokens_view(mid_toks) =~= tokens_view(old_toks) + exp_t);
                    exp_t = exp_t + scan_toks(c, st2);
                }
            }
        }
        column += 1;
        i += 1;
        proof {
            assert(tokens_view(toks@) =~= tokens_view(old_toks) + exp_t);
            assert(reports_view(reps@) =~= reports_view(old_reps) + exp_r);
            let nst = st_of(mode, tokstart, startcol, line, column, haderr);
            assert(lex_run(source@, gi as int, st) == prepend(exp_t, exp_r, lex_run(source@, i as int, nst)));
            lemma_prepend_assoc(tokens_view(old_toks), reports_view(old_reps), exp_t, exp_r, lex_run(source@, i as int, nst));
        }
    }
    let ghost st = st_of(mode, tokstart, startcol, line, column, haderr);
    let ghost old_toks = toks@;
    let ghost old_reps = reps@;
    let ghost mut exp_t: Seq<TokenV> = seq![];
    let ghost mut exp_r: Seq<ReportV> = seq![];
    if mode == LexMode::Str {
        haderr = true;
        report_error(&mut reps, "unterminated string literal", line, startcol);
        proof { exp_r = seq![error_at("unterminated string literal", line, startcol)]; }
    } else if mode == LexMode::Other {
        match lex_other(source, tokstart, sl) {
            None => {
                return None;
            },
            Some(tok) => {
                if let Tok::Invalid = tok {
                    haderr = true;
                    report_error(&mut reps, "invalid token", line, startcol);
                    proof { exp_r = seq![error_at("invalid token", line, startcol)]; }
                } else {
                    let t = Token { tok, line, column: startcol };
                    proof {
                        lemma_tokens_view_push(toks@, t);
                        exp_t = seq![token_view(t)];
                    }
                    toks.push(t);
                }
            },
        }
    }
    let t = Token { tok: Tok::Newline, line, column };
    proof {
        lemma_tokens_view_push(toks@, t);
        exp_t = exp_t.push(token_view(t));
    }
    toks.push(t);
    proof {
        assert(tokens_view(toks@) =~= tokens_view(old_toks) + exp_t);
        assert(reports_view(reps@) =~= reports_view(old_reps) + exp_r);
        assert(lex_run(source@, i as int, st) == Some(LexOut { toks: exp_t, reports: exp_r, haderr }));
    }
    Some((toks, reps, haderr))
}

/// reads one byte in scanning mode
fn scan_byte<'a>(
    source: &'a [u8],
    i: usize,
    c: u8,
    mode: &mut LexMode,
    tokstart: &mut usize,
    startcol: &mut u32,
    line: u32,
    column: u32,
    toks: &mut Vec<Token<'a>>,
)
    requires
        i < source@.len(),
        source@.len() <= MAX_SOURCE,
        c == source@[i as int],
    ensures
        ({
            let st = st_of(*old(mode), *old(tokstart), *old(startcol), line, column, false);
            let st2 = scan_state(c, i as int, st);
            &&& *final(mode) == st2.mode
            &&& *final(tokstart) as int == st2.tokstart
            &&& *final(startcol) as int == st2.startcol
            &&& tokens_view(final(toks)@) == tokens_view(old(toks)@) + scan_toks(c, st)
        }),
{
    let ghost before = toks@;
    if c == 59 {
        *mode = LexMode::Comment;
    } else if c == 34 {
        *mode = LexMode::Str;
        *tokstart = i + 1;
        *startcol = column;
    } else if is_symchar(c) {
        let t = Token { tok: Tok::Symbol(c), line, column };
        proof { lemma_tokens_view_push(toks@, t); }
        toks.push(t);
    } else if !is_whitespace(c) {
        *mode = LexMode::Other;
        *tokstart = i;
        *startcol = column;
    }
    assert(tokens_view(toks@) =~= tokens_view(before) + scan_toks(c, st_of(*old(mode), *old(tokstart), *old(startcol), line, column, false)));
}

/// the tokens, diagnostics and outcome of lexing `src`, given that it can be lexed
pub open spec fn lex_result_matches<'a>(src: Seq<u8>, r: Result<Vec<Token<'a>>, Vec<Token<'a>>>, old_reports: Seq<Report>, new_reports: Seq<Report>) -> bool {
    let out = spec_lex(src).unwrap();
    &&& reports_view(new_reports) == reports_view(old_reports) + out.reports
    &&& match r {
        Ok(t) => !out.haderr && tokens_view(t@) == out.toks,
        Err(t) => out.haderr && tokens_view(t@) == out.toks,
    }
}

/// convert a string into a stream of lexical tokens; the diagnostics are appended to `reports`,
/// and the tokens come back as `Err` where one of them is an error
pub fn lex<'a>(sourcestr: &'a str, reports: &mut Vec<Report>) -> (r: Result<Vec<Token<'a>>, Vec<Token<'a>>>)
    requires
        sourcestr.spec_bytes().len() <= MAX_SOURCE,
        spec_lex(sourcestr.spec_bytes()) is Some,
    ensures
        lex_result_matches(sourcestr.spec_bytes(), r, old(reports)@, final(reports)@),
{
    match lex_checked(sourcestr, reports) {
        Some(r) => r,
        None => {
            assert(false);
            Err(Vec::new())
        },
    }
}

/// as `lex`, for any source of acceptable length: `None` exactly where the source cannot be
/// lexed (a backslash as the last byte of a string, or a number that does not fit), and then
/// `reports` is left as it was
pub fn lex_checked<'a>(sourcestr: &'a str, reports: &mut Vec<Report>) -> (r: Option<Result<Vec<Token<'a>>, Vec<Token<'a>>>>)
    requires
        sourcestr.spec_bytes().len() <= MAX_SOURCE,
    ensures
        r is None <==> spec_lex(sourcestr.spec_bytes()) is None,
        r is None ==> final(reports)@ == old(reports)@,
        r matches Some(res) ==> lex_result_matches(sourcestr.spec_bytes(), res, old(reports)@, final(reports)@),
{
    let source: &'a [u8] = sourcestr.as_bytes();
    match lex_core(source) {
        None => None,
        Some((toks, mut reps, haderr)) => {
            let ghost before = reports@;
            let ghost added = reps@;
            reports.append(&mut reps);
            assert(reports_view(reports@) =~= reports_view(before) + reports_view(added));
            if haderr {
                Some(Err(toks))
            } else {
                Some(Ok(toks))
            }
        },
    }
}

proof fn lemma_lex_run_outcome(src: Seq<u8>, i: int, st: LexSt)
    requires
        lex_run(src, i, st) is Some,
    ensures
        ({
            let o = lex_run(src, i, st).unwrap();
            &&& o.haderr == (st.haderr || o.reports.len() > 0)
            &&& o.toks.len() > 0
            &&& o.toks.last().tok == TokV::Newline
            &&& forall|k: int| 0 <= k < o.reports.len() ==> !(#[trigger] o.reports[k]).warning
        }),
    decreases src.len() + 4 - i,
{
    if i >= src.len() || i < 0 {
    } else {
        let c = src[i];
        let next = LexSt { mode: LexMode::Scan, line: st.line + 1, column: 1, ..st };
        if c == 10 {
            if st.mode == LexMode::Str {
                lemma_lex_run_outcome(src, i + 1, LexSt { haderr: true, ..next });
            } else if st.mode == LexMode::Other {
                let (t, r, e) = flush_other(src, i, st).unwrap();
                lemma_lex_run_outcome(src, i + 1, LexSt { haderr: st.haderr || e, ..next });
            } else {
                lemma_lex_run_outcome(src, i + 1, next);
            }
        } else if st.mode == LexMode::Scan {
            lemma_lex_run_outcome(src, i + 1, advance(scan_state(c, i, st)));
        } else if st.mode == LexMode::Comment {
            lemma_lex_run_outcome(src, i + 1, advance(st));
        } else if st.mode == LexMode::Str {
            if c == 92 {
                if src[i + 1] == 120 {
                    lemma_lex_run_outcome(src, i + 4, advance(st));
                } else {
                    lemma_lex_run_outcome(src, i + 2, advance(st));
                }
            } else if c == 34 {
                lemma_lex_run_outcome(src, i + 1, advance(LexSt { mode: LexMode::Scan, ..st }));
            } else {
                lemma_lex_run_outcome(src, i + 1, advance(st));
            }
        } else {
            if !spec_is_wordchar(c) {
                let (t, r, e) = flush_other(src, i, st).unwrap();
                let st2 = LexSt { mode: LexMode::Scan, haderr: st.haderr || e, ..st };
                lemma_lex_run_outcome(src, i + 1, advance(scan_state(c, i, st2)));
            } else {
                lemma_lex_run_outcome(src, i + 1, advance(st));
            }
        }
    }
}

/// Law: the lexer gives its tokens back as an error exactly when it has reported something, and
/// all it reports are errors.
pub proof fn law_lex_err_iff_reported(src: Seq<u8>)
    requires
        spec_lex(src) is Some,
    ensures
        spec_lex(src).unwrap().haderr <==> spec_lex(src).unwrap().reports.len() > 0,
        forall|k: int|
            0 <= k < spec_lex(src).unwrap().reports.len() ==> !(#[trigger] spec_lex(src).unwrap().reports[k]).warning,
{
    lemma_lex_run_outcome(src, 0, lex_init());
}

/// Law: the token stream of the lexer always ends with a newline token.
pub proof fn law_lex_ends_with_newline(src: Seq<u8>)
    requires
        spec_lex(src) is Some,
    ensures
        spec_lex(src).unwrap().toks.len() > 0,
        spec_lex(src).unwrap().toks.last().tok == TokV::Newline,
{
    lemma_lex_run_outcome(src, 0, lex_init());
}

/// the number of newline tokens in a token stream
pub open spec fn nl_count(toks: Seq<TokenV>) -> nat
    decreases toks.len(),
{
    if toks.len() == 0 {
        0
    } else {
        nl_count(toks.drop_last()) + if toks.last().tok == TokV::Newline { 1nat } else { 0nat }
    }
}

/// the columns of the newline tokens of a stream, in their order
pub open spec fn nl_columns(toks: Seq<TokenV>) -> Seq<int>
    decreases toks.len(),
{
    if toks.len() == 0 {
        seq![]
    } else {
        nl_columns(toks.drop_last()) + if toks.last().tok == TokV::Newline { seq![toks.last().column as int] } else { seq![] }
    }
}

/// the columns where the newline bytes of a source stand from position `i` on, counting one
/// column per byte from column `col` at `i` and from column 1 after each newline, and the column
/// past the last byte
pub open spec fn lf_columns(src: Seq<u8>, i: int, col: int) -> Seq<int>
    decreases src.len() - i,
{
    if i >= src.len() || i < 0 {
        seq![col]
    } else if src[i] == 10 {
        seq![col] + lf_columns(src, i + 1, 1)
    } else {
        lf_columns(src, i + 1, col + 1)
    }
}

proof fn lemma_nl_columns_concat(a: Seq<TokenV>, b: Seq<TokenV>)
    ensures
        nl_columns(a + b) == nl_columns(a) + nl_columns(b),
    decreases b.len(),
{
    if b.len() == 0 {
        assert(a + b =~= a);
        assert(nl_columns(a) + nl_columns(b) =~= nl_columns(a));
    } else {
        assert((a + b).drop_last() =~= a + b.drop_last());
        lemma_nl_columns_concat(a, b.drop_last());
        assert(nl_columns(a) + nl_columns(b.drop_last()) + (if b.last().tok == TokV::Newline { seq![b.last().column as int] } else { seq![] })
            =~= nl_columns(a) + nl_columns(b));
    }
}

/// the newline tokens of a stream stand on the lines `l`, `l + 1`, ..., in their order
pub open spec fn nl_lines(toks: Seq<TokenV>, l: int) -> bool {
    forall|k: int|
        0 <= k < toks.len() && (#[trigger] toks[k]).tok == TokV::Newline ==> toks[k].line as int == l + nl_count(toks.subrange(0, k))
}

proof fn lemma_nl_count_concat(a: Seq<TokenV>, b: Seq<TokenV>)
    ensures
        nl_count(a + b) == nl_count(a) + nl_count(b),
    decreases b.len(),
{
    if b.len() == 0 {
        assert(a + b =~= a);
    } else {
        assert((a + b).drop_last() =~= a + b.drop_last());
        lemma_nl_count_concat(a, b.drop_last());
    }
}

proof fn lemma_nl_lines_concat(a: Seq<TokenV>, b: Seq<TokenV>, l: int)
    requires
        nl_lines(a, l),
        nl_lines(b, l + nl_count(a)),
    ensures
        nl_lines(a + b, l),
{
    assert forall|k: int| 0 <= k < (a + b).len() && (#[trigger] (a + b)[k]).tok == TokV::Newline implies (a + b)[k].line as int == l + nl_count((a + b).subrange(0, k)) by {
        if k < a.len() {
            assert((a + b).subrange(0, k) =~= a.subrange(0, k));
            assert((a + b)[k] == a[k]);
        } else {
            let j = k - a.len();
            assert((a + b).subrange(0, k) =~= a + b.subrange(0, j));
            assert((a + b)[k] == b[j]);
            lemma_nl_count_concat(a, b.subrange(0, j));
        }
    }
}

/// a stream of at most two tokens without a newline token, or with one only at its end
proof fn lemma_nl_short(t: Seq<TokenV>, l: int)
    requires
        t.len() <= 3,
        forall|k: int| 0 <= k < t.len() - 1 ==> (#[trigger] t[k]).tok != TokV::Newline,
        t.len() > 0 && t.last().tok == TokV::Newline ==> t.last().line as int == l,
    ensures
        nl_lines(t, l),
        nl_count(t) == if t.len() > 0 && t.last().tok == TokV::Newline { 1nat } else { 0nat },
        nl_columns(t) == if t.len() > 0 && t.last().tok == TokV::Newline { seq![t.last().column as int] } else { seq![] },
{
    reveal_with_fuel(nl_count, 4);
    reveal_with_fuel(nl_columns, 4);
    if t.len() == 3 {
        assert(nl_columns(t.drop_last().drop_last().drop_last()) =~= seq![]);
        assert(nl_columns(t.drop_last().drop_last()) =~= seq![]);
        assert(nl_columns(t.drop_last()) =~= seq![]);
    } else if t.len() == 2 {
        assert(nl_columns(t.drop_last().drop_last()) =~= seq![]);
        assert(nl_columns(t.drop_last()) =~= seq![]);
    } else if t.len() == 1 {
        assert(nl_columns(t.drop_last()) =~= seq![]);
    }
    assert(Seq::<int>::empty() + seq![t.last().column as int] =~= seq![t.last().column as int]);
    assert(Seq::<int>::empty() + Seq::<int>::empty() =~= Seq::<int>::empty());
    if t.len() > 0 {
        assert(t.drop_last().len() < 3);
        if t.len() >= 2 {
            assert(t.drop_last().drop_last().len() < 2);
        }
    }
    assert forall|k: int| 0 <= k < t.len() && (#[trigger] t[k]).tok == TokV::Newline implies t[k].line as int == l + nl_count(t.subrange(0, k)) by {
        assert(k == t.len() - 1);
        assert(t.subrange(0, k) =~= t.drop_last());
    }
}

/// the tokens that reading a word or a number yields hold no newline token
proof fn lemma_flush_no_newline(src: Seq<u8>, i: int, st: LexSt)
    ensures
        flush_other(src, i, st) matches Some((t, _, _)) ==> t.len() <= 1 && forall|k: int| 0 <= k < t.len() ==> (#[trigger] t[k]).tok != TokV::Newline,
{
}

proof fn lemma_lex_run_lines(src: Seq<u8>, i: int, st: LexSt)
    requires
        src.len() <= MAX_SOURCE,
        0 <= i <= src.len() + 4,
        1 <= st.line <= i + 1,
        lex_run(src, i, st) is Some,
    ensures
        nl_lines(lex_run(src, i, st).unwrap().toks, st.line),
    decreases src.len() + 4 - i,
{
    let o = lex_run(src, i, st).unwrap();
    if i >= src.len() {
        lemma_nl_short(o.toks, st.line);
    } else {
        let c = src[i];
        let next = LexSt { mode: LexMode::Scan, line: st.line + 1, column: 1, ..st };
        let nl = tokv(TokV::Newline, st.line, st.column);
        if c == 10 {
            if st.mode == LexMode::Str {
                let nst = LexSt { haderr: true, ..next };
                lemma_lex_run_lines(src, i + 1, nst);
                lemma_nl_short(seq![nl], st.line);
                lemma_nl_lines_concat(seq![nl], lex_run(src, i + 1, nst).unwrap().toks, st.line);
            } else if st.mode == LexMode::Other {
                let (t, r, e) = flush_other(src, i, st).unwrap();
                lemma_flush_no_newline(src, i, st);
                let nst = LexSt { haderr: st.haderr || e, ..next };
                lemma_lex_run_lines(src, i + 1, nst);
                lemma_nl_short(t.push(nl), st.line);
                lemma_nl_lines_concat(t.push(nl), lex_run(src, i + 1, nst).unwrap().toks, st.line);
            } else {
                lemma_lex_run_lines(src, i + 1, next);
                lemma_nl_short(seq![nl], st.line);
                lemma_nl_lines_concat(seq![nl], lex_run(src, i + 1, next).unwrap().toks, st.line);
            }
        } else if st.mode == LexMode::Scan {
            let nst = advance(scan_state(c, i, st));
            lemma_lex_run_lines(src, i + 1, nst);
            lemma_nl_short(scan_toks(c, st), st.line);
            lemma_nl_lines_concat(scan_toks(c, st), lex_run(src, i + 1, nst).unwrap().toks, st.line);
        } else if st.mode == LexMode::Comment {
            lemma_lex_run_lines(src, i + 1, advance(st));
        } else if st.mode == LexMode::Str {
            if c == 92 {
                if src[i + 1] == 120 {
                    lemma_lex_run_lines(src, i + 4, advance(st));
                } else {
                    lemma_lex_run_lines(src, i + 2, advance(st));
                }
            } else if c == 34 {
                let nst = advance(LexSt { mode: LexMode::Scan, ..st });
                let t = seq![tokv(TokV::String(src.subrange(st.tokstart, i)), st.line, st.startcol)];
                lemma_lex_run_lines(src, i + 1, nst);
                lemma_nl_short(t, st.line);
                lemma_nl_lines_concat(t, lex_run(src, i + 1, nst).unwrap().toks, st.line);
            } else {
                lemma_lex_run_lines(src, i + 1, advance(st));
            }
        } else {
            if !spec_is_wordchar(c) {
                let (t, r, e) = flush_other(src, i, st).unwrap();
                lemma_flush_no_newline(src, i, st);
                let st2 = LexSt { mode: LexMode::Scan, haderr: st.haderr || e, ..st };
                let nst = advance(scan_state(c, i, st2));
                lemma_lex_run_lines(src, i + 1, nst);
                lemma_nl_short(t + scan_toks(c, st2), st.line);
                lemma_nl_lines_concat(t + scan_toks(c, st2), lex_run(src, i + 1, nst).unwrap().toks, st.line);
            } else {
                lemma_lex_run_lines(src, i + 1, advance(st));
            }
        }
    }
}

/// Law: the lexer's newline tokens count the lines: the first stands on line 1, and each one
/// stands on the line after the one before it.
pub proof fn law_lex_newline_lines(src: Seq<u8>)
    requires
        src.len() <= MAX_SOURCE,
        spec_lex(src) is Some,
    ensures
        nl_lines(spec_lex(src).unwrap().toks, 1),
{
    lemma_lex_run_lines(src, 0, lex_init());
}

/// the number of newline bytes in the source from position `i` on
pub open spec fn lf_from(src: Seq<u8>, i: int) -> nat
    decreases src.len() - i,
{
    if i >= src.len() || i < 0 {
        0
    } else {
        lf_from(src, i + 1) + if src[i] == 10 { 1nat } else { 0nat }
    }
}

proof fn lemma_lex_run_newlines(src: Seq<u8>, i: int, st: LexSt)
    requires
        src.len() <= MAX_SOURCE,
        0 <= i <= src.len() + 4,
        1 <= st.line <= i + 1,
        1 <= st.column <= i + 1,
        forall|k: int| 0 <= k < src.len() ==> src[k] != 92,
        lex_run(src, i, st) is Some,
    ensures
        nl_count(lex_run(src, i, st).unwrap().toks) == lf_from(src, i) + 1,
        nl_columns(lex_run(src, i, st).unwrap().toks) == lf_columns(src, i, st.column),
    decreases src.len() + 4 - i,
{
    let o = lex_run(src, i, st).unwrap();
    if i >= src.len() {
        lemma_nl_short(o.toks, st.line);
    } else {
        let c = src[i];
        let next = LexSt { mode: LexMode::Scan, line: st.line + 1, column: 1, ..st };
        let nl = tokv(TokV::Newline, st.line, st.column);
        if c == 10 {
            if st.mode == LexMode::Str {
                let nst = LexSt { haderr: true, ..next };
                lemma_lex_run_newlines(src, i + 1, nst);
                lemma_nl_short(seq![nl], st.line);
                lemma_nl_count_concat(seq![nl], lex_run(src, i + 1, nst).unwrap().toks);
                lemma_nl_columns_concat(seq![nl], lex_run(src, i + 1, nst).unwrap().toks);
            } else if st.mode == LexMode::Other {
                let (t, r, e) = flush_other(src, i, st).unwrap();
                lemma_flush_no_newline(src, i, st);
                let nst = LexSt { haderr: st.haderr || e, ..next };
                lemma_lex_run_newlines(src, i + 1, nst);
                lemma_nl_short(t.push(nl), st.line);
                lemma_nl_count_concat(t.push(nl), lex_run(src, i + 1, nst).unwrap().toks);
                lemma_nl_columns_concat(t.push(nl), lex_run(src, i + 1, nst).unwrap().toks);
            } else {
                lemma_lex_run_newlines(src, i + 1, next);
                lemma_nl_short(seq![nl], st.line);
                lemma_nl_count_concat(seq![nl], lex_run(src, i + 1, next).unwrap().toks);
                lemma_nl_columns_concat(seq![nl], lex_run(src, i + 1, next).unwrap().toks);
            }
        } else if st.mode == LexMode::Scan {
            let nst = advance(scan_state(c, i, st));
            lemma_lex_run_newlines(src, i + 1, nst);
            lemma_nl_short(scan_toks(c, st), st.line);
            lemma_nl_count_concat(scan_toks(c, st), lex_run(src, i + 1, nst).unwrap().toks);
            lemma_nl_columns_concat(scan_toks(c, st), lex_run(src, i + 1, nst).unwrap().toks);
        } else if st.mode == LexMode::Comment {
            lemma_lex_run_newlines(src, i + 1, advance(st));
        } else if st.mode == LexMode::Str {
            if c == 34 {
                let nst = advance(LexSt { mode: LexMode::Scan, ..st });
                let t = seq![tokv(TokV::String(src.subrange(st.tokstart, i)), st.line, st.startcol)];
                lemma_lex_run_newlines(src, i + 1, nst);
                lemma_nl_short(t, st.line);
                lemma_nl_count_concat(t, lex_run(src, i + 1, nst).unwrap().toks);
                lemma_nl_columns_concat(t, lex_run(src, i + 1, nst).unwrap().toks);
            } else {
                lemma_lex_run_newlines(src, i + 1, advance(st));
            }
        } else {
            if !spec_is_wordchar(c) {
                let (t, r, e) = flush_other(src, i, st).unwrap();
                lemma_flush_no_newline(src, i, st);
                let st2 = LexSt { mode: LexMode::Scan, haderr: st.haderr || e, ..st };
                let nst = advance(scan_state(c, i, st2));
                lemma_lex_run_newlines(src, i + 1, nst);
                lemma_nl_short(t + scan_toks(c, st2), st.line);
                lemma_nl_count_concat(t + scan_toks(c, st2), lex_run(src, i + 1, nst).unwrap().toks);
                lemma_nl_columns_concat(t + scan_toks(c, st2), lex_run(src, i + 1, nst).unwrap().toks);
            } else {
                lemma_lex_run_newlines(src, i + 1, advance(st));
            }
        }
    }
}

/// Law: in a source without a backslash, the lexer gives one newline token for each newline
/// byte, and one more at the end; each stands at the column one past the bytes of its line,
/// columns being counted one per byte from 1.
pub proof fn law_lex_one_newline_per_line(src: Seq<u8>)
    requires
        src.len() <= MAX_SOURCE,
        forall|k: int| 0 <= k < src.len() ==> src[k] != 92,
        spec_lex(src) is Some,
    ensures
        nl_count(spec_lex(src).unwrap().toks) == lf_from(src, 0) + 1,
        nl_columns(spec_lex(src).unwrap().toks) == lf_columns(src, 0, 1),
{
    lemma_lex_run_newlines(src, 0, lex_init());
}

/// two sources that differ in the byte at `p` alone have the same bytes in every range that
/// leaves `p` out
proof fn lemma_subrange_apart(src1: Seq<u8>, src2: Seq<u8>, p: int, a: int, b: int)
    requires
        src1.len() == src2.len(),
        0 <= a <= b <= src1.len(),
        b <= p || a > p,
        forall|j: int| 0 <= j < src1.len() && j != p ==> src1[j] == src2[j],
    ensures
        src1.subrange(a, b) == src2.subrange(a, b),
{
    assert(src1.subrange(a, b) =~= src2.subrange(a, b));
}

proof fn lemma_lex_run_blank(src1: Seq<u8>, src2: Seq<u8>, p: int, i: int, st: LexSt)
    requires
        src1.len() == src2.len(),
        0 <= p < src1.len(),
        forall|j: int| 0 <= j < src1.len() && j != p ==> src1[j] == src2[j],
        src1[p] == 9 || src1[p] == 12 || src1[p] == 13 || src1[p] == 32,
        src2[p] == 9 || src2[p] == 12 || src2[p] == 13 || src2[p] == 32,
        forall|j: int| 0 <= j < src1.len() ==> src1[j] != 34,
        0 <= i <= src1.len(),
        st.mode != LexMode::Str,
        st.mode == LexMode::Other ==> 0 <= st.tokstart <= i && (i <= p || st.tokstart > p),
    ensures
        lex_run(src1, i, st) == lex_run(src2, i, st),
    decreases src1.len() - i,
{
    if i >= src1.len() {
        if st.mode == LexMode::Other {
            lemma_subrange_apart(src1, src2, p, st.tokstart, src1.len() as int);
        }
    } else {
        let c1 = src1[i];
        let c2 = src2[i];
        if i == p {
            assert(spec_is_whitespace(c1) && !spec_is_symchar(c1) && !spec_is_wordchar(c1) && c1 != 10 && c1 != 59 && c1 != 34);
            assert(spec_is_whitespace(c2) && !spec_is_symchar(c2) && !spec_is_wordchar(c2) && c2 != 10 && c2 != 59 && c2 != 34);
            if st.mode == LexMode::Scan {
                assert(scan_state(c1, i, st) == st && scan_state(c2, i, st) == st);
                assert(scan_toks(c1, st) == scan_toks(c2, st));
                lemma_lex_run_blank(src1, src2, p, i + 1, advance(st));
            } else if st.mode == LexMode::Comment {
                lemma_lex_run_blank(src1, src2, p, i + 1, advance(st));
            } else {
                lemma_subrange_apart(src1, src2, p, st.tokstart, i);
                match flush_other(src1, i, st) {
                    None => {},
                    Some((t, r, e)) => {
                        let st2 = LexSt { mode: LexMode::Scan, haderr: st.haderr || e, ..st };
                        assert(scan_state(c1, i, st2) == st2 && scan_state(c2, i, st2) == st2);
                        assert(scan_toks(c1, st2) == scan_toks(c2, st2));
                        lemma_lex_run_blank(src1, src2, p, i + 1, advance(st2));
                    },
                }
            }
        } else {
            assert(c1 == c2);
            let c = c1;
            if c == 10 {
                let next = LexSt { mode: LexMode::Scan, line: st.line + 1, column: 1, ..st };
                if st.mode == LexMode::Other {
                    lemma_subrange_apart(src1, src2, p, st.tokstart, i);
                    match flush_other(src1, i, st) {
                        None => {},
                        Some((t, r, e)) => {
                            lemma_lex_run_blank(src1, src2, p, i + 1, LexSt { haderr: st.haderr || e, ..next });
                        },
                    }
                } else {
                    lemma_lex_run_blank(src1, src2, p, i + 1, next);
                }
            } else if st.mode == LexMode::Scan {
                lemma_lex_run_blank(src1, src2, p, i + 1, advance(scan_state(c, i, st)));
            } else if st.mode == LexMode::Comment {
                lemma_lex_run_blank(src1, src2, p, i + 1, advance(st));
            } else {
                if !spec_is_wordchar(c) {
                    lemma_subrange_apart(src1, src2, p, st.tokstart, i);
                    match flush_other(src1, i, st) {
                        None => {},
                        Some((t, r, e)) => {
                            let st2 = LexSt { mode: LexMode::Scan, haderr: st.haderr || e, ..st };
                            lemma_lex_run_blank(src1, src2, p, i + 1, advance(scan_state(c, i, st2)));
                        },
                    }
                } else {
                    lemma_lex_run_blank(src1, src2, p, i + 1, advance(st));
                }
            }
        }
    }
}

/// Law: a space, a tab (9), a form feed (12) and a carriage return (13) separate tokens alike. In
/// a source without string literals, putting one of them in place of another leaves the tokens,
/// their positions and the diagnostics of the lexer unchanged.
pub proof fn law_lex_blanks_alike(src1: Seq<u8>, src2: Seq<u8>, p: int)
    requires
        src1.len() == src2.len(),
        0 <= p < src1.len(),
        forall|j: int| 0 <= j < src1.len() && j != p ==> src1[j] == src2[j],
        src1[p] == 9 || src1[p] == 12 || src1[p] == 13 || src1[p] == 32,
        src2[p] == 9 || src2[p] == 12 || src2[p] == 13 || src2[p] == 32,
        forall|j: int| 0 <= j < src1.len() ==> src1[j] != 34,
    ensures
        spec_lex(src1) == spec_lex(src2),
{
    lemma_lex_run_blank(src1, src2, p, 0, lex_init());
}

/// Law: the characters `!` (33), `[` (91), `]` (93), `(` (40), `)` (41), `,` (44), `:` (58),
/// `*` (42), `$` (36) and `&` (38), and no others, are tokens by themselves: a source of one such
/// character gives its symbol token at line 1, column 1, then the closing newline token; a source
/// of any other single character gives no symbol token.
pub proof fn law_lex_symbols(c: u8)
    ensures
        (c == 33 || c == 91 || c == 93 || c == 40 || c == 41 || c == 44 || c == 58 || c == 42 || c == 36 || c == 38)
            <==> (spec_lex(seq![c]) matches Some(out) && out.toks.len() >= 1 && out.toks[0].tok == TokV::Symbol(c)),
        (c == 33 || c == 91 || c == 93 || c == 40 || c == 41 || c == 44 || c == 58 || c == 42 || c == 36 || c == 38)
            ==> spec_lex(seq![c]) == Some(LexOut {
                toks: seq![tokv(TokV::Symbol(c), 1, 1), tokv(TokV::Newline, 1, 2)],
                reports: Seq::<ReportV>::empty(),
                haderr: false,
            }),
{
    let src = seq![c];
    let st = lex_init();
    assert(src.len() == 1 && src[0] == c);
    if c == 10 {
        let next = LexSt { mode: LexMode::Scan, line: st.line + 1, column: 1, ..st };
        assert(lex_run(src, 1, next) == lex_end(src, next));
    } else {
        let st1 = advance(scan_state(c, 0, st));
        assert(lex_run(src, 1, st1) == lex_end(src, st1));
        if st1.mode == LexMode::Other {
            assert(st1.tokstart == 0);
            assert(src.subrange(0, 1) =~= src);
            match flush_other(src, 1, st1) {
                Some((t, r, e)) => {
                    assert(spec_lex_other(src) != Some(TokV::Symbol(c)));
                    assert(t.len() == 0 || t[0].tok != TokV::Symbol(c));
                    assert(t.push(tokv(TokV::Newline, st1.line, st1.column))[0].tok != TokV::Symbol(c));
                },
                None => {},
            }
        }
        if spec_is_symchar(c) {
            assert(seq![tokv(TokV::Symbol(c), 1, 1)] + seq![tokv(TokV::Newline, 1, 2)] =~= seq![tokv(TokV::Symbol(c), 1, 1), tokv(TokV::Newline, 1, 2)]);
        }
    }
}

proof fn lemma_lex_run_comment(src1: Seq<u8>, src2: Seq<u8>, p: int, q: int, i: int, st: LexSt)
    requires
        src1.len() == src2.len(),
        0 <= q < p < src1.len(),
        forall|j: int| 0 <= j < src1.len() && j != p ==> src1[j] == src2[j],
        src1[q] == 59,
        forall|j: int| q <= j < p ==> src1[j] != 10,
        src1[p] != 10,
        src2[p] != 10,
        src2[p] != 34,
        forall|j: int| 0 <= j < src1.len() ==> src1[j] != 34,
        0 <= i <= src1.len(),
        st.mode != LexMode::Str,
        q < i <= p ==> st.mode == LexMode::Comment,
        st.mode == LexMode::Other ==> 0 <= st.tokstart <= i && (i <= q || st.tokstart > p),
    ensures
        lex_run(src1, i, st) == lex_run(src2, i, st),
    decreases src1.len() - i,
{
    if i >= src1.len() {
        if st.mode == LexMode::Other {
            lemma_subrange_apart(src1, src2, p, st.tokstart, src1.len() as int);
        }
    } else if i == p {
        lemma_lex_run_comment(src1, src2, p, q, i + 1, advance(st));
    } else {
        let c = src1[i];
        assert(src2[i] == c);
        if c == 10 {
            let next = LexSt { mode: LexMode::Scan, line: st.line + 1, column: 1, ..st };
            if st.mode == LexMode::Other {
                lemma_subrange_apart(src1, src2, p, st.tokstart, i);
                match flush_other(src1, i, st) {
                    None => {},
                    Some((t, r, e)) => {
                        lemma_lex_run_comment(src1, src2, p, q, i + 1, LexSt { haderr: st.haderr || e, ..next });
                    },
                }
            } else {
                lemma_lex_run_comment(src1, src2, p, q, i + 1, next);
            }
        } else if st.mode == LexMode::Scan {
            lemma_lex_run_comment(src1, src2, p, q, i + 1, advance(scan_state(c, i, st)));
        } else if st.mode == LexMode::Comment {
            lemma_lex_run_comment(src1, src2, p, q, i + 1, advance(st));
        } else {
            if !spec_is_wordchar(c) {
                lemma_subrange_apart(src1, src2, p, st.tokstart, i);
                match flush_other(src1, i, st) {
                    None => {},
                    Some((t, r, e)) => {
                        let st2 = LexSt { mode: LexMode::Scan, haderr: st.haderr || e, ..st };
                        lemma_lex_run_comment(src1, src2, p, q, i + 1, advance(scan_state(c, i, st2)));
                    },
                }
            } else {
                lemma_lex_run_comment(src1, src2, p, q, i + 1, advance(st));
            }
        }
    }
}

/// Law: a `;` (59) starts a comment that runs to the end of its line. In a source without string
/// literals, putting another byte (not a line feed, not a double quote) in place of one that
/// follows a `;` on the same line leaves the tokens, their positions and the diagnostics of the
/// lexer unchanged.
pub proof fn law_lex_comment_ignored(src1: Seq<u8>, src2: Seq<u8>, p: int, q: int)
    requires
        src1.len() == src2.len(),
        0 <= q < p < src1.len(),
        forall|j: int| 0 <= j < src1.len() && j != p ==> src1[j] == src2[j],
        src1[q] == 59,
        forall|j: int| q <= j < p ==> src1[j] != 10,
        src1[p] != 10,
        src2[p] != 10,
        src2[p] != 34,
        forall|j: int| 0 <= j < src1.len() ==> src1[j] != 34,
    ensures
        spec_lex(src1) == spec_lex(src2),
{
    lemma_lex_run_comment(src1, src2, p, q, 0, lex_init());
}

/// a letter, a digit, `@` or `_`: the characters that a name is made of
pub open spec fn name_char(c: u8) -> bool {
    (65 <= c <= 90) || (97 <= c <= 122) || (48 <= c <= 57) || c == 64 || c == 95
}

proof fn lemma_canbe_name(t: Seq<u8>, k: int)
    requires
        1 <= k <= t.len(),
        forall|j: int| 0 <= j < t.len() ==> name_char(#[trigger] t[j]),
    ensures
        canbe_scan(t, k, CanBe { uint: false, sint: false, float: false, word: true }, false)
            == (CanBe { uint: false, sint: false, float: false, word: true }),
    decreases t.len() - k,
{
    if k < t.len() {
        assert(name_char(t[k]));
        lemma_canbe_name(t, k + 1);
    }
}

proof fn lemma_lex_run_name(src: Seq<u8>, i: int)
    requires
        1 <= i <= src.len(),
        src.len() <= MAX_SOURCE,
        forall|j: int| 0 <= j < src.len() ==> name_char(#[trigger] src[j]),
        spec_lex_other(src) == Some(TokV::Word(src)),
    ensures
        lex_run(src, i, LexSt { mode: LexMode::Other, tokstart: 0, startcol: 1, line: 1, column: i + 1, haderr: false })
            == Some(LexOut {
                toks: seq![tokv(TokV::Word(src), 1, 1), tokv(TokV::Newline, 1, src.len() + 1int)],
                reports: Seq::<ReportV>::empty(),
                haderr: false,
            }),
    decreases src.len() - i,
{
    if i < src.len() {
        assert(name_char(src[i]));
        lemma_lex_run_name(src, i + 1);
    } else {
        assert(src.subrange(0, src.len() as int) =~= src);
        assert(seq![tokv(TokV::Word(src), 1, 1)].push(tokv(TokV::Newline, 1, src.len() + 1int))
            =~= seq![tokv(TokV::Word(src), 1, 1), tokv(TokV::Newline, 1, src.len() + 1int)]);
    }
}

/// Law: a name is one token. A source made of letters, digits, `@` and `_`, starting with a
/// letter, gives one word token holding all of it, at line 1, column 1, then the closing newline
/// token one column past its end.
pub proof fn law_lex_name(src: Seq<u8>)
    requires
        1 <= src.len() <= MAX_SOURCE,
        (65 <= src[0] <= 90) || (97 <= src[0] <= 122),
        forall|j: int| 0 <= j < src.len() ==> name_char(#[trigger] src[j]),
    ensures
        spec_lex(src) == Some(LexOut {
            toks: seq![tokv(TokV::Word(src), 1, 1), tokv(TokV::Newline, 1, src.len() + 1int)],
            reports: Seq::<ReportV>::empty(),
            haderr: false,
        }),
{
    lemma_canbe_name(src, 1);
    assert(canbe_step(CanBe { uint: true, sint: true, float: true, word: true }, false, src[0])
        == (CanBe { uint: false, sint: false, float: false, word: true }, false));
    assert(classify(src) == (CanBe { uint: false, sint: false, float: false, word: true }));
    assert(spec_lex_other(src) == Some(TokV::Word(src)));
    lemma_lex_run_name(src, 1);
    let st1 = advance(scan_state(src[0], 0, lex_init()));
    assert(st1 == LexSt { mode: LexMode::Other, tokstart: 0, startcol: 1, line: 1, column: 2, haderr: false });
    assert(scan_toks(src[0], lex_init()) =~= Seq::<TokenV>::empty());
    let out = lex_run(src, 1, st1).unwrap();
    assert(Seq::<TokenV>::empty() + out.toks =~= out.toks);
    assert(Seq::<ReportV>::empty() + out.reports =~= out.reports);
}

proof fn lemma_canbe_digits(t: Seq<u8>, k: int)
    requires
        0 <= k <= t.len(),
        forall|j: int| 0 <= j < t.len() ==> 48 <= #[trigger] t[j] <= 57,
    ensures
        canbe_scan(t, k, CanBe { uint: true, sint: true, float: true, word: true }, false)
            == (CanBe { uint: true, sint: true, float: true, word: true }),
    decreases t.len() - k,
{
    if k < t.len() {
        assert(48 <= t[k] <= 57);
        lemma_canbe_digits(t, k + 1);
    }
}

proof fn lemma_lex_run_number(src: Seq<u8>, i: int, v: u64)
    requires
        1 <= i <= src.len(),
        src.len() <= MAX_SOURCE,
        forall|j: int| 0 <= j < src.len() ==> 48 <= #[trigger] src[j] <= 57,
        spec_lex_other(src) == Some(TokV::UInt(v)),
    ensures
        lex_run(src, i, LexSt { mode: LexMode::Other, tokstart: 0, startcol: 1, line: 1, column: i + 1, haderr: false })
            == Some(LexOut {
                toks: seq![tokv(TokV::UInt(v), 1, 1), tokv(TokV::Newline, 1, src.len() + 1int)],
                reports: Seq::<ReportV>::empty(),
                haderr: false,
            }),
    decreases src.len() - i,
{
    if i < src.len() {
        assert(48 <= src[i] <= 57);
        lemma_lex_run_number(src, i + 1, v);
    } else {
        assert(src.subrange(0, src.len() as int) =~= src);
        assert(seq![tokv(TokV::UInt(v), 1, 1)].push(tokv(TokV::Newline, 1, src.len() + 1int))
            =~= seq![tokv(TokV::UInt(v), 1, 1), tokv(TokV::Newline, 1, src.len() + 1int)]);
    }
}

/// Law: a string of decimal digits is one number token with its decimal value, where that value
/// fits in 64 bits; where it does not, the source cannot be lexed.
pub proof fn law_lex_number(src: Seq<u8>)
    requires
        1 <= src.len() <= MAX_SOURCE,
        forall|j: int| 0 <= j < src.len() ==> 48 <= #[trigger] src[j] <= 57,
    ensures
        digits_value(src) <= u64::MAX ==> spec_lex(src) == Some(LexOut {
            toks: seq![tokv(TokV::UInt(digits_value(src) as u64), 1, 1), tokv(TokV::Newline, 1, src.len() + 1int)],
            reports: Seq::<ReportV>::empty(),
            haderr: false,
        }),
        digits_value(src) > u64::MAX ==> spec_lex(src) is None,
{
    lemma_canbe_digits(src, 0);
    assert(classify(src) == (CanBe { uint: true, sint: true, float: true, word: true }));
    let st1 = advance(scan_state(src[0], 0, lex_init()));
    assert(st1 == LexSt { mode: LexMode::Other, tokstart: 0, startcol: 1, line: 1, column: 2, haderr: false });
    assert(scan_toks(src[0], lex_init()) =~= Seq::<TokenV>::empty());
    if digits_value(src) <= u64::MAX {
        let v = digits_value(src) as u64;
        lemma_lex_run_number(src, 1, v);
        let out = lex_run(src, 1, st1).unwrap();
        assert(Seq::<TokenV>::empty() + out.toks =~= out.toks);
        assert(Seq::<ReportV>::empty() + out.reports =~= out.reports);
    } else {
        lemma_lex_run_none(src, 1);
    }
}

proof fn lemma_lex_run_none(src: Seq<u8>, i: int)
    requires
        1 <= i <= src.len(),
        forall|j: int| 0 <= j < src.len() ==> 48 <= #[trigger] src[j] <= 57,
        spec_lex_other(src) is None,
    ensures
        lex_run(src, i, LexSt { mode: LexMode::Other, tokstart: 0, startcol: 1, line: 1, column: i + 1, haderr: false }) is None,
    decreases src.len() - i,
{
    if i < src.len() {
        assert(48 <= src[i] <= 57);
        lemma_lex_run_none(src, i + 1);
    } else {
        assert(src.subrange(0, src.len() as int) =~= src);
    }
}

} // verus!
