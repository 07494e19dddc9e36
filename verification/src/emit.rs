//! emission of ttvm object files: section layout, label offsets, machine code and the index of
//! entry points

use vstd::prelude::*;
use crate::types::{Tok, Token, TokV, TokenV, Keyword, Section, Type, RelTo, token_view, tokens_view,
    operands_view, copy_token, lemma_tokens_view_index, spec_min_size, min_size, spec_auto_eq, has_repr,
    spec_type_bytes};
use crate::errors::{Report, ReportV, reports_view, error_at, warning_at, report_error, report_error_about, report_warning};
use crate::names::NameMap;
use crate::instr::{InstrLayout, LayoutV, layouts_view, instr_layout, instr_layout_exec, spec_encode};
use crate::mnemonics::{M, P, O};
use crate::text::{lit, bytes_eq_str, bytes_to_vec, extend_bytes};

verus! {

/// the base that a label's offset counts from
#[derive(Debug, Clone, Copy, PartialEq, Eq, Structural)]
pub enum Refs {
    Code,
    Data,
    Invar,
}

/// a label: the number of bytes its offset takes, the offset, and the base it counts from
pub type LabelInfo = (u64, u64, Refs);

/// the state of the pass that numbers the index entries
pub struct IdxSt {
    pub cseq: Section,
    pub index: Map<Seq<u8>, usize>,
    pub counter: nat,
    pub reports: Seq<ReportV>,
    pub haderr: bool,
}

pub open spec fn idx_step(st: IdxSt, t: TokenV) -> IdxSt {
    match t.tok {
        TokV::Section(s) => IdxSt { cseq: s, ..st },
        TokV::Signature(name, _, _) => if st.cseq == Section::Indx {
            let st1 = if st.index.contains_key(name) {
                IdxSt { reports: st.reports.push(error_at("duplicate index definition", t.line, t.column)), haderr: true, ..st }
            } else {
                st
            };
            IdxSt { index: st.index.insert(name, st.counter as usize), counter: st.counter + 1, ..st1 }
        } else {
            st
        },
        _ => st,
    }
}

pub open spec fn idx_run(ts: Seq<TokenV>, i: int, st: IdxSt) -> IdxSt
    decreases ts.len() - i,
{
    if i >= ts.len() || i < 0 {
        st
    } else {
        idx_run(ts, i + 1, idx_step(st, ts[i]))
    }
}

pub open spec fn idx_init() -> IdxSt {
    IdxSt { cseq: Section::Outside, index: Map::empty(), counter: 0, reports: seq![], haderr: false }
}

/// the index entries of a token stream: each signature in an index section gets the next number
pub open spec fn spec_index_map(ts: Seq<TokenV>) -> IdxSt {
    idx_run(ts, 0, idx_init())
}

fn index_pass<'a>(toks: &Vec<Token<'a>>, reps: &mut Vec<Report>, haderr: &mut bool) -> (r: (NameMap<usize>, usize))
    ensures
        ({
            let st = idx_run(tokens_view(toks@), 0, IdxSt { cseq: Section::Outside, index: Map::empty(), counter: 0, reports: reports_view(old(reps)@), haderr: *old(haderr) });
            &&& r.0.wf()
            &&& r.0@ == st.index
            &&& r.1 as nat == st.counter
            &&& reports_view(final(reps)@) == st.reports
            &&& *final(haderr) == st.haderr
        }),
{
    let ghost ts = tokens_view(toks@);
    proof { lemma_tokens_view_index(toks@); }
    let mut index: NameMap<usize> = NameMap::new();
    let mut counter: usize = 0;
    let mut cseq = Section::Outside;
    let mut i: usize = 0;
    while i < toks.len()
        invariant
            ts == tokens_view(toks@),
            ts.len() == toks@.len(),
            forall|k: int| 0 <= k < toks@.len() ==> #[trigger] ts[k] == token_view(toks@[k]),
            i <= toks@.len(),
            counter <= i,
            index.wf(),
            idx_run(ts, 0, IdxSt { cseq: Section::Outside, index: Map::empty(), counter: 0, reports: reports_view(old(reps)@), haderr: *old(haderr) })
                == idx_run(ts, i as int, IdxSt { cseq, index: index@, counter: counter as nat, reports: reports_view(reps@), haderr: *haderr }),
        decreases toks@.len() - i,
    {
        let t = &toks[i];
        match &t.tok {
            Tok::Section(s) => {
                cseq = *s;
            },
            Tok::Signature(name, _, _) => {
                if let Section::Indx = cseq {
                    if index.contains_key(*name) {
                        report_error(reps, "duplicate index definition", t.line, t.column);
                        *haderr = true;
                    }
                    index.insert(*name, counter);
                    counter = counter + 1;
                }
            },
            _ => {},
        }
        i += 1;
    }
    (index, counter)
}

/// the state of the pass that lays out labels and collects the configuration
pub struct MapSt {
    pub cseq: Section,
    pub cpos: nat,
    pub parent: Seq<u8>,
    pub labels: Map<Seq<u8>, LabelInfo>,
    pub config: Seq<Option<TokenV>>,
    pub count0: nat,
    pub secs: Seq<TokenV>,
    pub instrs: Seq<LayoutV>,
    pub reports: Seq<ReportV>,
    pub haderr: bool,
}

pub open spec fn merr(st: MapSt, message: &str, t: TokenV) -> MapSt {
    MapSt { reports: st.reports.push(error_at(message, t.line, t.column)), haderr: true, ..st }
}

/// the slot of a configuration keyword: purpose, name, invar, some, none, fstr
pub open spec fn conf_slot(kw: Keyword) -> Option<int> {
    match kw {
        Keyword::Purpose => Some(0),
        Keyword::Name => Some(1),
        Keyword::Invar => Some(2),
        Keyword::SomeFlags => Some(3),
        Keyword::NoneFlags => Some(4),
        Keyword::Fstr => Some(5),
        _ => None,
    }
}

/// the number of bytes a data declaration takes in the data section's address space
pub open spec fn data_size(kw: Keyword, v: TokV) -> Option<nat> {
    match kw {
        Keyword::F64 => Some(8),
        Keyword::S32 => Some(4),
        Keyword::Res => match v {
            TokV::UInt(n) => Some(n as nat),
            _ => None,
        },
        Keyword::Str => match v {
            TokV::String(s) => Some(s.len()),
            _ => None,
        },
        _ => None,
    }
}

/// a label definition: a label that starts with `.` is a child of the last other label
pub open spec fn label_step(st: MapSt, v: Seq<u8>, t: TokenV, r: Refs) -> MapSt {
    let child = v.len() > 0 && v[0] == 46;
    let use_v = if child { st.parent + v } else { v };
    let parent2 = if child { st.parent } else { v };
    let st1 = if parent2.len() == 0 { merr(st, "invalid child label definition", t) } else { st };
    let st2 = if st.labels.contains_key(use_v) { merr(st1, "duplicate label definition", t) } else { st1 };
    MapSt {
        labels: st.labels.insert(use_v, (spec_min_size(TokV::UInt(st.cpos as u64)), st.cpos as u64, r)),
        parent: parent2,
        ..st2
    }
}

/// one token of the layout pass; `None` where a token does not belong where it stands, an
/// instruction is malformed, or an offset does not fit in 64 bits
pub open spec fn map_step(st: MapSt, t: TokenV, index: Map<Seq<u8>, usize>) -> Option<MapSt> {
    match t.tok {
        TokV::Section(s) => Some(MapSt { cseq: s, cpos: 0, parent: seq![], secs: st.secs.push(t), ..st }),
        TokV::Newline => Some(st),
        _ => if st.cseq == Section::Conf {
            match t.tok {
                TokV::KwDecl(kw, _) => match conf_slot(kw) {
                    Some(k) => Some(if st.config[k] is Some {
                        merr(st, "duplicate config declaration", t)
                    } else {
                        MapSt { config: st.config.update(k, Some(t)), ..st }
                    }),
                    None => None,
                },
                _ => None,
            }
        } else if st.cseq == Section::Data {
            match t.tok {
                TokV::Label(v) => Some(label_step(st, v, t, Refs::Data)),
                TokV::KwDecl(kw, v) => match data_size(kw, *v) {
                    Some(n) => if st.cpos + n > u64::MAX || st.count0 + 1 > u32::MAX {
                        None
                    } else {
                        Some(MapSt { cpos: st.cpos + n, count0: st.count0 + 1, ..st })
                    },
                    None => None,
                },
                _ => None,
            }
        } else if st.cseq == Section::Code {
            match t.tok {
                TokV::Label(v) => Some(label_step(st, v, t, Refs::Code)),
                TokV::Instruction(m, pres, ops, r) => match instr_layout(m, pres, ops, r, st.labels, index, t) {
                    None => None,
                    Some((n, lay, reps)) => if st.cpos + n > u64::MAX {
                        None
                    } else {
                        Some(MapSt {
                            cpos: st.cpos + n,
                            instrs: st.instrs.push(lay),
                            reports: st.reports + reps,
                            haderr: st.haderr || reps.len() > 0,
                            ..st
                        })
                    },
                },
                _ => None,
            }
        } else {
            Some(st)
        },
    }
}

pub open spec fn map_run(ts: Seq<TokenV>, i: int, st: MapSt, index: Map<Seq<u8>, usize>) -> Option<MapSt>
    decreases ts.len() - i,
{
    if i >= ts.len() || i < 0 {
        Some(st)
    } else {
        match map_step(st, ts[i], index) {
            Some(st2) => map_run(ts, i + 1, st2, index),
            None => None,
        }
    }
}

pub open spec fn map_init(reports: Seq<ReportV>, haderr: bool) -> MapSt {
    MapSt {
        cseq: Section::Outside,
        cpos: 0,
        parent: seq![],
        labels: Map::empty(),
        config: seq![None, None, None, None, None, None],
        count0: 0,
        secs: seq![],
        instrs: seq![],
        reports,
        haderr,
    }
}

pub open spec fn config_view<'a>(c: Seq<Option<Token<'a>>>) -> Seq<Option<TokenV>> {
    Seq::new(c.len(), |k: int| match c[k] {
        Some(t) => Some(token_view(t)),
        None => None,
    })
}

/// the exec form of the layout state
pub struct Maps<'a> {
    pub labels: NameMap<LabelInfo>,
    pub config: Vec<Option<Token<'a>>>,
    pub count0: u32,
    pub secs: Vec<Token<'a>>,
    pub instrs: Vec<InstrLayout>,
}

fn conf_slot_exec(kw: Keyword) -> (r: Option<usize>)
    ensures
        r matches Some(k) ==> conf_slot(kw) == Some(k as int),
        r is None ==> conf_slot(kw) is None,
{
    match kw {
        Keyword::Purpose => Some(0),
        Keyword::Name => Some(1),
        Keyword::Invar => Some(2),
        Keyword::SomeFlags => Some(3),
        Keyword::NoneFlags => Some(4),
        Keyword::Fstr => Some(5),
        _ => None,
    }
}

/// the layout pass; `None` where a token does not belong where it stands
#[verifier::rlimit(40)]
fn layout_pass<'a>(toks: &Vec<Token<'a>>, index: &NameMap<usize>, reps: &mut Vec<Report>, haderr: &mut bool) -> (r: Option<Maps<'a>>)
    requires
        index.wf(),
    ensures
        ({
            let res = map_run(tokens_view(toks@), 0, map_init(reports_view(old(reps)@), *old(haderr)), index@);
            &&& r is None <==> res is None
            &&& r matches Some(m) ==> {
                let st = res.unwrap();
                &&& m.labels.wf()
                &&& m.config@.len() == 6
                &&& m.labels@ == st.labels
                &&& config_view(m.config@) == st.config
                &&& m.count0 as nat == st.count0
                &&& tokens_view(m.secs@) == st.secs
                &&& layouts_view(m.instrs@) == st.instrs
                &&& reports_view(final(reps)@) == st.reports
                &&& *final(haderr) == st.haderr
            }
        }),
{
    let ghost ts = tokens_view(toks@);
    proof { lemma_tokens_view_index(toks@); }
    let mut labels: NameMap<LabelInfo> = NameMap::new();
    let mut config: Vec<Option<Token<'a>>> = Vec::new();
    config.push(None);
    config.push(None);
    config.push(None);
    config.push(None);
    config.push(None);
    config.push(None);
    let mut count0: u32 = 0;
    let mut secs: Vec<Token<'a>> = Vec::new();
    let mut instrs: Vec<InstrLayout> = Vec::new();
    let mut cseq = Section::Outside;
    let mut cpos: u64 = 0;
    let mut parent: Vec<u8> = Vec::new();
    let mut i: usize = 0;
    assert(config_view(config@) =~= seq![None, None, None, None, None, None]);
    assert(tokens_view(secs@) =~= seq![]);
    assert(layouts_view(instrs@) =~= seq![]);
    while i < toks.len()
        invariant
            ts == tokens_view(toks@),
            ts.len() == toks@.len(),
            forall|k: int| 0 <= k < toks@.len() ==> #[trigger] ts[k] == token_view(toks@[k]),
            i <= toks@.len(),
            labels.wf(),
            index.wf(),
            config@.len() == 6,
            map_run(ts, 0, map_init(reports_view(old(reps)@), *old(haderr)), index@) == map_run(ts, i as int, MapSt {
                cseq,
                cpos: cpos as nat,
                parent: parent@,
                labels: labels@,
                config: config_view(config@),
                count0: count0 as nat,
                secs: tokens_view(secs@),
                instrs: layouts_view(instrs@),
                reports: reports_view(reps@),
                haderr: *haderr,
            }, index@),
        decreases toks@.len() - i,
    {
        let ghost st = MapSt {
            cseq,
            cpos: cpos as nat,
            parent: parent@,
            labels: labels@,
            config: config_view(config@),
            count0: count0 as nat,
            secs: tokens_view(secs@),
            instrs: layouts_view(instrs@),
            reports: reports_view(reps@),
            haderr: *haderr,
        };
        let t = &toks[i];
        match &t.tok {
            Tok::Section(s) => {
                cseq = *s;
                cpos = 0;
                parent = Vec::new();
                let c = copy_token(t);
                proof { crate::types::lemma_tokens_view_push(secs@, c); }
                secs.push(c);
                i += 1;
                continue;
            },
            Tok::Newline => {
                i += 1;
                continue;
            },
            _ => {},
        }
        if let Section::Conf = cseq {
            match &t.tok {
                Tok::KwDecl(kw, _) => {
                    match conf_slot_exec(*kw) {
                        Some(k) => {
                            if config[k].is_some() {
                                report_error(reps, "duplicate config declaration", t.line, t.column);
                                *haderr = true;
                            } else {
                                let c = copy_token(t);
                                config.set(k, Some(c));
                                assert(config_view(config@) =~= st.config.update(k as int, Some(token_view(*t))));
                            }
                        },
                        None => {
                            return None;
                        },
                    }
                },
                _ => {
                    return None;
                },
            }
        } else if let Section::Data = cseq {
            match &t.tok {
                Tok::Label(v) => {
                    label_exec(*v, t, Refs::Data, cpos, &mut parent, &mut labels, reps, haderr);
                },
                Tok::KwDecl(kw, v) => {
                    let n: u64 = match kw {
                        Keyword::F64 => 8,
                        Keyword::S32 => 4,
                        Keyword::Res => match &**v {
                            Tok::UInt(val) => *val,
                            _ => {
                                return None;
                            },
                        },
                        Keyword::Str => match &**v {
                            Tok::String(val) => {
                                let len: usize = val.len();
                                if len as u128 > u64::MAX as u128 {
                                    return None;
                                }
                                len as u64
                            },
                            _ => {
                                return None;
                            },
                        },
                        _ => {
                            return None;
                        },
                    };
                    if cpos > u64::MAX - n || count0 == u32::MAX {
                        return None;
                    }
                    cpos = cpos + n;
                    count0 = count0 + 1;
                },
                _ => {
                    return None;
                },
            }
        } else if let Section::Code = cseq {
            match &t.tok {
                Tok::Label(v) => {
                    label_exec(*v, t, Refs::Code, cpos, &mut parent, &mut labels, reps, haderr);
                },
                Tok::Instruction(m, pres, ops, r) => {
                    if !instr_step_exec(t, *m, pres, ops, *r, &labels, index, &mut cpos, &mut instrs, reps, haderr) {
                        return None;
                    }
                },
                _ => {
                    return None;
                },
            }
        }
        i += 1;
    }
    Some(Maps { labels, config, count0, secs, instrs })
}

/// the layout of an instruction in the code section: its space, what is recorded of it, and
/// what it reports; `false` where the layout pass cannot go on
fn instr_step_exec<'a>(
    t: &Token<'a>,
    m: M,
    pres: &Vec<P>,
    ops: &Vec<(O, Token<'a>)>,
    r: RelTo,
    labels: &NameMap<LabelInfo>,
    index: &NameMap<usize>,
    cpos: &mut u64,
    instrs: &mut Vec<InstrLayout>,
    reps: &mut Vec<Report>,
    haderr: &mut bool,
) -> (ok: bool)
    requires
        labels.wf(),
        index.wf(),
    ensures
        ({
            let res = instr_layout(m, pres@, operands_view(ops@), r, labels@, index@, token_view(*t));
            &&& ok <==> (res is Some && *old(cpos) + res.unwrap().0 <= u64::MAX)
            &&& ok ==> {
                &&& *final(cpos) == *old(cpos) + res.unwrap().0
                &&& layouts_view(final(instrs)@) == layouts_view(old(instrs)@).push(res.unwrap().1)
                &&& reports_view(final(reps)@) == reports_view(old(reps)@) + res.unwrap().2
                &&& *final(haderr) == (*old(haderr) || res.unwrap().2.len() > 0)
            }
        }),
{
    let r0: usize = reps.len();
    match instr_layout_exec(m, pres, ops, r, labels, index, t, reps) {
        None => false,
        Some((n, lay)) => {
            if *cpos as u128 + n > u64::MAX as u128 {
                return false;
            }
            *cpos = (*cpos as u128 + n) as u64;
            assert(reports_view(reps@).len() == reps@.len());
            assert(reports_view(old(reps)@).len() == r0);
            if reps.len() > r0 {
                *haderr = true;
            }
            let ghost before = instrs@;
            instrs.push(lay);
            assert(layouts_view(instrs@) =~= layouts_view(before).push(lay.view()));
            true
        },
    }
}

fn label_exec<'a>(
    v: &'a [u8],
    t: &Token<'a>,
    r: Refs,
    cpos: u64,
    parent: &mut Vec<u8>,
    labels: &mut NameMap<LabelInfo>,
    reps: &mut Vec<Report>,
    haderr: &mut bool,
)
    requires
        old(labels).wf(),
    ensures
        final(labels).wf(),
        ({
            let st = MapSt {
                cseq: Section::Outside,
                cpos: cpos as nat,
                parent: old(parent)@,
                labels: old(labels)@,
                config: seq![],
                count0: 0,
                secs: seq![],
                instrs: seq![],
                reports: reports_view(old(reps)@),
                haderr: *old(haderr),
            };
            let st2 = label_step(st, v@, token_view(*t), r);
            &&& final(parent)@ == st2.parent
            &&& final(labels)@ == st2.labels
            &&& reports_view(final(reps)@) == st2.reports
            &&& *final(haderr) == st2.haderr
        }),
{
    let child = v.len() > 0 && v[0] == 46;
    let mut use_v: Vec<u8>;
    if child {
        use_v = bytes_to_vec(parent.as_slice());
        extend_bytes(&mut use_v, v);
    } else {
        use_v = bytes_to_vec(v);
        *parent = bytes_to_vec(v);
    }
    if parent.len() == 0 {
        report_error(reps, "invalid child label definition", t.line, t.column);
        *haderr = true;
    }
    let size = min_size(&Tok::UInt(cpos));
    let had = labels.insert(use_v.as_slice(), (size, cpos, r));
    if had {
        report_error(reps, "duplicate label definition", t.line, t.column);
        *haderr = true;
    }
}

/// the number that a floating point value is made from: the text of a decimal literal, or an
/// integer; the value itself is computed outside the library
#[derive(Debug, Clone, Copy)]
pub enum FloatSrc<'a> {
    Text(&'a [u8]),
    UInt(u64),
    SInt(i64),
}

pub enum FloatSrcV {
    Text(Seq<u8>),
    UInt(u64),
    SInt(i64),
}

pub open spec fn float_src_view<'a>(f: FloatSrc<'a>) -> FloatSrcV {
    match f {
        FloatSrc::Text(t) => FloatSrcV::Text(t@),
        FloatSrc::UInt(v) => FloatSrcV::UInt(v),
        FloatSrc::SInt(v) => FloatSrcV::SInt(v),
    }
}

/// a piece of an object file: a byte, or the big-endian bytes of the 64-bit (eight bytes) or
/// 32-bit (four bytes) float that a number denotes
#[derive(Debug, Clone, Copy)]
pub enum Piece<'a> {
    Byte(u8),
    F64(FloatSrc<'a>),
    F32(FloatSrc<'a>),
}

pub enum PieceV {
    Byte(u8),
    F64(FloatSrcV),
    F32(FloatSrcV),
}

pub open spec fn piece_view<'a>(p: Piece<'a>) -> PieceV {
    match p {
        Piece::Byte(b) => PieceV::Byte(b),
        Piece::F64(f) => PieceV::F64(float_src_view(f)),
        Piece::F32(f) => PieceV::F32(float_src_view(f)),
    }
}

pub open spec fn pieces_view<'a>(s: Seq<Piece<'a>>) -> Seq<PieceV> {
    Seq::new(s.len(), |i: int| piece_view(s[i]))
}

pub open spec fn bytes_pieces(b: Seq<u8>) -> Seq<PieceV> {
    Seq::new(b.len(), |i: int| PieceV::Byte(b[i]))
}

/// the number of bytes that pieces take in the file
pub open spec fn pieces_size(s: Seq<PieceV>) -> nat
    decreases s.len(),
{
    if s.len() == 0 {
        0
    } else {
        pieces_size(s.drop_last()) + match s.last() {
            PieceV::Byte(_) => 1nat,
            PieceV::F64(_) => 8nat,
            PieceV::F32(_) => 4nat,
        }
    }
}

/// two bytes, big endian
pub open spec fn be16(v: u16) -> Seq<u8> {
    seq![(v / 256) as u8, (v % 256) as u8]
}

/// four bytes, big endian
pub open spec fn be32(v: u32) -> Seq<u8> {
    seq![(v / 0x100_0000) as u8, ((v / 0x1_0000) % 256) as u8, ((v / 256) % 256) as u8, (v % 256) as u8]
}

/// a name, preceded by its length in one byte
pub open spec fn name_entry(name: Seq<u8>) -> Seq<u8> {
    seq![name.len() as u8] + name
}

pub(crate) fn push_bytes<'a>(v: &mut Vec<Piece<'a>>, b: &[u8])
    ensures
        pieces_view(final(v)@) == pieces_view(old(v)@) + bytes_pieces(b@),
{
    let ghost start = v@;
    let mut i: usize = 0;
    while i < b.len()
        invariant
            i <= b@.len(),
            pieces_view(v@) == pieces_view(start) + bytes_pieces(b@.subrange(0, i as int)),
        decreases b@.len() - i,
    {
        let ghost before = v@;
        v.push(Piece::Byte(b[i]));
        assert(pieces_view(v@) =~= pieces_view(before).push(PieceV::Byte(b@[i as int])));
        assert(bytes_pieces(b@.subrange(0, i + 1)) =~= bytes_pieces(b@.subrange(0, i as int)).push(PieceV::Byte(b@[i as int])));
        i += 1;
    }
    assert(b@.subrange(0, b@.len() as int) =~= b@);
}

pub(crate) fn be16_exec(v: u16) -> (r: Vec<u8>)
    ensures
        r@ == be16(v),
{
    let mut r: Vec<u8> = Vec::new();
    r.push((v / 256) as u8);
    r.push((v % 256) as u8);
    assert(r@ =~= be16(v));
    r
}

pub(crate) fn be32_exec(v: u32) -> (r: Vec<u8>)
    ensures
        r@ == be32(v),
{
    let mut r: Vec<u8> = Vec::new();
    r.push((v / 0x100_0000) as u8);
    r.push(((v / 0x1_0000) % 256) as u8);
    r.push(((v / 256) % 256) as u8);
    r.push((v % 256) as u8);
    assert(r@ =~= be32(v));
    r
}

fn name_entry_exec(name: &[u8]) -> (r: Vec<u8>)
    ensures
        r@ == name_entry(name@),
{
    let mut r: Vec<u8> = Vec::new();
    r.push(name.len() as u8);
    extend_bytes(&mut r, name);
    assert(r@ =~= name_entry(name@));
    r
}

/// the bytes of the names of a constructor's parameters, and whether one of them is not of type
/// `u32` (where the listing stops); `None` where an argument is not a parameter
pub open spec fn ctor_args(args: Seq<TokV>, k: int) -> Option<(Seq<u8>, bool)>
    decreases args.len() - k,
{
    if k >= args.len() || k < 0 {
        Some((seq![], false))
    } else {
        match args[k] {
            TokV::Param(name, ty) => if !spec_auto_eq(ty, Type::U32) {
                Some((seq![], true))
            } else {
                match ctor_args(args, k + 1) {
                    None => None,
                    Some((b, e)) => Some((name_entry(name) + b, e)),
                }
            },
            _ => None,
        }
    }
}

pub open spec fn all_params(args: Seq<TokV>) -> bool {
    forall|k: int| 0 <= k < args.len() ==> (#[trigger] args[k]) is Param
}

pub open spec fn param_types_repr(args: Seq<TokV>) -> bool {
    forall|k: int| 0 <= k < args.len() ==> has_repr((#[trigger] args[k])->Param_1)
}

pub open spec fn param_names_bytes(args: Seq<TokV>) -> Seq<u8>
    decreases args.len(),
{
    if args.len() == 0 {
        seq![]
    } else {
        param_names_bytes(args.drop_last()) + name_entry(args.last()->Param_0)
    }
}

pub open spec fn param_types_bytes(args: Seq<TokV>) -> Seq<u8>
    decreases args.len(),
{
    if args.len() == 0 {
        seq![]
    } else {
        param_types_bytes(args.drop_last()) + spec_type_bytes(args.last()->Param_1)
    }
}

/// the check of the return type of an entry point with a fixed meaning: `Some(message)` where the
/// type is not the one required
pub open spec fn special_rtype_error(id: Seq<u8>, rtype: Type) -> Option<&'static str> {
    if id == lit("@getpositionof") {
        if !spec_auto_eq(rtype, Type::Uarr(Box::new(Type::U16))) { Some("@getpositionof must return u16[] or auto") } else { None }
    } else if id == lit("@getneighbors") {
        if !spec_auto_eq(rtype, Type::Uarr(Box::new(Type::U32))) { Some("@getneighbors must return u32[] or auto") } else { None }
    } else if id == lit("@getrequiredbits") {
        if !spec_auto_eq(rtype, Type::U8) { Some("@getrequiredbits must return u8 or auto") } else { None }
    } else if id == lit("@think") {
        if !spec_auto_eq(rtype, Type::U32) { Some("@think must return u32 or auto") } else { None }
    } else {
        None
    }
}

pub open spec fn is_special(id: Seq<u8>) -> bool {
    id == lit("@getpositionof") || id == lit("@getneighbors") || id == lit("@getrequiredbits") || id == lit("@think")
}

/// the bytes that an index signature adds to the index section, with what it reports; `None` where
/// its name is no label, an argument is no parameter, or a type has no encoding
pub open spec fn sig_contrib(id: Seq<u8>, args: Seq<TokV>, rtype: Type, labels: Map<Seq<u8>, LabelInfo>, t: TokenV) -> Option<(Seq<u8>, Seq<ReportV>)> {
    if !labels.contains_key(id) {
        None
    } else {
        let head = name_entry(id) + be32(labels[id].1 as u32) + seq![args.len() as u8];
        if id == lit("@constructor") {
            if spec_auto_eq(rtype, Type::Void) {
                Some((head, seq![error_at("@constructor must be void", t.line, t.column)]))
            } else {
                match ctor_args(args, 0) {
                    None => None,
                    Some((b, e)) => if e {
                        Some((head + b, seq![error_at("@constructor parameters must be auto or u32", t.line, t.column)]))
                    } else {
                        Some((head + b + spec_type_bytes(Type::Void), seq![]))
                    },
                }
            }
        } else if is_special(id) {
            match special_rtype_error(id, rtype) {
                Some(m) => Some((head, seq![error_at(m, t.line, t.column)])),
                None => Some((head, seq![])),
            }
        } else if !all_params(args) || !param_types_repr(args) || !has_repr(rtype) {
            None
        } else {
            Some((head + param_names_bytes(args) + param_types_bytes(args) + spec_type_bytes(rtype), seq![]))
        }
    }
}

pub open spec fn prepend_bytes(b: Seq<u8>, o: Option<(Seq<u8>, bool)>) -> Option<(Seq<u8>, bool)> {
    match o {
        None => None,
        Some((c, e)) => Some((b + c, e)),
    }
}

proof fn lemma_param_bytes_push(args: Seq<TokV>, k: int)
    requires
        0 <= k < args.len(),
    ensures
        param_names_bytes(args.subrange(0, k + 1)) == param_names_bytes(args.subrange(0, k)) + name_entry(args[k]->Param_0),
        param_types_bytes(args.subrange(0, k + 1)) == param_types_bytes(args.subrange(0, k)) + spec_type_bytes(args[k]->Param_1),
{
    assert(args.subrange(0, k + 1).drop_last() =~= args.subrange(0, k));
}

/// adds the bytes of an index signature to the index section; `false` where its name is no label,
/// an argument is no parameter, or a type has no encoding
#[verifier::loop_isolation(false)]
#[verifier::rlimit(40)]
fn sig_exec<'a>(
    t: &Token<'a>,
    id: &'a [u8],
    args: &Vec<Tok<'a>>,
    rtype: &Type,
    labels: &NameMap<LabelInfo>,
    indx: &mut Vec<u8>,
    reps: &mut Vec<Report>,
    haderr: &mut bool,
) -> (ok: bool)
    requires
        labels.wf(),
    ensures
        ({
            let res = sig_contrib(id@, crate::types::toks_view(args@), *rtype, labels@, token_view(*t));
            &&& ok <==> res is Some
            &&& res matches Some((b, r)) ==> {
                &&& final(indx)@ == old(indx)@ + b
                &&& reports_view(final(reps)@) == reports_view(old(reps)@) + r
                &&& *final(haderr) == (*old(haderr) || r.len() > 0)
            }
        }),
{
    let ghost av = crate::types::toks_view(args@);
    proof { crate::types::lemma_toks_view_index(args@); }
    let ghost start = indx@;
    let ghost rstart = reps@;
    let e = name_entry_exec(id);
    let label = match labels.get(id) {
        Some(l) => l,
        None => {
            return false;
        },
    };
    let mut head: Vec<u8> = e;
    let off = be32_exec(label.1 as u32);
    extend_bytes(&mut head, off.as_slice());
    head.push(args.len() as u8);
    assert(head@ =~= name_entry(id@) + be32(labels@[id@].1 as u32) + seq![args@.len() as u8]);
    extend_bytes(indx, head.as_slice());
    if bytes_eq_str(id, "@constructor") {
        if rtype.auto_eq(&Type::Void) {
            report_error(reps, "@constructor must be void", t.line, t.column);
            *haderr = true;
            assert(reports_view(reps@) =~= reports_view(rstart) + seq![error_at("@constructor must be void", t.line, t.column)]);
            assert(indx@ =~= start + head@);
            return true;
        }
        let mut k: usize = 0;
        let ghost mut names: Seq<u8> = seq![];
        assert(ctor_args(av, 0) == prepend_bytes(names, ctor_args(av, 0))) by {
            match ctor_args(av, 0) {
                Some((c, e)) => { assert(names + c =~= c); },
                None => {},
            }
        }
        while k < args.len()
            invariant
                k <= args@.len(),
                av == crate::types::toks_view(args@),
                av.len() == args@.len(),
                forall|j: int| 0 <= j < args@.len() ==> #[trigger] av[j] == crate::types::tok_view(args@[j]),
                indx@ == start + head@ + names,
                reps@ == rstart,
                *haderr == *old(haderr),
                ctor_args(av, 0) == prepend_bytes(names, ctor_args(av, k as int)),
            decreases args@.len() - k,
        {
            match &args[k] {
                Tok::Param(name, ty) => {
                    if !ty.auto_eq(&Type::U32) {
                        report_error(reps, "@constructor parameters must be auto or u32", t.line, t.column);
                        *haderr = true;
                        proof {
                            assert(av[k as int] == crate::types::tok_view(args@[k as int]));
                            assert(ctor_args(av, k as int) == Some((Seq::<u8>::empty(), true)));
                            assert(names + Seq::<u8>::empty() =~= names);
                            assert(indx@ =~= start + (head@ + names));
                            assert(reports_view(reps@) =~= reports_view(rstart) + seq![error_at("@constructor parameters must be auto or u32", t.line, t.column)]);
                        }
                        return true;
                    }
                    let ne = name_entry_exec(*name);
                    extend_bytes(indx, ne.as_slice());
                    proof {
                        match ctor_args(av, k + 1) {
                            Some((c, e)) => { assert(names + (ne@ + c) =~= (names + ne@) + c); },
                            None => {},
                        }
                        names = names + ne@;
                        assert(indx@ =~= start + head@ + names);
                    }
                },
                _ => {
                    proof {
                        assert(av[k as int] == crate::types::tok_view(args@[k as int]));
                        assert(ctor_args(av, k as int) is None);
                    }
                    return false;
                },
            }
            k += 1;
        }
        proof {
            assert(ctor_args(av, k as int) == Some((Seq::<u8>::empty(), false)));
            assert(names + Seq::<u8>::empty() =~= names);
        }
        indx.push(0);
        assert(spec_type_bytes(Type::Void) =~= seq![0u8]);
        assert(indx@ =~= start + (head@ + names + spec_type_bytes(Type::Void)));
        assert(reports_view(reps@) =~= reports_view(rstart) + seq![]);
        return true;
    }
    let mut msg: Option<&'static str> = None;
    let mut special = false;
    if bytes_eq_str(id, "@getpositionof") {
        special = true;
        if !rtype.auto_eq(&Type::Uarr(Box::new(Type::U16))) {
            msg = Some("@getpositionof must return u16[] or auto");
        }
    } else if bytes_eq_str(id, "@getneighbors") {
        special = true;
        if !rtype.auto_eq(&Type::Uarr(Box::new(Type::U32))) {
            msg = Some("@getneighbors must return u32[] or auto");
        }
    } else if bytes_eq_str(id, "@getrequiredbits") {
        special = true;
        if !rtype.auto_eq(&Type::U8) {
            msg = Some("@getrequiredbits must return u8 or auto");
        }
    } else if bytes_eq_str(id, "@think") {
        special = true;
        if !rtype.auto_eq(&Type::U32) {
            msg = Some("@think must return u32 or auto");
        }
    }
    if special {
        match msg {
            Some(m) => {
                report_error(reps, m, t.line, t.column);
                *haderr = true;
                assert(reports_view(reps@) =~= reports_view(rstart) + seq![error_at(m, t.line, t.column)]);
            },
            None => {
                assert(reports_view(reps@) =~= reports_view(rstart) + seq![]);
            },
        }
        assert(indx@ =~= start + head@);
        return true;
    }
    // generic entry: parameter names, then their types, then the return type
    let mut k: usize = 0;
    while k < args.len()
        invariant
            k <= args@.len(),
            av == crate::types::toks_view(args@),
            av.len() == args@.len(),
            forall|j: int| 0 <= j < args@.len() ==> #[trigger] av[j] == crate::types::tok_view(args@[j]),
            forall|j: int| 0 <= j < k ==> (#[trigger] av[j]) is Param && has_repr(av[j]->Param_1),
        decreases args@.len() - k,
    {
        match &args[k] {
            Tok::Param(_, ty) => {
                if !ty.has_repr() {
                    assert(av[k as int] == crate::types::tok_view(args@[k as int]));
                    assert(!has_repr(av[k as int]->Param_1));
                    assert(!param_types_repr(av));
                    return false;
                }
            },
            _ => {
                assert(av[k as int] == crate::types::tok_view(args@[k as int]));
                assert(!(av[k as int] is Param));
                assert(!all_params(av));
                return false;
            },
        }
        k += 1;
    }
    if !rtype.has_repr() {
        return false;
    }
    let mut names: Vec<u8> = Vec::new();
    let mut types: Vec<u8> = Vec::new();
    let mut k: usize = 0;
    while k < args.len()
        invariant
            k <= args@.len(),
            av == crate::types::toks_view(args@),
            av.len() == args@.len(),
            forall|j: int| 0 <= j < args@.len() ==> #[trigger] av[j] == crate::types::tok_view(args@[j]),
            forall|j: int| 0 <= j < args@.len() ==> (#[trigger] av[j]) is Param && has_repr(av[j]->Param_1),
            names@ == param_names_bytes(av.subrange(0, k as int)),
            types@ == param_types_bytes(av.subrange(0, k as int)),
        decreases args@.len() - k,
    {
        proof { lemma_param_bytes_push(av, k as int); }
        match &args[k] {
            Tok::Param(name, ty) => {
                let ne = name_entry_exec(*name);
                extend_bytes(&mut names, ne.as_slice());
                ty.add_bytes(&mut types);
            },
            _ => {
                assert(false);
            },
        }
        k += 1;
    }
    assert(av.subrange(0, av.len() as int) =~= av);
    extend_bytes(indx, names.as_slice());
    extend_bytes(indx, types.as_slice());
    rtype.add_bytes(indx);
    assert(indx@ =~= start + (head@ + param_names_bytes(av) + param_types_bytes(av) + spec_type_bytes(*rtype)));
    assert(reports_view(reps@) =~= reports_view(rstart) + seq![]);
    true
}

/// the number in a declaration token
pub open spec fn decl_uint(t: TokenV) -> Option<u64> {
    match t.tok {
        TokV::KwDecl(_, b) => match *b {
            TokV::UInt(v) => Some(v),
            _ => None,
        },
        _ => None,
    }
}

/// the string in a declaration token
pub open spec fn decl_string(t: TokenV) -> Option<Seq<u8>> {
    match t.tok {
        TokV::KwDecl(_, b) => match *b {
            TokV::String(v) => Some(v),
            _ => None,
        },
        _ => None,
    }
}

/// the position of the first configuration section among section tokens
pub open spec fn first_conf(secs: Seq<TokenV>, k: int) -> Option<int>
    decreases secs.len() - k,
{
    if k >= secs.len() || k < 0 {
        None
    } else if secs[k].tok == TokV::Section(Section::Conf) {
        Some(k)
    } else {
        first_conf(secs, k + 1)
    }
}

/// the object file's configuration: whether it is incomplete, the bytes of the configuration
/// section, the first bytes of the data section, and what is reported
pub struct HdrV {
    pub failed: bool,
    pub conf: Seq<u8>,
    pub data: Seq<u8>,
    pub reports: Seq<ReportV>,
}

pub open spec fn hdr_fail(reports: Seq<ReportV>, message: &str, t: TokenV) -> HdrV {
    HdrV { failed: true, conf: seq![], data: seq![], reports: reports.push(error_at(message, t.line, t.column)) }
}

pub open spec fn ignored_warnings(config: Seq<Option<TokenV>>) -> Seq<ReportV> {
    (match config[3] {
        Some(t) => seq![warning_at("some and none are ignored for non 3tr purposes", t.line, t.column)],
        None => seq![],
    }) + (match config[4] {
        Some(t) => seq![warning_at("some and none are ignored for non 3tr purposes", t.line, t.column)],
        None => seq![],
    })
}

/// the configuration part, after purpose, name and invar: `None` where a declaration has a value
/// of the wrong kind
pub open spec fn hdr_tail(config: Seq<Option<TokenV>>, pur: u64, conf: Seq<u8>, reports: Seq<ReportV>, cs: TokenV) -> Option<HdrV> {
    if pur != 0 {
        match config[5] {
            Some(ft) => Some(hdr_fail(reports, "fstr must not be declared for non 3tr purpose", ft)),
            None => Some(HdrV { failed: false, conf: conf + seq![0u8, 0, 0, 0], data: seq![0u8, 0], reports: reports + ignored_warnings(config) }),
        }
    } else {
        match config[5] {
            None => Some(hdr_fail(reports, "missing fstr declaration", cs)),
            Some(ft) => match decl_string(ft) {
                None => None,
                Some(fs) => {
                    let data = be16(fs.len() as u16) + fs;
                    match config[3] {
                        None => Some(hdr_fail(reports, "missing some/none declaration", cs)),
                        Some(t3) => match decl_uint(t3) {
                            None => None,
                            Some(n3) => match config[4] {
                                None => Some(hdr_fail(reports, "missing some/none declaration", cs)),
                                Some(t4) => match decl_uint(t4) {
                                    None => None,
                                    Some(n4) => Some(HdrV { failed: false, conf: conf + be16(n3 as u16) + be16(n4 as u16), data, reports }),
                                },
                            },
                        },
                    }
                },
            },
        }
    }
}

/// the configuration of the object file, from the declarations of the configuration section;
/// `None` where a declaration has a value of the wrong kind, or where there is no token at all
pub open spec fn spec_header(st: MapSt, ts: Seq<TokenV>) -> Option<HdrV> {
    match first_conf(st.secs, 0) {
        None => if ts.len() == 0 {
            None
        } else {
            Some(hdr_fail(seq![], "missing config section", ts.last()))
        },
        Some(ci) => {
            let cs = st.secs[ci];
            match st.config[0] {
                None => Some(hdr_fail(seq![], "missing purpose", cs)),
                Some(pt) => match decl_uint(pt) {
                    None => None,
                    Some(pur) => match st.config[1] {
                        None => Some(hdr_fail(seq![], "missing name declaration", cs)),
                        Some(nt) => match decl_string(nt) {
                            None => None,
                            Some(name) => {
                                let conf2 = seq![pur as u8] + name_entry(name);
                                match st.config[2] {
                                    Some(it) => match decl_uint(it) {
                                        None => None,
                                        Some(v) => hdr_tail(st.config, pur, conf2 + seq![v as u8], seq![], cs),
                                    },
                                    None => hdr_tail(st.config, pur, conf2 + seq![0u8], seq![warning_at("missing invar declaration, defaulting to 0", cs.line, cs.column)], cs),
                                }
                            },
                        },
                    },
                },
            }
        },
    }
}

fn decl_uint_exec<'a>(t: &Token<'a>) -> (r: Option<u64>)
    ensures
        r == decl_uint(token_view(*t)),
{
    match &t.tok {
        Tok::KwDecl(_, b) => match &**b {
            Tok::UInt(v) => Some(*v),
            _ => None,
        },
        _ => None,
    }
}

fn decl_string_exec<'a>(t: &Token<'a>) -> (r: Option<&'a [u8]>)
    ensures
        r matches Some(s) ==> decl_string(token_view(*t)) == Some(s@),
        r is None ==> decl_string(token_view(*t)) is None,
{
    match &t.tok {
        Tok::KwDecl(_, b) => match &**b {
            Tok::String(v) => Some(*v),
            _ => None,
        },
        _ => None,
    }
}

fn find_conf<'a>(secs: &Vec<Token<'a>>) -> (r: Option<usize>)
    ensures
        r matches Some(c) ==> first_conf(tokens_view(secs@), 0) == Some(c as int) && c < secs@.len(),
        r is None ==> first_conf(tokens_view(secs@), 0) is None,
{
    let ghost sv = tokens_view(secs@);
    proof { lemma_tokens_view_index(secs@); }
    let mut ci: usize = 0;
    while ci < secs.len()
        invariant
            ci <= secs@.len(),
            sv == tokens_view(secs@),
            sv.len() == secs@.len(),
            forall|k: int| 0 <= k < secs@.len() ==> #[trigger] sv[k] == token_view(secs@[k]),
            first_conf(sv, 0) == first_conf(sv, ci as int),
        decreases secs@.len() - ci,
    {
        if let Tok::Section(Section::Conf) = secs[ci].tok {
            return Some(ci);
        }
        ci += 1;
    }
    None
}

/// the header result, in exec form: `None` where a declaration has a value of the wrong kind;
/// otherwise whether the configuration is complete, with the configuration bytes and the first
/// data bytes
fn header_exec<'a>(maps: &Maps<'a>, toks: &Vec<Token<'a>>, reps: &mut Vec<Report>) -> (r: Option<(bool, Vec<u8>, Vec<u8>)>)
    requires
        maps.config@.len() == 6,
    ensures
        ({
            let mst = MapSt {
                cseq: Section::Outside,
                cpos: 0,
                parent: seq![],
                labels: Map::empty(),
                config: config_view(maps.config@),
                count0: 0,
                secs: tokens_view(maps.secs@),
                instrs: seq![],
                reports: seq![],
                haderr: false,
            };
            let h = spec_header(mst, tokens_view(toks@));
            &&& r is None <==> h is None
            &&& r matches Some((failed, conf, data)) ==> {
                &&& failed == h.unwrap().failed
                &&& !failed ==> conf@ == h.unwrap().conf && data@ == h.unwrap().data
                &&& reports_view(final(reps)@) == reports_view(old(reps)@) + h.unwrap().reports
            }
        }),
{
    let ghost cfg = config_view(maps.config@);
    let ghost secs = tokens_view(maps.secs@);
    let ghost rstart = reps@;
    proof {
        lemma_tokens_view_index(maps.secs@);
        lemma_tokens_view_index(toks@);
    }
    let found = find_conf(&maps.secs);
    if found.is_none() {
        if toks.len() == 0 {
            return None;
        }
        let last = &toks[toks.len() - 1];
        report_error(reps, "missing config section", last.line, last.column);
        assert(reports_view(reps@) =~= reports_view(rstart) + seq![error_at("missing config section", last.line, last.column)]);
        return Some((true, Vec::new(), Vec::new()));
    }
    let ci = match found {
        Some(c) => c,
        None => 0,
    };
    let cs = &maps.secs[ci];
    assert(first_conf(secs, 0) == Some(ci as int));
    let pt = match &maps.config[0] {
        None => {
            report_error(reps, "missing purpose", cs.line, cs.column);
            assert(reports_view(reps@) =~= reports_view(rstart) + seq![error_at("missing purpose", cs.line, cs.column)]);
            return Some((true, Vec::new(), Vec::new()));
        },
        Some(t) => t,
    };
    let pur = match decl_uint_exec(pt) {
        None => {
            return None;
        },
        Some(v) => v,
    };
    let nt = match &maps.config[1] {
        None => {
            report_error(reps, "missing name declaration", cs.line, cs.column);
            assert(reports_view(reps@) =~= reports_view(rstart) + seq![error_at("missing name declaration", cs.line, cs.column)]);
            return Some((true, Vec::new(), Vec::new()));
        },
        Some(t) => t,
    };
    let name = match decl_string_exec(nt) {
        None => {
            return None;
        },
        Some(v) => v,
    };
    let mut conf: Vec<u8> = Vec::new();
    conf.push(pur as u8);
    let ne = name_entry_exec(name);
    extend_bytes(&mut conf, ne.as_slice());
    let ghost mut hr: Seq<ReportV> = seq![];
    match &maps.config[2] {
        Some(it) => match decl_uint_exec(it) {
            None => {
                return None;
            },
            Some(v) => {
                conf.push(v as u8);
            },
        },
        None => {
            report_warning(reps, "missing invar declaration, defaulting to 0", cs.line, cs.column);
            conf.push(0);
            proof { hr = seq![warning_at("missing invar declaration, defaulting to 0", cs.line, cs.column)]; }
        },
    }
    assert(reports_view(reps@) =~= reports_view(rstart) + hr);
    let ghost conf3 = conf@;
    let ghost tail = hdr_tail(cfg, pur, conf3, hr, token_view(*cs));
    let mut data: Vec<u8> = Vec::new();
    if pur != 0 {
        data.push(0);
        data.push(0);
        conf.push(0);
        conf.push(0);
        conf.push(0);
        conf.push(0);
        match &maps.config[5] {
            Some(ft) => {
                report_error(reps, "fstr must not be declared for non 3tr purpose", ft.line, ft.column);
                assert(reports_view(reps@) =~= reports_view(rstart) + hr.push(error_at("fstr must not be declared for non 3tr purpose", ft.line, ft.column)));
                return Some((true, conf, data));
            },
            None => {},
        }
        let ghost mut w: Seq<ReportV> = seq![];
        match &maps.config[3] {
            Some(t) => {
                report_warning(reps, "some and none are ignored for non 3tr purposes", t.line, t.column);
                proof { w = w.push(warning_at("some and none are ignored for non 3tr purposes", t.line, t.column)); }
            },
            None => {},
        }
        match &maps.config[4] {
            Some(t) => {
                report_warning(reps, "some and none are ignored for non 3tr purposes", t.line, t.column);
                proof { w = w.push(warning_at("some and none are ignored for non 3tr purposes", t.line, t.column)); }
            },
            None => {},
        }
        assert(w =~= ignored_warnings(cfg));
        assert(reports_view(reps@) =~= reports_view(rstart) + (hr + w));
        assert(conf@ =~= conf3 + seq![0u8, 0, 0, 0]);
        assert(data@ =~= seq![0u8, 0]);
        return Some((false, conf, data));
    }
    let ft = match &maps.config[5] {
        None => {
            report_error(reps, "missing fstr declaration", cs.line, cs.column);
            assert(reports_view(reps@) =~= reports_view(rstart) + hr.push(error_at("missing fstr declaration", cs.line, cs.column)));
            return Some((true, conf, data));
        },
        Some(t) => t,
    };
    let fs = match decl_string_exec(ft) {
        None => {
            return None;
        },
        Some(v) => v,
    };
    let l16 = be16_exec(fs.len() as u16);
    extend_bytes(&mut data, l16.as_slice());
    extend_bytes(&mut data, fs);
    let t3 = match &maps.config[3] {
        None => {
            report_error(reps, "missing some/none declaration", cs.line, cs.column);
            assert(reports_view(reps@) =~= reports_view(rstart) + hr.push(error_at("missing some/none declaration", cs.line, cs.column)));
            return Some((true, conf, data));
        },
        Some(t) => t,
    };
    let n3 = match decl_uint_exec(t3) {
        None => {
            return None;
        },
        Some(v) => v,
    };
    let b3 = be16_exec(n3 as u16);
    extend_bytes(&mut conf, b3.as_slice());
    let t4 = match &maps.config[4] {
        None => {
            report_error(reps, "missing some/none declaration", cs.line, cs.column);
            assert(reports_view(reps@) =~= reports_view(rstart) + hr.push(error_at("missing some/none declaration", cs.line, cs.column)));
            return Some((true, conf, data));
        },
        Some(t) => t,
    };
    let n4 = match decl_uint_exec(t4) {
        None => {
            return None;
        },
        Some(v) => v,
    };
    let b4 = be16_exec(n4 as u16);
    extend_bytes(&mut conf, b4.as_slice());
    assert(data@ =~= be16(fs@.len() as u16) + fs@);
    Some((false, conf, data))
}

/// the pieces that a data declaration adds to the data section: `None` where its value is of the
/// wrong kind, `Some(None)` where the keyword adds nothing
pub open spec fn data_contrib(kw: Keyword, v: TokV) -> Option<Option<Seq<PieceV>>> {
    match kw {
        Keyword::Str => match v {
            TokV::String(s) => Some(Some(bytes_pieces(seq![1u8, s.len() as u8] + s))),
            _ => None,
        },
        Keyword::F64 => match v {
            TokV::Float(x) => Some(Some(bytes_pieces(seq![2u8]).push(PieceV::F64(FloatSrcV::Text(x))))),
            _ => None,
        },
        Keyword::Res => match v {
            TokV::UInt(n) => Some(Some(bytes_pieces(seq![3u8] + be16(n as u16)))),
            _ => None,
        },
        Keyword::S32 => match v {
            TokV::SInt(n) => Some(Some(bytes_pieces(seq![0u8] + be32((n as i32) as u32)))),
            _ => None,
        },
        _ => Some(None),
    }
}

/// the state of the pass that writes the data, code and index sections; `k` counts the
/// instructions met so far
pub struct BodySt {
    pub cseq: Section,
    pub data: Seq<PieceV>,
    pub code: Seq<PieceV>,
    pub indx: Seq<u8>,
    pub k: nat,
    pub parent: Seq<u8>,
    pub reports: Seq<ReportV>,
    pub haderr: bool,
}

/// what the pass that writes the sections reads from the layout: the labels, what was recorded of
/// each instruction, the index entries; and whether the run is dry
pub struct BodyCtx {
    pub labels: Map<Seq<u8>, LabelInfo>,
    pub instrs: Seq<LayoutV>,
    pub index: Map<Seq<u8>, usize>,
    pub dry: bool,
}

/// a token of the code section: a label becomes the parent of the labels written with a leading
/// `.`; an instruction, the `k`-th, gives its machine code or what it reports
pub open spec fn instr_contrib(st: BodySt, t: TokenV, cx: BodyCtx) -> Option<BodySt> {
    match t.tok {
        TokV::Instruction(m, pres, ops, r) => if st.k >= cx.instrs.len() {
            None
        } else {
            let lay = cx.instrs[st.k as int];
            match spec_encode(m, pres + lay.extra, ops, lay.sized, r, cx.labels, cx.index, cx.dry, t, st.parent) {
                None => None,
                Some(Err(rep)) => Some(BodySt { reports: st.reports.push(rep), haderr: true, k: st.k + 1, ..st }),
                Some(Ok(b)) => Some(BodySt { code: st.code + b, k: st.k + 1, ..st }),
            }
        },
        TokV::Label(s) => Some(BodySt { parent: s, ..st }),
        _ => Some(st),
    }
}

pub open spec fn body_step(st: BodySt, t: TokenV, cx: BodyCtx) -> Option<BodySt> {
    match t.tok {
        TokV::Section(s) => Some(BodySt { cseq: s, parent: seq![], ..st }),
        TokV::Newline => Some(st),
        _ => if st.cseq == Section::Indx {
            match t.tok {
                TokV::Signature(id, args, rtype) => match sig_contrib(id, args, rtype, cx.labels, t) {
                    None => None,
                    Some((b, r)) => Some(BodySt { indx: st.indx + b, reports: st.reports + r, haderr: st.haderr || r.len() > 0, ..st }),
                },
                _ => None,
            }
        } else if st.cseq == Section::Data {
            match t.tok {
                TokV::KwDecl(kw, v) => match data_contrib(kw, *v) {
                    None => None,
                    Some(None) => Some(st),
                    Some(Some(p)) => Some(BodySt { data: st.data + p, ..st }),
                },
                _ => Some(st),
            }
        } else if st.cseq == Section::Code {
            instr_contrib(st, t, cx)
        } else {
            Some(st)
        },
    }
}

pub open spec fn body_run(ts: Seq<TokenV>, i: int, st: BodySt, cx: BodyCtx) -> Option<BodySt>
    decreases ts.len() - i,
{
    if i >= ts.len() || i < 0 {
        Some(st)
    } else {
        match body_step(st, ts[i], cx) {
            None => None,
            Some(st2) => body_run(ts, i + 1, st2, cx),
        }
    }
}

/// the sections of an object file, with the labels and the index entries of its layout
pub struct SectionsV {
    pub conf: Seq<PieceV>,
    pub data: Seq<PieceV>,
    pub code: Seq<PieceV>,
    pub indx: Seq<PieceV>,
    pub labels: Map<Seq<u8>, LabelInfo>,
    pub index: Map<Seq<u8>, usize>,
}

/// the outcome of emission: no object file (an error was reported), or its sections
pub enum EmitV {
    Failed,
    Done(SectionsV),
}

/// what emission makes of a semantic token stream, with what it reports; `None` where a token
/// does not belong where it stands, a declaration has a value of the wrong kind, an instruction
/// is malformed, an index entry names no label or has a type without an encoding, or a size does
/// not fit. In a dry run an instruction without an encoding gives just its prefixes
pub open spec fn spec_emit(ts: Seq<TokenV>, dry: bool) -> Option<(EmitV, Seq<ReportV>)> {
    let ist = spec_index_map(ts);
    match map_run(ts, 0, map_init(ist.reports, ist.haderr), ist.index) {
        None => None,
        Some(mst) => if mst.haderr {
            Some((EmitV::Failed, mst.reports))
        } else {
            match spec_header(mst, ts) {
                None => None,
                Some(h) => if h.failed {
                    Some((EmitV::Failed, mst.reports + h.reports))
                } else {
                    let st0 = BodySt {
                        cseq: Section::Outside,
                        data: bytes_pieces(h.data + be16(mst.count0 as u16)),
                        code: seq![],
                        indx: be16(((ist.counter as u32) as u16)),
                        k: 0,
                        parent: seq![],
                        reports: mst.reports + h.reports,
                        haderr: false,
                    };
                    let cx = BodyCtx { labels: mst.labels, instrs: mst.instrs, index: ist.index, dry };
                    match body_run(ts, 0, st0, cx) {
                        None => None,
                        Some(b) => if b.haderr {
                            Some((EmitV::Failed, b.reports))
                        } else {
                            Some((EmitV::Done(SectionsV {
                                conf: bytes_pieces(h.conf),
                                data: b.data,
                                code: b.code,
                                indx: bytes_pieces(b.indx),
                                labels: mst.labels,
                                index: ist.index,
                            }), b.reports))
                        },
                    }
                },
            }
        },
    }
}

/// the sections of an object file, with the labels (their offsets' sizes, offsets and bases) and
/// the numbers of the index entries
pub struct Image<'a> {
    pub conf: Vec<Piece<'a>>,
    pub data: Vec<Piece<'a>>,
    pub code: Vec<Piece<'a>>,
    pub indx: Vec<Piece<'a>>,
    pub labels: NameMap<LabelInfo>,
    pub index: NameMap<usize>,
}

pub open spec fn image_view<'a>(im: Image<'a>) -> SectionsV {
    SectionsV {
        conf: pieces_view(im.conf@),
        data: pieces_view(im.data@),
        code: pieces_view(im.code@),
        indx: pieces_view(im.indx@),
        labels: im.labels@,
        index: im.index@,
    }
}

fn data_exec<'a>(kw: Keyword, v: &Tok<'a>, data: &mut Vec<Piece<'a>>) -> (ok: bool)
    ensures
        ok <==> data_contrib(kw, v.view()) is Some,
        data_contrib(kw, v.view()) matches Some(Some(p)) ==> pieces_view(final(data)@) == pieces_view(old(data)@) + p,
        data_contrib(kw, v.view()) matches Some(None) ==> final(data)@ == old(data)@,
{
    match kw {
        Keyword::Str => match v {
            Tok::String(s) => {
                let mut b: Vec<u8> = Vec::new();
                b.push(1);
                b.push(s.len() as u8);
                extend_bytes(&mut b, *s);
                push_bytes(data, b.as_slice());
                assert(b@ =~= seq![1u8, s@.len() as u8] + s@);
                true
            },
            _ => false,
        },
        Keyword::F64 => match v {
            Tok::Float(x) => {
                let ghost before = data@;
                data.push(Piece::Byte(2));
                data.push(Piece::F64(FloatSrc::Text(*x)));
                assert(pieces_view(data@) =~= pieces_view(before) + bytes_pieces(seq![2u8]).push(PieceV::F64(FloatSrcV::Text(x@))));
                true
            },
            _ => false,
        },
        Keyword::Res => match v {
            Tok::UInt(n) => {
                let mut b: Vec<u8> = Vec::new();
                b.push(3);
                let e = be16_exec(*n as u16);
                extend_bytes(&mut b, e.as_slice());
                push_bytes(data, b.as_slice());
                assert(b@ =~= seq![3u8] + be16(*n as u16));
                true
            },
            _ => false,
        },
        Keyword::S32 => match v {
            Tok::SInt(n) => {
                let mut b: Vec<u8> = Vec::new();
                b.push(0);
                let w: i32 = *n as i32;
                let e = be32_exec(w as u32);
                extend_bytes(&mut b, e.as_slice());
                push_bytes(data, b.as_slice());
                assert(b@ =~= seq![0u8] + be32((*n as i32) as u32));
                true
            },
            _ => false,
        },
        _ => true,
    }
}

/// the machine code of an instruction in the code section, or what it reports; `false` where the
/// pass cannot go on
fn instr_exec<'a>(
    t: &Token<'a>,
    instrs: &Vec<InstrLayout>,
    k: usize,
    labels: &NameMap<LabelInfo>,
    index: &NameMap<usize>,
    dry: bool,
    code: &mut Vec<Piece<'a>>,
    parent: &mut Vec<u8>,
    reps: &mut Vec<Report>,
    haderr: &mut bool,
) -> (ok: bool)
    requires
        labels.wf(),
        index.wf(),
    ensures
        ({
            let st = BodySt { cseq: Section::Code, data: seq![], code: pieces_view(old(code)@), indx: seq![], k: k as nat, parent: old(parent)@, reports: reports_view(old(reps)@), haderr: *old(haderr) };
            let cx = BodyCtx { labels: labels@, instrs: layouts_view(instrs@), index: index@, dry };
            let res = instr_contrib(st, token_view(*t), cx);
            &&& ok <==> res is Some
            &&& res matches Some(b) ==> {
                &&& pieces_view(final(code)@) == b.code
                &&& final(parent)@ == b.parent
                &&& reports_view(final(reps)@) == b.reports
                &&& *final(haderr) == b.haderr
            }
        }),
{
    match &t.tok {
        Tok::Instruction(m, pres, ops, r) => {
            if k >= instrs.len() {
                return false;
            }
            let lay = &instrs[k];
            match crate::instr::encode_exec(*m, pres, lay, ops, *r, labels, index, dry, t, parent.as_slice()) {
                None => false,
                Some(Err((msg, subject, line, column))) => {
                    report_error_about(reps, msg, subject, line, column);
                    *haderr = true;
                    true
                },
                Some(Ok(b)) => {
                    let mut b = b;
                    let ghost c0 = code@;
                    let ghost b0 = b@;
                    code.append(&mut b);
                    assert(pieces_view(code@) =~= pieces_view(c0) + pieces_view(b0));
                    true
                },
            }
        },
        Tok::Label(s) => {
            *parent = bytes_to_vec(*s);
            true
        },
        _ => true,
    }
}

fn body_pass<'a>(
    toks: &Vec<Token<'a>>,
    labels: &NameMap<LabelInfo>,
    instrs: &Vec<InstrLayout>,
    index: &NameMap<usize>,
    dry: bool,
    data: &mut Vec<Piece<'a>>,
    code: &mut Vec<Piece<'a>>,
    indx: &mut Vec<u8>,
    reps: &mut Vec<Report>,
    haderr: &mut bool,
) -> (ok: bool)
    requires
        labels.wf(),
        index.wf(),
    ensures
        ({
            let st0 = BodySt { cseq: Section::Outside, data: pieces_view(old(data)@), code: pieces_view(old(code)@), indx: old(indx)@, k: 0, parent: seq![], reports: reports_view(old(reps)@), haderr: *old(haderr) };
            let cx = BodyCtx { labels: labels@, instrs: layouts_view(instrs@), index: index@, dry };
            let res = body_run(tokens_view(toks@), 0, st0, cx);
            &&& ok <==> res is Some
            &&& res matches Some(b) ==> {
                &&& pieces_view(final(data)@) == b.data
                &&& pieces_view(final(code)@) == b.code
                &&& final(indx)@ == b.indx
                &&& reports_view(final(reps)@) == b.reports
                &&& *final(haderr) == b.haderr
            }
        }),
{
    let ghost ts = tokens_view(toks@);
    let ghost cx = BodyCtx { labels: labels@, instrs: layouts_view(instrs@), index: index@, dry };
    proof { lemma_tokens_view_index(toks@); }
    let mut cseq = Section::Outside;
    let mut parent: Vec<u8> = Vec::new();
    let mut k: usize = 0;
    let mut i: usize = 0;
    while i < toks.len()
        invariant
            ts == tokens_view(toks@),
            ts.len() == toks@.len(),
            forall|j: int| 0 <= j < toks@.len() ==> #[trigger] ts[j] == token_view(toks@[j]),
            i <= toks@.len(),
            k <= i,
            labels.wf(),
            index.wf(),
            cx == (BodyCtx { labels: labels@, instrs: layouts_view(instrs@), index: index@, dry }),
            body_run(ts, 0, BodySt { cseq: Section::Outside, data: pieces_view(old(data)@), code: pieces_view(old(code)@), indx: old(indx)@, k: 0, parent: seq![], reports: reports_view(old(reps)@), haderr: *old(haderr) }, cx)
                == body_run(ts, i as int, BodySt { cseq, data: pieces_view(data@), code: pieces_view(code@), indx: indx@, k: k as nat, parent: parent@, reports: reports_view(reps@), haderr: *haderr }, cx),
        decreases toks@.len() - i,
    {
        let t = &toks[i];
        match &t.tok {
            Tok::Section(s) => {
                cseq = *s;
                parent = Vec::new();
            },
            Tok::Newline => {},
            _ => {
                if let Section::Indx = cseq {
                    match &t.tok {
                        Tok::Signature(id, args, rtype) => {
                            if !sig_exec(t, *id, args, rtype, labels, indx, reps, haderr) {
                                return false;
                            }
                        },
                        _ => {
                            return false;
                        },
                    }
                } else if let Section::Data = cseq {
                    match &t.tok {
                        Tok::KwDecl(kw, v) => {
                            if !data_exec(*kw, &**v, data) {
                                return false;
                            }
                        },
                        _ => {},
                    }
                } else if let Section::Code = cseq {
                    if !instr_exec(t, instrs, k, labels, index, dry, code, &mut parent, reps, haderr) {
                        return false;
                    }
                    if let Tok::Instruction(_, _, _, _) = &t.tok {
                        k = k + 1;
                    }
                }
            },
        }
        i += 1;
    }
    true
}

fn emit_core<'a>(toks: &Vec<Token<'a>>, dry: bool) -> (r: Option<(Option<Image<'a>>, Vec<Report>)>)
    ensures
        r is None <==> spec_emit(tokens_view(toks@), dry) is None,
        r matches Some((im, reps)) ==> {
            let (e, rs) = spec_emit(tokens_view(toks@), dry).unwrap();
            &&& reports_view(reps@) == rs
            &&& match e {
                EmitV::Failed => im is None,
                EmitV::Done(sv) => im matches Some(i) && image_view(i) == sv,
            }
        },
{
    let ghost ts = tokens_view(toks@);
    let mut reps: Vec<Report> = Vec::new();
    let mut haderr = false;
    assert(reports_view(reps@) =~= seq![]);
    let (index, counter) = index_pass(toks, &mut reps, &mut haderr);
    let ghost ist = spec_index_map(ts);
    let maps = match layout_pass(toks, &index, &mut reps, &mut haderr) {
        None => {
            return None;
        },
        Some(m) => m,
    };
    if haderr {
        return Some((None, reps));
    }
    let ghost rep1 = reports_view(reps@);
    let (failed, conf, data0) = match header_exec(&maps, toks, &mut reps) {
        None => {
            return None;
        },
        Some(h) => h,
    };
    if failed {
        return Some((None, reps));
    }
    let mut data: Vec<Piece<'a>> = Vec::new();
    assert(pieces_view(data@) =~= seq![]);
    push_bytes(&mut data, data0.as_slice());
    let c0 = be16_exec(maps.count0 as u16);
    push_bytes(&mut data, c0.as_slice());
    assert(bytes_pieces(data0@) + bytes_pieces(c0@) =~= bytes_pieces(data0@ + c0@));
    assert(pieces_view(data@) =~= bytes_pieces(data0@ + be16(maps.count0 as u16)));
    let mut indx: Vec<u8> = be16_exec((counter as u32) as u16);
    let mut bh = false;
    let mut code: Vec<Piece<'a>> = Vec::new();
    assert(pieces_view(code@) =~= seq![]);
    if !body_pass(toks, &maps.labels, &maps.instrs, &index, dry, &mut data, &mut code, &mut indx, &mut reps, &mut bh) {
        return None;
    }
    if bh {
        return Some((None, reps));
    }
    let mut confp: Vec<Piece<'a>> = Vec::new();
    assert(pieces_view(confp@) =~= seq![]);
    push_bytes(&mut confp, conf.as_slice());
    let mut indxp: Vec<Piece<'a>> = Vec::new();
    assert(pieces_view(indxp@) =~= seq![]);
    push_bytes(&mut indxp, indx.as_slice());
    let im = Image { conf: confp, data, code, indx: indxp, labels: maps.labels, index };
    assert(pieces_view(im.conf@) =~= bytes_pieces(conf@));
    assert(pieces_view(im.indx@) =~= bytes_pieces(indx@));
    Some((Some(im), reps))
}

/// the outcome of emission, given that it can go through: the diagnostics are appended to
/// `reports`, and the sections come back where no error was reported
pub open spec fn emit_result_matches<'a>(ts: Seq<TokenV>, dry: bool, r: Option<Image<'a>>, old_reports: Seq<Report>, new_reports: Seq<Report>) -> bool {
    let (e, rs) = spec_emit(ts, dry).unwrap();
    &&& reports_view(new_reports) == reports_view(old_reports) + rs
    &&& match e {
        EmitV::Failed => r is None,
        EmitV::Done(sv) => r matches Some(i) && image_view(i) == sv,
    }
}

/// lays out the sections of an object file from a semantic token stream: configuration, data
/// declarations, the machine code of the instructions, and the index of entry points with their
/// labels' offsets and their types; `dry` marks a run whose output is only looked at, where a
/// mnemonic without an encoding is passed over
pub fn emit<'a>(toks: Vec<Token<'a>>, dry: bool, reports: &mut Vec<Report>) -> (r: Option<Image<'a>>)
    requires
        spec_emit(tokens_view(toks@), dry) is Some,
    ensures
        emit_result_matches(tokens_view(toks@), dry, r, old(reports)@, final(reports)@),
{
    match emit_checked(toks, dry, reports) {
        Some(r) => r,
        None => {
            assert(false);
            None
        },
    }
}

/// as `emit`, for any token stream: `None` exactly where emission cannot go through, and then
/// `reports` is left as it was
pub fn emit_checked<'a>(toks: Vec<Token<'a>>, dry: bool, reports: &mut Vec<Report>) -> (r: Option<Option<Image<'a>>>)
    ensures
        r is None <==> spec_emit(tokens_view(toks@), dry) is None,
        r is None ==> final(reports)@ == old(reports)@,
        r matches Some(res) ==> emit_result_matches(tokens_view(toks@), dry, res, old(reports)@, final(reports)@),
{
    match emit_core(&toks, dry) {
        None => None,
        Some((im, mut reps)) => {
            let ghost before = reports@;
            let ghost added = reps@;
            reports.append(&mut reps);
            assert(reports_view(reports@) =~= reports_view(before) + reports_view(added));
            Some(im)
        },
    }
}

/// the layout of an object file: a version byte, then each section's name, its size in four
/// big-endian bytes, and its content
pub open spec fn file_pieces(s: SectionsV) -> Seq<PieceV> {
    bytes_pieces(seq![1u8] + lit("SECTION.conf") + be32(pieces_size(s.conf) as u32)) + s.conf
        + bytes_pieces(lit("SECTION.data") + be32(pieces_size(s.data) as u32)) + s.data
        + bytes_pieces(lit("SECTION.code") + be32(pieces_size(s.code) as u32)) + s.code
        + bytes_pieces(lit("SECTION.indx") + be32(pieces_size(s.indx) as u32)) + s.indx
}

fn size_of_pieces<'a>(p: &Vec<Piece<'a>>) -> (r: u128)
    ensures
        r as nat == pieces_size(pieces_view(p@)),
{
    let mut n: u128 = 0;
    let mut i: usize = 0;
    while i < p.len()
        invariant
            i <= p@.len(),
            n as nat == pieces_size(pieces_view(p@.subrange(0, i as int))),
            n <= 8 * i,
        decreases p@.len() - i,
    {
        assert(pieces_view(p@.subrange(0, i + 1)).drop_last() =~= pieces_view(p@.subrange(0, i as int)));
        match p[i] {
            Piece::Byte(_) => {
                n = n + 1;
            },
            Piece::F64(_) => {
                n = n + 8;
            },
            Piece::F32(_) => {
                n = n + 4;
            },
        }
        i += 1;
    }
    assert(p@.subrange(0, p@.len() as int) =~= p@);
    n
}

fn push_section<'a>(out: &mut Vec<Piece<'a>>, name: &str, content: &Vec<Piece<'a>>)
    ensures
        pieces_view(final(out)@) == pieces_view(old(out)@) + bytes_pieces(lit(name) + be32(pieces_size(pieces_view(content@)) as u32)) + pieces_view(content@),
{
    let ghost start = pieces_view(out@);
    let size = size_of_pieces(content);
    let mut head: Vec<u8> = Vec::new();
    extend_bytes(&mut head, name.as_bytes());
    let sz = be32_exec(size as u32);
    extend_bytes(&mut head, sz.as_slice());
    push_bytes(out, head.as_slice());
    let ghost mid = pieces_view(out@);
    let mut i: usize = 0;
    while i < content.len()
        invariant
            i <= content@.len(),
            pieces_view(out@) == mid + pieces_view(content@.subrange(0, i as int)),
        decreases content@.len() - i,
    {
        let ghost before = out@;
        out.push(content[i]);
        assert(pieces_view(out@) =~= pieces_view(before).push(piece_view(content@[i as int])));
        assert(pieces_view(content@.subrange(0, i + 1)) =~= pieces_view(content@.subrange(0, i as int)).push(piece_view(content@[i as int])));
        i += 1;
    }
    assert(content@.subrange(0, content@.len() as int) =~= content@);
    assert(head@ =~= lit(name) + be32(pieces_size(pieces_view(content@)) as u32));
}

impl<'a> Image<'a> {
    /// the whole object file
    pub fn file_pieces(&self) -> (r: Vec<Piece<'a>>)
        ensures
            pieces_view(r@) == file_pieces(image_view(*self)),
    {
        let mut out: Vec<Piece<'a>> = Vec::new();
        out.push(Piece::Byte(1));
        assert(pieces_view(out@) =~= bytes_pieces(seq![1u8]));
        push_section(&mut out, "SECTION.conf", &self.conf);
        push_section(&mut out, "SECTION.data", &self.data);
        push_section(&mut out, "SECTION.code", &self.code);
        push_section(&mut out, "SECTION.indx", &self.indx);
        proof {
            let sv = image_view(*self);
            assert(bytes_pieces(seq![1u8]) + bytes_pieces(lit("SECTION.conf") + be32(pieces_size(sv.conf) as u32))
                =~= bytes_pieces(seq![1u8] + lit("SECTION.conf") + be32(pieces_size(sv.conf) as u32)));
        }
        out
    }
}

/// some diagnostic is an error
pub open spec fn has_error(rs: Seq<ReportV>) -> bool {
    exists|k: int| 0 <= k < rs.len() && !(#[trigger] rs[k]).warning
}

proof fn lemma_has_error_push(rs: Seq<ReportV>, x: ReportV)
    ensures
        has_error(rs.push(x)) == (has_error(rs) || !x.warning),
{
    if has_error(rs) {
        let k = choose|k: int| 0 <= k < rs.len() && !(#[trigger] rs[k]).warning;
        assert(rs.push(x)[k] == rs[k]);
    }
    if !x.warning {
        assert(rs.push(x)[rs.len() as int] == x);
    }
    if has_error(rs.push(x)) {
        let k = choose|k: int| 0 <= k < rs.push(x).len() && !(#[trigger] rs.push(x)[k]).warning;
        if k < rs.len() {
            assert(rs[k] == rs.push(x)[k]);
        }
    }
}

proof fn lemma_has_error_concat(a: Seq<ReportV>, b: Seq<ReportV>)
    ensures
        has_error(a + b) == (has_error(a) || has_error(b)),
{
    if has_error(a) {
        let k = choose|k: int| 0 <= k < a.len() && !(#[trigger] a[k]).warning;
        assert((a + b)[k] == a[k]);
    }
    if has_error(b) {
        let k = choose|k: int| 0 <= k < b.len() && !(#[trigger] b[k]).warning;
        assert((a + b)[a.len() + k] == b[k]);
    }
    if has_error(a + b) {
        let k = choose|k: int| 0 <= k < (a + b).len() && !(#[trigger] (a + b)[k]).warning;
        if k < a.len() {
            assert(a[k] == (a + b)[k]);
        } else {
            assert(b[k - a.len()] == (a + b)[k]);
        }
    }
}

proof fn lemma_idx_run_errors(ts: Seq<TokenV>, i: int, st: IdxSt)
    requires
        st.haderr == has_error(st.reports),
    ensures
        idx_run(ts, i, st).haderr == has_error(idx_run(ts, i, st).reports),
    decreases ts.len() - i,
{
    if 0 <= i < ts.len() {
        let t = ts[i];
        match t.tok {
            TokV::Signature(name, _, _) => if st.cseq == Section::Indx && st.index.contains_key(name) {
                lemma_has_error_push(st.reports, error_at("duplicate index definition", t.line, t.column));
            },
            _ => {},
        }
        lemma_idx_run_errors(ts, i + 1, idx_step(st, ts[i]));
    }
}

proof fn lemma_map_run_errors(ts: Seq<TokenV>, i: int, st: MapSt, index: Map<Seq<u8>, usize>)
    requires
        st.haderr == has_error(st.reports),
    ensures
        map_run(ts, i, st, index) matches Some(o) ==> o.haderr == has_error(o.reports),
    decreases ts.len() - i,
{
    if 0 <= i < ts.len() {
        let t = ts[i];
        lemma_has_error_push(st.reports, error_at("duplicate config declaration", t.line, t.column));
        lemma_has_error_push(st.reports, error_at("invalid child label definition", t.line, t.column));
        lemma_has_error_push(st.reports, error_at("duplicate label definition", t.line, t.column));
        lemma_has_error_push(st.reports.push(error_at("invalid child label definition", t.line, t.column)), error_at("duplicate label definition", t.line, t.column));
        match t.tok {
            TokV::Instruction(m, pres, ops, r) => match instr_layout(m, pres, ops, r, st.labels, index, t) {
                Some((n, lay, reps)) => {
                    crate::instr::lemma_layout_reports_errors(m, pres, ops, r, st.labels, index, t);
                    lemma_has_error_concat(st.reports, reps);
                    if reps.len() > 0 {
                        assert(!reps[0].warning);
                    }
                },
                None => {},
            },
            _ => {},
        }
        match map_step(st, t, index) {
            Some(st2) => lemma_map_run_errors(ts, i + 1, st2, index),
            None => {},
        }
    }
}

proof fn lemma_header_errors(st: MapSt, ts: Seq<TokenV>)
    ensures
        spec_header(st, ts) matches Some(h) ==> h.failed == has_error(h.reports),
{
    let e = seq![];
    assert(!has_error(Seq::<ReportV>::empty()));
    match spec_header(st, ts) {
        Some(h) => {
            match first_conf(st.secs, 0) {
                None => {
                    lemma_has_error_push(e, error_at("missing config section", ts.last().line, ts.last().column));
                },
                Some(ci) => {
                    let cs = st.secs[ci];
                    let w = seq![warning_at("missing invar declaration, defaulting to 0", cs.line, cs.column)];
                    assert(!has_error(w)) by {
                        assert(w =~= e.push(warning_at("missing invar declaration, defaulting to 0", cs.line, cs.column)));
                        lemma_has_error_push(e, warning_at("missing invar declaration, defaulting to 0", cs.line, cs.column));
                    }
                    lemma_has_error_push(e, error_at("missing purpose", cs.line, cs.column));
                    lemma_has_error_push(e, error_at("missing name declaration", cs.line, cs.column));
                    let iw = ignored_warnings(st.config);
                    assert(!has_error(iw));
                    lemma_has_error_concat(e, iw);
                    lemma_has_error_concat(w, iw);
                    match st.config[5] {
                        Some(ft) => {
                            lemma_has_error_push(e, error_at("fstr must not be declared for non 3tr purpose", ft.line, ft.column));
                            lemma_has_error_push(w, error_at("fstr must not be declared for non 3tr purpose", ft.line, ft.column));
                        },
                        None => {},
                    }
                    lemma_has_error_push(e, error_at("missing fstr declaration", cs.line, cs.column));
                    lemma_has_error_push(w, error_at("missing fstr declaration", cs.line, cs.column));
                    lemma_has_error_push(e, error_at("missing some/none declaration", cs.line, cs.column));
                    lemma_has_error_push(w, error_at("missing some/none declaration", cs.line, cs.column));
                },
            }
        },
        None => {},
    }
}

proof fn lemma_body_run_errors(ts: Seq<TokenV>, i: int, st: BodySt, cx: BodyCtx)
    requires
        st.haderr == has_error(st.reports),
    ensures
        body_run(ts, i, st, cx) matches Some(o) ==> o.haderr == has_error(o.reports),
    decreases ts.len() - i,
{
    if 0 <= i < ts.len() {
        let t = ts[i];
        match body_step(st, t, cx) {
            Some(st2) => {
                if st.cseq == Section::Indx {
                    match t.tok {
                        TokV::Signature(id, args, rtype) => match sig_contrib(id, args, rtype, cx.labels, t) {
                            Some((b, r)) => {
                                lemma_has_error_concat(st.reports, r);
                                if r.len() > 0 {
                                    assert(!r[0].warning);
                                }
                            },
                            None => {},
                        },
                        _ => {},
                    }
                }
                if st.cseq == Section::Code {
                    match t.tok {
                        TokV::Instruction(m, pres, ops, r) => if st.k < cx.instrs.len() {
                            let lay = cx.instrs[st.k as int];
                            crate::instr::lemma_encode_errors(m, pres + lay.extra, ops, lay.sized, r, cx.labels, cx.index, cx.dry, t, st.parent);
                            match spec_encode(m, pres + lay.extra, ops, lay.sized, r, cx.labels, cx.index, cx.dry, t, st.parent) {
                                Some(Err(rep)) => lemma_has_error_push(st.reports, rep),
                                _ => {},
                            }
                        },
                        _ => {},
                    }
                }
                lemma_body_run_errors(ts, i + 1, st2, cx);
            },
            None => {},
        }
    }
}

/// Law: emission gives no object file exactly when it reports an error; all else it reports are
/// warnings.
pub proof fn law_emit_fails_iff_error(ts: Seq<TokenV>, dry: bool)
    requires
        spec_emit(ts, dry) is Some,
    ensures
        (spec_emit(ts, dry).unwrap().0 is Failed) <==> has_error(spec_emit(ts, dry).unwrap().1),
{
    assert(!has_error(Seq::<ReportV>::empty()));
    lemma_idx_run_errors(ts, 0, idx_init());
    let ist = spec_index_map(ts);
    lemma_map_run_errors(ts, 0, map_init(ist.reports, ist.haderr), ist.index);
    let mst = map_run(ts, 0, map_init(ist.reports, ist.haderr), ist.index).unwrap();
    if !mst.haderr {
        lemma_header_errors(mst, ts);
        let h = spec_header(mst, ts).unwrap();
        lemma_has_error_concat(mst.reports, h.reports);
        if !h.failed {
            let st0 = BodySt {
                cseq: Section::Outside,
                data: bytes_pieces(h.data + be16(mst.count0 as u16)),
                code: seq![],
                indx: be16(((ist.counter as u32) as u16)),
                k: 0,
                parent: seq![],
                reports: mst.reports + h.reports,
                haderr: false,
            };
            lemma_body_run_errors(ts, 0, st0, BodyCtx { labels: mst.labels, instrs: mst.instrs, index: ist.index, dry });
        }
    }
}

/// every label of the layout state takes the bytes that its offset needs
pub open spec fn labels_sized(labels: Map<Seq<u8>, LabelInfo>) -> bool {
    forall|l: Seq<u8>| labels.contains_key(l) ==> #[trigger] labels[l].0 == spec_min_size(TokV::UInt(labels[l].1))
}

proof fn lemma_map_run_labels_sized(ts: Seq<TokenV>, i: int, st: MapSt, index: Map<Seq<u8>, usize>)
    requires
        labels_sized(st.labels),
    ensures
        map_run(ts, i, st, index) matches Some(o) ==> labels_sized(o.labels),
    decreases ts.len() - i,
{
    if 0 <= i < ts.len() {
        match map_step(st, ts[i], index) {
            Some(st2) => {
                assert(labels_sized(st2.labels));
                lemma_map_run_labels_sized(ts, i + 1, st2, index);
            },
            None => {},
        }
    }
}

/// Law: every label that the layout records is recorded with the number of bytes that its
/// offset needs.
pub proof fn law_label_size_fits_offset(ts: Seq<TokenV>)
    ensures
        ({
            let ist = spec_index_map(ts);
            map_run(ts, 0, map_init(ist.reports, ist.haderr), ist.index) matches Some(st) ==> labels_sized(st.labels)
        }),
{
    let ist = spec_index_map(ts);
    lemma_map_run_labels_sized(ts, 0, map_init(ist.reports, ist.haderr), ist.index);
}

proof fn lemma_idx_run_numbers(ts: Seq<TokenV>, i: int, st: IdxSt)
    requires
        forall|n: Seq<u8>| st.index.contains_key(n) ==> (#[trigger] st.index[n] as nat) < st.counter,
        0 <= i,
        st.counter <= i,
    ensures
        forall|n: Seq<u8>| idx_run(ts, i, st).index.contains_key(n) ==> (#[trigger] idx_run(ts, i, st).index[n] as nat) < idx_run(ts, i, st).counter,
        idx_run(ts, i, st).counter <= (if i <= ts.len() { ts.len() as int } else { i }),
    decreases ts.len() - i,
{
    if i < ts.len() {
        lemma_idx_run_numbers(ts, i + 1, idx_step(st, ts[i]));
    }
}

/// Law: the index entries are numbered from 0 on, each below the number of index entries,
/// which is at most the number of tokens.
pub proof fn law_index_numbers_below_count(ts: Seq<TokenV>)
    ensures
        forall|n: Seq<u8>| spec_index_map(ts).index.contains_key(n) ==> (#[trigger] spec_index_map(ts).index[n] as nat) < spec_index_map(ts).counter,
        spec_index_map(ts).counter <= ts.len(),
{
    lemma_idx_run_numbers(ts, 0, idx_init());
}

/// Law: the entry points with a fixed meaning have fixed return types: `@getpositionof` returns
/// `u16[]`, `@getneighbors` `u32[]`, `@getrequiredbits` `u8` and `@think` `u32`. An index entry of
/// one of them (whose name is a label) is taken without a report exactly when its return type is
/// that type or `auto`.
pub proof fn law_special_entry_return_types(args: Seq<TokV>, rtype: Type, labels: Map<Seq<u8>, LabelInfo>, t: TokenV)
    ensures
        labels.contains_key(seq![64u8, 103u8, 101u8, 116u8, 112u8, 111u8, 115u8, 105u8, 116u8, 105u8, 111u8, 110u8, 111u8, 102u8]) ==> (sig_contrib(seq![64u8, 103u8, 101u8, 116u8, 112u8, 111u8, 115u8, 105u8, 116u8, 105u8, 111u8, 110u8, 111u8, 102u8], args, rtype, labels, t) matches Some((_, r))
            && (r.len() == 0 <==> (rtype == Type::Uarr(Box::new(Type::U16)) || rtype == Type::Auto))),
        labels.contains_key(seq![64u8, 103u8, 101u8, 116u8, 110u8, 101u8, 105u8, 103u8, 104u8, 98u8, 111u8, 114u8, 115u8]) ==> (sig_contrib(seq![64u8, 103u8, 101u8, 116u8, 110u8, 101u8, 105u8, 103u8, 104u8, 98u8, 111u8, 114u8, 115u8], args, rtype, labels, t) matches Some((_, r))
            && (r.len() == 0 <==> (rtype == Type::Uarr(Box::new(Type::U32)) || rtype == Type::Auto))),
        labels.contains_key(seq![64u8, 103u8, 101u8, 116u8, 114u8, 101u8, 113u8, 117u8, 105u8, 114u8, 101u8, 100u8, 98u8, 105u8, 116u8, 115u8]) ==> (sig_contrib(seq![64u8, 103u8, 101u8, 116u8, 114u8, 101u8, 113u8, 117u8, 105u8, 114u8, 101u8, 100u8, 98u8, 105u8, 116u8, 115u8], args, rtype, labels, t) matches Some((_, r))
            && (r.len() == 0 <==> (rtype == Type::U8 || rtype == Type::Auto))),
        labels.contains_key(seq![64u8, 116u8, 104u8, 105u8, 110u8, 107u8]) ==> (sig_contrib(seq![64u8, 116u8, 104u8, 105u8, 110u8, 107u8], args, rtype, labels, t) matches Some((_, r))
            && (r.len() == 0 <==> (rtype == Type::U32 || rtype == Type::Auto))),
{
    reveal_strlit("@constructor");
    vstd::string::is_ascii_spec_bytes("@constructor");
    assert(lit("@constructor") =~= seq![64u8, 99u8, 111u8, 110u8, 115u8, 116u8, 114u8, 117u8, 99u8, 116u8, 111u8, 114u8]);
    reveal_strlit("@getpositionof");
    vstd::string::is_ascii_spec_bytes("@getpositionof");
    assert(lit("@getpositionof") =~= seq![64u8, 103u8, 101u8, 116u8, 112u8, 111u8, 115u8, 105u8, 116u8, 105u8, 111u8, 110u8, 111u8, 102u8]);
    reveal_strlit("@getneighbors");
    vstd::string::is_ascii_spec_bytes("@getneighbors");
    assert(lit("@getneighbors") =~= seq![64u8, 103u8, 101u8, 116u8, 110u8, 101u8, 105u8, 103u8, 104u8, 98u8, 111u8, 114u8, 115u8]);
    reveal_strlit("@getrequiredbits");
    vstd::string::is_ascii_spec_bytes("@getrequiredbits");
    assert(lit("@getrequiredbits") =~= seq![64u8, 103u8, 101u8, 116u8, 114u8, 101u8, 113u8, 117u8, 105u8, 114u8, 101u8, 100u8, 98u8, 105u8, 116u8, 115u8]);
    reveal_strlit("@think");
    vstd::string::is_ascii_spec_bytes("@think");
    assert(lit("@think") =~= seq![64u8, 116u8, 104u8, 105u8, 110u8, 107u8]);
}

/// the parameters of a constructor from `k` on are listed without a report exactly when each is
/// of type `u32` or `auto`
proof fn lemma_ctor_args_report(args: Seq<TokV>, k: int)
    requires
        0 <= k <= args.len(),
        all_params(args),
    ensures
        ctor_args(args, k) matches Some((_, e)) && (e <==> exists|j: int| k <= j < args.len()
            && !((#[trigger] args[j])->Param_1 == Type::U32 || args[j]->Param_1 == Type::Auto)),
    decreases args.len() - k,
{
    if k < args.len() {
        assert(args[k] is Param);
        lemma_ctor_args_report(args, k + 1);
        if !(args[k]->Param_1 == Type::U32 || args[k]->Param_1 == Type::Auto) {
            assert(!spec_auto_eq(args[k]->Param_1, Type::U32));
        } else {
            assert(spec_auto_eq(args[k]->Param_1, Type::U32));
            if exists|j: int| k <= j < args.len() && !((#[trigger] args[j])->Param_1 == Type::U32 || args[j]->Param_1 == Type::Auto) {
                let j = choose|j: int| k <= j < args.len() && !((#[trigger] args[j])->Param_1 == Type::U32 || args[j]->Param_1 == Type::Auto);
                assert(j != k);
            }
        }
    }
}

/// Law: the parameters of the index entry `@constructor` (whose name is a label) must be of type
/// `u32` or `auto`: where its return type is neither `void` nor `auto` and its arguments are
/// parameters, the entry is taken without a report exactly when every parameter has one of those
/// types.
pub proof fn law_constructor_parameters(args: Seq<TokV>, rtype: Type, labels: Map<Seq<u8>, LabelInfo>, t: TokenV)
    requires
        labels.contains_key(seq![64u8, 99u8, 111u8, 110u8, 115u8, 116u8, 114u8, 117u8, 99u8, 116u8, 111u8, 114u8]),
        rtype != Type::Void,
        rtype != Type::Auto,
        forall|k: int| 0 <= k < args.len() ==> (#[trigger] args[k]) is Param,
    ensures
        sig_contrib(seq![64u8, 99u8, 111u8, 110u8, 115u8, 116u8, 114u8, 117u8, 99u8, 116u8, 111u8, 114u8], args, rtype, labels, t) matches Some((_, r))
            && (r.len() == 0 <==> forall|k: int| 0 <= k < args.len() ==> ((#[trigger] args[k])->Param_1 == Type::U32 || args[k]->Param_1 == Type::Auto)),
{
    reveal_strlit("@constructor");
    vstd::string::is_ascii_spec_bytes("@constructor");
    assert(lit("@constructor") =~= seq![64u8, 99u8, 111u8, 110u8, 115u8, 116u8, 114u8, 117u8, 99u8, 116u8, 111u8, 114u8]);
    assert(all_params(args));
    lemma_ctor_args_report(args, 0);
}

/// the name entries of the parameters, one sequence of bytes for each
pub open spec fn param_name_entries(args: Seq<TokV>) -> Seq<Seq<u8>> {
    Seq::new(args.len(), |i: int| seq![args[i]->Param_0.len() as u8] + args[i]->Param_0)
}

/// the encoded types of the parameters, one sequence of bytes for each
pub open spec fn param_type_entries(args: Seq<TokV>) -> Seq<Seq<u8>> {
    Seq::new(args.len(), |i: int| spec_type_bytes(args[i]->Param_1))
}

proof fn lemma_param_bytes_flat(args: Seq<TokV>)
    ensures
        param_names_bytes(args) == param_name_entries(args).flatten(),
        param_types_bytes(args) == param_type_entries(args).flatten(),
    decreases args.len(),
{
    param_name_entries(args).lemma_flatten_and_flatten_alt_are_equivalent();
    param_type_entries(args).lemma_flatten_and_flatten_alt_are_equivalent();
    if args.len() > 0 {
        lemma_param_bytes_flat(args.drop_last());
        assert(param_name_entries(args).drop_last() =~= param_name_entries(args.drop_last()));
        assert(param_type_entries(args).drop_last() =~= param_type_entries(args.drop_last()));
        param_name_entries(args).drop_last().lemma_flatten_and_flatten_alt_are_equivalent();
        param_type_entries(args).drop_last().lemma_flatten_and_flatten_alt_are_equivalent();
    }
}

/// Law: an index entry other than `@constructor` and the entry points with a fixed meaning (whose
/// name is a label, whose arguments are parameters and whose types have encodings) is taken
/// without a report, as: the length of its name in one byte, the name, the label's offset in four
/// bytes (high byte first), the number of parameters in one byte, each parameter's name preceded
/// by its length, each parameter's type, and the return type.
pub proof fn law_index_entry_bytes(id: Seq<u8>, args: Seq<TokV>, rtype: Type, labels: Map<Seq<u8>, LabelInfo>, t: TokenV)
    requires
        labels.contains_key(id),
        id != seq![64u8, 99u8, 111u8, 110u8, 115u8, 116u8, 114u8, 117u8, 99u8, 116u8, 111u8, 114u8],
        id != seq![64u8, 103u8, 101u8, 116u8, 112u8, 111u8, 115u8, 105u8, 116u8, 105u8, 111u8, 110u8, 111u8, 102u8],
        id != seq![64u8, 103u8, 101u8, 116u8, 110u8, 101u8, 105u8, 103u8, 104u8, 98u8, 111u8, 114u8, 115u8],
        id != seq![64u8, 103u8, 101u8, 116u8, 114u8, 101u8, 113u8, 117u8, 105u8, 114u8, 101u8, 100u8, 98u8, 105u8, 116u8, 115u8],
        id != seq![64u8, 116u8, 104u8, 105u8, 110u8, 107u8],
        forall|k: int| 0 <= k < args.len() ==> (#[trigger] args[k]) is Param && has_repr(args[k]->Param_1),
        has_repr(rtype),
    ensures
        sig_contrib(id, args, rtype, labels, t) == Some((
            seq![id.len() as u8] + id + seq![
                ((labels[id].1 as u32) / 0x100_0000) as u8,
                (((labels[id].1 as u32) / 0x1_0000) % 256) as u8,
                (((labels[id].1 as u32) / 256) % 256) as u8,
                ((labels[id].1 as u32) % 256) as u8,
            ] + seq![args.len() as u8] + param_name_entries(args).flatten() + param_type_entries(args).flatten()
                + spec_type_bytes(rtype),
            Seq::<ReportV>::empty(),
        )),
{
    reveal_strlit("@constructor");
    vstd::string::is_ascii_spec_bytes("@constructor");
    assert(lit("@constructor") =~= seq![64u8, 99u8, 111u8, 110u8, 115u8, 116u8, 114u8, 117u8, 99u8, 116u8, 111u8, 114u8]);
    reveal_strlit("@getpositionof");
    vstd::string::is_ascii_spec_bytes("@getpositionof");
    assert(lit("@getpositionof") =~= seq![64u8, 103u8, 101u8, 116u8, 112u8, 111u8, 115u8, 105u8, 116u8, 105u8, 111u8, 110u8, 111u8, 102u8]);
    reveal_strlit("@getneighbors");
    vstd::string::is_ascii_spec_bytes("@getneighbors");
    assert(lit("@getneighbors") =~= seq![64u8, 103u8, 101u8, 116u8, 110u8, 101u8, 105u8, 103u8, 104u8, 98u8, 111u8, 114u8, 115u8]);
    reveal_strlit("@getrequiredbits");
    vstd::string::is_ascii_spec_bytes("@getrequiredbits");
    assert(lit("@getrequiredbits") =~= seq![64u8, 103u8, 101u8, 116u8, 114u8, 101u8, 113u8, 117u8, 105u8, 114u8, 101u8, 100u8, 98u8, 105u8, 116u8, 115u8]);
    reveal_strlit("@think");
    vstd::string::is_ascii_spec_bytes("@think");
    assert(lit("@think") =~= seq![64u8, 116u8, 104u8, 105u8, 110u8, 107u8]);
    assert(all_params(args));
    assert(param_types_repr(args));
    lemma_param_bytes_flat(args);
    assert(name_entry(id) =~= seq![id.len() as u8] + id);
}

/// the tag byte that each data declaration writes before its value
pub open spec fn data_tag(kw: Keyword) -> Option<u8> {
    match kw {
        Keyword::S32 => Some(0u8),
        Keyword::Str => Some(1u8),
        Keyword::F64 => Some(2u8),
        Keyword::Res => Some(3u8),
        _ => None,
    }
}

/// Law: a data declaration writes a tag byte, then its value: 0 then a signed number in four
/// bytes (`s32`); 1 then a string's length in one byte and its bytes (`str`); 2 then a floating
/// point number (`f64`); 3 then a reserved size in two bytes (`res`), numbers high byte first.
/// Other keywords write nothing to the data section.
pub proof fn law_data_entries(kw: Keyword, v: TokV)
    ensures
        data_contrib(kw, v) matches Some(Some(ps)) ==> (data_tag(kw) matches Some(tag) && ps.len() >= 1 && ps[0] == PieceV::Byte(tag)),
        data_tag(kw) is None ==> data_contrib(kw, v) == Some(None::<Seq<PieceV>>),
        kw == Keyword::Str ==> (v matches TokV::String(s) ==> data_contrib(kw, v) == Some(Some(bytes_pieces(seq![1u8, s.len() as u8] + s)))),
        kw == Keyword::Res ==> (v matches TokV::UInt(n) ==> data_contrib(kw, v) == Some(Some(bytes_pieces(seq![3u8, ((n as u16) / 256) as u8, ((n as u16) % 256) as u8])))),
        kw == Keyword::S32 ==> (v matches TokV::SInt(n) ==> data_contrib(kw, v) == Some(Some(bytes_pieces(seq![
            0u8,
            (((n as i32) as u32) / 0x100_0000) as u8,
            ((((n as i32) as u32) / 0x1_0000) % 256) as u8,
            ((((n as i32) as u32) / 256) % 256) as u8,
            (((n as i32) as u32) % 256) as u8,
        ])))),
{
    match v {
        TokV::UInt(n) => {
            assert(seq![3u8] + be16(n as u16) =~= seq![3u8, ((n as u16) / 256) as u8, ((n as u16) % 256) as u8]);
        },
        TokV::SInt(n) => {
            assert(seq![0u8] + be32((n as i32) as u32) =~= seq![
                0u8,
                (((n as i32) as u32) / 0x100_0000) as u8,
                ((((n as i32) as u32) / 0x1_0000) % 256) as u8,
                ((((n as i32) as u32) / 256) % 256) as u8,
                (((n as i32) as u32) % 256) as u8,
            ]);
        },
        _ => {},
    }
}

/// Law: the configuration written into an object file starts with the declared purpose number in
/// one byte, then the declared name preceded by its length.
pub proof fn law_header_starts_with_purpose(st: MapSt, ts: Seq<TokenV>)
    ensures
        spec_header(st, ts) matches Some(h) ==> (!h.failed ==> (st.config[0] matches Some(pt) && decl_uint(pt) matches Some(pur)
            && st.config[1] matches Some(nt) && decl_string(nt) matches Some(name) && h.conf.len() >= 2 + name.len()
            && h.conf[0] == pur as u8 && h.conf[1] == name.len() as u8 && h.conf.subrange(2, 2 + name.len() as int) == name)),
{
    match spec_header(st, ts) {
        Some(h) => {
            if !h.failed {
                let ci = first_conf(st.secs, 0).unwrap();
                let pt = st.config[0].unwrap();
                let pur = decl_uint(pt).unwrap();
                let nt = st.config[1].unwrap();
                let name = decl_string(nt).unwrap();
                let conf2 = seq![pur as u8] + name_entry(name);
                let cs = st.secs[ci];
                match st.config[2] {
                    Some(it) => {
                        let v = decl_uint(it).unwrap();
                        let c3 = conf2 + seq![v as u8];
                        assert(hdr_tail(st.config, pur, c3, seq![], cs) == Some(h));
                        assert(h.conf.len() >= c3.len() && h.conf.subrange(0, c3.len() as int) =~= c3);
                        assert(h.conf[0] == c3[0] && h.conf[1] == c3[1]);
                        assert(h.conf.subrange(2, 2 + name.len() as int) =~= c3.subrange(2, 2 + name.len() as int));
                    },
                    None => {
                        let c3 = conf2 + seq![0u8];
                        assert(h.conf.len() >= c3.len() && h.conf.subrange(0, c3.len() as int) =~= c3);
                        assert(h.conf[0] == c3[0] && h.conf[1] == c3[1]);
                        assert(h.conf.subrange(2, 2 + name.len() as int) =~= c3.subrange(2, 2 + name.len() as int));
                    },
                }
            }
        },
        None => {},
    }
}

} // verus!
