//! instructions in the code section: the space that the layout pass gives them, and their machine code

use vstd::prelude::*;
use crate::mnemonics::{M, P, O, spec_register_value};
use crate::types::{Tok, Token, TokV, TokenV, RelTo, token_view, tokens_view, operands_view,
    lemma_tokens_view_index, lemma_operands_view_index, spec_min_size, min_size};
use crate::errors::{Report, ReportV, reports_view, error_at, error_about, report_error, Subject, SubjectV, subject_view};
use crate::names::NameMap;
use crate::emit::{LabelInfo, Piece, PieceV, FloatSrc, FloatSrcV, bytes_pieces, pieces_view, be16, be32,
    push_bytes, be16_exec, be32_exec};
use crate::text::extend_bytes;
use vstd::std_specs::bits::{u64_leading_zeros, u64_trailing_zeros};

verus! {

/// what the layout pass records of an instruction: the prefixes that it adds, and which operands
/// (labels not yet defined where the instruction stands) get four bytes
pub struct InstrLayout {
    pub extra: Vec<P>,
    pub sized: Vec<bool>,
}

pub struct LayoutV {
    pub extra: Seq<P>,
    pub sized: Seq<bool>,
}

impl InstrLayout {
    pub open spec fn view(&self) -> LayoutV {
        LayoutV { extra: self.extra@, sized: self.sized@ }
    }
}

pub open spec fn layouts_view(s: Seq<InstrLayout>) -> Seq<LayoutV> {
    Seq::new(s.len(), |i: int| s[i].view())
}

/// the bytes that a base other than the absolute one adds
pub open spec fn relto_cost(r: RelTo) -> nat {
    match r {
        RelTo::Absolute => 0,
        RelTo::Data | RelTo::Invar => 1,
        RelTo::Reg(_) => 2,
    }
}

/// the prefix that a move through a bare register adds; `None` where a move has no operand, or
/// a first operand of register-relative kind that is no dereference
pub open spec fn oprev_extra(m: M, ops: Seq<(O, TokenV)>) -> Option<Seq<P>> {
    if m == M::MOV {
        if ops.len() == 0 {
            None
        } else if ops[0].0 == O::RMem {
            match ops[0].1.tok {
                TokV::Deref(inner) => Some(if inner.len() == 1 { seq![P::Oprev] } else { seq![] }),
                _ => None,
            }
        } else {
            Some(seq![])
        }
    } else {
        Some(seq![])
    }
}

/// mnemonics that take extended registers behind the `Era` prefix
pub open spec fn takes_era(m: M) -> bool {
    matches!(m, M::ADD | M::SUB | M::MUL | M::IMUL | M::DIV | M::IDIV | M::CMP | M::TEST | M::CMPXCHG | M::MOV)
}

/// mnemonics that take extended registers without a prefix
pub open spec fn era_free(m: M) -> bool {
    matches!(m, M::PUSH | M::POP)
}

/// the error for an extended register operand of a mnemonic that cannot take one
pub open spec fn era_message(m: M) -> &'static str {
    match m {
        M::ADD => "'ADD' instruction is not ERA COMPAT",
        M::SUB => "'SUB' instruction is not ERA COMPAT",
        M::MUL => "'MUL' instruction is not ERA COMPAT",
        M::IMUL => "'IMUL' instruction is not ERA COMPAT",
        M::DIV => "'DIV' instruction is not ERA COMPAT",
        M::IDIV => "'IDIV' instruction is not ERA COMPAT",
        M::SHL => "'SHL' instruction is not ERA COMPAT",
        M::SHR => "'SHR' instruction is not ERA COMPAT",
        M::SAR => "'SAR' instruction is not ERA COMPAT",
        M::XOR => "'XOR' instruction is not ERA COMPAT",
        M::NOT => "'NOT' instruction is not ERA COMPAT",
        M::OR => "'OR' instruction is not ERA COMPAT",
        M::AND => "'AND' instruction is not ERA COMPAT",
        M::PUSH => "'PUSH' instruction is not ERA COMPAT",
        M::POP => "'POP' instruction is not ERA COMPAT",
        M::CMP => "'CMP' instruction is not ERA COMPAT",
        M::TEST => "'TEST' instruction is not ERA COMPAT",
        M::XCHG => "'XCHG' instruction is not ERA COMPAT",
        M::CMPXCHG => "'CMPXCHG' instruction is not ERA COMPAT",
        M::JMP => "'JMP' instruction is not ERA COMPAT",
        M::JZ => "'JZ' instruction is not ERA COMPAT",
        M::JE => "'JE' instruction is not ERA COMPAT",
        M::JNZ => "'JNZ' instruction is not ERA COMPAT",
        M::JNE => "'JNE' instruction is not ERA COMPAT",
        M::JA => "'JA' instruction is not ERA COMPAT",
        M::JAE => "'JAE' instruction is not ERA COMPAT",
        M::JG => "'JG' instruction is not ERA COMPAT",
        M::JGE => "'JGE' instruction is not ERA COMPAT",
        M::JB => "'JB' instruction is not ERA COMPAT",
        M::JBE => "'JBE' instruction is not ERA COMPAT",
        M::JL => "'JL' instruction is not ERA COMPAT",
        M::JLE => "'JLE' instruction is not ERA COMPAT",
        M::RET => "'RET' instruction is not ERA COMPAT",
        M::SYSCALL => "'SYSCALL' instruction is not ERA COMPAT",
        M::CALL => "'CALL' instruction is not ERA COMPAT",
        M::MOV => "'MOV' instruction is not ERA COMPAT",
        M::HLT => "'HLT' instruction is not ERA COMPAT",
    }
}

fn era_message_exec(m: M) -> (r: &'static str)
    ensures
        r == era_message(m),
{
    match m {
        M::ADD => "'ADD' instruction is not ERA COMPAT",
        M::SUB => "'SUB' instruction is not ERA COMPAT",
        M::MUL => "'MUL' instruction is not ERA COMPAT",
        M::IMUL => "'IMUL' instruction is not ERA COMPAT",
        M::DIV => "'DIV' instruction is not ERA COMPAT",
        M::IDIV => "'IDIV' instruction is not ERA COMPAT",
        M::SHL => "'SHL' instruction is not ERA COMPAT",
        M::SHR => "'SHR' instruction is not ERA COMPAT",
        M::SAR => "'SAR' instruction is not ERA COMPAT",
        M::XOR => "'XOR' instruction is not ERA COMPAT",
        M::NOT => "'NOT' instruction is not ERA COMPAT",
        M::OR => "'OR' instruction is not ERA COMPAT",
        M::AND => "'AND' instruction is not ERA COMPAT",
        M::PUSH => "'PUSH' instruction is not ERA COMPAT",
        M::POP => "'POP' instruction is not ERA COMPAT",
        M::CMP => "'CMP' instruction is not ERA COMPAT",
        M::TEST => "'TEST' instruction is not ERA COMPAT",
        M::XCHG => "'XCHG' instruction is not ERA COMPAT",
        M::CMPXCHG => "'CMPXCHG' instruction is not ERA COMPAT",
        M::JMP => "'JMP' instruction is not ERA COMPAT",
        M::JZ => "'JZ' instruction is not ERA COMPAT",
        M::JE => "'JE' instruction is not ERA COMPAT",
        M::JNZ => "'JNZ' instruction is not ERA COMPAT",
        M::JNE => "'JNE' instruction is not ERA COMPAT",
        M::JA => "'JA' instruction is not ERA COMPAT",
        M::JAE => "'JAE' instruction is not ERA COMPAT",
        M::JG => "'JG' instruction is not ERA COMPAT",
        M::JGE => "'JGE' instruction is not ERA COMPAT",
        M::JB => "'JB' instruction is not ERA COMPAT",
        M::JBE => "'JBE' instruction is not ERA COMPAT",
        M::JL => "'JL' instruction is not ERA COMPAT",
        M::JLE => "'JLE' instruction is not ERA COMPAT",
        M::RET => "'RET' instruction is not ERA COMPAT",
        M::SYSCALL => "'SYSCALL' instruction is not ERA COMPAT",
        M::CALL => "'CALL' instruction is not ERA COMPAT",
        M::MOV => "'MOV' instruction is not ERA COMPAT",
        M::HLT => "'HLT' instruction is not ERA COMPAT",
    }
}

/// the operands from the `k`-th on, as the layout pass reads them for prefixes: an extended
/// register adds `Era` once (where the mnemonic takes it) or is reported; a negative immediate
/// adds `Sign` once. Gives the added prefixes, the reports, and whether extended registers are
/// in use
pub open spec fn flag_run(m: M, ops: Seq<(O, TokenV)>, k: int, era: bool, sign: bool, t: TokenV) -> (Seq<P>, Seq<ReportV>, bool)
    decreases ops.len() - k,
{
    if k >= ops.len() || k < 0 {
        (seq![], seq![], era)
    } else {
        let op = ops[k];
        let xreg = op.0 == O::XReg;
        let add_era = xreg && takes_era(m) && !era;
        let bad = xreg && !takes_era(m) && !era_free(m);
        let era1 = era || (xreg && (takes_era(m) || era_free(m)));
        let add_sign = op.0 == O::Imm && op.1.tok is SInt && !sign;
        let sign1 = sign || add_sign;
        let e = (if add_era { seq![P::Era] } else { seq![] }) + (if add_sign { seq![P::Sign] } else { seq![] });
        let r = if bad { seq![error_at(era_message(m), t.line, t.column)] } else { seq![] };
        let rest = flag_run(m, ops, k + 1, era1, sign1, t);
        (e + rest.0, r + rest.1, rest.2)
    }
}

/// the bytes that the integers of a dereference take; `None` where a part is no integer or the
/// sum does not fit in 64 bits
pub open spec fn deref_cost(inner: Seq<TokenV>) -> Option<nat>
    decreases inner.len(),
{
    if inner.len() == 0 {
        Some(0)
    } else {
        match deref_cost(inner.drop_last()) {
            None => None,
            Some(c) => match inner.last().tok {
                TokV::UInt(_) | TokV::SInt(_) => if c + spec_min_size(inner.last().tok) as nat > u64::MAX {
                    None
                } else {
                    Some(c + spec_min_size(inner.last().tok) as nat)
                },
                _ => None,
            },
        }
    }
}

/// what an operand adds to the size of an instruction: whole bytes, half bytes, and whether it is
/// a label not yet defined (which then gets four bytes); `None` where its token is not of its kind
pub open spec fn op_cost(op: (O, TokenV), era: bool, qword: bool, labels: Map<Seq<u8>, LabelInfo>) -> Option<(nat, nat, bool)> {
    match op.0 {
        O::XReg | O::Reg => Some(if era { (1, 0, false) } else { (0, 1, false) }),
        O::AMem | O::RMem => match op.1.tok {
            TokV::Addr(v) => Some((spec_min_size(TokV::UInt(v as u64)) as nat, 1, false)),
            TokV::Deref(inner) => match deref_cost(inner) {
                Some(c) => Some((c, 1, false)),
                None => None,
            },
            _ => None,
        },
        O::Imm => match op.1.tok {
            TokV::Float(_) => Some((if qword { 8 } else { 4 }, 1, false)),
            TokV::SInt(_) | TokV::UInt(_) => Some((spec_min_size(op.1.tok) as nat, 1, false)),
            TokV::Word(w) => if labels.contains_key(w) {
                Some((labels[w].0 as nat, 1, false))
            } else {
                Some((4, 1, true))
            },
            _ => None,
        },
    }
}

/// the whole bytes and half bytes of the operands, with the operands that get four bytes; `None`
/// where an operand's token is not of its kind, or the bytes do not fit in 64 bits
pub open spec fn cost_run(ops: Seq<(O, TokenV)>, era: bool, qword: bool, labels: Map<Seq<u8>, LabelInfo>) -> Option<(nat, nat, Seq<bool>)>
    decreases ops.len(),
{
    if ops.len() == 0 {
        Some((0, 0, seq![]))
    } else {
        match cost_run(ops.drop_last(), era, qword, labels) {
            None => None,
            Some((c, h, s)) => match op_cost(ops.last(), era, qword, labels) {
                None => None,
                Some((c1, h1, s1)) => if c + c1 > u64::MAX {
                    None
                } else {
                    Some((c + c1, h + h1, s.push(s1)))
                },
            },
        }
    }
}

/// the size of a jump or call: two bytes of opcode, one more where it is a call, and the bytes of
/// an immediate target (two for an index entry or a plain jump, four for a call to a label);
/// `None` where it has no operand
pub open spec fn jump_size(m: M, pres: Seq<P>, ops: Seq<(O, TokenV)>, index: Map<Seq<u8>, usize>) -> Option<nat> {
    if ops.len() == 0 {
        None
    } else {
        let call = pres.contains(P::Call) || m == M::CALL;
        let base: nat = if call { 3 } else { 2 };
        if ops[0].0 == O::Imm {
            let imm: nat = if call {
                match ops[0].1.tok {
                    TokV::Word(w) => if index.contains_key(w) { 2 } else { 4 },
                    _ => 4,
                }
            } else {
                2
            };
            Some(base + imm)
        } else {
            Some(base)
        }
    }
}

/// the space that the layout pass gives an instruction, what it records of it, and what it
/// reports: the opcode byte, a byte or two for a base, a byte per prefix (given or added), the
/// bytes of the operands, and their half bytes rounded up; for a jump, `jump_size`. `None` where
/// the instruction is malformed
pub open spec fn instr_layout(
    m: M,
    pres: Seq<P>,
    ops: Seq<(O, TokenV)>,
    relto: RelTo,
    labels: Map<Seq<u8>, LabelInfo>,
    index: Map<Seq<u8>, usize>,
    t: TokenV,
) -> Option<(nat, LayoutV, Seq<ReportV>)> {
    match oprev_extra(m, ops) {
        None => None,
        Some(e0) => if m.spec_is_jmp() {
            match jump_size(m, pres, ops, index) {
                None => None,
                Some(n) => Some((e0.len() + n, LayoutV { extra: e0, sized: seq![] }, seq![])),
            }
        } else {
            let f = flag_run(m, ops, 0, false, pres.contains(P::Sign), t);
            match cost_run(ops, f.2, pres.contains(P::QWord), labels) {
                None => None,
                Some((c, h, sized)) => Some((
                    e0.len() + f.0.len() + 1 + relto_cost(relto) + pres.len() + c + h / 2 + h % 2,
                    LayoutV { extra: e0 + f.0, sized },
                    f.1,
                )),
            }
        },
    }
}

/// what the layout of an instruction reports are errors
pub proof fn lemma_layout_reports_errors(
    m: M,
    pres: Seq<P>,
    ops: Seq<(O, TokenV)>,
    relto: RelTo,
    labels: Map<Seq<u8>, LabelInfo>,
    index: Map<Seq<u8>, usize>,
    t: TokenV,
)
    ensures
        instr_layout(m, pres, ops, relto, labels, index, t) matches Some((_, _, r)) ==>
            forall|k: int| 0 <= k < r.len() ==> !(#[trigger] r[k]).warning,
{
    lemma_flag_run_errors(m, ops, 0, false, pres.contains(P::Sign), t);
}

proof fn lemma_flag_run_errors(m: M, ops: Seq<(O, TokenV)>, k: int, era: bool, sign: bool, t: TokenV)
    ensures
        forall|j: int| 0 <= j < flag_run(m, ops, k, era, sign, t).1.len() ==> !(#[trigger] flag_run(m, ops, k, era, sign, t).1[j]).warning,
    decreases ops.len() - k,
{
    if 0 <= k < ops.len() {
        let op = ops[k];
        let xreg = op.0 == O::XReg;
        let era1 = era || (xreg && (takes_era(m) || era_free(m)));
        let add_sign = op.0 == O::Imm && op.1.tok is SInt && !sign;
        let bad = xreg && !takes_era(m) && !era_free(m);
        lemma_flag_run_errors(m, ops, k + 1, era1, sign || add_sign, t);
        let res = flag_run(m, ops, k, era, sign, t);
        let rest = flag_run(m, ops, k + 1, era1, sign || add_sign, t);
        let r: Seq<ReportV> = if bad { seq![error_at(era_message(m), t.line, t.column)] } else { seq![] };
        assert(res.1 == r + rest.1);
        assert forall|j: int| 0 <= j < res.1.len() implies !(#[trigger] res.1[j]).warning by {
            if j < r.len() {
                assert(res.1[j] == r[j]);
            } else {
                assert(res.1[j] == rest.1[j - r.len()]);
            }
        }
    }
}

fn contains_prefix(pres: &Vec<P>, p: P) -> (r: bool)
    ensures
        r == pres@.contains(p),
{
    let mut i: usize = 0;
    while i < pres.len()
        invariant
            i <= pres@.len(),
            forall|j: int| 0 <= j < i ==> pres@[j] != p,
        decreases pres@.len() - i,
    {
        if pres[i] == p {
            assert(pres@[i as int] == p);
            return true;
        }
        i += 1;
    }
    false
}

fn deref_cost_exec<'a>(inner: &Vec<Token<'a>>) -> (r: Option<u64>)
    ensures
        match deref_cost(tokens_view(inner@)) {
            None => r is None,
            Some(c) => r == Some(c as u64),
        },
{
    let ghost s = tokens_view(inner@);
    proof { lemma_tokens_view_index(inner@); }
    let mut c: u64 = 0;
    let mut i: usize = 0;
    assert(s.subrange(0, 0) =~= Seq::<TokenV>::empty());
    while i < inner.len()
        invariant
            s == tokens_view(inner@),
            s.len() == inner@.len(),
            forall|k: int| 0 <= k < inner@.len() ==> #[trigger] s[k] == token_view(inner@[k]),
            i <= inner@.len(),
            deref_cost(s.subrange(0, i as int)) == Some(c as nat),
        decreases inner@.len() - i,
    {
        assert(s.subrange(0, i + 1).drop_last() =~= s.subrange(0, i as int));
        assert(s.subrange(0, i + 1).last() == s[i as int]);
        match &inner[i].tok {
            Tok::UInt(_) | Tok::SInt(_) => {
                let n = min_size(&inner[i].tok);
                if c > u64::MAX - n {
                    proof { lemma_deref_cost_prefix_none(s, i as int + 1); }
                    return None;
                }
                c = c + n;
            },
            _ => {
                proof { lemma_deref_cost_prefix_none(s, i as int + 1); }
                return None;
            },
        }
        i += 1;
    }
    assert(s.subrange(0, s.len() as int) =~= s);
    Some(c)
}

/// once a prefix of a dereference has no cost, neither has the whole
proof fn lemma_deref_cost_prefix_none(s: Seq<TokenV>, k: int)
    requires
        0 <= k <= s.len(),
        deref_cost(s.subrange(0, k)) is None,
    ensures
        deref_cost(s) is None,
    decreases s.len() - k,
{
    if k < s.len() {
        assert(s.subrange(0, k + 1).drop_last() =~= s.subrange(0, k));
        lemma_deref_cost_prefix_none(s, k + 1);
    } else {
        assert(s.subrange(0, k) =~= s);
    }
}

/// once a prefix of the operands has no cost, neither have all of them
proof fn lemma_cost_run_prefix_none(s: Seq<(O, TokenV)>, k: int, era: bool, qword: bool, labels: Map<Seq<u8>, LabelInfo>)
    requires
        0 <= k <= s.len(),
        cost_run(s.subrange(0, k), era, qword, labels) is None,
    ensures
        cost_run(s, era, qword, labels) is None,
    decreases s.len() - k,
{
    if k < s.len() {
        assert(s.subrange(0, k + 1).drop_last() =~= s.subrange(0, k));
        lemma_cost_run_prefix_none(s, k + 1, era, qword, labels);
    } else {
        assert(s.subrange(0, k) =~= s);
    }
}

fn op_cost_exec<'a>(op: &(O, Token<'a>), era: bool, qword: bool, labels: &NameMap<LabelInfo>) -> (r: Option<(u64, u64, bool)>)
    requires
        labels.wf(),
    ensures
        match op_cost((op.0, token_view(op.1)), era, qword, labels@) {
            None => r is None,
            Some((c, h, s)) => r matches Some((c2, h2, s2)) && c2 as nat == c && h2 as nat == h && s2 == s,
        },
{
    match op.0 {
        O::XReg | O::Reg => Some(if era { (1, 0, false) } else { (0, 1, false) }),
        O::AMem | O::RMem => match &op.1.tok {
            Tok::Addr(v) => Some((min_size(&Tok::UInt(*v as u64)), 1, false)),
            Tok::Deref(inner) => match deref_cost_exec(inner) {
                Some(c) => Some((c, 1, false)),
                None => None,
            },
            _ => None,
        },
        O::Imm => match &op.1.tok {
            Tok::Float(_) => Some((if qword { 8 } else { 4 }, 1, false)),
            Tok::SInt(_) | Tok::UInt(_) => Some((min_size(&op.1.tok), 1, false)),
            Tok::Word(w) => match labels.get(*w) {
                Some(v) => Some((v.0, 1, false)),
                None => Some((4, 1, true)),
            },
            _ => None,
        },
    }
}

/// the layout of an instruction, in exec form: `None` where `instr_layout` gives none; the reports
/// are appended where it gives one
#[verifier::rlimit(40)]
#[verifier::spinoff_prover]
pub(crate) fn instr_layout_exec<'a>(
    m: M,
    pres: &Vec<P>,
    ops: &Vec<(O, Token<'a>)>,
    relto: RelTo,
    labels: &NameMap<LabelInfo>,
    index: &NameMap<usize>,
    t: &Token<'a>,
    reps: &mut Vec<Report>,
) -> (r: Option<(u128, InstrLayout)>)
    requires
        labels.wf(),
        index.wf(),
    ensures
        ({
            let res = instr_layout(m, pres@, operands_view(ops@), relto, labels@, index@, token_view(*t));
            &&& r is None <==> res is None
            &&& r matches Some((n, lay)) ==> {
                &&& n as nat == res.unwrap().0
                &&& n <= 0x8_0000_0000_0000_0000
                &&& lay.view() == res.unwrap().1
                &&& reports_view(final(reps)@) == reports_view(old(reps)@) + res.unwrap().2
            }
        }),
{
    let ghost ov = operands_view(ops@);
    let ghost tv = token_view(*t);
    proof { lemma_operands_view_index(ops@); }
    let mut extra: Vec<P> = Vec::new();
    if let M::MOV = m {
        if ops.len() == 0 {
            return None;
        }
        if let O::RMem = ops[0].0 {
            match &ops[0].1.tok {
                Tok::Deref(inner) => {
                    if inner.len() == 1 {
                        extra.push(P::Oprev);
                    }
                },
                _ => {
                    return None;
                },
            }
        }
    }
    let ghost e0 = extra@;
    assert(oprev_extra(m, ov) == Some(e0)) by {
        if m == M::MOV && ov[0].0 == O::RMem {
            lemma_tokens_view_index(ops@[0].1.tok->Deref_0@);
        }
        if m != M::MOV {
            assert(e0 =~= seq![]);
        }
    }
    let call = contains_prefix(pres, P::Call);
    if m.is_jmp() {
        if ops.len() == 0 {
            return None;
        }
        let mut n: u128 = if call || m == M::CALL { 3 } else { 2 };
        if let O::Imm = ops[0].0 {
            if call || m == M::CALL {
                let found = match &ops[0].1.tok {
                    Tok::Word(w) => index.contains_key(*w),
                    _ => false,
                };
                n = n + if found { 2 } else { 4 };
            } else {
                n = n + 2;
            }
        }
        let lay = InstrLayout { extra, sized: Vec::new() };
        assert(lay.sized@ =~= Seq::<bool>::empty());
        assert(reports_view(reps@) =~= reports_view(reps@) + Seq::<ReportV>::empty());
        return Some((n + lay.extra.len() as u128, lay));
    }
    // prefixes added for extended registers and negative immediates
    let mut era = false;
    let mut sign = contains_prefix(pres, P::Sign);
    let ghost rstart = reports_view(reps@);
    let ghost f0 = flag_run(m, ov, 0, false, sign, tv);
    let ghost e1: Seq<P> = seq![];
    let mut i: usize = 0;
    while i < ops.len()
        invariant
            ov == operands_view(ops@),
            ov.len() == ops@.len(),
            forall|k: int| 0 <= k < ops@.len() ==> #[trigger] ov[k] == (ops@[k].0, token_view(ops@[k].1)),
            tv == token_view(*t),
            i <= ops@.len(),
            extra@ == e0 + e1,
            ({
                let rest = flag_run(m, ov, i as int, era, sign, tv);
                &&& f0.0 == e1 + rest.0
                &&& f0.1 == reports_view(reps@).subrange(rstart.len() as int, reports_view(reps@).len() as int) + rest.1
                &&& f0.2 == rest.2
            }),
            reports_view(reps@).len() >= rstart.len(),
            reports_view(reps@).subrange(0, rstart.len() as int) == rstart,
        decreases ops@.len() - i,
    {
        let ghost before = reports_view(reps@);
        let ghost rest = flag_run(m, ov, i as int, era, sign, tv);
        let ghost next = flag_run(m, ov, i as int + 1, era || (ov[i as int].0 == O::XReg && (takes_era(m) || era_free(m))),
            sign || (ov[i as int].0 == O::Imm && ov[i as int].1.tok is SInt && !sign), tv);
        let ghost ebefore = extra@;
        let op = &ops[i];
        if let O::XReg = op.0 {
            match m {
                M::ADD | M::SUB | M::MUL | M::IMUL | M::DIV | M::IDIV | M::CMP | M::TEST | M::CMPXCHG | M::MOV => {
                    if !era {
                        era = true;
                        extra.push(P::Era);
                    }
                },
                M::PUSH | M::POP => {
                    era = true;
                },
                _ => {
                    let msg = era_message_exec(m);
                    report_error(reps, msg, t.line, t.column);
                },
            }
        }
        let mut added_sign = false;
        if let O::Imm = op.0 {
            if let Tok::SInt(_) = op.1.tok {
                if !sign {
                    sign = true;
                    added_sign = true;
                    extra.push(P::Sign);
                }
            }
        }
        proof {
            let after = reports_view(reps@);
            let e = extra@.subrange(ebefore.len() as int, extra@.len() as int);
            assert(extra@ =~= ebefore + e);
            assert(rest.0 == e + next.0);
            assert(after.subrange(0, rstart.len() as int) =~= rstart);
            assert(after.subrange(rstart.len() as int, after.len() as int) =~=
                before.subrange(rstart.len() as int, before.len() as int) + after.subrange(before.len() as int, after.len() as int));
            assert(rest.1 == after.subrange(before.len() as int, after.len() as int) + next.1);
            e1 = e1 + e;
        }
        i += 1;
    }
    proof {
        let after = reports_view(reps@);
        assert(after =~= rstart + after.subrange(rstart.len() as int, after.len() as int));
    }
    assert(f0.0 == e1);
    // the bytes of the operands
    let qword = contains_prefix(pres, P::QWord);
    let mut c: u64 = 0;
    let mut h: u64 = 0;
    let mut sized: Vec<bool> = Vec::new();
    let mut j: usize = 0;
    assert(ov.subrange(0, 0) =~= Seq::<(O, TokenV)>::empty());
    while j < ops.len()
        invariant
            ov == operands_view(ops@),
            ov.len() == ops@.len(),
            forall|k: int| 0 <= k < ops@.len() ==> #[trigger] ov[k] == (ops@[k].0, token_view(ops@[k].1)),
            labels.wf(),
            j <= ops@.len(),
            h <= j,
            f0.2 == era,
            f0 == flag_run(m, ov, 0, false, pres@.contains(P::Sign), tv),
            oprev_extra(m, ov) == Some(e0),
            !m.spec_is_jmp(),
            qword == pres@.contains(P::QWord),
            tv == token_view(*t),
            cost_run(ov.subrange(0, j as int), era, qword, labels@) == Some((c as nat, h as nat, sized@)),
        decreases ops@.len() - j,
    {
        assert(ov.subrange(0, j + 1).drop_last() =~= ov.subrange(0, j as int));
        assert(ov.subrange(0, j + 1).last() == ov[j as int]);
        match op_cost_exec(&ops[j], era, qword, labels) {
            None => {
                proof { lemma_cost_run_prefix_none(ov, j as int + 1, era, qword, labels@); }
                return None;
            },
            Some((c1, h1, s1)) => {
                if c > u64::MAX - c1 {
                    proof { lemma_cost_run_prefix_none(ov, j as int + 1, era, qword, labels@); }
                    return None;
                }
                c = c + c1;
                h = h + h1;
                sized.push(s1);
            },
        }
        j += 1;
    }
    assert(ov.subrange(0, ov.len() as int) =~= ov);
    let rc: u128 = match relto {
        RelTo::Absolute => 0,
        RelTo::Data | RelTo::Invar => 1,
        RelTo::Reg(_) => 2,
    };
    let n: u128 = extra.len() as u128 + 1 + rc + pres.len() as u128 + c as u128 + (h / 2) as u128 + (h % 2) as u128;
    Some((n, InstrLayout { extra, sized }))
}

// ---------------------------------------------------------------------------------------------
// machine code

/// eight bytes, big endian
pub open spec fn be64(v: u64) -> Seq<u8> {
    seq![
        (v / 0x100_0000_0000_0000) as u8,
        ((v / 0x1_0000_0000_0000) % 256) as u8,
        ((v / 0x100_0000_0000) % 256) as u8,
        ((v / 0x1_0000_0000) % 256) as u8,
        ((v / 0x100_0000) % 256) as u8,
        ((v / 0x1_0000) % 256) as u8,
        ((v / 256) % 256) as u8,
        (v % 256) as u8,
    ]
}

/// the last `n` of the eight big-endian bytes of `v`
pub open spec fn be64_tail(v: u64, n: nat) -> Seq<u8> {
    be64(v).subrange(8 - n, 8)
}

fn be64_exec(v: u64) -> (r: Vec<u8>)
    ensures
        r@ == be64(v),
{
    let mut r: Vec<u8> = Vec::new();
    r.push((v / 0x100_0000_0000_0000) as u8);
    r.push(((v / 0x1_0000_0000_0000) % 256) as u8);
    r.push(((v / 0x100_0000_0000) % 256) as u8);
    r.push(((v / 0x1_0000_0000) % 256) as u8);
    r.push(((v / 0x100_0000) % 256) as u8);
    r.push(((v / 0x1_0000) % 256) as u8);
    r.push(((v / 256) % 256) as u8);
    r.push((v % 256) as u8);
    assert(r@ =~= be64(v));
    r
}

/// the last `n` bytes of `b`
fn tail_bytes(b: &Vec<u8>, n: usize) -> (r: Vec<u8>)
    requires
        n <= b@.len(),
    ensures
        r@ == b@.subrange(b@.len() - n, b@.len() as int),
{
    let mut r: Vec<u8> = Vec::new();
    let start = b.len() - n;
    let mut i: usize = start;
    while i < b.len()
        invariant
            start == b@.len() - n,
            start <= i <= b@.len(),
            r@ == b@.subrange(start as int, i as int),
        decreases b@.len() - i,
    {
        r.push(b[i]);
        i += 1;
    }
    r
}

fn be64_tail_exec(v: u64, n: u64) -> (r: Vec<u8>)
    requires
        n <= 8,
    ensures
        r@ == be64_tail(v, n as nat),
{
    let b = be64_exec(v);
    tail_bytes(&b, n as usize)
}

/// an address takes four bytes at most
proof fn lemma_addr_size(a: u32)
    ensures
        spec_min_size(TokV::Addr(a)) <= 4,
{
    reveal_with_fuel(vstd::arithmetic::power::pow, 5);
    assert(vstd::arithmetic::power::pow(256, 4) == 0x1_0000_0000);
    crate::types::lemma_sig_bytes_bound(a as nat, 4);
}

/// the number of a register operand; `None` where there is no such operand, or its token is no
/// register
pub open spec fn reg_at(ops: Seq<(O, TokenV)>, j: int) -> Option<u8> {
    if 0 <= j < ops.len() {
        match ops[j].1.tok {
            TokV::Reg(r) => Some(spec_register_value(r)),
            _ => None,
        }
    } else {
        None
    }
}

fn reg_at_exec<'a>(ops: &Vec<(O, Token<'a>)>, j: usize) -> (r: Option<u8>)
    ensures
        r == reg_at(operands_view(ops@), j as int),
        r matches Some(v) ==> v < 26,
{
    proof { lemma_operands_view_index(ops@); }
    if j < ops.len() {
        match &ops[j].1.tok {
            Tok::Reg(r) => Some(r.value()),
            _ => None,
        }
    } else {
        None
    }
}

/// whether an operand was recorded to take four bytes
pub open spec fn sized_at(sized: Seq<bool>, j: int) -> bool {
    0 <= j < sized.len() && sized[j]
}

/// the offset bytes of a dereference: its second part, an integer in the bytes it needs (one more
/// for a non-negative number whose top bit is set, as the offset is read as signed); `None`
/// where there is no such part or it needs more than eight bytes
pub open spec fn rmem_offset(tok: TokV) -> Option<Seq<u8>> {
    match tok {
        TokV::Deref(inner) => if inner.len() < 2 {
            None
        } else {
            match inner[1].tok {
                TokV::UInt(v) => {
                    let o: nat = spec_min_size(TokV::UInt(v)) as nat + (if u64_leading_zeros(v) % 8 == 0 { 1nat } else { 0nat });
                    if o > 8 {
                        None
                    } else {
                        Some(be64_tail(v, o))
                    }
                },
                TokV::SInt(v) => Some(be64_tail(v as u64, spec_min_size(TokV::SInt(v)) as nat)),
                _ => None,
            }
        },
        _ => None,
    }
}

fn rmem_offset_exec<'a>(tok: &Tok<'a>) -> (r: Option<Vec<u8>>)
    ensures
        match rmem_offset(tok.view()) {
            None => r is None,
            Some(b) => r matches Some(v) && v@ == b,
        },
        r matches Some(v) ==> v@.len() <= 8,
{
    match tok {
        Tok::Deref(inner) => {
            proof { lemma_tokens_view_index(inner@); }
            if inner.len() < 2 {
                return None;
            }
            match &inner[1].tok {
                Tok::UInt(v) => {
                    let mut o = min_size(&inner[1].tok);
                    if v.leading_zeros() % 8 == 0 {
                        o = o + 1;
                        if o > 8 {
                            return None;
                        }
                    }
                    Some(be64_tail_exec(*v, o))
                },
                Tok::SInt(v) => {
                    let o = min_size(&inner[1].tok);
                    Some(be64_tail_exec(*v as u64, o))
                },
                _ => None,
            }
        },
        _ => None,
    }
}

/// the full name of a label as written: a name that starts with `.` is a child of the last label
/// met in the code section
pub open spec fn label_name(w: Seq<u8>, parent: Seq<u8>) -> Seq<u8> {
    if w.len() > 0 && w[0] == 46 { parent + w } else { w }
}

fn label_name_exec(w: &[u8], parent: &[u8]) -> (r: Vec<u8>)
    ensures
        r@ == label_name(w@, parent@),
{
    if w.len() > 0 && w[0] == 46 {
        let mut v = crate::text::bytes_to_vec(parent);
        extend_bytes(&mut v, w);
        v
    } else {
        crate::text::bytes_to_vec(w)
    }
}

/// the number that a floating point operand is made from
pub open spec fn float_src(tok: TokV) -> Option<FloatSrcV> {
    match tok {
        TokV::Float(x) => Some(FloatSrcV::Text(x)),
        TokV::UInt(v) => Some(FloatSrcV::UInt(v)),
        TokV::SInt(v) => Some(FloatSrcV::SInt(v)),
        _ => None,
    }
}

/// the bytes of an immediate operand, with their number: a label's offset in the bytes recorded
/// for it (or four, where it was not yet defined in the layout), a float in four or eight bytes
/// where the instruction is marked `fp`, an integer in the bytes it needs. An error where a label
/// stands in an `fp` instruction or is not defined, a float is smaller than a dword, or a float
/// stands in an instruction not marked `fp`; `None` where the token is of another kind
pub open spec fn imm_val(tv: TokenV, sized: bool, fpd: bool, vsize: u8, labels: Map<Seq<u8>, LabelInfo>, parent: Seq<u8>) -> Option<Result<(Seq<PieceV>, nat), ReportV>> {
    let tok = if sized && tv.tok is Word { TokV::Sized(4, Box::new(tv.tok)) } else { tv.tok };
    match tok {
        TokV::Word(_) | TokV::Sized(_, _) => {
            let word: Option<Seq<u8>> = match tok {
                TokV::Word(w) => Some(w),
                TokV::Sized(_, inner) => match *inner {
                    TokV::Word(w) => Some(w),
                    _ => None,
                },
                _ => None,
            };
            let size: u64 = match tok {
                TokV::Sized(s, _) => s,
                _ => 0,
            };
            match word {
                None => None,
                Some(w) => if fpd {
                    Some(Err(error_at("illegal fp conversion", tv.line, tv.column)))
                } else if labels.contains_key(w) {
                    let n: u64 = if size == 0 { labels[w].0 } else { size };
                    if n > 8 {
                        None
                    } else {
                        Some(Ok((bytes_pieces(be64_tail(labels[w].1, n as nat)), n as nat)))
                    }
                } else {
                    Some(Err(error_about("cannot find label", SubjectV::Name(label_name(w, parent)), tv.line, tv.column)))
                },
            }
        },
        _ => if fpd {
            if vsize < 4 {
                Some(Err(error_at("float literals require at least dword size", tv.line, tv.column)))
            } else {
                match float_src(tok) {
                    None => None,
                    Some(f) => Some(Ok(if vsize == 4 { (seq![PieceV::F32(f)], 4nat) } else { (seq![PieceV::F64(f)], 8nat) })),
                }
            }
        } else {
            match tok {
                TokV::Float(_) => Some(Err(error_at("must mark instruction as 'fp' when using float literals", tv.line, tv.column))),
                TokV::UInt(v) => Some(Ok((bytes_pieces(be64_tail(v, spec_min_size(tok) as nat)), spec_min_size(tok) as nat))),
                TokV::SInt(v) => Some(Ok((bytes_pieces(be64_tail(v as u64, spec_min_size(tok) as nat)), spec_min_size(tok) as nat))),
                _ => None,
            }
        },
    }
}

/// the bytes of a memory or immediate operand, with their number: an absolute address in the
/// bytes it needs, the offset of a dereference, or an immediate; `None` where the token is not of
/// the operand's kind
pub open spec fn spec_valbytes(op: (O, TokenV), sized: bool, fpd: bool, vsize: u8, labels: Map<Seq<u8>, LabelInfo>, parent: Seq<u8>) -> Option<Result<(Seq<PieceV>, nat), ReportV>> {
    match op.0 {
        O::AMem => match op.1.tok {
            TokV::Addr(a) => {
                let ms = spec_min_size(op.1.tok);
                Some(Ok((bytes_pieces(be32(a).subrange(4 - ms, 4)), ms as nat)))
            },
            _ => None,
        },
        O::RMem => match rmem_offset(op.1.tok) {
            None => None,
            Some(b) => Some(Ok((bytes_pieces(b), b.len()))),
        },
        O::Imm => imm_val(op.1, sized, fpd, vsize, labels, parent),
        _ => None,
    }
}

/// an error of the machine code pass: its message and position
pub type EncErr = (&'static str, Subject, u32, u32);

pub open spec fn val_matches<'a>(e: Option<Result<(Vec<Piece<'a>>, usize), EncErr>>, s: Option<Result<(Seq<PieceV>, nat), ReportV>>) -> bool {
    match s {
        None => e is None,
        Some(Err(r)) => e matches Some(Err((msg, sj, l, c))) && error_about(msg, subject_view(sj), l, c) == r,
        Some(Ok((p, n))) => e matches Some(Ok((v, k))) && pieces_view(v@) == p && k as nat == n && n <= 8,
    }
}

fn imm_val_exec<'a>(t: &Token<'a>, sized: bool, fpd: bool, vsize: u8, labels: &NameMap<LabelInfo>, parent: &[u8]) -> (r: Option<Result<(Vec<Piece<'a>>, usize), EncErr>>)
    requires
        labels.wf(),
    ensures
        val_matches(r, imm_val(token_view(*t), sized, fpd, vsize, labels@, parent@)),
{
    let is_label = match &t.tok {
        Tok::Word(_) | Tok::Sized(_, _) => true,
        _ => false,
    };
    if is_label {
        let (word, size): (&'a [u8], u64) = match &t.tok {
            Tok::Word(w) => (*w, if sized { 4 } else { 0 }),
            Tok::Sized(s, inner) => match &**inner {
                Tok::Word(w) => (*w, *s),
                _ => {
                    return None;
                },
            },
            _ => {
                return None;
            },
        };
        if fpd {
            return Some(Err(("illegal fp conversion", Subject::Nothing, t.line, t.column)));
        }
        match labels.get(word) {
            Some(v) => {
                let n: u64 = if size == 0 { v.0 } else { size };
                if n > 8 {
                    return None;
                }
                let b = be64_tail_exec(v.1, n);
                let mut p: Vec<Piece<'a>> = Vec::new();
                assert(pieces_view(p@) =~= seq![]);
                push_bytes(&mut p, b.as_slice());
                assert(pieces_view(p@) =~= bytes_pieces(b@));
                Some(Ok((p, n as usize)))
            },
            None => {
                let lab = label_name_exec(word, parent);
                Some(Err(("cannot find label", Subject::Name(lab), t.line, t.column)))
            },
        }
    } else if fpd {
        if vsize < 4 {
            return Some(Err(("float literals require at least dword size", Subject::Nothing, t.line, t.column)));
        }
        let f: FloatSrc<'a> = match &t.tok {
            Tok::Float(x) => FloatSrc::Text(*x),
            Tok::UInt(v) => FloatSrc::UInt(*v),
            Tok::SInt(v) => FloatSrc::SInt(*v),
            _ => {
                return None;
            },
        };
        let mut p: Vec<Piece<'a>> = Vec::new();
        if vsize == 4 {
            p.push(Piece::F32(f));
            assert(pieces_view(p@) =~= seq![PieceV::F32(crate::emit::float_src_view(f))]);
            Some(Ok((p, 4)))
        } else {
            p.push(Piece::F64(f));
            assert(pieces_view(p@) =~= seq![PieceV::F64(crate::emit::float_src_view(f))]);
            Some(Ok((p, 8)))
        }
    } else {
        let v: u64 = match &t.tok {
            Tok::Float(_) => {
                return Some(Err(("must mark instruction as 'fp' when using float literals", Subject::Nothing, t.line, t.column)));
            },
            Tok::UInt(v) => *v,
            Tok::SInt(v) => *v as u64,
            _ => {
                return None;
            },
        };
        let n = min_size(&t.tok);
        let b = be64_tail_exec(v, n);
        let mut p: Vec<Piece<'a>> = Vec::new();
        assert(pieces_view(p@) =~= seq![]);
        push_bytes(&mut p, b.as_slice());
        assert(pieces_view(p@) =~= bytes_pieces(b@));
        Some(Ok((p, n as usize)))
    }
}

fn valbytes_exec<'a>(op: &(O, Token<'a>), sized: bool, fpd: bool, vsize: u8, labels: &NameMap<LabelInfo>, parent: &[u8]) -> (r: Option<Result<(Vec<Piece<'a>>, usize), EncErr>>)
    requires
        labels.wf(),
    ensures
        val_matches(r, spec_valbytes((op.0, token_view(op.1)), sized, fpd, vsize, labels@, parent@)),
{
    match op.0 {
        O::AMem => match &op.1.tok {
            Tok::Addr(a) => {
                let ms = min_size(&op.1.tok);
                proof { lemma_addr_size(*a); }
                let b = be32_exec(*a);
                let tb = tail_bytes(&b, ms as usize);
                let mut p: Vec<Piece<'a>> = Vec::new();
                assert(pieces_view(p@) =~= seq![]);
                push_bytes(&mut p, tb.as_slice());
                assert(pieces_view(p@) =~= bytes_pieces(be32(*a).subrange(4 - ms, 4)));
                Some(Ok((p, ms as usize)))
            },
            _ => None,
        },
        O::RMem => match rmem_offset_exec(&op.1.tok) {
            None => None,
            Some(b) => {
                let mut p: Vec<Piece<'a>> = Vec::new();
                assert(pieces_view(p@) =~= seq![]);
                push_bytes(&mut p, b.as_slice());
                assert(pieces_view(p@) =~= bytes_pieces(b@));
                let n = b.len();
                Some(Ok((p, n)))
            },
        },
        O::Imm => imm_val_exec(&op.1, sized, fpd, vsize, labels, parent),
        _ => None,
    }
}

/// what the prefixes of an instruction have set: a size, `call`, `fp`, extended registers, and
/// the size of a value in bytes (four unless a size prefix says otherwise)
pub struct PreSt {
    pub sized: bool,
    pub fpd: bool,
    pub call: bool,
    pub era: bool,
    pub vsize: u8,
}

pub open spec fn pre_init() -> PreSt {
    PreSt { sized: false, fpd: false, call: false, era: false, vsize: 4 }
}

/// the byte of a prefix, and what it sets; `Err` for a second size, `call` or `fp` prefix
pub open spec fn prefix_step(p: P, st: PreSt) -> Result<(u8, PreSt), &'static str> {
    match p {
        P::Byte | P::Word | P::DWord | P::QWord => if st.sized {
            Err("conflicting sizes")
        } else {
            match p {
                P::Byte => Ok((0x40u8, PreSt { sized: true, vsize: 1, ..st })),
                P::Word => Ok((0x41u8, PreSt { sized: true, vsize: 2, ..st })),
                P::DWord => Ok((0x42u8, PreSt { sized: true, vsize: 4, ..st })),
                _ => Ok((0x43u8, PreSt { sized: true, vsize: 8, ..st })),
            }
        },
        P::Call => if st.call { Err("duplicate call prefix") } else { Ok((0x45u8, PreSt { call: true, ..st })) },
        P::Fp => if st.fpd { Err("duplicate fp prefix") } else { Ok((0x51u8, PreSt { fpd: true, ..st })) },
        P::Sign => Ok((0x50u8, st)),
        P::Oprev => Ok((0x46u8, st)),
        P::Era => Ok((0x44u8, PreSt { era: true, ..st })),
    }
}

/// the bytes of the prefixes from the `k`-th on, and what they set; `Err` at the first prefix that
/// conflicts with an earlier one
pub open spec fn prefix_run(pres: Seq<P>, k: int, st: PreSt) -> Result<(Seq<u8>, PreSt), &'static str>
    decreases pres.len() - k,
{
    if k >= pres.len() || k < 0 {
        Ok((seq![], st))
    } else {
        match prefix_step(pres[k], st) {
            Err(e) => Err(e),
            Ok((b, st1)) => match prefix_run(pres, k + 1, st1) {
                Err(e) => Err(e),
                Ok((bs, st2)) => Ok((seq![b] + bs, st2)),
            },
        }
    }
}

/// the bytes of an instruction's base
pub open spec fn relto_bytes(r: RelTo) -> Seq<u8> {
    match r {
        RelTo::Absolute => seq![],
        RelTo::Data => seq![0x4bu8],
        RelTo::Invar => seq![0x4cu8],
        RelTo::Reg(reg) => seq![0x49u8, 0x40u8 | spec_register_value(reg)],
    }
}

/// a register number in the high half of a byte, with four more bits in the low half
pub open spec fn nib(hi: u8, lo: u8) -> u8 {
    (hi << 4u8) | lo
}

/// the byte that gives a value's size beside a register: its number of bytes halved where
/// extended registers are in use (with the register in a byte of its own), or else the log of
/// its number of bytes beside the register
pub open spec fn reg_and_size(era: bool, r: u8, size_byte: u8, log: u8) -> Seq<u8> {
    if era { seq![r, size_byte] } else { seq![nib(r, log)] }
}

/// the opcode of an arithmetic mnemonic with a register second operand; one more with a memory
/// operand, two more with an immediate
pub open spec fn alu_code(m: M) -> u8 {
    match m {
        M::ADD => 0,
        M::SUB => 3,
        M::MUL | M::IMUL => 6,
        M::DIV | M::IDIV => 12,
        _ => 0x1d,
    }
}

/// arithmetic: `add`, `sub`, `mul`, `imul`, `div`, `idiv`, `cmp`
pub open spec fn alu_enc(base: u8, ops: Seq<(O, TokenV)>, sized: Seq<bool>, ps: PreSt, labels: Map<Seq<u8>, LabelInfo>, parent: Seq<u8>) -> Option<Result<Seq<PieceV>, ReportV>> {
    if ops.len() < 2 {
        None
    } else {
        match ops[1].0 {
            O::Reg | O::XReg => match (reg_at(ops, 0), reg_at(ops, 1)) {
                (Some(a), Some(b)) => Some(Ok(bytes_pieces(seq![base] + (if ps.era { seq![a, b] } else { seq![nib(a, b)] })))),
                _ => None,
            },
            O::AMem => match ops[1].1.tok {
                TokV::Addr(addr) => match reg_at(ops, 0) {
                    None => None,
                    Some(a) => {
                        let ms = spec_min_size(TokV::Addr(addr)) as u8;
                        Some(Ok(bytes_pieces(seq![(base + 1) as u8] + reg_and_size(ps.era, a, ms >> 1u8, ms >> 1u8) + be32(addr).subrange(4 - ms, 4))))
                    },
                },
                _ => None,
            },
            O::RMem => match rmem_offset(ops[1].1.tok) {
                None => None,
                Some(off) => match reg_at(ops, 0) {
                    None => None,
                    Some(a) => {
                        let os = off.len() as u8;
                        Some(Ok(bytes_pieces(seq![(base + 1) as u8] + reg_and_size(ps.era, a, os >> 1u8, os >> 1u8) + off)))
                    },
                },
            },
            O::Imm => match imm_val(ops[1].1, sized_at(sized, 1), ps.fpd, ps.vsize, labels, parent) {
                None => None,
                Some(Err(r)) => Some(Err(r)),
                Some(Ok((vb, len))) => match reg_at(ops, 0) {
                    None => None,
                    Some(a) => Some(Ok(bytes_pieces(seq![(base + 2) as u8] + reg_and_size(ps.era, a, (len as u8) >> 1u8, u64_trailing_zeros(len as u64) as u8)) + vb)),
                },
            },
        }
    }
}

/// the opcode of a shift or an exchange
pub open spec fn shift_code(m: M) -> u8 {
    match m {
        M::SHL => 0x0f,
        M::SHR => 0x10,
        M::SAR => 0x11,
        _ => 0x20,
    }
}

/// shifts and exchange: `shl`, `shr`, `sar`, `xchg`, of two registers
pub open spec fn shift_enc(code: u8, ops: Seq<(O, TokenV)>) -> Option<Result<Seq<PieceV>, ReportV>> {
    if ops.len() < 2 {
        None
    } else {
        match (reg_at(ops, 0), reg_at(ops, 1)) {
            (Some(a), Some(b)) => Some(Ok(bytes_pieces(seq![code, nib(a, b)]))),
            _ => None,
        }
    }
}

/// the opcodes of a bitwise mnemonic: with a register, a memory operand, an immediate
pub open spec fn logic_codes(m: M) -> (u8, u8, u8) {
    match m {
        M::XOR => (0x12, 0x13, 0x14),
        M::OR => (0x15, 0x16, 0x17),
        _ => (0x18, 0x19, 0x1a),
    }
}

/// bitwise: `xor`, `or`, `and`
pub open spec fn logic_enc(m: M, ops: Seq<(O, TokenV)>, sized: Seq<bool>, ps: PreSt, labels: Map<Seq<u8>, LabelInfo>, parent: Seq<u8>) -> Option<Result<Seq<PieceV>, ReportV>> {
    if ops.len() < 2 {
        None
    } else {
        match reg_at(ops, 0) {
            None => None,
            Some(rx) => match ops[1].0 {
                O::Reg | O::XReg => match reg_at(ops, 1) {
                    None => None,
                    Some(b) => Some(Ok(bytes_pieces(seq![logic_codes(m).0, nib(rx, b)]))),
                },
                _ => match spec_valbytes(ops[1], sized_at(sized, 1), ps.fpd, ps.vsize, labels, parent) {
                    None => None,
                    Some(Err(r)) => Some(Err(r)),
                    Some(Ok((vb, len))) => {
                        let code = if ops[1].0 == O::Imm { logic_codes(m).2 } else { logic_codes(m).1 };
                        Some(Ok(bytes_pieces(seq![code, nib(rx, u64_trailing_zeros(len as u64) as u8)]) + vb))
                    },
                },
            },
        }
    }
}

/// moves: between registers, into a register from memory or an immediate, and from a register
/// into the memory that a register points to
pub open spec fn mov_enc(ops: Seq<(O, TokenV)>, sized: Seq<bool>, ps: PreSt, labels: Map<Seq<u8>, LabelInfo>, parent: Seq<u8>) -> Option<Result<Seq<PieceV>, ReportV>> {
    if ops.len() == 0 {
        None
    } else {
        match ops[0].0 {
            O::Reg | O::XReg => match reg_at(ops, 0) {
                None => None,
                Some(rx) => if ops.len() < 2 {
                    None
                } else {
                    match ops[1].0 {
                        O::Reg | O::XReg => match reg_at(ops, 1) {
                            None => None,
                            Some(ry) => Some(Ok(bytes_pieces(if ps.era { seq![rx, ry] } else { seq![nib(rx, ry)] }))),
                        },
                        _ => match spec_valbytes(ops[1], sized_at(sized, 1), ps.fpd, ps.vsize, labels, parent) {
                            None => None,
                            Some(Err(r)) => Some(Err(r)),
                            Some(Ok((vb, len))) => {
                                let code: u8 = if ops[1].0 == O::Imm { 0x2d } else { 0x2c };
                                Some(Ok(bytes_pieces(seq![code] + reg_and_size(ps.era, rx, len as u8, u64_trailing_zeros(len as u64) as u8)) + vb))
                            },
                        },
                    }
                },
            },
            O::RMem => match ops[0].1.tok {
                TokV::Deref(l) => if l.len() == 0 {
                    None
                } else {
                    match l[0].tok {
                        TokV::Reg(r) => match reg_at(ops, 1) {
                            None => None,
                            Some(rx) => {
                                let ry = spec_register_value(r);
                                Some(Ok(bytes_pieces(seq![0x2eu8] + (if ps.era { seq![rx, ry] } else { seq![nib(rx, ry)] }))))
                            },
                        },
                        _ => None,
                    }
                },
                _ => None,
            },
            _ => None,
        }
    }
}

/// the opcode of a jump or call
pub open spec fn jump_code(m: M) -> u16 {
    match m {
        M::JMP | M::CALL => 0x2200,
        M::JE | M::JZ => 0x2300,
        M::JNZ | M::JNE => 0x2400,
        M::JL => 0x2500,
        M::JB => 0x2501,
        M::JLE => 0x2600,
        M::JBE => 0x2601,
        M::JG => 0x2700,
        M::JA => 0x2701,
        M::JGE => 0x2800,
        _ => 0x2801,
    }
}

/// jumps and calls: to a register, or to an immediate target (an index entry, a label, or a
/// number)
pub open spec fn jump_enc(m: M, ops: Seq<(O, TokenV)>, call: bool, labels: Map<Seq<u8>, LabelInfo>, index: Map<Seq<u8>, usize>) -> Option<Result<Seq<PieceV>, ReportV>> {
    if ops.len() == 0 {
        None
    } else {
        let code = jump_code(m);
        match ops[0].0 {
            O::Reg | O::XReg => match reg_at(ops, 0) {
                None => None,
                Some(rx) => {
                    let o1 = code | ((rx as u16) << 4u16);
                    let o2 = if call { o1 | 2u16 } else { o1 };
                    Some(Ok(bytes_pieces(be16(o2))))
                },
            },
            O::Imm => {
                let o1 = code | 4u16;
                match ops[0].1.tok {
                    TokV::Word(sym) => if index.contains_key(sym) {
                        Some(Ok(bytes_pieces(be16(o1) + be16(index[sym] as u16))))
                    } else if labels.contains_key(sym) {
                        if call {
                            Some(Ok(bytes_pieces(be16(o1 | 2u16) + be32(labels[sym].1 as u32))))
                        } else {
                            Some(Ok(bytes_pieces(be16(o1) + be16(labels[sym].1 as u16))))
                        }
                    } else {
                        None
                    },
                    TokV::UInt(v) => Some(Ok(bytes_pieces(be16(o1 | 8u16) + be16(v as u16)))),
                    TokV::SInt(v) => Some(Ok(bytes_pieces(be16(o1 | 8u16) + be64(v as u64).subrange(6, 8)))),
                    _ => None,
                }
            },
            _ => None,
        }
    }
}

/// the machine code of an instruction after its prefixes and base: an error where an operand
/// cannot be encoded or the mnemonic has no encoding (unless in a dry run), `None` where an
/// operand is missing or is not of its kind
pub open spec fn body_enc(
    m: M,
    ops: Seq<(O, TokenV)>,
    sized: Seq<bool>,
    ps: PreSt,
    labels: Map<Seq<u8>, LabelInfo>,
    index: Map<Seq<u8>, usize>,
    dry: bool,
    t: TokenV,
    parent: Seq<u8>,
) -> Option<Result<Seq<PieceV>, ReportV>> {
    match m {
        M::ADD | M::SUB | M::MUL | M::DIV | M::IMUL | M::IDIV | M::CMP => alu_enc(alu_code(m), ops, sized, ps, labels, parent),
        M::SHL | M::SHR | M::SAR | M::XCHG => shift_enc(shift_code(m), ops),
        M::XOR | M::OR | M::AND => logic_enc(m, ops, sized, ps, labels, parent),
        M::NOT => match reg_at(ops, 0) {
            None => None,
            Some(rx) => Some(Ok(bytes_pieces(seq![0x12u8, nib(rx, 13)]))),
        },
        M::TEST => match reg_at(ops, 0) {
            None => None,
            Some(rx) => Some(Ok(bytes_pieces(seq![0x1du8] + (if ps.era { seq![rx, 15u8] } else { seq![nib(rx, 15)] })))),
        },
        M::PUSH | M::POP => match reg_at(ops, 0) {
            None => None,
            Some(rx) => Some(Ok(bytes_pieces(seq![if m == M::PUSH { 0x1bu8 } else { 0x1cu8 }, rx]))),
        },
        M::MOV => mov_enc(ops, sized, ps, labels, parent),
        M::RET => Some(Ok(bytes_pieces(seq![0x29u8]))),
        M::HLT => Some(Ok(bytes_pieces(seq![0x3fu8]))),
        M::SYSCALL => Some(Ok(bytes_pieces(seq![0x2au8]))),
        M::CMPXCHG => if dry {
            Some(Ok(seq![]))
        } else {
            Some(Err(error_at("unimplemented mnemonic 'CMPXCHG'", t.line, t.column)))
        },
        _ => jump_enc(m, ops, ps.call, labels, index),
    }
}

/// the machine code of an instruction, given the prefixes that the layout added and the operands
/// that it gave four bytes: the prefix bytes, the base, then the opcode and operands. An error
/// where prefixes conflict or the rest cannot be encoded; `None` where the instruction is
/// malformed
pub open spec fn spec_encode(
    m: M,
    pres: Seq<P>,
    ops: Seq<(O, TokenV)>,
    sized: Seq<bool>,
    relto: RelTo,
    labels: Map<Seq<u8>, LabelInfo>,
    index: Map<Seq<u8>, usize>,
    dry: bool,
    t: TokenV,
    parent: Seq<u8>,
) -> Option<Result<Seq<PieceV>, ReportV>> {
    match prefix_run(pres, 0, pre_init()) {
        Err(msg) => Some(Err(error_at(msg, t.line, t.column))),
        Ok((pb, ps)) => match body_enc(m, ops, sized, ps, labels, index, dry, t, parent) {
            None => None,
            Some(Err(r)) => Some(Err(r)),
            Some(Ok(b)) => Some(Ok(bytes_pieces(pb + relto_bytes(relto)) + b)),
        },
    }
}

pub open spec fn enc_matches<'a>(e: Option<Result<Vec<Piece<'a>>, EncErr>>, s: Option<Result<Seq<PieceV>, ReportV>>) -> bool {
    match s {
        None => e is None,
        Some(Err(r)) => e matches Some(Err((msg, sj, l, c))) && error_about(msg, subject_view(sj), l, c) == r,
        Some(Ok(p)) => e matches Some(Ok(v)) && pieces_view(v@) == p,
    }
}

fn prefix_step_exec(p: P, st: &PreSt) -> (r: Result<(u8, PreSt), &'static str>)
    ensures
        r == prefix_step(p, *st),
{
    match p {
        P::Byte | P::Word | P::DWord | P::QWord => {
            if st.sized {
                return Err("conflicting sizes");
            }
            match p {
                P::Byte => Ok((0x40u8, PreSt { sized: true, vsize: 1, fpd: st.fpd, call: st.call, era: st.era })),
                P::Word => Ok((0x41u8, PreSt { sized: true, vsize: 2, fpd: st.fpd, call: st.call, era: st.era })),
                P::DWord => Ok((0x42u8, PreSt { sized: true, vsize: 4, fpd: st.fpd, call: st.call, era: st.era })),
                _ => Ok((0x43u8, PreSt { sized: true, vsize: 8, fpd: st.fpd, call: st.call, era: st.era })),
            }
        },
        P::Call => if st.call {
            Err("duplicate call prefix")
        } else {
            Ok((0x45u8, PreSt { call: true, sized: st.sized, fpd: st.fpd, era: st.era, vsize: st.vsize }))
        },
        P::Fp => if st.fpd {
            Err("duplicate fp prefix")
        } else {
            Ok((0x51u8, PreSt { fpd: true, sized: st.sized, call: st.call, era: st.era, vsize: st.vsize }))
        },
        P::Sign => Ok((0x50u8, PreSt { sized: st.sized, fpd: st.fpd, call: st.call, era: st.era, vsize: st.vsize })),
        P::Oprev => Ok((0x46u8, PreSt { sized: st.sized, fpd: st.fpd, call: st.call, era: st.era, vsize: st.vsize })),
        P::Era => Ok((0x44u8, PreSt { era: true, sized: st.sized, fpd: st.fpd, call: st.call, vsize: st.vsize })),
    }
}

/// the bytes of the given prefixes followed by the added ones, and what they set
fn prefix_run_exec(pres: &Vec<P>, extra: &Vec<P>) -> (r: Result<(Vec<u8>, PreSt), &'static str>)
    ensures
        match prefix_run(pres@ + extra@, 0, pre_init()) {
            Err(e) => r matches Err(e2) && e2 == e,
            Ok((b, st)) => r matches Ok((v, st2)) && v@ == b && st2 == st,
        },
{
    let mut all: Vec<P> = Vec::new();
    let mut i: usize = 0;
    while i < pres.len()
        invariant
            i <= pres@.len(),
            all@ == pres@.subrange(0, i as int),
        decreases pres@.len() - i,
    {
        all.push(pres[i]);
        i += 1;
    }
    let mut i: usize = 0;
    while i < extra.len()
        invariant
            i <= extra@.len(),
            all@ == pres@ + extra@.subrange(0, i as int),
        decreases extra@.len() - i,
    {
        all.push(extra[i]);
        i += 1;
    }
    assert(all@ =~= pres@ + extra@);
    let ghost s = all@;
    let mut bytes: Vec<u8> = Vec::new();
    let mut st = PreSt { sized: false, fpd: false, call: false, era: false, vsize: 4 };
    let mut k: usize = 0;
    while k < all.len()
        invariant
            s == all@,
            s == pres@ + extra@,
            k <= s.len(),
            match prefix_run(s, k as int, st) {
                Err(e) => prefix_run(s, 0, pre_init()) == Err::<(Seq<u8>, PreSt), &'static str>(e),
                Ok((bs, st2)) => prefix_run(s, 0, pre_init()) == Ok::<(Seq<u8>, PreSt), &'static str>((bytes@ + bs, st2)),
            },
        decreases s.len() - k,
    {
        match prefix_step_exec(all[k], &st) {
            Err(e) => {
                assert(prefix_run(s, k as int, st) == Err::<(Seq<u8>, PreSt), &'static str>(e));
                return Err(e);
            },
            Ok((b, st1)) => {
                proof {
                    match prefix_run(s, k as int + 1, st1) {
                        Err(_) => {},
                        Ok((bs, _)) => {
                            assert(bytes@.push(b) + bs =~= bytes@ + (seq![b] + bs));
                        },
                    }
                }
                bytes.push(b);
                st = st1;
            },
        }
        k += 1;
    }
    assert(bytes@ + Seq::<u8>::empty() =~= bytes@);
    Ok((bytes, st))
}

fn relto_bytes_exec(r: RelTo) -> (v: Vec<u8>)
    ensures
        v@ == relto_bytes(r),
{
    let mut v: Vec<u8> = Vec::new();
    match r {
        RelTo::Absolute => {},
        RelTo::Data => {
            v.push(0x4b);
        },
        RelTo::Invar => {
            v.push(0x4c);
        },
        RelTo::Reg(reg) => {
            v.push(0x49);
            v.push(0x40u8 | reg.value());
        },
    }
    assert(v@ =~= relto_bytes(r));
    v
}

fn nib_exec(hi: u8, lo: u8) -> (r: u8)
    ensures
        r == nib(hi, lo),
{
    (hi << 4u8) | lo
}

fn push_reg_and_size(v: &mut Vec<u8>, era: bool, r: u8, size_byte: u8, log: u8)
    ensures
        final(v)@ == old(v)@ + reg_and_size(era, r, size_byte, log),
{
    let ghost start = v@;
    if era {
        v.push(r);
        v.push(size_byte);
    } else {
        v.push(nib_exec(r, log));
    }
    assert(v@ =~= start + reg_and_size(era, r, size_byte, log));
}

fn to_pieces<'a>(b: &Vec<u8>) -> (r: Vec<Piece<'a>>)
    ensures
        pieces_view(r@) == bytes_pieces(b@),
{
    let mut p: Vec<Piece<'a>> = Vec::new();
    assert(pieces_view(p@) =~= seq![]);
    push_bytes(&mut p, b.as_slice());
    assert(pieces_view(p@) =~= bytes_pieces(b@));
    p
}

fn append_pieces<'a>(a: &mut Vec<Piece<'a>>, b: Vec<Piece<'a>>)
    ensures
        pieces_view(final(a)@) == pieces_view(old(a)@) + pieces_view(b@),
{
    let mut b = b;
    let ghost a0 = a@;
    let ghost b0 = b@;
    a.append(&mut b);
    assert(pieces_view(a@) =~= pieces_view(a0) + pieces_view(b0));
}

fn trailing_log(len: usize) -> (r: u8)
    requires
        len <= 8,
    ensures
        r == u64_trailing_zeros(len as u64) as u8,
{
    (len as u64).trailing_zeros() as u8
}

fn alu_exec<'a>(base: u8, ops: &Vec<(O, Token<'a>)>, sized: &Vec<bool>, ps: &PreSt, labels: &NameMap<LabelInfo>, parent: &[u8]) -> (r: Option<Result<Vec<Piece<'a>>, EncErr>>)
    requires
        labels.wf(),
        base <= 0x1d,
    ensures
        enc_matches(r, alu_enc(base, operands_view(ops@), sized@, *ps, labels@, parent@)),
{
    proof { lemma_operands_view_index(ops@); }
    let ghost ov = operands_view(ops@);
    if ops.len() < 2 {
        return None;
    }
    match ops[1].0 {
        O::Reg | O::XReg => {
            let ra = reg_at_exec(ops, 0);
            let rb = reg_at_exec(ops, 1);
            match (ra, rb) {
                (Some(a), Some(b)) => {
                    let mut v: Vec<u8> = Vec::new();
                    v.push(base);
                    if ps.era {
                        v.push(a);
                        v.push(b);
                    } else {
                        v.push(nib_exec(a, b));
                    }
                    assert(v@ =~= seq![base] + (if ps.era { seq![a, b] } else { seq![nib(a, b)] }));
                    Some(Ok(to_pieces(&v)))
                },
                _ => None,
            }
        },
        O::AMem => match &ops[1].1.tok {
            Tok::Addr(addr) => match reg_at_exec(ops, 0) {
                None => None,
                Some(a) => {
                    let ms = min_size(&ops[1].1.tok);
                    proof { lemma_addr_size(*addr); }
                    let ms8 = ms as u8;
                    let mut v: Vec<u8> = Vec::new();
                    v.push(base + 1);
                    push_reg_and_size(&mut v, ps.era, a, ms8 >> 1u8, ms8 >> 1u8);
                    let b = be32_exec(*addr);
                    let tb = tail_bytes(&b, ms as usize);
                    extend_bytes(&mut v, tb.as_slice());
                    Some(Ok(to_pieces(&v)))
                },
            },
            _ => None,
        },
        O::RMem => match rmem_offset_exec(&ops[1].1.tok) {
            None => None,
            Some(off) => match reg_at_exec(ops, 0) {
                None => None,
                Some(a) => {
                    let os = off.len() as u8;
                    let mut v: Vec<u8> = Vec::new();
                    v.push(base + 1);
                    push_reg_and_size(&mut v, ps.era, a, os >> 1u8, os >> 1u8);
                    extend_bytes(&mut v, off.as_slice());
                    Some(Ok(to_pieces(&v)))
                },
            },
        },
        O::Imm => {
            let sz = sized.len() > 1 && sized[1];
            match imm_val_exec(&ops[1].1, sz, ps.fpd, ps.vsize, labels, parent) {
                None => None,
                Some(Err(e)) => Some(Err(e)),
                Some(Ok((vb, len))) => match reg_at_exec(ops, 0) {
                    None => None,
                    Some(a) => {
                        let mut v: Vec<u8> = Vec::new();
                        v.push(base + 2);
                        let lg = trailing_log(len);
                        push_reg_and_size(&mut v, ps.era, a, (len as u8) >> 1u8, lg);
                        let mut p = to_pieces(&v);
                        append_pieces(&mut p, vb);
                        Some(Ok(p))
                    },
                },
            }
        },
    }
}

fn shift_exec<'a>(code: u8, ops: &Vec<(O, Token<'a>)>) -> (r: Option<Result<Vec<Piece<'a>>, EncErr>>)
    ensures
        enc_matches(r, shift_enc(code, operands_view(ops@))),
{
    proof { lemma_operands_view_index(ops@); }
    if ops.len() < 2 {
        return None;
    }
    match (reg_at_exec(ops, 0), reg_at_exec(ops, 1)) {
        (Some(a), Some(b)) => {
            let mut v: Vec<u8> = Vec::new();
            v.push(code);
            v.push(nib_exec(a, b));
            assert(v@ =~= seq![code, nib(a, b)]);
            Some(Ok(to_pieces(&v)))
        },
        _ => None,
    }
}

fn logic_exec<'a>(m: M, ops: &Vec<(O, Token<'a>)>, sized: &Vec<bool>, ps: &PreSt, labels: &NameMap<LabelInfo>, parent: &[u8]) -> (r: Option<Result<Vec<Piece<'a>>, EncErr>>)
    requires
        labels.wf(),
    ensures
        enc_matches(r, logic_enc(m, operands_view(ops@), sized@, *ps, labels@, parent@)),
{
    proof { lemma_operands_view_index(ops@); }
    if ops.len() < 2 {
        return None;
    }
    let (cr, cm, ci): (u8, u8, u8) = match m {
        M::XOR => (0x12, 0x13, 0x14),
        M::OR => (0x15, 0x16, 0x17),
        _ => (0x18, 0x19, 0x1a),
    };
    match reg_at_exec(ops, 0) {
        None => None,
        Some(rx) => match ops[1].0 {
            O::Reg | O::XReg => match reg_at_exec(ops, 1) {
                None => None,
                Some(b) => {
                    let mut v: Vec<u8> = Vec::new();
                    v.push(cr);
                    v.push(nib_exec(rx, b));
                    assert(v@ =~= seq![cr, nib(rx, b)]);
                    Some(Ok(to_pieces(&v)))
                },
            },
            _ => {
                let sz = sized.len() > 1 && sized[1];
                match valbytes_exec(&ops[1], sz, ps.fpd, ps.vsize, labels, parent) {
                    None => None,
                    Some(Err(e)) => Some(Err(e)),
                    Some(Ok((vb, len))) => {
                        let code = if let O::Imm = ops[1].0 { ci } else { cm };
                        let mut v: Vec<u8> = Vec::new();
                        v.push(code);
                        let lg = trailing_log(len);
                        v.push(nib_exec(rx, lg));
                        assert(v@ =~= seq![code, nib(rx, lg)]);
                        let mut p = to_pieces(&v);
                        append_pieces(&mut p, vb);
                        Some(Ok(p))
                    },
                }
            },
        },
    }
}

fn mov_exec<'a>(ops: &Vec<(O, Token<'a>)>, sized: &Vec<bool>, ps: &PreSt, labels: &NameMap<LabelInfo>, parent: &[u8]) -> (r: Option<Result<Vec<Piece<'a>>, EncErr>>)
    requires
        labels.wf(),
    ensures
        enc_matches(r, mov_enc(operands_view(ops@), sized@, *ps, labels@, parent@)),
{
    proof { lemma_operands_view_index(ops@); }
    if ops.len() == 0 {
        return None;
    }
    match ops[0].0 {
        O::Reg | O::XReg => match reg_at_exec(ops, 0) {
            None => None,
            Some(rx) => {
                if ops.len() < 2 {
                    return None;
                }
                match ops[1].0 {
                    O::Reg | O::XReg => match reg_at_exec(ops, 1) {
                        None => None,
                        Some(ry) => {
                            let mut v: Vec<u8> = Vec::new();
                            if ps.era {
                                v.push(rx);
                                v.push(ry);
                            } else {
                                v.push(nib_exec(rx, ry));
                            }
                            assert(v@ =~= (if ps.era { seq![rx, ry] } else { seq![nib(rx, ry)] }));
                            Some(Ok(to_pieces(&v)))
                        },
                    },
                    _ => {
                        let sz = sized.len() > 1 && sized[1];
                        match valbytes_exec(&ops[1], sz, ps.fpd, ps.vsize, labels, parent) {
                            None => None,
                            Some(Err(e)) => Some(Err(e)),
                            Some(Ok((vb, len))) => {
                                let code: u8 = if let O::Imm = ops[1].0 { 0x2d } else { 0x2c };
                                let mut v: Vec<u8> = Vec::new();
                                v.push(code);
                                let lg = trailing_log(len);
                                push_reg_and_size(&mut v, ps.era, rx, len as u8, lg);
                                let mut p = to_pieces(&v);
                                append_pieces(&mut p, vb);
                                Some(Ok(p))
                            },
                        }
                    },
                }
            },
        },
        O::RMem => match &ops[0].1.tok {
            Tok::Deref(l) => {
                proof { lemma_tokens_view_index(l@); }
                if l.len() == 0 {
                    return None;
                }
                match &l[0].tok {
                    Tok::Reg(r) => match reg_at_exec(ops, 1) {
                        None => None,
                        Some(rx) => {
                            let ry = r.value();
                            let mut v: Vec<u8> = Vec::new();
                            v.push(0x2e);
                            if ps.era {
                                v.push(rx);
                                v.push(ry);
                            } else {
                                v.push(nib_exec(rx, ry));
                            }
                            assert(v@ =~= seq![0x2eu8] + (if ps.era { seq![rx, ry] } else { seq![nib(rx, ry)] }));
                            Some(Ok(to_pieces(&v)))
                        },
                    },
                    _ => None,
                }
            },
            _ => None,
        },
        _ => None,
    }
}

fn jump_exec<'a>(m: M, ops: &Vec<(O, Token<'a>)>, call: bool, labels: &NameMap<LabelInfo>, index: &NameMap<usize>) -> (r: Option<Result<Vec<Piece<'a>>, EncErr>>)
    requires
        labels.wf(),
        index.wf(),
    ensures
        enc_matches(r, jump_enc(m, operands_view(ops@), call, labels@, index@)),
{
    proof { lemma_operands_view_index(ops@); }
    if ops.len() == 0 {
        return None;
    }
    let code: u16 = match m {
        M::JMP | M::CALL => 0x2200,
        M::JE | M::JZ => 0x2300,
        M::JNZ | M::JNE => 0x2400,
        M::JL => 0x2500,
        M::JB => 0x2501,
        M::JLE => 0x2600,
        M::JBE => 0x2601,
        M::JG => 0x2700,
        M::JA => 0x2701,
        M::JGE => 0x2800,
        _ => 0x2801,
    };
    match ops[0].0 {
        O::Reg | O::XReg => match reg_at_exec(ops, 0) {
            None => None,
            Some(rx) => {
                let o1: u16 = code | ((rx as u16) << 4u16);
                let o2: u16 = if call { o1 | 2u16 } else { o1 };
                let v = be16_exec(o2);
                Some(Ok(to_pieces(&v)))
            },
        },
        O::Imm => {
            let o1: u16 = code | 4u16;
            let mut v: Vec<u8>;
            match &ops[0].1.tok {
                Tok::Word(sym) => {
                    match index.get(*sym) {
                        Some(iv) => {
                            v = be16_exec(o1);
                            let b = be16_exec(iv as u16);
                            extend_bytes(&mut v, b.as_slice());
                        },
                        None => match labels.get(*sym) {
                            Some(lv) => {
                                if call {
                                    v = be16_exec(o1 | 2u16);
                                    let b = be32_exec(lv.1 as u32);
                                    extend_bytes(&mut v, b.as_slice());
                                } else {
                                    v = be16_exec(o1);
                                    let b = be16_exec(lv.1 as u16);
                                    extend_bytes(&mut v, b.as_slice());
                                }
                            },
                            None => {
                                return None;
                            },
                        },
                    }
                },
                Tok::UInt(n) => {
                    v = be16_exec(o1 | 8u16);
                    let b = be16_exec(*n as u16);
                    extend_bytes(&mut v, b.as_slice());
                },
                Tok::SInt(n) => {
                    v = be16_exec(o1 | 8u16);
                    let b = be64_exec(*n as u64);
                    let tb = tail_bytes(&b, 2);
                    extend_bytes(&mut v, tb.as_slice());
                },
                _ => {
                    return None;
                },
            }
            Some(Ok(to_pieces(&v)))
        },
        _ => None,
    }
}

fn single_bytes<'a>(b: Vec<u8>) -> (r: Option<Result<Vec<Piece<'a>>, EncErr>>)
    ensures
        r matches Some(Ok(p)) && pieces_view(p@) == bytes_pieces(b@),
{
    Some(Ok(to_pieces(&b)))
}

fn body_exec<'a>(
    m: M,
    ops: &Vec<(O, Token<'a>)>,
    sized: &Vec<bool>,
    ps: &PreSt,
    labels: &NameMap<LabelInfo>,
    index: &NameMap<usize>,
    dry: bool,
    t: &Token<'a>,
    parent: &[u8],
) -> (r: Option<Result<Vec<Piece<'a>>, EncErr>>)
    requires
        labels.wf(),
        index.wf(),
    ensures
        enc_matches(r, body_enc(m, operands_view(ops@), sized@, *ps, labels@, index@, dry, token_view(*t), parent@)),
{
    match m {
        M::ADD | M::SUB | M::MUL | M::DIV | M::IMUL | M::IDIV | M::CMP => {
            let base: u8 = match m {
                M::ADD => 0,
                M::SUB => 3,
                M::MUL | M::IMUL => 6,
                M::DIV | M::IDIV => 12,
                _ => 0x1d,
            };
            alu_exec(base, ops, sized, ps, labels, parent)
        },
        M::SHL | M::SHR | M::SAR | M::XCHG => {
            let code: u8 = match m {
                M::SHL => 0x0f,
                M::SHR => 0x10,
                M::SAR => 0x11,
                _ => 0x20,
            };
            shift_exec(code, ops)
        },
        M::XOR | M::OR | M::AND => logic_exec(m, ops, sized, ps, labels, parent),
        M::NOT => match reg_at_exec(ops, 0) {
            None => None,
            Some(rx) => {
                let mut v: Vec<u8> = Vec::new();
                v.push(0x12);
                v.push(nib_exec(rx, 13));
                assert(v@ =~= seq![0x12u8, nib(rx, 13)]);
                single_bytes(v)
            },
        },
        M::TEST => match reg_at_exec(ops, 0) {
            None => None,
            Some(rx) => {
                let mut v: Vec<u8> = Vec::new();
                v.push(0x1d);
                if ps.era {
                    v.push(rx);
                    v.push(15);
                } else {
                    v.push(nib_exec(rx, 15));
                }
                assert(v@ =~= seq![0x1du8] + (if ps.era { seq![rx, 15u8] } else { seq![nib(rx, 15)] }));
                single_bytes(v)
            },
        },
        M::PUSH | M::POP => match reg_at_exec(ops, 0) {
            None => None,
            Some(rx) => {
                let mut v: Vec<u8> = Vec::new();
                v.push(if let M::PUSH = m { 0x1b } else { 0x1c });
                v.push(rx);
                assert(v@ =~= seq![if m == M::PUSH { 0x1bu8 } else { 0x1cu8 }, rx]);
                single_bytes(v)
            },
        },
        M::MOV => mov_exec(ops, sized, ps, labels, parent),
        M::RET | M::HLT | M::SYSCALL => {
            let mut v: Vec<u8> = Vec::new();
            v.push(match m {
                M::RET => 0x29,
                M::HLT => 0x3f,
                _ => 0x2a,
            });
            assert(v@ =~= seq![v@[0]]);
            single_bytes(v)
        },
        M::CMPXCHG => if dry {
            let v: Vec<u8> = Vec::new();
            assert(bytes_pieces(v@) =~= seq![]);
            single_bytes(v)
        } else {
            Some(Err(("unimplemented mnemonic 'CMPXCHG'", Subject::Nothing, t.line, t.column)))
        },
        _ => jump_exec(m, ops, ps.call, labels, index),
    }
}

/// the machine code of an instruction, in exec form
pub(crate) fn encode_exec<'a>(
    m: M,
    pres: &Vec<P>,
    lay: &InstrLayout,
    ops: &Vec<(O, Token<'a>)>,
    relto: RelTo,
    labels: &NameMap<LabelInfo>,
    index: &NameMap<usize>,
    dry: bool,
    t: &Token<'a>,
    parent: &[u8],
) -> (r: Option<Result<Vec<Piece<'a>>, EncErr>>)
    requires
        labels.wf(),
        index.wf(),
    ensures
        enc_matches(r, spec_encode(m, pres@ + lay.extra@, operands_view(ops@), lay.sized@, relto, labels@, index@, dry, token_view(*t), parent@)),
{
    match prefix_run_exec(pres, &lay.extra) {
        Err(e) => Some(Err((e, Subject::Nothing, t.line, t.column))),
        Ok((pb, ps)) => match body_exec(m, ops, &lay.sized, &ps, labels, index, dry, t, parent) {
            None => None,
            Some(Err(e)) => Some(Err(e)),
            Some(Ok(b)) => {
                let mut head = pb;
                let rb = relto_bytes_exec(relto);
                extend_bytes(&mut head, rb.as_slice());
                let mut p = to_pieces(&head);
                append_pieces(&mut p, b);
                Some(Ok(p))
            },
        },
    }
}

/// what the machine code pass reports are errors
pub proof fn lemma_encode_errors(
    m: M,
    pres: Seq<P>,
    ops: Seq<(O, TokenV)>,
    sized: Seq<bool>,
    relto: RelTo,
    labels: Map<Seq<u8>, LabelInfo>,
    index: Map<Seq<u8>, usize>,
    dry: bool,
    t: TokenV,
    parent: Seq<u8>,
)
    ensures
        spec_encode(m, pres, ops, sized, relto, labels, index, dry, t, parent) matches Some(Err(r)) ==> !r.warning,
{
}

/// the byte that a prefix is written as
pub open spec fn prefix_byte(p: P) -> u8 {
    match p {
        P::Byte => 0x40,
        P::Word => 0x41,
        P::DWord => 0x42,
        P::QWord => 0x43,
        P::Era => 0x44,
        P::Call => 0x45,
        P::Oprev => 0x46,
        P::Sign => 0x50,
        P::Fp => 0x51,
    }
}

proof fn lemma_prefix_run_bytes(pres: Seq<P>, k: int, st: PreSt)
    requires
        0 <= k <= pres.len(),
    ensures
        prefix_run(pres, k, st) matches Ok((b, _)) ==> b == pres.subrange(k, pres.len() as int).map_values(|p: P| prefix_byte(p)),
    decreases pres.len() - k,
{
    if k < pres.len() {
        match prefix_step(pres[k], st) {
            Ok((b, st1)) => {
                lemma_prefix_run_bytes(pres, k + 1, st1);
                match prefix_run(pres, k + 1, st1) {
                    Ok((bs, _)) => {
                        assert(pres.subrange(k, pres.len() as int).map_values(|p: P| prefix_byte(p)) =~=
                            seq![prefix_byte(pres[k])] + pres.subrange(k + 1, pres.len() as int).map_values(|p: P| prefix_byte(p)));
                    },
                    Err(_) => {},
                }
            },
            Err(_) => {},
        }
    } else {
        assert(pres.subrange(k, pres.len() as int).map_values(|p: P| prefix_byte(p)) =~= Seq::<u8>::empty());
    }
}

/// Law: the machine code of an instruction starts with one byte for each of its prefixes (those
/// given and those that the layout added), in their order, then the bytes of its base.
pub proof fn law_encode_starts_with_prefixes(
    m: M,
    pres: Seq<P>,
    ops: Seq<(O, TokenV)>,
    sized: Seq<bool>,
    relto: RelTo,
    labels: Map<Seq<u8>, LabelInfo>,
    index: Map<Seq<u8>, usize>,
    dry: bool,
    t: TokenV,
    parent: Seq<u8>,
)
    ensures
        spec_encode(m, pres, ops, sized, relto, labels, index, dry, t, parent) matches Some(Ok(b)) ==>
            b.subrange(0, (pres.len() + relto_bytes(relto).len()) as int) == bytes_pieces(pres.map_values(|p: P| prefix_byte(p)) + relto_bytes(relto)),
{
    lemma_prefix_run_bytes(pres, 0, pre_init());
    assert(pres.subrange(0, pres.len() as int) =~= pres);
    match spec_encode(m, pres, ops, sized, relto, labels, index, dry, t, parent) {
        Some(Ok(b)) => {
            let (pb, ps) = prefix_run(pres, 0, pre_init()).unwrap();
            let head = bytes_pieces(pb + relto_bytes(relto));
            match body_enc(m, ops, sized, ps, labels, index, dry, t, parent) {
                Some(Ok(body)) => assert(b == head + body),
                _ => {},
            }
            assert(b.subrange(0, head.len() as int) =~= head);
        },
        _ => {},
    }
}

/// the bits that a jump sets in the low byte of its opcode leave the high byte alone
proof fn lemma_jump_opcode_bits(c: u16, r: u16)
    requires
        r < 16,
    ensures
        ((c | 4u16) / 256) as u8 == (c / 256) as u8,
        (((c | 4u16) | 8u16) / 256) as u8 == (c / 256) as u8,
        ((c | (r << 4u16)) / 256) as u8 == (c / 256) as u8,
        (((c | 4u16) % 256) as u8) & 1u8 == ((c % 256) as u8) & 1u8,
        ((((c | 4u16) | 8u16) % 256) as u8) & 1u8 == ((c % 256) as u8) & 1u8,
        (((c | 4u16) % 256) as u8) & 4u8 == 4u8,
        ((((c | 4u16) | 8u16) % 256) as u8) & 4u8 == 4u8,
{
    assert(((c | 4u16) / 256) as u8 == (c / 256) as u8) by (bit_vector);
    assert((((c | 4u16) | 8u16) / 256) as u8 == (c / 256) as u8) by (bit_vector);
    assert(r < 16 ==> ((c | (r << 4u16)) / 256) as u8 == (c / 256) as u8) by (bit_vector);
    assert((((c | 4u16) % 256) as u8) & 1u8 == ((c % 256) as u8) & 1u8) by (bit_vector);
    assert(((((c | 4u16) | 8u16) % 256) as u8) & 1u8 == ((c % 256) as u8) & 1u8) by (bit_vector);
    assert((((c | 4u16) % 256) as u8) & 4u8 == 4u8) by (bit_vector);
    assert(((((c | 4u16) | 8u16) % 256) as u8) & 4u8 == 4u8) by (bit_vector);
}

/// the opcode byte of each jump and call, as the instruction set gives it
pub open spec fn jump_opcode_table(m: M) -> u8 {
    if m == M::JMP || m == M::CALL {
        0x22
    } else if m == M::JE || m == M::JZ {
        0x23
    } else if m == M::JNE || m == M::JNZ {
        0x24
    } else if m == M::JL || m == M::JB {
        0x25
    } else if m == M::JLE || m == M::JBE {
        0x26
    } else if m == M::JG || m == M::JA {
        0x27
    } else {
        0x28
    }
}

/// the conditions that compare without sign
pub open spec fn jump_unsigned(m: M) -> bool {
    m == M::JB || m == M::JBE || m == M::JA || m == M::JAE
}

/// Law: a jump or call without prefixes is encoded opcode first: 0x22 for `jmp` and `call`, 0x23
/// for `je`/`jz`, 0x24 for `jne`/`jnz`, 0x25 for `jl`/`jb`, 0x26 for `jle`/`jbe`, 0x27 for
/// `jg`/`ja`, 0x28 for `jge`/`jae`. For an immediate target, the low bit of the second byte marks
/// the unsigned conditions (`jb`, `jbe`, `ja`, `jae`) and bit 2 is set. The first byte is the
/// opcode also for a target in one of the sixteen general registers.
pub proof fn law_jump_opcodes(
    m: M,
    ops: Seq<(O, TokenV)>,
    sized: Seq<bool>,
    labels: Map<Seq<u8>, LabelInfo>,
    index: Map<Seq<u8>, usize>,
    dry: bool,
    t: TokenV,
    parent: Seq<u8>,
)
    requires
        m.spec_is_jmp(),
    ensures
        spec_encode(m, seq![], ops, sized, RelTo::Absolute, labels, index, dry, t, parent) matches Some(Ok(b)) ==> b.len() >= 2,
        spec_encode(m, seq![], ops, sized, RelTo::Absolute, labels, index, dry, t, parent) matches Some(Ok(b)) ==>
            (ops[0].0 == O::Imm ==> {
                &&& b[0] == PieceV::Byte(jump_opcode_table(m))
                &&& b[1] matches PieceV::Byte(x)
                &&& x & 1u8 == (if jump_unsigned(m) { 1u8 } else { 0u8 })
                &&& x & 4u8 == 4u8
            }),
        spec_encode(m, seq![], ops, sized, RelTo::Absolute, labels, index, dry, t, parent) matches Some(Ok(b)) ==>
            ((ops[0].0 == O::Reg || ops[0].0 == O::XReg) ==> (reg_at(ops, 0) matches Some(v) ==> (v < 16 ==> b[0] == PieceV::Byte(jump_opcode_table(m))))),
{
    let code = jump_code(m);
    assert((code / 256) as u8 == jump_opcode_table(m));
    assert(((code % 256) as u8) & 1u8 == (if jump_unsigned(m) { 1u8 } else { 0u8 })) by {
        assert((0u8 & 1u8) == 0u8 && (1u8 & 1u8) == 1u8) by (bit_vector);
    }
    assert(prefix_run(seq![], 0, pre_init()) == Ok::<(Seq<u8>, PreSt), &'static str>((seq![], pre_init())));
    assert(bytes_pieces(Seq::<u8>::empty() + relto_bytes(RelTo::Absolute)) =~= seq![]);
    let rv: u16 = match reg_at(ops, 0) {
        Some(v) => if v < 16 { v as u16 } else { 0 },
        None => 0,
    };
    lemma_jump_opcode_bits(code, rv);
    match spec_encode(m, seq![], ops, sized, RelTo::Absolute, labels, index, dry, t, parent) {
        Some(Ok(b)) => {
            match jump_enc(m, ops, false, labels, index) {
                Some(Ok(body)) => {
                    assert(b =~= body);
                    match ops[0].0 {
                        O::Reg | O::XReg => {},
                        O::Imm => {},
                        _ => {},
                    }
                },
                _ => {},
            }
        },
        _ => {},
    }
}

/// the low byte of a jump's opcode with the flags that its target sets
proof fn lemma_jump_low_byte(c: u16, r: u16)
    requires
        c % 256 <= 1,
        r < 16,
    ensures
        (((c | 4u16) % 256) as u8) as int == 4 + c % 256,
        ((((c | 4u16) | 8u16) % 256) as u8) as int == 12 + c % 256,
        (((c | (r << 4u16)) % 256) as u8) as int == 16 * r + c % 256,
{
    assert(c % 256 <= 1 ==> (((c | 4u16) % 256) as u8) as int == 4 + c % 256) by (bit_vector);
    assert(c % 256 <= 1 ==> ((((c | 4u16) | 8u16) % 256) as u8) as int == 12 + c % 256) by (bit_vector);
    assert(c % 256 <= 1 && r < 16 ==> (((c | (r << 4u16)) % 256) as u8) as int == 16 * r + c % 256) by (bit_vector);
}

/// the second byte of a jump: the flags of its target, plus one for the conditions that compare
/// without sign
pub open spec fn jump_second_byte(m: M, flags: int) -> u8 {
    (flags + if jump_unsigned(m) { 1int } else { 0int }) as u8
}

/// Law: the complete machine code of a jump or call without prefixes. The opcode byte comes
/// first (see `law_jump_opcodes`); then, for a target in an index entry or a label, the byte 4
/// and the entry's number or the label's offset in two bytes, high byte first; for a number, the
/// byte 12 and the number in two bytes; for one of the sixteen general registers, sixteen times
/// its number. One is added to that second byte for `jb`, `jbe`, `ja` and `jae`.
pub proof fn law_jump_encoding(
    m: M,
    ops: Seq<(O, TokenV)>,
    sized: Seq<bool>,
    labels: Map<Seq<u8>, LabelInfo>,
    index: Map<Seq<u8>, usize>,
    dry: bool,
    t: TokenV,
    parent: Seq<u8>,
)
    requires
        m.spec_is_jmp(),
        ops.len() >= 1,
    ensures
        ops[0].0 == O::Imm ==> (ops[0].1.tok matches TokV::Word(sym) ==> (index.contains_key(sym) ==>
            spec_encode(m, seq![], ops, sized, RelTo::Absolute, labels, index, dry, t, parent) == Some(Ok::<Seq<PieceV>, ReportV>(bytes_pieces(seq![
                jump_opcode_table(m),
                jump_second_byte(m, 4),
                ((index[sym] as u16) / 256) as u8,
                ((index[sym] as u16) % 256) as u8,
            ]))))),
        ops[0].0 == O::Imm ==> (ops[0].1.tok matches TokV::Word(sym) ==> (!index.contains_key(sym) && labels.contains_key(sym) ==>
            spec_encode(m, seq![], ops, sized, RelTo::Absolute, labels, index, dry, t, parent) == Some(Ok::<Seq<PieceV>, ReportV>(bytes_pieces(seq![
                jump_opcode_table(m),
                jump_second_byte(m, 4),
                ((labels[sym].1 as u16) / 256) as u8,
                ((labels[sym].1 as u16) % 256) as u8,
            ]))))),
        ops[0].0 == O::Imm ==> (ops[0].1.tok matches TokV::UInt(v) ==>
            spec_encode(m, seq![], ops, sized, RelTo::Absolute, labels, index, dry, t, parent) == Some(Ok::<Seq<PieceV>, ReportV>(bytes_pieces(seq![
                jump_opcode_table(m),
                jump_second_byte(m, 12),
                ((v as u16) / 256) as u8,
                ((v as u16) % 256) as u8,
            ])))),
        ops[0].0 == O::Reg ==> (reg_at(ops, 0) matches Some(r) ==> (r < 16 ==>
            spec_encode(m, seq![], ops, sized, RelTo::Absolute, labels, index, dry, t, parent) == Some(Ok::<Seq<PieceV>, ReportV>(bytes_pieces(seq![
                jump_opcode_table(m),
                jump_second_byte(m, 16 * r),
            ]))))),
{
    let code = jump_code(m);
    assert((code / 256) as u8 == jump_opcode_table(m));
    assert(code % 256 == (if jump_unsigned(m) { 1int } else { 0int }));
    let rv: u16 = match reg_at(ops, 0) {
        Some(v) => if v < 16 { v as u16 } else { 0 },
        None => 0,
    };
    lemma_jump_opcode_bits(code, rv);
    lemma_jump_low_byte(code, rv);
    assert(prefix_run(seq![], 0, pre_init()) == Ok::<(Seq<u8>, PreSt), &'static str>((seq![], pre_init())));
    assert(bytes_pieces(Seq::<u8>::empty() + relto_bytes(RelTo::Absolute)) =~= seq![]);
    let e = spec_encode(m, seq![], ops, sized, RelTo::Absolute, labels, index, dry, t, parent);
    match jump_enc(m, ops, false, labels, index) {
        Some(Ok(body)) => {
            assert(e == Some(Ok::<Seq<PieceV>, ReportV>(seq![] + body)));
            assert(seq![] + body =~= body);
        },
        _ => {},
    }
    if ops[0].0 == O::Imm {
        match ops[0].1.tok {
            TokV::Word(sym) => {
                if index.contains_key(sym) {
                    assert(be16(code | 4u16) + be16(index[sym] as u16) =~= seq![
                        jump_opcode_table(m),
                        jump_second_byte(m, 4),
                        ((index[sym] as u16) / 256) as u8,
                        ((index[sym] as u16) % 256) as u8,
                    ]);
                } else if labels.contains_key(sym) {
                    assert(be16(code | 4u16) + be16(labels[sym].1 as u16) =~= seq![
                        jump_opcode_table(m),
                        jump_second_byte(m, 4),
                        ((labels[sym].1 as u16) / 256) as u8,
                        ((labels[sym].1 as u16) % 256) as u8,
                    ]);
                }
            },
            TokV::UInt(v) => {
                assert(be16((code | 4u16) | 8u16) + be16(v as u16) =~= seq![
                    jump_opcode_table(m),
                    jump_second_byte(m, 12),
                    ((v as u16) / 256) as u8,
                    ((v as u16) % 256) as u8,
                ]);
            },
            _ => {},
        }
    }
    if ops[0].0 == O::Reg {
        match reg_at(ops, 0) {
            Some(r) => if r < 16 {
                assert(be16(code | ((r as u16) << 4u16)) =~= seq![
                    jump_opcode_table(m),
                    jump_second_byte(m, 16 * r),
                ]);
            },
            None => {},
        }
    }
}

/// the opcode byte of each instruction other than the jumps, `mov` and `cmpxchg`, as the
/// instruction set gives it; for the arithmetic and bitwise mnemonics it depends on the kind of
/// the second operand: a register, a memory operand or an immediate
pub open spec fn isa_opcode(m: M, second: O) -> u8 {
    let k: u8 = if second == O::Reg || second == O::XReg { 0 } else if second == O::Imm { 2 } else { 1 };
    match m {
        M::ADD => k,
        M::SUB => (3 + k) as u8,
        M::MUL | M::IMUL => (6 + k) as u8,
        M::DIV | M::IDIV => (12 + k) as u8,
        M::CMP => (0x1d + k) as u8,
        M::XOR => (0x12 + k) as u8,
        M::OR => (0x15 + k) as u8,
        M::AND => (0x18 + k) as u8,
        M::SHL => 0x0f,
        M::SHR => 0x10,
        M::SAR => 0x11,
        M::XCHG => 0x20,
        M::NOT => 0x12,
        M::TEST => 0x1d,
        M::PUSH => 0x1b,
        M::POP => 0x1c,
        M::RET => 0x29,
        M::SYSCALL => 0x2a,
        _ => 0x3f,
    }
}

/// Law: the machine code of an instruction without prefixes, other than a jump, `mov` or
/// `cmpxchg`, starts with its opcode byte (`isa_opcode`); `ret`, `syscall` and `hlt` are that one
/// byte; `push` and `pop` add the register's number; with two registers (of numbers below
/// sixteen) the arithmetic, shift and bitwise mnemonics add one byte, sixteen times the first
/// register's number plus the second's.
pub proof fn law_opcode_bytes(
    m: M,
    ops: Seq<(O, TokenV)>,
    sized: Seq<bool>,
    labels: Map<Seq<u8>, LabelInfo>,
    index: Map<Seq<u8>, usize>,
    dry: bool,
    t: TokenV,
    parent: Seq<u8>,
)
    requires
        !m.spec_is_jmp(),
        m != M::MOV,
        m != M::CMPXCHG,
    ensures
        spec_encode(m, seq![], ops, sized, RelTo::Absolute, labels, index, dry, t, parent) matches Some(Ok(b)) ==>
            b.len() >= 1 && b[0] == PieceV::Byte(isa_opcode(m, if ops.len() >= 2 { ops[1].0 } else { O::Reg })),
        m == M::RET || m == M::SYSCALL || m == M::HLT ==>
            spec_encode(m, seq![], ops, sized, RelTo::Absolute, labels, index, dry, t, parent) == Some(Ok::<Seq<PieceV>, ReportV>(bytes_pieces(seq![isa_opcode(m, O::Reg)]))),
        m == M::PUSH || m == M::POP ==> (reg_at(ops, 0) matches Some(r) ==>
            spec_encode(m, seq![], ops, sized, RelTo::Absolute, labels, index, dry, t, parent) == Some(Ok::<Seq<PieceV>, ReportV>(bytes_pieces(seq![isa_opcode(m, O::Reg), r])))),
{
    assert(prefix_run(seq![], 0, pre_init()) == Ok::<(Seq<u8>, PreSt), &'static str>((seq![], pre_init())));
    assert(bytes_pieces(Seq::<u8>::empty() + relto_bytes(RelTo::Absolute)) =~= seq![]);
    let ps = pre_init();
    assert(!ps.era);
    match body_enc(m, ops, sized, ps, labels, index, dry, t, parent) {
        Some(Ok(body)) => {
            assert(seq![] + body =~= body);
        },
        _ => {},
    }
    match body_enc(m, ops, sized, ps, labels, index, dry, t, parent) {
        Some(Ok(body)) => {
            if m == M::RET || m == M::SYSCALL || m == M::HLT {
                assert(body =~= bytes_pieces(seq![isa_opcode(m, O::Reg)]));
            } else if m == M::PUSH || m == M::POP {
            } else if m == M::NOT || m == M::TEST {
            } else if m == M::SHL || m == M::SHR || m == M::SAR || m == M::XCHG {
            } else if m == M::XOR || m == M::OR || m == M::AND {
                if ops[1].0 == O::Reg || ops[1].0 == O::XReg {
                } else {
                    match spec_valbytes(ops[1], sized_at(sized, 1), ps.fpd, ps.vsize, labels, parent) {
                        Some(Ok((vb, len))) => {
                            let code = if ops[1].0 == O::Imm { logic_codes(m).2 } else { logic_codes(m).1 };
                            let head = bytes_pieces(seq![code, nib(reg_at(ops, 0).unwrap(), u64_trailing_zeros(len as u64) as u8)]);
                            assert(body == head + vb);
                            assert(body[0] == head[0]);
                        },
                        _ => {},
                    }
                }
            } else {
                let base = alu_code(m);
                match ops[1].0 {
                    O::Imm => {
                        match imm_val(ops[1].1, sized_at(sized, 1), ps.fpd, ps.vsize, labels, parent) {
                            Some(Ok((vb, len))) => {
                                let a = reg_at(ops, 0).unwrap();
                                let head = bytes_pieces(seq![(base + 2) as u8] + reg_and_size(ps.era, a, (len as u8) >> 1u8, u64_trailing_zeros(len as u64) as u8));
                                assert(body == head + vb);
                                assert(body[0] == head[0]);
                            },
                            _ => {},
                        }
                    },
                    _ => {},
                }
            }
        },
        _ => {},
    }
}

/// Law: with two registers of numbers below sixteen and no prefixes, the arithmetic, shift and
/// bitwise mnemonics are encoded in two bytes: the opcode (`isa_opcode`), then sixteen times the
/// first register's number plus the second's.
pub proof fn law_register_pair_bytes(
    m: M,
    ops: Seq<(O, TokenV)>,
    sized: Seq<bool>,
    labels: Map<Seq<u8>, LabelInfo>,
    index: Map<Seq<u8>, usize>,
    dry: bool,
    t: TokenV,
    parent: Seq<u8>,
)
    requires
        m == M::ADD || m == M::SUB || m == M::MUL || m == M::IMUL || m == M::DIV || m == M::IDIV || m == M::CMP
            || m == M::XOR || m == M::OR || m == M::AND || m == M::SHL || m == M::SHR || m == M::SAR || m == M::XCHG,
        ops.len() >= 2,
        ops[1].0 == O::Reg || ops[1].0 == O::XReg,
    ensures
        reg_at(ops, 0) matches Some(a) ==> (reg_at(ops, 1) matches Some(c) ==> (a < 16 && c < 16 ==>
            spec_encode(m, seq![], ops, sized, RelTo::Absolute, labels, index, dry, t, parent)
                == Some(Ok::<Seq<PieceV>, ReportV>(bytes_pieces(seq![isa_opcode(m, O::Reg), (16 * a + c) as u8]))))),
{
    assert(prefix_run(seq![], 0, pre_init()) == Ok::<(Seq<u8>, PreSt), &'static str>((seq![], pre_init())));
    assert(bytes_pieces(Seq::<u8>::empty() + relto_bytes(RelTo::Absolute)) =~= seq![]);
    let ps = pre_init();
    match (reg_at(ops, 0), reg_at(ops, 1)) {
        (Some(a), Some(c)) => {
            if a < 16 && c < 16 {
                assert(a < 16 && c < 16 ==> nib(a, c) as int == 16 * a + c) by (bit_vector);
                let code: u8 = if m == M::XOR || m == M::OR || m == M::AND { logic_codes(m).0 } else if m == M::SHL || m == M::SHR || m == M::SAR || m == M::XCHG { shift_code(m) } else { alu_code(m) };
                assert(code == isa_opcode(m, O::Reg));
                assert(seq![code] + seq![nib(a, c)] =~= seq![code, nib(a, c)]);
                if m == M::XOR || m == M::OR || m == M::AND {
                    assert(body_enc(m, ops, sized, ps, labels, index, dry, t, parent) == logic_enc(m, ops, sized, ps, labels, parent));
                } else if m == M::SHL || m == M::SHR || m == M::SAR || m == M::XCHG {
                    assert(body_enc(m, ops, sized, ps, labels, index, dry, t, parent) == shift_enc(code, ops));
                } else {
                    assert(body_enc(m, ops, sized, ps, labels, index, dry, t, parent) == alu_enc(code, ops, sized, ps, labels, parent));
                }
                assert(body_enc(m, ops, sized, ps, labels, index, dry, t, parent) == Some(Ok::<Seq<PieceV>, ReportV>(bytes_pieces(seq![code, nib(a, c)]))));
                assert(seq![code, nib(a, c)] =~= seq![isa_opcode(m, O::Reg), (16 * a + c) as u8]);
                assert(seq![] + bytes_pieces(seq![isa_opcode(m, O::Reg), (16 * a + c) as u8]) =~= bytes_pieces(seq![isa_opcode(m, O::Reg), (16 * a + c) as u8]));
            }
        },
        _ => {},
    }
}

/// the flag that the call prefix sets in a jump's low opcode byte leaves the other bits alone
proof fn lemma_call_low_byte(c: u16, r: u16)
    requires
        c % 256 <= 1,
        r < 16,
    ensures
        (((c | 4u16) | 2u16) / 256) as u8 == (c / 256) as u8,
        ((((c | 4u16) | 2u16) % 256) as u8) as int == 6 + c % 256,
        (((c | (r << 4u16)) | 2u16) / 256) as u8 == (c / 256) as u8,
        ((((c | (r << 4u16)) | 2u16) % 256) as u8) as int == 16 * r + 2 + c % 256,
{
    assert((((c | 4u16) | 2u16) / 256) as u8 == (c / 256) as u8) by (bit_vector);
    assert(c % 256 <= 1 ==> ((((c | 4u16) | 2u16) % 256) as u8) as int == 6 + c % 256) by (bit_vector);
    assert(r < 16 ==> (((c | (r << 4u16)) | 2u16) / 256) as u8 == (c / 256) as u8) by (bit_vector);
    assert(c % 256 <= 1 && r < 16 ==> ((((c | (r << 4u16)) | 2u16) % 256) as u8) as int == 16 * r + 2 + c % 256) by (bit_vector);
}

/// Law: the call prefix makes a jump a call. It is encoded as the byte 0x45 before the jump's
/// opcode byte; the second byte gains 2; and a label target is then given in four bytes, high
/// byte first, where a plain jump gives it in two.
pub proof fn law_call_prefix_jump(
    m: M,
    ops: Seq<(O, TokenV)>,
    sized: Seq<bool>,
    labels: Map<Seq<u8>, LabelInfo>,
    index: Map<Seq<u8>, usize>,
    dry: bool,
    t: TokenV,
    parent: Seq<u8>,
)
    requires
        m.spec_is_jmp(),
        ops.len() >= 1,
    ensures
        ops[0].0 == O::Imm ==> (ops[0].1.tok matches TokV::Word(sym) ==> (!index.contains_key(sym) && labels.contains_key(sym) ==>
            spec_encode(m, seq![P::Call], ops, sized, RelTo::Absolute, labels, index, dry, t, parent) == Some(Ok::<Seq<PieceV>, ReportV>(bytes_pieces(seq![
                0x45u8,
                jump_opcode_table(m),
                jump_second_byte(m, 6),
                ((labels[sym].1 as u32) / 0x100_0000) as u8,
                (((labels[sym].1 as u32) / 0x1_0000) % 256) as u8,
                (((labels[sym].1 as u32) / 256) % 256) as u8,
                ((labels[sym].1 as u32) % 256) as u8,
            ]))))),
        ops[0].0 == O::Reg ==> (reg_at(ops, 0) matches Some(r) ==> (r < 16 ==>
            spec_encode(m, seq![P::Call], ops, sized, RelTo::Absolute, labels, index, dry, t, parent) == Some(Ok::<Seq<PieceV>, ReportV>(bytes_pieces(seq![
                0x45u8,
                jump_opcode_table(m),
                jump_second_byte(m, 16 * r + 2),
            ]))))),
{
    let code = jump_code(m);
    assert((code / 256) as u8 == jump_opcode_table(m));
    assert(code % 256 == (if jump_unsigned(m) { 1int } else { 0int }));
    let rv: u16 = match reg_at(ops, 0) {
        Some(v) => if v < 16 { v as u16 } else { 0 },
        None => 0,
    };
    lemma_call_low_byte(code, rv);
    let ps = PreSt { call: true, ..pre_init() };
    assert(prefix_run(seq![P::Call], 1, ps) == Ok::<(Seq<u8>, PreSt), &'static str>((seq![], ps)));
    assert(prefix_run(seq![P::Call], 0, pre_init()) == Ok::<(Seq<u8>, PreSt), &'static str>((seq![0x45u8], ps)));
    assert(bytes_pieces(seq![0x45u8] + relto_bytes(RelTo::Absolute)) =~= bytes_pieces(seq![0x45u8]));
    if ops[0].0 == O::Imm {
        match ops[0].1.tok {
            TokV::Word(sym) => {
                if !index.contains_key(sym) && labels.contains_key(sym) {
                    let body = be16((code | 4u16) | 2u16) + be32(labels[sym].1 as u32);
                    assert(body_enc(m, ops, sized, ps, labels, index, dry, t, parent) == Some(Ok::<Seq<PieceV>, ReportV>(bytes_pieces(body))));
                    assert(bytes_pieces(seq![0x45u8]) + bytes_pieces(body) =~= bytes_pieces(seq![0x45u8] + body));
                    assert(seq![0x45u8] + body =~= seq![
                        0x45u8,
                        jump_opcode_table(m),
                        jump_second_byte(m, 6),
                        ((labels[sym].1 as u32) / 0x100_0000) as u8,
                        (((labels[sym].1 as u32) / 0x1_0000) % 256) as u8,
                        (((labels[sym].1 as u32) / 256) % 256) as u8,
                        ((labels[sym].1 as u32) % 256) as u8,
                    ]);
                }
            },
            _ => {},
        }
    }
    if ops[0].0 == O::Reg {
        match reg_at(ops, 0) {
            Some(r) => if r < 16 {
                let body = be16((code | ((r as u16) << 4u16)) | 2u16);
                assert(body_enc(m, ops, sized, ps, labels, index, dry, t, parent) == Some(Ok::<Seq<PieceV>, ReportV>(bytes_pieces(body))));
                assert(bytes_pieces(seq![0x45u8]) + bytes_pieces(body) =~= bytes_pieces(seq![0x45u8] + body));
                assert(seq![0x45u8] + body =~= seq![
                    0x45u8,
                    jump_opcode_table(m),
                    jump_second_byte(m, 16 * r + 2),
                ]);
            },
            None => {},
        }
    }
}

/// Law: the machine code of a move without prefixes. Between two registers (of numbers below
/// sixteen) it is one byte, sixteen times the target's number plus the source's; from memory it
/// starts with the opcode 0x2c, from an immediate with 0x2d; a store of a register (below sixteen)
/// through a bare register (below sixteen) is 0x2e, then sixteen times the stored register's
/// number plus the address register's.
pub proof fn law_mov_bytes(
    ops: Seq<(O, TokenV)>,
    sized: Seq<bool>,
    labels: Map<Seq<u8>, LabelInfo>,
    index: Map<Seq<u8>, usize>,
    dry: bool,
    t: TokenV,
    parent: Seq<u8>,
)
    requires
        ops.len() >= 2,
    ensures
        (ops[0].0 == O::Reg || ops[0].0 == O::XReg) && (ops[1].0 == O::Reg || ops[1].0 == O::XReg) ==> (reg_at(ops, 0) matches Some(a)
            ==> (reg_at(ops, 1) matches Some(c) ==> (a < 16 && c < 16 ==>
            spec_encode(M::MOV, seq![], ops, sized, RelTo::Absolute, labels, index, dry, t, parent)
                == Some(Ok::<Seq<PieceV>, ReportV>(bytes_pieces(seq![(16 * a + c) as u8])))))),
        (ops[0].0 == O::Reg || ops[0].0 == O::XReg) && !(ops[1].0 == O::Reg || ops[1].0 == O::XReg) ==>
            (spec_encode(M::MOV, seq![], ops, sized, RelTo::Absolute, labels, index, dry, t, parent) matches Some(Ok(b))
                ==> b.len() >= 1 && b[0] == PieceV::Byte(if ops[1].0 == O::Imm { 0x2du8 } else { 0x2cu8 })),
        ops[0].0 == O::RMem ==> (ops[0].1.tok matches TokV::Deref(l) ==> (l.len() > 0 ==> (l[0].tok matches TokV::Reg(r)
            ==> (reg_at(ops, 1) matches Some(x) ==> (x < 16 && spec_register_value(r) < 16 ==>
            spec_encode(M::MOV, seq![], ops, sized, RelTo::Absolute, labels, index, dry, t, parent)
                == Some(Ok::<Seq<PieceV>, ReportV>(bytes_pieces(seq![0x2eu8, (16 * x + spec_register_value(r)) as u8])))))))),
{
    assert(prefix_run(seq![], 0, pre_init()) == Ok::<(Seq<u8>, PreSt), &'static str>((seq![], pre_init())));
    assert(bytes_pieces(Seq::<u8>::empty() + relto_bytes(RelTo::Absolute)) =~= seq![]);
    let ps = pre_init();
    assert(body_enc(M::MOV, ops, sized, ps, labels, index, dry, t, parent) == mov_enc(ops, sized, ps, labels, parent));
    match mov_enc(ops, sized, ps, labels, parent) {
        Some(Ok(body)) => {
            assert(seq![] + body =~= body);
        },
        _ => {},
    }
    if (ops[0].0 == O::Reg || ops[0].0 == O::XReg) {
        match (reg_at(ops, 0), reg_at(ops, 1)) {
            (Some(a), Some(c)) => {
                if a < 16 && c < 16 {
                    assert(a < 16 && c < 16 ==> nib(a, c) as int == 16 * a + c) by (bit_vector);
                    assert(seq![nib(a, c)] =~= seq![(16 * a + c) as u8]);
                }
            },
            _ => {},
        }
        if !(ops[1].0 == O::Reg || ops[1].0 == O::XReg) {
            match (reg_at(ops, 0), spec_valbytes(ops[1], sized_at(sized, 1), ps.fpd, ps.vsize, labels, parent)) {
                (Some(a), Some(Ok((vb, len)))) => {
                    let code: u8 = if ops[1].0 == O::Imm { 0x2d } else { 0x2c };
                    let head = bytes_pieces(seq![code] + reg_and_size(ps.era, a, len as u8, u64_trailing_zeros(len as u64) as u8));
                    assert(head[0] == PieceV::Byte(code));
                    assert((head + vb)[0] == head[0]);
                },
                _ => {},
            }
        }
    }
    if ops[0].0 == O::RMem {
        match ops[0].1.tok {
            TokV::Deref(l) => if l.len() > 0 {
                match l[0].tok {
                    TokV::Reg(r) => match reg_at(ops, 1) {
                        Some(x) => {
                            let y = spec_register_value(r);
                            if x < 16 && y < 16 {
                                assert(x < 16 && y < 16 ==> nib(x, y) as int == 16 * x + y) by (bit_vector);
                                assert(seq![0x2eu8] + seq![nib(x, y)] =~= seq![0x2eu8, (16 * x + y) as u8]);
                            }
                        },
                        None => {},
                    },
                    _ => {},
                }
            },
            _ => {},
        }
    }
}

} // verus!
