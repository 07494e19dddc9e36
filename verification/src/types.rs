//! type declarations: sections, keywords, parameter types and tokens

use vstd::prelude::*;
use crate::mnemonics::{M, P, O, Register};

verus! {

#[derive(Debug, Clone, Copy, PartialEq, Eq, Structural)]
pub enum Section {
    Outside,
    Conf,
    Data,
    Code,
    Indx,
}

#[derive(Debug, Clone, Copy, PartialEq, Eq, Structural)]
pub enum Keyword {
    Purpose,
    Name,
    Invar,
    Fstr,
    SomeFlags,
    NoneFlags,
    Str,
    S32,
    F64,
    Res,
    Section,
    Cutoff,
}

#[derive(Debug)]
pub enum Type {
    U8,
    U16,
    U32,
    U64,
    U128,
    S8,
    S16,
    S32,
    S64,
    S128,
    Void,
    Sstr,
    Lstr,
    Sarr(u8, Box<Type>),
    Uarr(Box<Type>),
    Struct,
    Any,
    Invalid,
    Ptr(Box<Type>),
    Unset,
    Auto,
}

/// structural equality of types
pub fn type_eq(a: &Type, b: &Type) -> (r: bool)
    ensures
        r == (*a == *b),
    decreases *a,
{
    match (a, b) {
        (Type::U8, Type::U8) => true,
        (Type::U16, Type::U16) => true,
        (Type::U32, Type::U32) => true,
        (Type::U64, Type::U64) => true,
        (Type::U128, Type::U128) => true,
        (Type::S8, Type::S8) => true,
        (Type::S16, Type::S16) => true,
        (Type::S32, Type::S32) => true,
        (Type::S64, Type::S64) => true,
        (Type::S128, Type::S128) => true,
        (Type::Void, Type::Void) => true,
        (Type::Sstr, Type::Sstr) => true,
        (Type::Lstr, Type::Lstr) => true,
        (Type::Sarr(n, x), Type::Sarr(m, y)) => *n == *m && type_eq(&**x, &**y),
        (Type::Uarr(x), Type::Uarr(y)) => type_eq(&**x, &**y),
        (Type::Struct, Type::Struct) => true,
        (Type::Any, Type::Any) => true,
        (Type::Invalid, Type::Invalid) => true,
        (Type::Ptr(x), Type::Ptr(y)) => type_eq(&**x, &**y),
        (Type::Unset, Type::Unset) => true,
        (Type::Auto, Type::Auto) => true,
        _ => false,
    }
}

impl Type {
    /// a copy of the type
    pub fn clone_type(&self) -> (r: Type)
        ensures
            r == *self,
        decreases *self,
    {
        match self {
            Type::Sarr(n, t) => Type::Sarr(*n, Box::new((&**t).clone_type())),
            Type::Uarr(t) => Type::Uarr(Box::new((&**t).clone_type())),
            Type::Ptr(t) => Type::Ptr(Box::new((&**t).clone_type())),
            Type::U8 => Type::U8,
            Type::U16 => Type::U16,
            Type::U32 => Type::U32,
            Type::U64 => Type::U64,
            Type::U128 => Type::U128,
            Type::S8 => Type::S8,
            Type::S16 => Type::S16,
            Type::S32 => Type::S32,
            Type::S64 => Type::S64,
            Type::S128 => Type::S128,
            Type::Void => Type::Void,
            Type::Sstr => Type::Sstr,
            Type::Lstr => Type::Lstr,
            Type::Struct => Type::Struct,
            Type::Any => Type::Any,
            Type::Invalid => Type::Invalid,
            Type::Unset => Type::Unset,
            Type::Auto => Type::Auto,
        }
    }
}

impl Clone for Type {
    fn clone(&self) -> (r: Self) {
        self.clone_type()
    }
}

impl PartialEq for Type {
    fn eq(&self, other: &Self) -> (r: bool) {
        type_eq(self, other)
    }
}

impl vstd::std_specs::cmp::PartialEqSpecImpl for Type {
    open spec fn obeys_eq_spec() -> bool {
        true
    }

    open spec fn eq_spec(&self, other: &Self) -> bool {
        *self == *other
    }
}

/// the first byte of the encoding of a type
pub open spec fn type_code(t: Type) -> u8 {
    match t {
        Type::U8 => 0x81,
        Type::U16 => 0x82,
        Type::U32 => 0x84,
        Type::U64 => 0x88,
        Type::U128 => 0x90,
        Type::S8 => 0xc1,
        Type::S16 => 0xc2,
        Type::S32 => 0xc4,
        Type::S64 => 0xc8,
        Type::S128 => 0xd0,
        Type::Void => 0x00,
        Type::Sstr => 0x02,
        Type::Lstr => 0x03,
        Type::Sarr(s, _) => 0x40 | s,
        Type::Uarr(_) => 0x04,
        Type::Struct => 0x06,
        Type::Any => 0x05,
        Type::Invalid => 0xff,
        Type::Ptr(_) => 0x01,
        Type::Unset | Type::Auto => 0,
    }
}

/// a type has a byte encoding: neither it nor any type inside it is `Unset` or `Auto`
pub open spec fn has_repr(t: Type) -> bool
    decreases t,
{
    match t {
        Type::Unset | Type::Auto => false,
        Type::Sarr(_, inner) => has_repr(*inner),
        Type::Uarr(inner) => has_repr(*inner),
        Type::Ptr(inner) => has_repr(*inner),
        _ => true,
    }
}

/// the byte encoding of a type: its code, followed by the encoding of the type inside it, if any
pub open spec fn spec_type_bytes(t: Type) -> Seq<u8>
    decreases t,
{
    match t {
        Type::Sarr(_, inner) => seq![type_code(t)] + spec_type_bytes(*inner),
        Type::Uarr(inner) => seq![type_code(t)] + spec_type_bytes(*inner),
        Type::Ptr(inner) => seq![type_code(t)] + spec_type_bytes(*inner),
        _ => seq![type_code(t)],
    }
}

/// two types match when they are equal or one of them is `Auto`
pub open spec fn spec_auto_eq(a: Type, b: Type) -> bool {
    a == b || a == Type::Auto || b == Type::Auto
}

impl Type {
    pub fn add_bytes(&self, bytes: &mut Vec<u8>)
        requires
            has_repr(*self),
        ensures
            final(bytes)@ == old(bytes)@ + spec_type_bytes(*self),
        decreases *self,
    {
        let code: u8 = match self {
            Type::U8 => 0x81,
            Type::U16 => 0x82,
            Type::U32 => 0x84,
            Type::U64 => 0x88,
            Type::U128 => 0x90,
            Type::S8 => 0xc1,
            Type::S16 => 0xc2,
            Type::S32 => 0xc4,
            Type::S64 => 0xc8,
            Type::S128 => 0xd0,
            Type::Void => 0x00,
            Type::Sstr => 0x02,
            Type::Lstr => 0x03,
            Type::Sarr(s, _) => 0x40 | *s,
            Type::Uarr(_) => 0x04,
            Type::Struct => 0x06,
            Type::Any => 0x05,
            Type::Invalid => 0xff,
            Type::Ptr(_) => 0x01,
            Type::Unset | Type::Auto => 0,
        };
        let ghost before = bytes@;
        bytes.push(code);
        match self {
            Type::Sarr(_, t) => {
                (&**t).add_bytes(bytes);
                assert(bytes@ =~= before + spec_type_bytes(*self));
            },
            Type::Uarr(t) => {
                (&**t).add_bytes(bytes);
                assert(bytes@ =~= before + spec_type_bytes(*self));
            },
            Type::Ptr(t) => {
                (&**t).add_bytes(bytes);
                assert(bytes@ =~= before + spec_type_bytes(*self));
            },
            _ => {
                assert(bytes@ =~= before + spec_type_bytes(*self));
            },
        }
    }

    /// the byte encoding of the type in an object file
    pub fn to_bytes(&self) -> (r: Vec<u8>)
        requires
            has_repr(*self),
        ensures
            r@ == spec_type_bytes(*self),
    {
        let mut b: Vec<u8> = Vec::new();
        self.add_bytes(&mut b);
        assert(b@ =~= spec_type_bytes(*self));
        b
    }

    /// equality in which `Auto` matches any type
    pub fn auto_eq(&self, other: &Self) -> (r: bool)
        ensures
            r == spec_auto_eq(*self, *other),
    {
        type_eq(self, other) || type_eq(self, &Type::Auto) || type_eq(other, &Type::Auto)
    }
}

#[derive(Debug, Clone, Copy, PartialEq, Eq, Structural)]
pub enum RelTo {
    Absolute,
    Invar,
    Data,
    Reg(Register),
}

/// two bases match when they are equal or one of them is `Absolute`
pub open spec fn spec_relto_qualified_eq(a: RelTo, b: RelTo) -> bool {
    a == RelTo::Absolute || b == RelTo::Absolute || a == b
}

impl RelTo {
    pub fn qualified_eq(&self, other: &Self) -> (r: bool)
        ensures
            r == spec_relto_qualified_eq(*self, *other),
    {
        if *self == RelTo::Absolute || *other == RelTo::Absolute {
            return true;
        }
        *self == *other
    }
}

/// a token; text is held as the bytes of the source that it was read from
#[derive(Debug)]
pub enum Tok<'a> {
    String(&'a [u8]),
    Word(&'a [u8]),
    Label(&'a [u8]),
    Keyword(Keyword),
    Section(Section),
    KwDecl(Keyword, Box<Tok<'a>>),
    Param(&'a [u8], Type),
    Signature(&'a [u8], Vec<Tok<'a>>, Type),
    Type(Type),
    Symbol(u8),
    Newline,
    Addr(u32),
    UInt(u64),
    SInt(i64),
    /// a floating point literal, held as its text; its value is read outside the library
    Float(&'a [u8]),
    Prefix(P),
    Instruction(M, Vec<P>, Vec<(O, Token<'a>)>, RelTo),
    Sized(u64, Box<Tok<'a>>),
    Deref(Vec<Token<'a>>),
    Reg(Register),
    Invalid,
}

#[derive(Debug)]
pub struct Token<'a> {
    pub tok: Tok<'a>,
    pub line: u32,
    pub column: u32,
}

/// the mathematical content of a token
pub enum TokV {
    String(Seq<u8>),
    Word(Seq<u8>),
    Label(Seq<u8>),
    Keyword(Keyword),
    Section(Section),
    KwDecl(Keyword, Box<TokV>),
    Param(Seq<u8>, Type),
    Signature(Seq<u8>, Seq<TokV>, Type),
    Type(Type),
    Symbol(u8),
    Newline,
    Addr(u32),
    UInt(u64),
    SInt(i64),
    Float(Seq<u8>),
    Prefix(P),
    Instruction(M, Seq<P>, Seq<(O, TokenV)>, RelTo),
    Sized(u64, Box<TokV>),
    Deref(Seq<TokenV>),
    Reg(Register),
    Invalid,
}

pub struct TokenV {
    pub tok: TokV,
    pub line: u32,
    pub column: u32,
}

pub open spec fn tok_view<'a>(t: Tok<'a>) -> TokV
    decreases t, 0nat,
{
    match t {
        Tok::String(s) => TokV::String(s@),
        Tok::Word(s) => TokV::Word(s@),
        Tok::Label(s) => TokV::Label(s@),
        Tok::Keyword(k) => TokV::Keyword(k),
        Tok::Section(s) => TokV::Section(s),
        Tok::KwDecl(k, b) => TokV::KwDecl(k, Box::new(tok_view(*b))),
        Tok::Param(n, t) => TokV::Param(n@, t),
        Tok::Signature(n, ps, t) => TokV::Signature(n@, toks_view(ps@), t),
        Tok::Type(t) => TokV::Type(t),
        Tok::Symbol(c) => TokV::Symbol(c),
        Tok::Newline => TokV::Newline,
        Tok::Addr(a) => TokV::Addr(a),
        Tok::UInt(v) => TokV::UInt(v),
        Tok::SInt(v) => TokV::SInt(v),
        Tok::Float(s) => TokV::Float(s@),
        Tok::Prefix(p) => TokV::Prefix(p),
        Tok::Instruction(m, ps, ops, r) => TokV::Instruction(m, ps@, operands_view(ops@), r),
        Tok::Sized(n, b) => TokV::Sized(n, Box::new(tok_view(*b))),
        Tok::Deref(ts) => TokV::Deref(tokens_view(ts@)),
        Tok::Reg(r) => TokV::Reg(r),
        Tok::Invalid => TokV::Invalid,
    }
}

pub open spec fn toks_view<'a>(s: Seq<Tok<'a>>) -> Seq<TokV>
    decreases s, s.len(),
{
    if s.len() == 0 {
        Seq::empty()
    } else {
        toks_view(s.drop_last()).push(tok_view(s.last()))
    }
}

pub open spec fn token_view<'a>(t: Token<'a>) -> TokenV
    decreases t, 1nat,
{
    TokenV { tok: tok_view(t.tok), line: t.line, column: t.column }
}

pub open spec fn tokens_view<'a>(s: Seq<Token<'a>>) -> Seq<TokenV>
    decreases s, s.len(),
{
    if s.len() == 0 {
        Seq::empty()
    } else {
        tokens_view(s.drop_last()).push(token_view(s.last()))
    }
}

pub open spec fn operands_view<'a>(s: Seq<(O, Token<'a>)>) -> Seq<(O, TokenV)>
    decreases s, s.len(),
{
    if s.len() == 0 {
        Seq::empty()
    } else {
        operands_view(s.drop_last()).push((s.last().0, token_view(s.last().1)))
    }
}

impl<'a> Tok<'a> {
    pub open spec fn view(&self) -> TokV {
        tok_view(*self)
    }
}

impl<'a> Token<'a> {
    pub open spec fn view(&self) -> TokenV {
        token_view(*self)
    }
}

pub proof fn lemma_tokens_view_push<'a>(s: Seq<Token<'a>>, t: Token<'a>)
    ensures
        tokens_view(s.push(t)) == tokens_view(s).push(token_view(t)),
{
    assert(s.push(t).drop_last() =~= s);
}

pub proof fn lemma_tokens_view_index<'a>(s: Seq<Token<'a>>)
    ensures
        tokens_view(s).len() == s.len(),
        forall|i: int| 0 <= i < s.len() ==> #[trigger] tokens_view(s)[i] == token_view(s[i]),
    decreases s.len(),
{
    if s.len() > 0 {
        lemma_tokens_view_index(s.drop_last());
    }
}

pub proof fn lemma_operands_view_index<'a>(s: Seq<(O, Token<'a>)>)
    ensures
        operands_view(s).len() == s.len(),
        forall|i: int| 0 <= i < s.len() ==> #[trigger] operands_view(s)[i] == (s[i].0, token_view(s[i].1)),
    decreases s.len(),
{
    if s.len() > 0 {
        lemma_operands_view_index(s.drop_last());
    }
}

pub proof fn lemma_toks_view_index<'a>(s: Seq<Tok<'a>>)
    ensures
        toks_view(s).len() == s.len(),
        forall|i: int| 0 <= i < s.len() ==> #[trigger] toks_view(s)[i] == tok_view(s[i]),
    decreases s.len(),
{
    if s.len() > 0 {
        lemma_toks_view_index(s.drop_last());
    }
}

/// a copy of a token, with the same content
#[verifier::loop_isolation(false)]
pub fn copy_tok<'a>(t: &Tok<'a>) -> (r: Tok<'a>)
    ensures
        tok_view(r) == tok_view(*t),
    decreases *t, 0nat,
{
    match t {
        Tok::String(s) => Tok::String(*s),
        Tok::Word(s) => Tok::Word(*s),
        Tok::Label(s) => Tok::Label(*s),
        Tok::Keyword(k) => Tok::Keyword(*k),
        Tok::Section(s) => Tok::Section(*s),
        Tok::KwDecl(k, b) => Tok::KwDecl(*k, Box::new(copy_tok(&**b))),
        Tok::Param(n, ty) => Tok::Param(*n, ty.clone_type()),
        Tok::Signature(n, ps, ty) => {
            let mut v: Vec<Tok<'a>> = Vec::new();
            let mut i: usize = 0;
            while i < ps.len()
                invariant
                    i <= ps@.len(),
                    toks_view(v@) == toks_view(ps@.subrange(0, i as int)),
                decreases ps@.len() - i,
            {
                proof {
                    assert(decreases_to!(*t => (*t)->Signature_1));
                    assert(decreases_to!(*ps => ps@));
                    assert(decreases_to!(ps@ => ps@[i as int]));
                    assert(decreases_to!(*t => ps@[i as int]));
                }
                let c = copy_tok(&ps[i]);
                let ghost old_v = v@;
                v.push(c);
                proof {
                    assert(v@.drop_last() =~= old_v);
                    assert(ps@.subrange(0, i + 1).drop_last() =~= ps@.subrange(0, i as int));
                }
                i += 1;
            }
            assert(ps@.subrange(0, ps@.len() as int) =~= ps@);
            Tok::Signature(*n, v, ty.clone_type())
        },
        Tok::Type(ty) => Tok::Type(ty.clone_type()),
        Tok::Symbol(c) => Tok::Symbol(*c),
        Tok::Newline => Tok::Newline,
        Tok::Addr(a) => Tok::Addr(*a),
        Tok::UInt(v) => Tok::UInt(*v),
        Tok::SInt(v) => Tok::SInt(*v),
        Tok::Float(s) => Tok::Float(*s),
        Tok::Prefix(p) => Tok::Prefix(*p),
        Tok::Instruction(m, ps, ops, r) => {
            let mut pv: Vec<P> = Vec::new();
            let mut i: usize = 0;
            while i < ps.len()
                invariant
                    i <= ps@.len(),
                    pv@ == ps@.subrange(0, i as int),
                decreases ps@.len() - i,
            {
                pv.push(ps[i]);
                i += 1;
            }
            assert(pv@ =~= ps@);
            let mut ov: Vec<(O, Token<'a>)> = Vec::new();
            let mut i: usize = 0;
            while i < ops.len()
                invariant
                    i <= ops@.len(),
                    operands_view(ov@) == operands_view(ops@.subrange(0, i as int)),
                decreases ops@.len() - i,
            {
                proof {
                    assert(decreases_to!(*t => (*t)->Instruction_2));
                    assert(decreases_to!(*ops => ops@));
                    assert(decreases_to!(ops@ => ops@[i as int]));
                    assert(decreases_to!(ops@[i as int] => ops@[i as int].1));
                    assert(decreases_to!(*t => ops@[i as int].1));
                }
                let c = copy_token(&ops[i].1);
                let ghost old_v = ov@;
                ov.push((ops[i].0, c));
                proof {
                    assert(ov@.drop_last() =~= old_v);
                    assert(ops@.subrange(0, i + 1).drop_last() =~= ops@.subrange(0, i as int));
                }
                i += 1;
            }
            assert(ops@.subrange(0, ops@.len() as int) =~= ops@);
            Tok::Instruction(*m, pv, ov, *r)
        },
        Tok::Sized(n, b) => Tok::Sized(*n, Box::new(copy_tok(&**b))),
        Tok::Deref(ts) => {
            let mut v: Vec<Token<'a>> = Vec::new();
            let mut i: usize = 0;
            while i < ts.len()
                invariant
                    i <= ts@.len(),
                    tokens_view(v@) == tokens_view(ts@.subrange(0, i as int)),
                decreases ts@.len() - i,
            {
                proof {
                    assert(decreases_to!(*t => (*t)->Deref_0));
                    assert(decreases_to!(*ts => ts@));
                    assert(decreases_to!(ts@ => ts@[i as int]));
                    assert(decreases_to!(*t => ts@[i as int]));
                }
                let c = copy_token(&ts[i]);
                let ghost old_v = v@;
                v.push(c);
                proof {
                    assert(v@.drop_last() =~= old_v);
                    assert(ts@.subrange(0, i + 1).drop_last() =~= ts@.subrange(0, i as int));
                }
                i += 1;
            }
            assert(ts@.subrange(0, ts@.len() as int) =~= ts@);
            Tok::Deref(v)
        },
        Tok::Reg(r) => Tok::Reg(*r),
        Tok::Invalid => Tok::Invalid,
    }
}

/// a copy of a token with its position
pub fn copy_token<'a>(t: &Token<'a>) -> (r: Token<'a>)
    ensures
        token_view(r) == token_view(*t),
    decreases *t, 1nat,
{
    Token { tok: copy_tok(&t.tok), line: t.line, column: t.column }
}

impl<'a> Clone for Tok<'a> {
    fn clone(&self) -> (r: Self) {
        copy_tok(self)
    }
}

impl<'a> Clone for Token<'a> {
    fn clone(&self) -> (r: Self) {
        copy_token(self)
    }
}

pub proof fn lemma_toks_view_push<'a>(s: Seq<Tok<'a>>, t: Tok<'a>)
    ensures
        toks_view(s.push(t)) == toks_view(s).push(tok_view(t)),
{
    assert(s.push(t).drop_last() =~= s);
}

pub proof fn lemma_tokens_view_subrange<'a>(s: Seq<Token<'a>>, a: int, b: int)
    requires
        0 <= a <= b <= s.len(),
    ensures
        tokens_view(s.subrange(a, b)) == tokens_view(s).subrange(a, b),
{
    lemma_tokens_view_index(s);
    lemma_tokens_view_index(s.subrange(a, b));
    assert(tokens_view(s.subrange(a, b)) =~= tokens_view(s).subrange(a, b));
}

/// the number of bytes that the significant part of a number takes: 0 for 0
pub open spec fn sig_bytes(v: nat) -> nat
    decreases v,
{
    if v == 0 {
        0
    } else {
        1 + sig_bytes(v / 256)
    }
}

/// the number of low zero bits of a positive number
pub open spec fn low_zero_bits(x: nat) -> nat
    decreases x,
{
    if x == 0 || x % 2 == 1 {
        0
    } else {
        1 + low_zero_bits(x / 2)
    }
}

/// the bit pattern of a 64-bit integer, read as an unsigned number
pub open spec fn bits_of_i64(v: i64) -> nat {
    if v < 0 {
        (v + 0x1_0000_0000_0000_0000) as nat
    } else {
        v as nat
    }
}

/// the number of bytes that the assembler gives to a numeric token; 1 at least
pub open spec fn spec_min_size(t: TokV) -> u64 {
    let val: nat = match t {
        TokV::Addr(v) => sig_bytes(v as nat),
        TokV::Float(_) => 8,
        TokV::UInt(v) => sig_bytes(v as nat),
        TokV::SInt(v) => if v < 0 {
            (low_zero_bits(bits_of_i64(v)) + 1) / 8
        } else {
            sig_bytes(v as nat)
        },
        _ => 0,
    };
    if val == 0 {
        1
    } else {
        val as u64
    }
}

pub proof fn lemma_sig_bytes_bound(x: nat, k: nat)
    requires
        x < vstd::arithmetic::power::pow(256, k),
    ensures
        sig_bytes(x) <= k,
    decreases k,
{
    reveal(vstd::arithmetic::power::pow);
    if x != 0 {
        if k == 0 {
            assert(false);
        } else {
            let p = vstd::arithmetic::power::pow(256, (k - 1) as nat);
            assert(x / 256 < p) by (nonlinear_arith)
                requires
                    x < 256 * p,
            ;
            lemma_sig_bytes_bound(x / 256, (k - 1) as nat);
        }
    }
}

proof fn lemma_low_zero_bits_bound(x: nat, k: nat)
    requires
        0 < x < vstd::arithmetic::power::pow(2, k),
    ensures
        low_zero_bits(x) < k,
    decreases k,
{
    reveal(vstd::arithmetic::power::pow);
    if x % 2 == 0 {
        if k == 0 {
            assert(false);
        } else {
            let p = vstd::arithmetic::power::pow(2, (k - 1) as nat);
            assert(0 < x / 2 < p) by (nonlinear_arith)
                requires
                    x < 2 * p,
                    x > 0,
                    x % 2 == 0,
            ;
            lemma_low_zero_bits_bound(x / 2, (k - 1) as nat);
        }
    } else {
        if k == 0 {
            assert(false);
        }
    }
}

fn sig_bytes_exec(v: u64) -> (r: u64)
    ensures
        r == sig_bytes(v as nat),
        r <= 8,
{
    proof {
        reveal_with_fuel(vstd::arithmetic::power::pow, 9);
        assert(vstd::arithmetic::power::pow(256, 8) == 0x1_0000_0000_0000_0000);
        lemma_sig_bytes_bound(v as nat, 8);
    }
    let mut x: u64 = v;
    let mut n: u64 = 0;
    while x != 0
        invariant
            n + sig_bytes(x as nat) == sig_bytes(v as nat),
            sig_bytes(v as nat) <= 8,
        decreases x,
    {
        x = x / 256;
        n = n + 1;
    }
    n
}

proof fn lemma_pow2_64()
    ensures
        vstd::arithmetic::power::pow(2, 64) == 0x1_0000_0000_0000_0000,
{
    reveal_with_fuel(vstd::arithmetic::power::pow, 9);
    vstd::arithmetic::power::lemma_pow_multiplies(2, 8, 8);
    vstd::arithmetic::power::lemma_pow_multiplies(2, 8, 8);
    assert(vstd::arithmetic::power::pow(2, 8) == 256);
    vstd::arithmetic::power::lemma_pow_multiplies(2, 8, 8);
    assert(vstd::arithmetic::power::pow(256, 8) == 0x1_0000_0000_0000_0000);
}

fn low_zero_bits_exec(u: u64) -> (r: u64)
    requires
        u > 0,
    ensures
        r == low_zero_bits(u as nat),
        r < 64,
{
    proof {
        lemma_pow2_64();
        lemma_low_zero_bits_bound(u as nat, 64);
    }
    let mut x: u64 = u;
    let mut n: u64 = 0;
    while x % 2 == 0
        invariant
            x > 0,
            n + low_zero_bits(x as nat) == low_zero_bits(u as nat),
            low_zero_bits(u as nat) < 64,
        decreases x,
    {
        x = x / 2;
        n = n + 1;
    }
    n
}

/// the number of bytes that the assembler gives to a numeric token: the bytes of its significant
/// part (for a negative integer, of its low zero bits plus one, in whole bytes), 8 for a float,
/// and 1 at least
pub fn min_size(value: &Tok) -> (r: u64)
    ensures
        r == spec_min_size(value.view()),
        1 <= r <= 8,
{
    let val: u64 = match value {
        Tok::Addr(v) => sig_bytes_exec(*v as u64),
        Tok::Float(_) => 8,
        Tok::UInt(v) => sig_bytes_exec(*v),
        Tok::SInt(v) => if *v < 0 {
            let u: u64 = (*v as i128 + 0x1_0000_0000_0000_0000i128) as u64;
            (low_zero_bits_exec(u) + 1) / 8
        } else {
            sig_bytes_exec(*v as u64)
        },
        _ => 0,
    };
    if val == 0 {
        return 1;
    }
    val
}

impl Type {
    /// whether the type has a byte encoding: neither it nor a type inside it is `Unset` or `Auto`
    pub fn has_repr(&self) -> (r: bool)
        ensures
            r == has_repr(*self),
        decreases *self,
    {
        match self {
            Type::Unset | Type::Auto => false,
            Type::Sarr(_, inner) => (&**inner).has_repr(),
            Type::Uarr(inner) => (&**inner).has_repr(),
            Type::Ptr(inner) => (&**inner).has_repr(),
            _ => true,
        }
    }
}

/// the sizes of the fixed-size arrays in a type are below 64
pub open spec fn well_sized(t: Type) -> bool
    decreases t,
{
    match t {
        Type::Sarr(n, inner) => n < 64 && well_sized(*inner),
        Type::Uarr(inner) => well_sized(*inner),
        Type::Ptr(inner) => well_sized(*inner),
        Type::Auto => false,
        _ => true,
    }
}

proof fn lemma_type_code_injective(a: Type, b: Type)
    requires
        has_repr(a),
        has_repr(b),
        well_sized(a),
        well_sized(b),
        type_code(a) == type_code(b),
    ensures
        a is Sarr ==> b is Sarr && a->Sarr_0 == b->Sarr_0,
        a is Uarr ==> b is Uarr,
        a is Ptr ==> b is Ptr,
        !(a is Sarr) && !(a is Uarr) && !(a is Ptr) ==> a == b,
{
    match a {
        Type::Sarr(n, _) => {
            assert(n < 64 ==> 0x40 <= (0x40u8 | n) < 0x80 && (0x40u8 | n) - 0x40 == n) by (bit_vector);
            match b {
                Type::Sarr(m, _) => {
                    assert(m < 64 ==> 0x40 <= (0x40u8 | m) < 0x80 && (0x40u8 | m) - 0x40 == m) by (bit_vector);
                },
                _ => {},
            }
        },
        _ => {
            match b {
                Type::Sarr(m, _) => {
                    assert(m < 64 ==> 0x40 <= (0x40u8 | m) < 0x80) by (bit_vector);
                },
                _ => {},
            }
        },
    }
}

/// Law: the byte encoding of types is one to one on types that have an encoding and whose fixed
/// array sizes are below 64 (the types that `parse_type` reads): what is written identifies the
/// type.
pub proof fn law_type_bytes_injective(a: Type, b: Type)
    requires
        has_repr(a),
        has_repr(b),
        well_sized(a),
        well_sized(b),
        spec_type_bytes(a) == spec_type_bytes(b),
    ensures
        a == b,
    decreases a,
{
    assert(spec_type_bytes(a)[0] == type_code(a));
    assert(spec_type_bytes(b)[0] == type_code(b));
    lemma_type_code_injective(a, b);
    match a {
        Type::Sarr(n, x) => match b {
            Type::Sarr(m, y) => {
                assert(spec_type_bytes(*x) =~= spec_type_bytes(a).drop_first());
                assert(spec_type_bytes(*y) =~= spec_type_bytes(b).drop_first());
                law_type_bytes_injective(*x, *y);
            },
            _ => {},
        },
        Type::Uarr(x) => match b {
            Type::Uarr(y) => {
                assert(spec_type_bytes(*x) =~= spec_type_bytes(a).drop_first());
                assert(spec_type_bytes(*y) =~= spec_type_bytes(b).drop_first());
                law_type_bytes_injective(*x, *y);
            },
            _ => {},
        },
        Type::Ptr(x) => match b {
            Type::Ptr(y) => {
                assert(spec_type_bytes(*x) =~= spec_type_bytes(a).drop_first());
                assert(spec_type_bytes(*y) =~= spec_type_bytes(b).drop_first());
                law_type_bytes_injective(*x, *y);
            },
            _ => {},
        },
        _ => {},
    }
}

/// Law: no type's encoding (among types with an encoding and fixed array sizes below 64) is a
/// proper beginning of another's: an encoding can be read off a longer byte string without
/// knowing where it ends.
pub proof fn law_type_bytes_prefix_free(a: Type, b: Type)
    requires
        has_repr(a),
        has_repr(b),
        well_sized(a),
        well_sized(b),
        spec_type_bytes(a).len() <= spec_type_bytes(b).len(),
        spec_type_bytes(a) == spec_type_bytes(b).subrange(0, spec_type_bytes(a).len() as int),
    ensures
        a == b,
    decreases a,
{
    let ea = spec_type_bytes(a);
    let eb = spec_type_bytes(b);
    assert(ea[0] == type_code(a));
    assert(eb[0] == type_code(b));
    assert(eb.subrange(0, ea.len() as int)[0] == eb[0]);
    lemma_type_code_injective(a, b);
    match a {
        Type::Sarr(n, x) => match b {
            Type::Sarr(m, y) => {
                assert(spec_type_bytes(*x) =~= ea.drop_first());
                assert(spec_type_bytes(*y) =~= eb.drop_first());
                assert(ea.drop_first() =~= eb.drop_first().subrange(0, ea.len() - 1));
                law_type_bytes_prefix_free(*x, *y);
            },
            _ => {},
        },
        Type::Uarr(x) => match b {
            Type::Uarr(y) => {
                assert(spec_type_bytes(*x) =~= ea.drop_first());
                assert(spec_type_bytes(*y) =~= eb.drop_first());
                assert(ea.drop_first() =~= eb.drop_first().subrange(0, ea.len() - 1));
                law_type_bytes_prefix_free(*x, *y);
            },
            _ => {},
        },
        Type::Ptr(x) => match b {
            Type::Ptr(y) => {
                assert(spec_type_bytes(*x) =~= ea.drop_first());
                assert(spec_type_bytes(*y) =~= eb.drop_first());
                assert(ea.drop_first() =~= eb.drop_first().subrange(0, ea.len() - 1));
                law_type_bytes_prefix_free(*x, *y);
            },
            _ => {},
        },
        _ => {},
    }
}

/// the number of types nested in a type, itself included
pub open spec fn type_depth(t: Type) -> nat
    decreases t,
{
    match t {
        Type::Sarr(_, inner) => 1 + type_depth(*inner),
        Type::Uarr(inner) => 1 + type_depth(*inner),
        Type::Ptr(inner) => 1 + type_depth(*inner),
        _ => 1,
    }
}

/// Law: a type's encoding takes one byte for each type nested in it.
pub proof fn law_type_bytes_length(t: Type)
    ensures
        spec_type_bytes(t).len() == type_depth(t),
    decreases t,
{
    match t {
        Type::Sarr(_, inner) => law_type_bytes_length(*inner),
        Type::Uarr(inner) => law_type_bytes_length(*inner),
        Type::Ptr(inner) => law_type_bytes_length(*inner),
        _ => {},
    }
}

/// Law: `auto_eq` is reflexive and symmetric.
pub proof fn law_auto_eq_symmetric(a: Type, b: Type)
    ensures
        spec_auto_eq(a, a),
        spec_auto_eq(a, b) == spec_auto_eq(b, a),
{
}

/// Law: `RelTo::qualified_eq` is reflexive and symmetric, and `Absolute` matches every base.
pub proof fn law_relto_qualified_eq(a: RelTo, b: RelTo)
    ensures
        spec_relto_qualified_eq(a, a),
        spec_relto_qualified_eq(a, b) == spec_relto_qualified_eq(b, a),
        spec_relto_qualified_eq(RelTo::Absolute, b),
{
}

proof fn lemma_sig_bytes_range(v: nat)
    ensures
        v < vstd::arithmetic::power::pow(256, sig_bytes(v)),
        sig_bytes(v) > 0 ==> vstd::arithmetic::power::pow(256, (sig_bytes(v) - 1) as nat) <= v,
    decreases v,
{
    reveal(vstd::arithmetic::power::pow);
    if v != 0 {
        lemma_sig_bytes_range(v / 256);
        let n = sig_bytes(v / 256);
        let p = vstd::arithmetic::power::pow(256, n);
        assert(vstd::arithmetic::power::pow(256, n + 1) == 256 * p);
        assert(v < 256 * p) by (nonlinear_arith)
            requires
                v / 256 < p,
        ;
        if n > 0 {
            let q = vstd::arithmetic::power::pow(256, (n - 1) as nat);
            assert(p == 256 * q);
            assert(256 * q <= v) by (nonlinear_arith)
                requires
                    q <= v / 256,
            ;
        } else {
            assert(vstd::arithmetic::power::pow(256, 0) == 1);
        }
    }
}

/// Law: for an unsigned integer, `min_size` is the least number of bytes (one at least) that holds
/// its value.
pub proof fn law_min_size_uint(v: u64)
    ensures
        ({
            let n = spec_min_size(TokV::UInt(v)) as nat;
            &&& 1 <= n <= 8
            &&& v < vstd::arithmetic::power::pow(256, n)
            &&& n > 1 ==> vstd::arithmetic::power::pow(256, (n - 1) as nat) <= v
        }),
{
    lemma_sig_bytes_range(v as nat);
    reveal_with_fuel(vstd::arithmetic::power::pow, 9);
    assert(vstd::arithmetic::power::pow(256, 8) == 0x1_0000_0000_0000_0000);
    lemma_sig_bytes_bound(v as nat, 8);
    if sig_bytes(v as nat) == 0 {
        assert(vstd::arithmetic::power::pow(256, 1) == 256);
    }
}

/// the number of bytes of an integer type's values, and whether it is signed
pub open spec fn int_type_layout(t: Type) -> Option<(int, bool)> {
    match t {
        Type::U8 => Some((1, false)),
        Type::U16 => Some((2, false)),
        Type::U32 => Some((4, false)),
        Type::U64 => Some((8, false)),
        Type::U128 => Some((16, false)),
        Type::S8 => Some((1, true)),
        Type::S16 => Some((2, true)),
        Type::S32 => Some((4, true)),
        Type::S64 => Some((8, true)),
        Type::S128 => Some((16, true)),
        _ => None,
    }
}

/// Law: an integer type is encoded in one byte: its size in bytes plus 0x80 where it is
/// unsigned, plus 0xc0 where it is signed. An array of unknown length is the byte 4 followed by
/// its element type; an array of `n` elements (below 64) is `0x40 + n` followed by its element
/// type; a pointer is the byte 1 followed by the type it points to.
pub proof fn law_type_codes(t: Type)
    ensures
        int_type_layout(t) matches Some((n, signed)) ==> spec_type_bytes(t) == seq![((if signed { 0xc0int } else { 0x80int }) + n) as u8],
        t matches Type::Uarr(inner) ==> spec_type_bytes(t) == seq![4u8] + spec_type_bytes(*inner),
        t matches Type::Sarr(n, inner) ==> (n < 64 ==> spec_type_bytes(t) == seq![(0x40 + n) as u8] + spec_type_bytes(*inner)),
        t matches Type::Ptr(inner) ==> spec_type_bytes(t) == seq![1u8] + spec_type_bytes(*inner),
{
    match t {
        Type::Sarr(n, inner) => {
            assert(n < 64 ==> 0x40u8 | n == (0x40 + n) as u8) by (bit_vector);
        },
        _ => {},
    }
}

} // verus!
