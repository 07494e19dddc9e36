use tas::emit::{emit_checked, FloatSrc, Image, Piece, Refs};
use tas::errors::{Report, Subject};
use tas::mnemonics::{Register, M, O, P};
use tas::types::{Keyword, RelTo, Section, Tok, Token, Type};

fn tk(tok: Tok<'static>) -> Token<'static> {
    Token { tok, line: 1, column: 1 }
}

fn at(tok: Tok<'static>, line: u32, column: u32) -> Token<'static> {
    Token { tok, line, column }
}

fn reg(r: Register) -> (O, Token<'static>) {
    (if r.value() < 16 { O::Reg } else { O::XReg }, tk(Tok::Reg(r)))
}

fn imm(t: Tok<'static>) -> (O, Token<'static>) {
    (O::Imm, tk(t))
}

fn ins(m: M, pres: Vec<P>, ops: Vec<(O, Token<'static>)>) -> Token<'static> {
    tk(Tok::Instruction(m, pres, ops, RelTo::Absolute))
}

/// a configuration, then a code section that starts with the label `start`
fn program(code: Vec<Token<'static>>, tail: Vec<Token<'static>>) -> Vec<Token<'static>> {
    let mut v = vec![
        tk(Tok::Section(Section::Conf)),
        tk(Tok::KwDecl(Keyword::Purpose, Box::new(Tok::UInt(1)))),
        tk(Tok::KwDecl(Keyword::Name, Box::new(Tok::String(b"n")))),
        tk(Tok::KwDecl(Keyword::Invar, Box::new(Tok::UInt(0)))),
        tk(Tok::Section(Section::Code)),
        tk(Tok::Label(b"start")),
    ];
    v.extend(code);
    v.extend(tail);
    v
}

fn run(toks: Vec<Token<'static>>, dry: bool) -> (Option<Option<Image<'static>>>, Vec<Report>) {
    let mut reports = Vec::new();
    let r = emit_checked(toks, dry, &mut reports);
    (r, reports)
}

fn bytes(p: &[Piece]) -> Vec<u8> {
    p.iter()
        .map(|x| match x {
            Piece::Byte(b) => *b,
            Piece::F64(_) | Piece::F32(_) => panic!("float piece"),
        })
        .collect()
}

fn code_of(code: Vec<Token<'static>>) -> Vec<u8> {
    let (r, reports) = run(program(code, vec![]), false);
    assert!(reports.is_empty(), "{:?}", reports);
    bytes(&r.unwrap().unwrap().code)
}

#[test]
fn encodes_register_arithmetic() {
    let code = code_of(vec![ins(M::ADD, vec![], vec![reg(Register::R1), reg(Register::R2)])]);
    assert_eq!(code, vec![0x00, 0x12]);
    let code = code_of(vec![ins(M::CMP, vec![], vec![reg(Register::R3), reg(Register::R0)])]);
    assert_eq!(code, vec![0x1d, 0x30]);
}

#[test]
fn extended_registers_add_the_era_prefix() {
    let code = code_of(vec![ins(M::ADD, vec![], vec![reg(Register::RF0), reg(Register::R1)])]);
    assert_eq!(code, vec![0x44, 0x00, 20, 1]);
}

#[test]
fn negative_immediates_add_the_sign_prefix() {
    let code = code_of(vec![ins(M::SUB, vec![], vec![reg(Register::R1), imm(Tok::SInt(-2))])]);
    assert_eq!(code, vec![0x50, 0x05, 0x10, 0xfe]);
}

#[test]
fn encodes_moves() {
    let code = code_of(vec![ins(M::MOV, vec![], vec![reg(Register::R3), imm(Tok::UInt(0x1234))])]);
    assert_eq!(code, vec![0x2d, 0x31, 0x12, 0x34]);
    let code = code_of(vec![ins(M::MOV, vec![], vec![reg(Register::R3), reg(Register::R4)])]);
    assert_eq!(code, vec![0x34]);
    let code = code_of(vec![ins(M::MOV, vec![], vec![reg(Register::R2), (O::AMem, tk(Tok::Addr(0x0102)))])]);
    assert_eq!(code, vec![0x2c, 0x21, 0x01, 0x02]);
}

#[test]
fn encodes_bitwise_shifts_and_single_register_instructions() {
    let code = code_of(vec![
        ins(M::XOR, vec![], vec![reg(Register::R1), reg(Register::R2)]),
        ins(M::AND, vec![], vec![reg(Register::R1), imm(Tok::UInt(5))]),
        ins(M::SHL, vec![], vec![reg(Register::R4), reg(Register::R5)]),
        ins(M::NOT, vec![], vec![reg(Register::R6)]),
        ins(M::TEST, vec![], vec![reg(Register::R7)]),
        ins(M::PUSH, vec![], vec![reg(Register::R8)]),
        ins(M::POP, vec![], vec![reg(Register::SP)]),
        ins(M::RET, vec![], vec![]),
        ins(M::HLT, vec![], vec![]),
        ins(M::SYSCALL, vec![], vec![]),
    ]);
    assert_eq!(
        code,
        vec![0x12, 0x12, 0x1a, 0x10, 0x05, 0x0f, 0x45, 0x12, 0x6d, 0x1d, 0x7f, 0x1b, 8, 0x1c, 16, 0x29, 0x3f, 0x2a]
    );
}

#[test]
fn encodes_jumps_to_labels_and_numbers() {
    let code = code_of(vec![
        ins(M::JMP, vec![], vec![imm(Tok::Word(b"start"))]),
        ins(M::JNZ, vec![], vec![imm(Tok::UInt(0x0304))]),
        ins(M::JA, vec![], vec![reg(Register::R2)]),
        ins(M::JMP, vec![P::Call], vec![imm(Tok::Word(b"start"))]),
        ins(M::JL, vec![], vec![imm(Tok::SInt(-1))]),
    ]);
    assert_eq!(
        code,
        vec![0x22, 0x04, 0x00, 0x00, 0x24, 0x0c, 0x03, 0x04, 0x27, 0x21, 0x45, 0x22, 0x06, 0, 0, 0, 0, 0x25, 0x0c, 0xff, 0xff]
    );
}

#[test]
fn calls_to_index_entries_use_the_entry_number() {
    let toks = program(
        vec![ins(M::JMP, vec![P::Call], vec![imm(Tok::Word(b"start"))])],
        vec![tk(Tok::Section(Section::Indx)), tk(Tok::Signature(b"start", vec![], Type::U8))],
    );
    let (r, reports) = run(toks, false);
    assert!(reports.is_empty());
    assert_eq!(bytes(&r.unwrap().unwrap().code), vec![0x45, 0x22, 0x04, 0x00, 0x00]);
}

#[test]
fn forward_labels_take_four_bytes() {
    let code = code_of(vec![
        ins(M::MOV, vec![], vec![reg(Register::R1), imm(Tok::Word(b"later"))]),
        tk(Tok::Label(b"later")),
        ins(M::MOV, vec![], vec![reg(Register::R1), imm(Tok::Word(b"later"))]),
    ]);
    // the first move is laid out in six bytes, so `later` is at offset 6; the second move
    // knows that the offset takes one byte
    assert_eq!(code, vec![0x2d, 0x12, 0, 0, 0, 6, 0x2d, 0x10, 6]);
}

#[test]
fn layout_offsets_reach_the_index() {
    let toks = program(
        vec![ins(M::ADD, vec![], vec![reg(Register::R1), reg(Register::R2)]), tk(Tok::Label(b"next"))],
        vec![tk(Tok::Section(Section::Indx)), tk(Tok::Signature(b"next", vec![], Type::U8))],
    );
    let (r, reports) = run(toks, false);
    assert!(reports.is_empty());
    let im = r.unwrap().unwrap();
    assert_eq!(bytes(&im.indx), vec![0, 1, 4, b'n', b'e', b'x', b't', 0, 0, 0, 2, 0, 0x81]);
    assert_eq!(im.labels.get(b"start"), Some((1, 0, Refs::Code)));
    assert_eq!(im.labels.get(b"next"), Some((1, 2, Refs::Code)));
    assert_eq!(im.index.get(b"next"), Some(0));
    assert_eq!(im.index.get(b"start"), None);
}

#[test]
fn float_immediates_in_fp_instructions() {
    let (r, reports) = run(
        program(vec![ins(M::MOV, vec![P::Fp, P::QWord], vec![reg(Register::R1), imm(Tok::Float(b"2.5"))])], vec![]),
        false,
    );
    assert!(reports.is_empty());
    let im = r.unwrap().unwrap();
    assert_eq!(im.code.len(), 5);
    assert!(matches!(im.code[0..4], [Piece::Byte(0x51), Piece::Byte(0x43), Piece::Byte(0x2d), Piece::Byte(0x13)]));
    assert!(matches!(im.code[4], Piece::F64(FloatSrc::Text(t)) if t == b"2.5"));
    let (r, _) = run(
        program(vec![ins(M::ADD, vec![P::Fp], vec![reg(Register::R1), imm(Tok::UInt(3))])], vec![]),
        false,
    );
    let im = r.unwrap().unwrap();
    assert!(matches!(im.code[0..3], [Piece::Byte(0x51), Piece::Byte(0x02), Piece::Byte(0x12)]));
    assert!(matches!(im.code[3], Piece::F32(FloatSrc::UInt(3))));
}

#[test]
fn instruction_errors() {
    let cases: Vec<(Token<'static>, &str)> = vec![
        (ins(M::ADD, vec![P::Byte, P::Word], vec![reg(Register::R1), reg(Register::R2)]), "conflicting sizes"),
        (ins(M::JMP, vec![P::Call, P::Call], vec![reg(Register::R1)]), "duplicate call prefix"),
        (ins(M::ADD, vec![P::Fp, P::Fp], vec![reg(Register::R1), reg(Register::R2)]), "duplicate fp prefix"),
        (ins(M::XOR, vec![], vec![reg(Register::RF1), reg(Register::R2)]), "'XOR' instruction is not ERA COMPAT"),
        (ins(M::ADD, vec![], vec![reg(Register::R1), imm(Tok::Word(b"nowhere"))]), "cannot find label"),
        (ins(M::ADD, vec![P::Fp], vec![reg(Register::R1), imm(Tok::Word(b"start"))]), "illegal fp conversion"),
        (ins(M::ADD, vec![P::Fp, P::Byte], vec![reg(Register::R1), imm(Tok::UInt(1))]), "float literals require at least dword size"),
        (ins(M::MOV, vec![], vec![reg(Register::R1), imm(Tok::Float(b"1.0"))]), "must mark instruction as 'fp' when using float literals"),
        (ins(M::CMPXCHG, vec![], vec![reg(Register::R1), reg(Register::R2)]), "unimplemented mnemonic 'CMPXCHG'"),
    ];
    for (t, msg) in cases {
        let (r, reports) = run(program(vec![t], vec![]), false);
        assert!(r.unwrap().is_none(), "{}", msg);
        assert_eq!(reports.len(), 1, "{}", msg);
        assert!(!reports[0].warning);
        assert_eq!(reports[0].err.message, msg);
    }
}

#[test]
fn errors_point_at_the_operand() {
    let t = tk(Tok::Instruction(
        M::ADD,
        vec![],
        vec![reg(Register::R1), (O::Imm, at(Tok::Word(b"nowhere"), 7, 9))],
        RelTo::Absolute,
    ));
    let (_, reports) = run(program(vec![t], vec![]), false);
    assert_eq!((reports[0].err.line, reports[0].err.column), (7, 9));
}

#[test]
fn dry_runs_pass_over_unencoded_mnemonics() {
    let (r, reports) = run(
        program(vec![ins(M::CMPXCHG, vec![P::DWord], vec![reg(Register::R1), reg(Register::R2)])], vec![]),
        true,
    );
    assert!(reports.is_empty());
    assert_eq!(bytes(&r.unwrap().unwrap().code), vec![0x42]);
}

#[test]
fn bases_precede_the_opcode() {
    let t = tk(Tok::Instruction(M::ADD, vec![], vec![reg(Register::R1), reg(Register::R2)], RelTo::Reg(Register::BP)));
    let code = code_of(vec![t]);
    assert_eq!(code, vec![0x49, 0x51, 0x00, 0x12]);
    let t = tk(Tok::Instruction(M::ADD, vec![], vec![reg(Register::R1), reg(Register::R2)], RelTo::Data));
    assert_eq!(code_of(vec![t]), vec![0x4b, 0x00, 0x12]);
}

#[test]
fn malformed_instructions_stop_emission() {
    // a missing second operand
    let (r, _) = run(program(vec![ins(M::ADD, vec![], vec![reg(Register::R1)])], vec![]), false);
    assert!(r.is_none());
    // a register operand whose token is no register
    let (r, _) = run(program(vec![ins(M::NOT, vec![], vec![(O::Reg, tk(Tok::UInt(1)))])], vec![]), false);
    assert!(r.is_none());
    // a store through a register: the layout cannot size a dereference that holds a register
    let deref = (O::RMem, tk(Tok::Deref(vec![tk(Tok::Reg(Register::R1))])));
    let (r, _) = run(program(vec![ins(M::MOV, vec![], vec![deref, reg(Register::R2)])], vec![]), false);
    assert!(r.is_none());
    // an instruction outside the code section
    let mut toks = program(vec![], vec![]);
    toks.insert(1, ins(M::RET, vec![], vec![]));
    let (r, _) = run(toks, false);
    assert!(r.is_none());
}

#[test]
fn prefixes_then_added_prefixes_then_base() {
    let t = tk(Tok::Instruction(M::ADD, vec![P::DWord], vec![reg(Register::RF0), reg(Register::R1)], RelTo::Invar));
    assert_eq!(code_of(vec![t]), vec![0x42, 0x44, 0x4c, 0x00, 20, 1]);
}

#[test]
fn missing_labels_are_named_with_their_parent() {
    let t = ins(M::ADD, vec![], vec![reg(Register::R1), imm(Tok::Word(b".inner"))]);
    let (r, reports) = run(program(vec![t], vec![]), false);
    assert!(r.unwrap().is_none());
    assert_eq!(reports[0].err.message, "cannot find label");
    assert!(matches!(&reports[0].subject, Subject::Name(n) if n == b"start.inner"));
    let t = ins(M::ADD, vec![], vec![reg(Register::R1), imm(Tok::Word(b"nowhere"))]);
    let (_, reports) = run(program(vec![t], vec![]), false);
    assert!(matches!(&reports[0].subject, Subject::Name(n) if n == b"nowhere"));
}
