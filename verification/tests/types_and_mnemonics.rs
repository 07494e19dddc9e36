use tas::mnemonics::{allowed_patterns, OpPattern, Register, M, O, P};
use tas::types::{min_size, RelTo, Tok, Token, Type};

#[test]
fn min_size_of_numbers() {
    // the values the original's self test checks
    assert_eq!(min_size(&Tok::UInt(0)), 1);
    assert_eq!(min_size(&Tok::SInt(0)), 1);
    assert_eq!(min_size(&Tok::SInt(-1)), 1);
    assert_eq!(min_size(&Tok::UInt(0x8000)), 2);
    assert_eq!(min_size(&Tok::SInt(-32768)), 2);
    // more
    assert_eq!(min_size(&Tok::UInt(255)), 1);
    assert_eq!(min_size(&Tok::UInt(256)), 2);
    assert_eq!(min_size(&Tok::UInt(u64::MAX)), 8);
    assert_eq!(min_size(&Tok::Addr(0x1_0000)), 3);
    assert_eq!(min_size(&Tok::SInt(i64::MIN)), 8);
    assert_eq!(min_size(&Tok::SInt(300)), 2);
    assert_eq!(min_size(&Tok::Float(b"2.5")), 8);
    assert_eq!(min_size(&Tok::Newline), 1);
}

#[test]
fn min_size_is_least_that_holds_the_value() {
    for v in [1u64, 200, 256, 65535, 65536, 1 << 40, u64::MAX] {
        let n = min_size(&Tok::UInt(v)) as u32;
        assert!(n == 8 || v < 1u64 << (8 * n));
        if n > 1 {
            assert!(v >= 1u64 << (8 * (n - 1)));
        }
    }
}

#[test]
fn type_encodings() {
    assert_eq!(Type::U8.to_bytes(), vec![0x81]);
    assert_eq!(Type::S128.to_bytes(), vec![0xd0]);
    assert_eq!(Type::Void.to_bytes(), vec![0x00]);
    assert_eq!(Type::Sarr(5, Box::new(Type::U16)).to_bytes(), vec![0x45, 0x82]);
    assert_eq!(Type::Uarr(Box::new(Type::Ptr(Box::new(Type::Any)))).to_bytes(), vec![0x04, 0x01, 0x05]);
    assert_eq!(Type::Invalid.to_bytes(), vec![0xff]);
}

#[test]
fn type_encoding_identifies_type() {
    let types = vec![
        Type::U8, Type::U16, Type::U32, Type::U64, Type::U128, Type::S8, Type::S16, Type::S32,
        Type::S64, Type::S128, Type::Void, Type::Sstr, Type::Lstr, Type::Struct, Type::Any,
        Type::Invalid, Type::Sarr(0, Box::new(Type::U8)), Type::Sarr(63, Box::new(Type::U8)),
        Type::Uarr(Box::new(Type::U8)), Type::Ptr(Box::new(Type::U8)),
        Type::Ptr(Box::new(Type::Uarr(Box::new(Type::U8)))),
    ];
    for (i, a) in types.iter().enumerate() {
        for (j, b) in types.iter().enumerate() {
            assert_eq!(a.to_bytes() == b.to_bytes(), i == j);
        }
        assert!(a.has_repr());
    }
    assert!(!Type::Unset.has_repr());
    assert!(!Type::Ptr(Box::new(Type::Auto)).has_repr());
}

#[test]
fn auto_eq_matches() {
    assert!(Type::U8.auto_eq(&Type::U8));
    assert!(!Type::U8.auto_eq(&Type::U16));
    assert!(Type::Auto.auto_eq(&Type::U16));
    assert!(Type::U16.auto_eq(&Type::Auto));
    assert_eq!(Type::S8.auto_eq(&Type::Void), Type::Void.auto_eq(&Type::S8));
}

#[test]
fn relto_matches() {
    assert!(RelTo::Absolute.qualified_eq(&RelTo::Data));
    assert!(RelTo::Data.qualified_eq(&RelTo::Absolute));
    assert!(RelTo::Data.qualified_eq(&RelTo::Data));
    assert!(!RelTo::Data.qualified_eq(&RelTo::Invar));
    assert!(RelTo::Reg(Register::R1).qualified_eq(&RelTo::Reg(Register::R1)));
    assert!(!RelTo::Reg(Register::R1).qualified_eq(&RelTo::Reg(Register::R2)));
}

#[test]
fn registers() {
    assert_eq!(Register::from_word(b"r0"), Some(Register::R0));
    assert_eq!(Register::from_word(b"r13"), Some(Register::RONES));
    assert_eq!(Register::from_word(b"rones"), Some(Register::RONES));
    assert_eq!(Register::from_word(b"r15"), Some(Register::RZERO));
    assert_eq!(Register::from_word(b"sp"), Some(Register::SP));
    assert_eq!(Register::from_word(b"rf5"), Some(Register::RF5));
    assert_eq!(Register::from_word(b"r16"), None);
    assert_eq!(Register::R12.rtype(), O::Reg);
    assert_eq!(Register::RZERO.rtype(), O::Reg);
    assert_eq!(Register::SP.rtype(), O::XReg);
    assert_eq!(Register::RF0.value(), 20);
}

#[test]
fn mnemonics_and_prefixes() {
    assert_eq!(M::from_word(b"add"), Some(M::ADD));
    assert_eq!(M::from_word(b"cmpxchg"), Some(M::CMPXCHG));
    assert_eq!(M::from_word(b"jle"), Some(M::JLE));
    assert_eq!(M::from_word(b"hlt"), Some(M::HLT));
    assert_eq!(M::from_word(b"ADD"), None);
    assert_eq!(P::from_word(b"qword"), Some(P::QWord));
    assert_eq!(P::from_word(b"call"), Some(P::Call));
    assert_eq!(P::from_word(b"near"), None);
}

#[test]
fn operand_kinds() {
    assert!(O::Reg.qualified_eq(&O::XReg));
    assert!(!O::XReg.qualified_eq(&O::Reg));
    assert!(O::AMem.qualified_eq(&O::RMem));
    assert!(!O::RMem.qualified_eq(&O::AMem));
    assert!(O::Imm.qualified_eq(&O::Imm));
}

fn op(kind: O) -> (O, Token<'static>) {
    (kind, Token { tok: Tok::Newline, line: 1, column: 1 })
}

#[test]
fn instruction_forms() {
    assert_eq!(allowed_patterns().len(), 37);
    let p = OpPattern::try_find(M::ADD, &vec![P::QWord], &vec![op(O::Reg), op(O::Imm)]).unwrap();
    assert_eq!(p.0, M::ADD);
    assert_eq!(p.1, vec![P::QWord]);
    assert_eq!(p.2, vec![O::Reg, O::Imm]);
    // add takes no fp prefix, mul does
    assert!(OpPattern::try_find(M::ADD, &vec![P::Fp], &vec![op(O::Reg), op(O::Reg)]).is_none());
    assert!(OpPattern::try_find(M::MUL, &vec![P::Fp], &vec![op(O::Reg), op(O::Reg)]).is_some());
    // wrong number of operands
    assert!(OpPattern::try_find(M::NOT, &vec![], &vec![op(O::Reg), op(O::Reg)]).is_none());
    assert!(OpPattern::try_find(M::RET, &vec![], &vec![]).is_some());
    // an extended register does not fit where a general one is required
    assert!(OpPattern::try_find(M::SHL, &vec![], &vec![op(O::XReg), op(O::Reg)]).is_none());
    assert!(OpPattern::try_find(M::JMP, &vec![P::Call], &vec![op(O::RMem)]).is_some());
    assert!(OpPattern::try_find(M::JMP, &vec![], &vec![op(O::Imm)]).is_none());
}

#[test]
fn type_encodings_are_prefix_free() {
    let types = vec![
        Type::U8,
        Type::S32,
        Type::Void,
        Type::Uarr(Box::new(Type::U8)),
        Type::Uarr(Box::new(Type::Uarr(Box::new(Type::U8)))),
        Type::Sarr(3, Box::new(Type::U16)),
        Type::Sarr(3, Box::new(Type::Ptr(Box::new(Type::U16)))),
        Type::Ptr(Box::new(Type::Struct)),
    ];
    for (i, a) in types.iter().enumerate() {
        for (j, b) in types.iter().enumerate() {
            let (ea, eb) = (a.to_bytes(), b.to_bytes());
            if i != j && ea.len() <= eb.len() {
                assert_ne!(&eb[..ea.len()], &ea[..], "{:?} {:?}", a, b);
            }
        }
    }
}

#[test]
fn mnemonic_names_read_back() {
    let all = [
        M::ADD, M::SUB, M::MUL, M::IMUL, M::DIV, M::IDIV, M::SHL, M::SHR, M::SAR, M::XOR, M::NOT, M::OR, M::AND,
        M::PUSH, M::POP, M::CMP, M::TEST, M::XCHG, M::CMPXCHG, M::JMP, M::JZ, M::JE, M::JNZ, M::JNE, M::JA, M::JAE,
        M::JG, M::JGE, M::JB, M::JBE, M::JL, M::JLE, M::RET, M::SYSCALL, M::CALL, M::MOV, M::HLT,
    ];
    for m in all {
        let name = format!("{:?}", m).to_lowercase();
        assert_eq!(M::from_word(name.as_bytes()), Some(m));
        assert_eq!(M::from_word(format!("{:?}", m).as_bytes()), None);
    }
    assert_eq!(M::from_word(b"addx"), None);
}
