//! instruction mnemonics, prefixes, operand kinds and registers

use vstd::prelude::*;
use crate::text::{lit, bytes_eq_str};
use crate::types::{Tok, Token};

verus! {

#[derive(Debug, Clone, Copy, PartialEq, Eq, Structural)]
pub enum Register {
    R0,
    R1,
    R2,
    R3,
    R4,
    R5,
    R6,
    R7,
    R8,
    R9,
    R10,
    R11,
    R12,
    RONES,
    RONE,
    RZERO,
    SP,
    BP,
    PC,
    CF,
    RF0,
    RF1,
    RF2,
    RF3,
    RF4,
    RF5,
}

/// the value that `from_word` gives for a word
pub open spec fn spec_register_from_word(w: Seq<u8>) -> Option<Register> {
    if w == lit("r0") {
        Some(Register::R0)
    } else if w == lit("r1") {
        Some(Register::R1)
    } else if w == lit("r2") {
        Some(Register::R2)
    } else if w == lit("r3") {
        Some(Register::R3)
    } else if w == lit("r4") {
        Some(Register::R4)
    } else if w == lit("r5") {
        Some(Register::R5)
    } else if w == lit("r6") {
        Some(Register::R6)
    } else if w == lit("r7") {
        Some(Register::R7)
    } else if w == lit("r8") {
        Some(Register::R8)
    } else if w == lit("r9") {
        Some(Register::R9)
    } else if w == lit("r10") {
        Some(Register::R10)
    } else if w == lit("r11") {
        Some(Register::R11)
    } else if w == lit("r12") {
        Some(Register::R12)
    } else if w == lit("rones") {
        Some(Register::RONES)
    } else if w == lit("r13") {
        Some(Register::RONES)
    } else if w == lit("rone") {
        Some(Register::RONE)
    } else if w == lit("r14") {
        Some(Register::RONE)
    } else if w == lit("rzero") {
        Some(Register::RZERO)
    } else if w == lit("r15") {
        Some(Register::RZERO)
    } else if w == lit("sp") {
        Some(Register::SP)
    } else if w == lit("bp") {
        Some(Register::BP)
    } else if w == lit("pc") {
        Some(Register::PC)
    } else if w == lit("cf") {
        Some(Register::CF)
    } else if w == lit("rf0") {
        Some(Register::RF0)
    } else if w == lit("rf1") {
        Some(Register::RF1)
    } else if w == lit("rf2") {
        Some(Register::RF2)
    } else if w == lit("rf3") {
        Some(Register::RF3)
    } else if w == lit("rf4") {
        Some(Register::RF4)
    } else if w == lit("rf5") {
        Some(Register::RF5)
    } else {
        None
    }
}

/// the number that encodes a register in machine code
pub open spec fn spec_register_value(r: Register) -> u8 {
    match r {
        Register::R0 => 0,
        Register::R1 => 1,
        Register::R2 => 2,
        Register::R3 => 3,
        Register::R4 => 4,
        Register::R5 => 5,
        Register::R6 => 6,
        Register::R7 => 7,
        Register::R8 => 8,
        Register::R9 => 9,
        Register::R10 => 10,
        Register::R11 => 11,
        Register::R12 => 12,
        Register::RONES => 13,
        Register::RONE => 14,
        Register::RZERO => 15,
        Register::SP => 16,
        Register::BP => 17,
        Register::PC => 18,
        Register::CF => 19,
        Register::RF0 => 20,
        Register::RF1 => 21,
        Register::RF2 => 22,
        Register::RF3 => 23,
        Register::RF4 => 24,
        Register::RF5 => 25,
    }
}

impl Register {
    /// recognizes a register name
    pub fn from_word(word: &[u8]) -> (r: Option<Self>)
        ensures
            r == spec_register_from_word(word@),
    {
        if bytes_eq_str(word, "r0") {
            return Some(Self::R0);
        }
        if bytes_eq_str(word, "r1") {
            return Some(Self::R1);
        }
        if bytes_eq_str(word, "r2") {
            return Some(Self::R2);
        }
        if bytes_eq_str(word, "r3") {
            return Some(Self::R3);
        }
        if bytes_eq_str(word, "r4") {
            return Some(Self::R4);
        }
        if bytes_eq_str(word, "r5") {
            return Some(Self::R5);
        }
        if bytes_eq_str(word, "r6") {
            return Some(Self::R6);
        }
        if bytes_eq_str(word, "r7") {
            return Some(Self::R7);
        }
        if bytes_eq_str(word, "r8") {
            return Some(Self::R8);
        }
        if bytes_eq_str(word, "r9") {
            return Some(Self::R9);
        }
        if bytes_eq_str(word, "r10") {
            return Some(Self::R10);
        }
        if bytes_eq_str(word, "r11") {
            return Some(Self::R11);
        }
        if bytes_eq_str(word, "r12") {
            return Some(Self::R12);
        }
        if bytes_eq_str(word, "rones") {
            return Some(Self::RONES);
        }
        if bytes_eq_str(word, "r13") {
            return Some(Self::RONES);
        }
        if bytes_eq_str(word, "rone") {
            return Some(Self::RONE);
        }
        if bytes_eq_str(word, "r14") {
            return Some(Self::RONE);
        }
        if bytes_eq_str(word, "rzero") {
            return Some(Self::RZERO);
        }
        if bytes_eq_str(word, "r15") {
            return Some(Self::RZERO);
        }
        if bytes_eq_str(word, "sp") {
            return Some(Self::SP);
        }
        if bytes_eq_str(word, "bp") {
            return Some(Self::BP);
        }
        if bytes_eq_str(word, "pc") {
            return Some(Self::PC);
        }
        if bytes_eq_str(word, "cf") {
            return Some(Self::CF);
        }
        if bytes_eq_str(word, "rf0") {
            return Some(Self::RF0);
        }
        if bytes_eq_str(word, "rf1") {
            return Some(Self::RF1);
        }
        if bytes_eq_str(word, "rf2") {
            return Some(Self::RF2);
        }
        if bytes_eq_str(word, "rf3") {
            return Some(Self::RF3);
        }
        if bytes_eq_str(word, "rf4") {
            return Some(Self::RF4);
        }
        if bytes_eq_str(word, "rf5") {
            return Some(Self::RF5);
        }
        None
    }

    /// the number that encodes the register in machine code
    pub fn value(&self) -> (r: u8)
        ensures
            r == spec_register_value(*self),
            r < 26,
    {
        match self {
            Register::R0 => 0,
            Register::R1 => 1,
            Register::R2 => 2,
            Register::R3 => 3,
            Register::R4 => 4,
            Register::R5 => 5,
            Register::R6 => 6,
            Register::R7 => 7,
            Register::R8 => 8,
            Register::R9 => 9,
            Register::R10 => 10,
            Register::R11 => 11,
            Register::R12 => 12,
            Register::RONES => 13,
            Register::RONE => 14,
            Register::RZERO => 15,
            Register::SP => 16,
            Register::BP => 17,
            Register::PC => 18,
            Register::CF => 19,
            Register::RF0 => 20,
            Register::RF1 => 21,
            Register::RF2 => 22,
            Register::RF3 => 23,
            Register::RF4 => 24,
            Register::RF5 => 25,
        }
    }

    /// the operand kind of a register: one of the sixteen general registers, or an extended one
    pub fn rtype(&self) -> (r: O)
        ensures
            r == (if spec_register_value(*self) < 16 { O::Reg } else { O::XReg }),
    {
        if self.value() < 16 {
            return O::Reg;
        }
        O::XReg
    }
}

#[derive(Debug, Clone, Copy, PartialEq, Eq, Structural)]
pub enum M {
    ADD,
    SUB,
    MUL,
    IMUL,
    DIV,
    IDIV,
    SHL,
    SHR,
    SAR,
    XOR,
    NOT,
    OR,
    AND,
    PUSH,
    POP,
    CMP,
    TEST,
    XCHG,
    CMPXCHG,
    JMP,
    JZ,
    JE,
    JNZ,
    JNE,
    JA,
    JAE,
    JG,
    JGE,
    JB,
    JBE,
    JL,
    JLE,
    RET,
    SYSCALL,
    CALL,
    MOV,
    HLT,
}

/// the value that `from_word` gives for a word
pub open spec fn spec_mnemonic_from_word(w: Seq<u8>) -> Option<M> {
    if w == lit("add") {
        Some(M::ADD)
    } else if w == lit("sub") {
        Some(M::SUB)
    } else if w == lit("mul") {
        Some(M::MUL)
    } else if w == lit("imul") {
        Some(M::IMUL)
    } else if w == lit("div") {
        Some(M::DIV)
    } else if w == lit("idiv") {
        Some(M::IDIV)
    } else if w == lit("shl") {
        Some(M::SHL)
    } else if w == lit("shr") {
        Some(M::SHR)
    } else if w == lit("sar") {
        Some(M::SAR)
    } else if w == lit("xor") {
        Some(M::XOR)
    } else if w == lit("not") {
        Some(M::NOT)
    } else if w == lit("or") {
        Some(M::OR)
    } else if w == lit("and") {
        Some(M::AND)
    } else if w == lit("push") {
        Some(M::PUSH)
    } else if w == lit("pop") {
        Some(M::POP)
    } else if w == lit("cmp") {
        Some(M::CMP)
    } else if w == lit("test") {
        Some(M::TEST)
    } else if w == lit("xchg") {
        Some(M::XCHG)
    } else if w == lit("cmpxchg") {
        Some(M::CMPXCHG)
    } else if w == lit("jmp") {
        Some(M::JMP)
    } else if w == lit("jz") {
        Some(M::JZ)
    } else if w == lit("je") {
        Some(M::JE)
    } else if w == lit("jnz") {
        Some(M::JNZ)
    } else if w == lit("jne") {
        Some(M::JNE)
    } else if w == lit("ja") {
        Some(M::JA)
    } else if w == lit("jae") {
        Some(M::JAE)
    } else if w == lit("jg") {
        Some(M::JG)
    } else if w == lit("jge") {
        Some(M::JGE)
    } else if w == lit("jb") {
        Some(M::JB)
    } else if w == lit("jbe") {
        Some(M::JBE)
    } else if w == lit("jl") {
        Some(M::JL)
    } else if w == lit("jle") {
        Some(M::JLE)
    } else if w == lit("ret") {
        Some(M::RET)
    } else if w == lit("syscall") {
        Some(M::SYSCALL)
    } else if w == lit("call") {
        Some(M::CALL)
    } else if w == lit("mov") {
        Some(M::MOV)
    } else if w == lit("hlt") {
        Some(M::HLT)
    } else {
        None
    }
}

impl M {
    /// recognizes an instruction mnemonic
    /// whether the mnemonic is a jump or a call
    pub open spec fn spec_is_jmp(&self) -> bool {
        matches!(*self, M::JMP | M::JZ | M::JE | M::JNZ | M::JNE | M::JA | M::JAE | M::JG | M::JGE | M::JB | M::JBE | M::JL | M::JLE | M::CALL)
    }

    /// whether the mnemonic is a jump or a call
    #[verifier::when_used_as_spec(spec_is_jmp)]
    pub fn is_jmp(&self) -> (r: bool)
        ensures
            r == self.spec_is_jmp(),
    {
        match self {
            M::JMP | M::JZ | M::JE | M::JNZ | M::JNE | M::JA | M::JAE | M::JG | M::JGE | M::JB | M::JBE | M::JL | M::JLE | M::CALL => true,
            _ => false,
        }
    }

    pub fn from_word(word: &[u8]) -> (r: Option<Self>)
        ensures
            r == spec_mnemonic_from_word(word@),
    {
        if bytes_eq_str(word, "add") {
            return Some(Self::ADD);
        }
        if bytes_eq_str(word, "sub") {
            return Some(Self::SUB);
        }
        if bytes_eq_str(word, "mul") {
            return Some(Self::MUL);
        }
        if bytes_eq_str(word, "imul") {
            return Some(Self::IMUL);
        }
        if bytes_eq_str(word, "div") {
            return Some(Self::DIV);
        }
        if bytes_eq_str(word, "idiv") {
            return Some(Self::IDIV);
        }
        if bytes_eq_str(word, "shl") {
            return Some(Self::SHL);
        }
        if bytes_eq_str(word, "shr") {
            return Some(Self::SHR);
        }
        if bytes_eq_str(word, "sar") {
            return Some(Self::SAR);
        }
        if bytes_eq_str(word, "xor") {
            return Some(Self::XOR);
        }
        if bytes_eq_str(word, "not") {
            return Some(Self::NOT);
        }
        if bytes_eq_str(word, "or") {
            return Some(Self::OR);
        }
        if bytes_eq_str(word, "and") {
            return Some(Self::AND);
        }
        if bytes_eq_str(word, "push") {
            return Some(Self::PUSH);
        }
        if bytes_eq_str(word, "pop") {
            return Some(Self::POP);
        }
        if bytes_eq_str(word, "cmp") {
            return Some(Self::CMP);
        }
        if bytes_eq_str(word, "test") {
            return Some(Self::TEST);
        }
        if bytes_eq_str(word, "xchg") {
            return Some(Self::XCHG);
        }
        if bytes_eq_str(word, "cmpxchg") {
            return Some(Self::CMPXCHG);
        }
        if bytes_eq_str(word, "jmp") {
            return Some(Self::JMP);
        }
        if bytes_eq_str(word, "jz") {
            return Some(Self::JZ);
        }
        if bytes_eq_str(word, "je") {
            return Some(Self::JE);
        }
        if bytes_eq_str(word, "jnz") {
            return Some(Self::JNZ);
        }
        if bytes_eq_str(word, "jne") {
            return Some(Self::JNE);
        }
        if bytes_eq_str(word, "ja") {
            return Some(Self::JA);
        }
        if bytes_eq_str(word, "jae") {
            return Some(Self::JAE);
        }
        if bytes_eq_str(word, "jg") {
            return Some(Self::JG);
        }
        if bytes_eq_str(word, "jge") {
            return Some(Self::JGE);
        }
        if bytes_eq_str(word, "jb") {
            return Some(Self::JB);
        }
        if bytes_eq_str(word, "jbe") {
            return Some(Self::JBE);
        }
        if bytes_eq_str(word, "jl") {
            return Some(Self::JL);
        }
        if bytes_eq_str(word, "jle") {
            return Some(Self::JLE);
        }
        if bytes_eq_str(word, "ret") {
            return Some(Self::RET);
        }
        if bytes_eq_str(word, "syscall") {
            return Some(Self::SYSCALL);
        }
        if bytes_eq_str(word, "call") {
            return Some(Self::CALL);
        }
        if bytes_eq_str(word, "mov") {
            return Some(Self::MOV);
        }
        if bytes_eq_str(word, "hlt") {
            return Some(Self::HLT);
        }
        None
    }
}

#[derive(Debug, Clone, Copy, PartialEq, Eq, Structural)]
pub enum P {
    Byte,
    Word,
    DWord,
    QWord,
    Fp,
    Call,
    /// added by the assembler where an immediate operand is a negative literal
    Sign,
    /// added by the assembler where a move stores through a bare register
    Oprev,
    /// added by the assembler where an operand is an extended register
    Era,
}

/// the value that `from_word` gives for a word
pub open spec fn spec_prefix_from_word(w: Seq<u8>) -> Option<P> {
    if w == lit("byte") {
        Some(P::Byte)
    } else if w == lit("word") {
        Some(P::Word)
    } else if w == lit("dword") {
        Some(P::DWord)
    } else if w == lit("qword") {
        Some(P::QWord)
    } else if w == lit("fp") {
        Some(P::Fp)
    } else if w == lit("call") {
        Some(P::Call)
    } else {
        None
    }
}

impl P {
    /// recognizes an instruction prefix
    pub fn from_word(word: &[u8]) -> (r: Option<Self>)
        ensures
            r == spec_prefix_from_word(word@),
    {
        if bytes_eq_str(word, "byte") {
            return Some(Self::Byte);
        }
        if bytes_eq_str(word, "word") {
            return Some(Self::Word);
        }
        if bytes_eq_str(word, "dword") {
            return Some(Self::DWord);
        }
        if bytes_eq_str(word, "qword") {
            return Some(Self::QWord);
        }
        if bytes_eq_str(word, "fp") {
            return Some(Self::Fp);
        }
        if bytes_eq_str(word, "call") {
            return Some(Self::Call);
        }
        None
    }
}

#[derive(Debug, Clone, Copy, PartialEq, Eq, Structural)]
pub enum O {
    Reg,
    XReg,
    AMem,
    RMem,
    Imm,
}

/// an operand of kind `a` may stand where kind `b` is allowed
pub open spec fn spec_qualified_eq(a: O, b: O) -> bool {
    match a {
        O::Reg => a == b || b == O::XReg,
        O::AMem => a == b || b == O::RMem,
        _ => a == b,
    }
}

impl O {
    /// whether an operand of this kind may stand where kind `other` is allowed
    pub fn qualified_eq(&self, other: &Self) -> (r: bool)
        ensures
            r == spec_qualified_eq(*self, *other),
    {
        match self {
            O::Reg => *self == *other || *other == O::XReg,
            O::AMem => *self == *other || *other == O::RMem,
            _ => *self == *other,
        }
    }
}

/// a mnemonic with the prefixes it accepts and, for each operand position, the kinds allowed there
#[derive(Debug, Clone)]
pub struct AllowedPattern(pub M, pub Vec<P>, pub Vec<Vec<O>>);

/// the mathematical content of an allowed pattern
pub type PatternV = (M, Seq<P>, Seq<Seq<O>>);

pub open spec fn ops_view(v: Seq<Vec<O>>) -> Seq<Seq<O>> {
    Seq::new(v.len(), |i: int| v[i]@)
}

impl AllowedPattern {
    pub open spec fn view(&self) -> PatternV {
        (self.0, self.1@, ops_view(self.2@))
    }
}

/// the table of the instruction forms that the assembler accepts, in order
pub open spec fn spec_allowed_patterns() -> Seq<PatternV> {
    seq![
        (M::ADD, seq![P::Byte, P::Word, P::DWord, P::QWord], seq![seq![O::XReg], seq![O::XReg, O::RMem, O::Imm]]),
        (M::SUB, seq![P::Byte, P::Word, P::DWord, P::QWord], seq![seq![O::XReg], seq![O::XReg, O::RMem, O::Imm]]),
        (M::MUL, seq![P::Byte, P::Word, P::DWord, P::QWord, P::Fp], seq![seq![O::XReg], seq![O::XReg, O::RMem, O::Imm]]),
        (M::IMUL, seq![P::Byte, P::Word, P::DWord, P::QWord, P::Fp], seq![seq![O::XReg], seq![O::XReg, O::RMem, O::Imm]]),
        (M::DIV, seq![P::Byte, P::Word, P::DWord, P::QWord, P::Fp], seq![seq![O::XReg], seq![O::XReg, O::RMem, O::Imm]]),
        (M::IDIV, seq![P::Byte, P::Word, P::DWord, P::QWord, P::Fp], seq![seq![O::XReg], seq![O::XReg, O::RMem, O::Imm]]),
        (M::SHL, seq![P::Byte, P::Word, P::DWord, P::QWord], seq![seq![O::Reg], seq![O::Reg]]),
        (M::SHR, seq![P::Byte, P::Word, P::DWord, P::QWord], seq![seq![O::Reg], seq![O::Reg]]),
        (M::SAR, seq![P::Byte, P::Word, P::DWord, P::QWord], seq![seq![O::Reg], seq![O::Reg]]),
        (M::XOR, seq![P::Byte, P::Word, P::DWord, P::QWord], seq![seq![O::Reg], seq![O::Reg, O::RMem, O::Imm]]),
        (M::NOT, seq![P::Byte, P::Word, P::DWord, P::QWord], seq![seq![O::Reg]]),
        (M::OR, seq![P::Byte, P::Word, P::DWord, P::QWord], seq![seq![O::Reg], seq![O::Reg, O::RMem, O::Imm]]),
        (M::AND, seq![P::Byte, P::Word, P::DWord, P::QWord], seq![seq![O::Reg], seq![O::Reg, O::RMem, O::Imm]]),
        (M::PUSH, seq![P::Byte, P::Word, P::DWord, P::QWord], seq![seq![O::XReg]]),
        (M::POP, seq![P::Byte, P::Word, P::DWord, P::QWord], seq![seq![O::XReg]]),
        (M::CMP, seq![P::Byte, P::Word, P::DWord, P::QWord, P::Fp], seq![seq![O::Reg], seq![O::XReg, O::RMem, O::Imm]]),
        (M::TEST, seq![P::Byte, P::Word, P::DWord, P::QWord, P::Fp], seq![seq![O::XReg]]),
        (M::XCHG, seq![P::Byte, P::Word, P::DWord, P::QWord], seq![seq![O::Reg], seq![O::Reg]]),
        (M::CMPXCHG, seq![P::Byte, P::Word, P::DWord, P::QWord], seq![seq![O::XReg], seq![O::XReg], seq![O::RMem], seq![O::RMem]]),
        (M::JMP, seq![P::Call], seq![seq![O::Reg, O::RMem]]),
        (M::JZ, seq![P::Call], seq![seq![O::Reg, O::RMem]]),
        (M::JNZ, seq![P::Call], seq![seq![O::Reg, O::RMem]]),
        (M::JE, seq![P::Call], seq![seq![O::Reg, O::RMem]]),
        (M::JNE, seq![P::Call], seq![seq![O::Reg, O::RMem]]),
        (M::JA, seq![P::Call], seq![seq![O::Reg, O::RMem]]),
        (M::JG, seq![P::Call], seq![seq![O::Reg, O::RMem]]),
        (M::JB, seq![P::Call], seq![seq![O::Reg, O::RMem]]),
        (M::JL, seq![P::Call], seq![seq![O::Reg, O::RMem]]),
        (M::JAE, seq![P::Call], seq![seq![O::Reg, O::RMem]]),
        (M::JGE, seq![P::Call], seq![seq![O::Reg, O::RMem]]),
        (M::JBE, seq![P::Call], seq![seq![O::Reg, O::RMem]]),
        (M::JLE, seq![P::Call], seq![seq![O::Reg, O::RMem]]),
        (M::RET, Seq::<P>::empty(), Seq::<Seq<O>>::empty()),
        (M::SYSCALL, Seq::<P>::empty(), Seq::<Seq<O>>::empty()),
        (M::CALL, Seq::<P>::empty(), seq![seq![O::Reg, O::RMem]]),
        (M::MOV, seq![P::Byte, P::Word, P::DWord, P::QWord, P::Fp], seq![seq![O::XReg], seq![O::XReg, O::RMem, O::Imm]]),
        (M::HLT, Seq::<P>::empty(), Seq::<Seq<O>>::empty()),
    ]
}

/// builds the table of the instruction forms that the assembler accepts
pub fn allowed_patterns() -> (r: Vec<AllowedPattern>)
    ensures
        r@.len() == spec_allowed_patterns().len(),
        forall|k: int| 0 <= k < r@.len() ==> #[trigger] r@[k].view() == spec_allowed_patterns()[k],
{
    let mut r: Vec<AllowedPattern> = Vec::new();
    r.push(AllowedPattern(M::ADD, vec![P::Byte, P::Word, P::DWord, P::QWord], vec![vec![O::XReg], vec![O::XReg, O::RMem, O::Imm]]));
    r.push(AllowedPattern(M::SUB, vec![P::Byte, P::Word, P::DWord, P::QWord], vec![vec![O::XReg], vec![O::XReg, O::RMem, O::Imm]]));
    r.push(AllowedPattern(M::MUL, vec![P::Byte, P::Word, P::DWord, P::QWord, P::Fp], vec![vec![O::XReg], vec![O::XReg, O::RMem, O::Imm]]));
    r.push(AllowedPattern(M::IMUL, vec![P::Byte, P::Word, P::DWord, P::QWord, P::Fp], vec![vec![O::XReg], vec![O::XReg, O::RMem, O::Imm]]));
    r.push(AllowedPattern(M::DIV, vec![P::Byte, P::Word, P::DWord, P::QWord, P::Fp], vec![vec![O::XReg], vec![O::XReg, O::RMem, O::Imm]]));
    r.push(AllowedPattern(M::IDIV, vec![P::Byte, P::Word, P::DWord, P::QWord, P::Fp], vec![vec![O::XReg], vec![O::XReg, O::RMem, O::Imm]]));
    r.push(AllowedPattern(M::SHL, vec![P::Byte, P::Word, P::DWord, P::QWord], vec![vec![O::Reg], vec![O::Reg]]));
    r.push(AllowedPattern(M::SHR, vec![P::Byte, P::Word, P::DWord, P::QWord], vec![vec![O::Reg], vec![O::Reg]]));
    r.push(AllowedPattern(M::SAR, vec![P::Byte, P::Word, P::DWord, P::QWord], vec![vec![O::Reg], vec![O::Reg]]));
    r.push(AllowedPattern(M::XOR, vec![P::Byte, P::Word, P::DWord, P::QWord], vec![vec![O::Reg], vec![O::Reg, O::RMem, O::Imm]]));
    r.push(AllowedPattern(M::NOT, vec![P::Byte, P::Word, P::DWord, P::QWord], vec![vec![O::Reg]]));
    r.push(AllowedPattern(M::OR, vec![P::Byte, P::Word, P::DWord, P::QWord], vec![vec![O::Reg], vec![O::Reg, O::RMem, O::Imm]]));
    r.push(AllowedPattern(M::AND, vec![P::Byte, P::Word, P::DWord, P::QWord], vec![vec![O::Reg], vec![O::Reg, O::RMem, O::Imm]]));
    r.push(AllowedPattern(M::PUSH, vec![P::Byte, P::Word, P::DWord, P::QWord], vec![vec![O::XReg]]));
    r.push(AllowedPattern(M::POP, vec![P::Byte, P::Word, P::DWord, P::QWord], vec![vec![O::XReg]]));
    r.push(AllowedPattern(M::CMP, vec![P::Byte, P::Word, P::DWord, P::QWord, P::Fp], vec![vec![O::Reg], vec![O::XReg, O::RMem, O::Imm]]));
    r.push(AllowedPattern(M::TEST, vec![P::Byte, P::Word, P::DWord, P::QWord, P::Fp], vec![vec![O::XReg]]));
    r.push(AllowedPattern(M::XCHG, vec![P::Byte, P::Word, P::DWord, P::QWord], vec![vec![O::Reg], vec![O::Reg]]));
    r.push(AllowedPattern(M::CMPXCHG, vec![P::Byte, P::Word, P::DWord, P::QWord], vec![vec![O::XReg], vec![O::XReg], vec![O::RMem], vec![O::RMem]]));
    r.push(AllowedPattern(M::JMP, vec![P::Call], vec![vec![O::Reg, O::RMem]]));
    r.push(AllowedPattern(M::JZ, vec![P::Call], vec![vec![O::Reg, O::RMem]]));
    r.push(AllowedPattern(M::JNZ, vec![P::Call], vec![vec![O::Reg, O::RMem]]));
    r.push(AllowedPattern(M::JE, vec![P::Call], vec![vec![O::Reg, O::RMem]]));
    r.push(AllowedPattern(M::JNE, vec![P::Call], vec![vec![O::Reg, O::RMem]]));
    r.push(AllowedPattern(M::JA, vec![P::Call], vec![vec![O::Reg, O::RMem]]));
    r.push(AllowedPattern(M::JG, vec![P::Call], vec![vec![O::Reg, O::RMem]]));
    r.push(AllowedPattern(M::JB, vec![P::Call], vec![vec![O::Reg, O::RMem]]));
    r.push(AllowedPattern(M::JL, vec![P::Call], vec![vec![O::Reg, O::RMem]]));
    r.push(AllowedPattern(M::JAE, vec![P::Call], vec![vec![O::Reg, O::RMem]]));
    r.push(AllowedPattern(M::JGE, vec![P::Call], vec![vec![O::Reg, O::RMem]]));
    r.push(AllowedPattern(M::JBE, vec![P::Call], vec![vec![O::Reg, O::RMem]]));
    r.push(AllowedPattern(M::JLE, vec![P::Call], vec![vec![O::Reg, O::RMem]]));
    r.push(AllowedPattern(M::RET, Vec::new(), Vec::new()));
    r.push(AllowedPattern(M::SYSCALL, Vec::new(), Vec::new()));
    r.push(AllowedPattern(M::CALL, Vec::new(), vec![vec![O::Reg, O::RMem]]));
    r.push(AllowedPattern(M::MOV, vec![P::Byte, P::Word, P::DWord, P::QWord, P::Fp], vec![vec![O::XReg], vec![O::XReg, O::RMem, O::Imm]]));
    r.push(AllowedPattern(M::HLT, Vec::new(), Vec::new()));
    proof {
        assert forall|k: int| 0 <= k < r@.len() implies #[trigger] r@[k].view() == spec_allowed_patterns()[k] by {
            assert(r@[k].view() =~~= spec_allowed_patterns()[k]);
        }
    }
    r
}

/// an instruction matched against an allowed form: the form, and the prefix and operand tokens
pub struct Instruction<'a> {
    pub pat: &'a AllowedPattern,
    pub pres: Vec<Tok<'a>>,
    pub ops: Vec<Tok<'a>>,
}

/// a checked instruction form: the mnemonic, its prefixes and the kinds of its operands
#[derive(Debug, Clone)]
pub struct OpPattern(pub M, pub Vec<P>, pub Vec<O>);

/// the prefixes `pres` are all among those that `pat` accepts
pub open spec fn prefixes_fit(pat: PatternV, pres: Seq<P>) -> bool {
    forall|i: int| 0 <= i < pres.len() ==> pat.1.contains(#[trigger] pres[i])
}

/// an operand of kind `o` may stand in a position that allows the kinds `allowed`
pub open spec fn kind_allowed(o: O, allowed: Seq<O>) -> bool {
    exists|j: int| 0 <= j < allowed.len() && spec_qualified_eq(o, #[trigger] allowed[j])
}

/// the operand kinds `ops` fit the operand positions of `pat`, one for one
pub open spec fn operands_fit(pat: PatternV, ops: Seq<O>) -> bool {
    &&& pat.2.len() == ops.len()
    &&& forall|i: int| 0 <= i < ops.len() ==> kind_allowed(#[trigger] ops[i], pat.2[i])
}

/// `pat` accepts an instruction with the given mnemonic, prefixes and operand kinds
pub open spec fn pattern_accepts(pat: PatternV, m: M, pres: Seq<P>, ops: Seq<O>) -> bool {
    &&& pat.0 == m
    &&& prefixes_fit(pat, pres)
    &&& operands_fit(pat, ops)
}

/// some entry of the table accepts the instruction
pub open spec fn spec_instruction_allowed(m: M, pres: Seq<P>, ops: Seq<O>) -> bool {
    exists|k: int|
        0 <= k < spec_allowed_patterns().len() && pattern_accepts(
            #[trigger] spec_allowed_patterns()[k],
            m,
            pres,
            ops,
        )
}

/// the operand kinds of a list of operands
pub open spec fn operand_kinds<'a>(ops: Seq<(O, Token<'a>)>) -> Seq<O> {
    Seq::new(ops.len(), |i: int| ops[i].0)
}

fn prefix_in(p: P, allowed: &Vec<P>) -> (r: bool)
    ensures
        r == allowed@.contains(p),
{
    let mut i: usize = 0;
    while i < allowed.len()
        invariant
            i <= allowed@.len(),
            forall|j: int| 0 <= j < i ==> allowed@[j] != p,
        decreases allowed@.len() - i,
    {
        if allowed[i] == p {
            return true;
        }
        i += 1;
    }
    false
}

fn kind_fits(o: O, allowed: &Vec<O>) -> (r: bool)
    ensures
        r == kind_allowed(o, allowed@),
{
    let mut i: usize = 0;
    while i < allowed.len()
        invariant
            i <= allowed@.len(),
            forall|j: int| 0 <= j < i ==> !spec_qualified_eq(o, #[trigger] allowed@[j]),
        decreases allowed@.len() - i,
    {
        if o.qualified_eq(&allowed[i]) {
            return true;
        }
        i += 1;
    }
    false
}

fn accepts(pat: &AllowedPattern, m: M, prefixes: &Vec<P>, operands: &Vec<(O, Token)>) -> (r: bool)
    ensures
        r == pattern_accepts(pat.view(), m, prefixes@, operand_kinds(operands@)),
{
    let ghost kinds = operand_kinds(operands@);
    if pat.0 != m {
        return false;
    }
    let mut i: usize = 0;
    while i < prefixes.len()
        invariant
            i <= prefixes@.len(),
            forall|j: int| 0 <= j < i ==> pat.1@.contains(#[trigger] prefixes@[j]),
        decreases prefixes@.len() - i,
    {
        if !prefix_in(prefixes[i], &pat.1) {
            return false;
        }
        i += 1;
    }
    if pat.2.len() != operands.len() {
        return false;
    }
    let mut i: usize = 0;
    while i < operands.len()
        invariant
            i <= operands@.len(),
            pat.2@.len() == operands@.len(),
            kinds == operand_kinds(operands@),
            forall|k: int| 0 <= k < i ==> kind_allowed(#[trigger] kinds[k], pat.view().2[k]),
        decreases operands@.len() - i,
    {
        let fits = kind_fits(operands[i].0, &pat.2[i]);
        assert(pat.view().2[i as int] == pat.2@[i as int]@);
        assert(kinds[i as int] == operands@[i as int].0);
        if !fits {
            assert(!operands_fit(pat.view(), kinds));
            return false;
        }
        i += 1;
    }
    true
}

impl OpPattern {
    /// finds the table entry that accepts the instruction, and gives the checked form
    pub fn try_find(mnemonic: M, prefixes: &Vec<P>, operands: &Vec<(O, Token)>) -> (r: Option<Self>)
        ensures
            r is Some <==> spec_instruction_allowed(mnemonic, prefixes@, operand_kinds(operands@)),
            r matches Some(p) ==> p.0 == mnemonic && p.1@ == prefixes@ && p.2@ == operand_kinds(operands@),
    {
        let table = allowed_patterns();
        let mut k: usize = 0;
        while k < table.len()
            invariant
                k <= table@.len(),
                table@.len() == spec_allowed_patterns().len(),
                forall|q: int| 0 <= q < table@.len() ==> #[trigger] table@[q].view() == spec_allowed_patterns()[q],
                forall|q: int| 0 <= q < k ==> !pattern_accepts(#[trigger] spec_allowed_patterns()[q], mnemonic, prefixes@, operand_kinds(operands@)),
            decreases table@.len() - k,
        {
            if accepts(&table[k], mnemonic, prefixes, operands) {
                let mut pres: Vec<P> = Vec::new();
                let mut i: usize = 0;
                while i < prefixes.len()
                    invariant
                        i <= prefixes@.len(),
                        pres@ == prefixes@.subrange(0, i as int),
                    decreases prefixes@.len() - i,
                {
                    pres.push(prefixes[i]);
                    i += 1;
                }
                let mut kinds: Vec<O> = Vec::new();
                let mut i: usize = 0;
                while i < operands.len()
                    invariant
                        i <= operands@.len(),
                        kinds@ == operand_kinds(operands@).subrange(0, i as int),
                    decreases operands@.len() - i,
                {
                    kinds.push(operands[i].0);
                    i += 1;
                }
                assert(pres@ =~= prefixes@);
                assert(kinds@ =~= operand_kinds(operands@));
                return Some(OpPattern(mnemonic, pres, kinds));
            }
            k += 1;
        }
        None
    }
}

/// the name that a mnemonic is written with
pub open spec fn mnemonic_name(m: M) -> Seq<u8> {
    match m {
        M::ADD => lit("add"),
        M::SUB => lit("sub"),
        M::MUL => lit("mul"),
        M::IMUL => lit("imul"),
        M::DIV => lit("div"),
        M::IDIV => lit("idiv"),
        M::SHL => lit("shl"),
        M::SHR => lit("shr"),
        M::SAR => lit("sar"),
        M::XOR => lit("xor"),
        M::NOT => lit("not"),
        M::OR => lit("or"),
        M::AND => lit("and"),
        M::PUSH => lit("push"),
        M::POP => lit("pop"),
        M::CMP => lit("cmp"),
        M::TEST => lit("test"),
        M::XCHG => lit("xchg"),
        M::CMPXCHG => lit("cmpxchg"),
        M::JMP => lit("jmp"),
        M::JZ => lit("jz"),
        M::JE => lit("je"),
        M::JNZ => lit("jnz"),
        M::JNE => lit("jne"),
        M::JA => lit("ja"),
        M::JAE => lit("jae"),
        M::JG => lit("jg"),
        M::JGE => lit("jge"),
        M::JB => lit("jb"),
        M::JBE => lit("jbe"),
        M::JL => lit("jl"),
        M::JLE => lit("jle"),
        M::RET => lit("ret"),
        M::SYSCALL => lit("syscall"),
        M::CALL => lit("call"),
        M::MOV => lit("mov"),
        M::HLT => lit("hlt"),
    }
}

/// the bytes of the names of the mnemonics
proof fn lemma_mnemonic_name_bytes()
    ensures
        lit("add") == seq![97u8, 100u8, 100u8],
        lit("sub") == seq![115u8, 117u8, 98u8],
        lit("mul") == seq![109u8, 117u8, 108u8],
        lit("imul") == seq![105u8, 109u8, 117u8, 108u8],
        lit("div") == seq![100u8, 105u8, 118u8],
        lit("idiv") == seq![105u8, 100u8, 105u8, 118u8],
        lit("shl") == seq![115u8, 104u8, 108u8],
        lit("shr") == seq![115u8, 104u8, 114u8],
        lit("sar") == seq![115u8, 97u8, 114u8],
        lit("xor") == seq![120u8, 111u8, 114u8],
        lit("not") == seq![110u8, 111u8, 116u8],
        lit("or") == seq![111u8, 114u8],
        lit("and") == seq![97u8, 110u8, 100u8],
        lit("push") == seq![112u8, 117u8, 115u8, 104u8],
        lit("pop") == seq![112u8, 111u8, 112u8],
        lit("cmp") == seq![99u8, 109u8, 112u8],
        lit("test") == seq![116u8, 101u8, 115u8, 116u8],
        lit("xchg") == seq![120u8, 99u8, 104u8, 103u8],
        lit("cmpxchg") == seq![99u8, 109u8, 112u8, 120u8, 99u8, 104u8, 103u8],
        lit("jmp") == seq![106u8, 109u8, 112u8],
        lit("jz") == seq![106u8, 122u8],
        lit("je") == seq![106u8, 101u8],
        lit("jnz") == seq![106u8, 110u8, 122u8],
        lit("jne") == seq![106u8, 110u8, 101u8],
        lit("ja") == seq![106u8, 97u8],
        lit("jae") == seq![106u8, 97u8, 101u8],
        lit("jg") == seq![106u8, 103u8],
        lit("jge") == seq![106u8, 103u8, 101u8],
        lit("jb") == seq![106u8, 98u8],
        lit("jbe") == seq![106u8, 98u8, 101u8],
        lit("jl") == seq![106u8, 108u8],
        lit("jle") == seq![106u8, 108u8, 101u8],
        lit("ret") == seq![114u8, 101u8, 116u8],
        lit("syscall") == seq![115u8, 121u8, 115u8, 99u8, 97u8, 108u8, 108u8],
        lit("call") == seq![99u8, 97u8, 108u8, 108u8],
        lit("mov") == seq![109u8, 111u8, 118u8],
        lit("hlt") == seq![104u8, 108u8, 116u8],
{
    reveal_strlit("add");
    vstd::string::is_ascii_spec_bytes("add");
    assert(lit("add") =~= seq![97u8, 100u8, 100u8]);
    reveal_strlit("sub");
    vstd::string::is_ascii_spec_bytes("sub");
    assert(lit("sub") =~= seq![115u8, 117u8, 98u8]);
    reveal_strlit("mul");
    vstd::string::is_ascii_spec_bytes("mul");
    assert(lit("mul") =~= seq![109u8, 117u8, 108u8]);
    reveal_strlit("imul");
    vstd::string::is_ascii_spec_bytes("imul");
    assert(lit("imul") =~= seq![105u8, 109u8, 117u8, 108u8]);
    reveal_strlit("div");
    vstd::string::is_ascii_spec_bytes("div");
    assert(lit("div") =~= seq![100u8, 105u8, 118u8]);
    reveal_strlit("idiv");
    vstd::string::is_ascii_spec_bytes("idiv");
    assert(lit("idiv") =~= seq![105u8, 100u8, 105u8, 118u8]);
    reveal_strlit("shl");
    vstd::string::is_ascii_spec_bytes("shl");
    assert(lit("shl") =~= seq![115u8, 104u8, 108u8]);
    reveal_strlit("shr");
    vstd::string::is_ascii_spec_bytes("shr");
    assert(lit("shr") =~= seq![115u8, 104u8, 114u8]);
    reveal_strlit("sar");
    vstd::string::is_ascii_spec_bytes("sar");
    assert(lit("sar") =~= seq![115u8, 97u8, 114u8]);
    reveal_strlit("xor");
    vstd::string::is_ascii_spec_bytes("xor");
    assert(lit("xor") =~= seq![120u8, 111u8, 114u8]);
    reveal_strlit("not");
    vstd::string::is_ascii_spec_bytes("not");
    assert(lit("not") =~= seq![110u8, 111u8, 116u8]);
    reveal_strlit("or");
    vstd::string::is_ascii_spec_bytes("or");
    assert(lit("or") =~= seq![111u8, 114u8]);
    reveal_strlit("and");
    vstd::string::is_ascii_spec_bytes("and");
    assert(lit("and") =~= seq![97u8, 110u8, 100u8]);
    reveal_strlit("push");
    vstd::string::is_ascii_spec_bytes("push");
    assert(lit("push") =~= seq![112u8, 117u8, 115u8, 104u8]);
    reveal_strlit("pop");
    vstd::string::is_ascii_spec_bytes("pop");
    assert(lit("pop") =~= seq![112u8, 111u8, 112u8]);
    reveal_strlit("cmp");
    vstd::string::is_ascii_spec_bytes("cmp");
    assert(lit("cmp") =~= seq![99u8, 109u8, 112u8]);
    reveal_strlit("test");
    vstd::string::is_ascii_spec_bytes("test");
    assert(lit("test") =~= seq![116u8, 101u8, 115u8, 116u8]);
    reveal_strlit("xchg");
    vstd::string::is_ascii_spec_bytes("xchg");
    assert(lit("xchg") =~= seq![120u8, 99u8, 104u8, 103u8]);
    reveal_strlit("cmpxchg");
    vstd::string::is_ascii_spec_bytes("cmpxchg");
    assert(lit("cmpxchg") =~= seq![99u8, 109u8, 112u8, 120u8, 99u8, 104u8, 103u8]);
    reveal_strlit("jmp");
    vstd::string::is_ascii_spec_bytes("jmp");
    assert(lit("jmp") =~= seq![106u8, 109u8, 112u8]);
    reveal_strlit("jz");
    vstd::string::is_ascii_spec_bytes("jz");
    assert(lit("jz") =~= seq![106u8, 122u8]);
    reveal_strlit("je");
    vstd::string::is_ascii_spec_bytes("je");
    assert(lit("je") =~= seq![106u8, 101u8]);
    reveal_strlit("jnz");
    vstd::string::is_ascii_spec_bytes("jnz");
    assert(lit("jnz") =~= seq![106u8, 110u8, 122u8]);
    reveal_strlit("jne");
    vstd::string::is_ascii_spec_bytes("jne");
    assert(lit("jne") =~= seq![106u8, 110u8, 101u8]);
    reveal_strlit("ja");
    vstd::string::is_ascii_spec_bytes("ja");
    assert(lit("ja") =~= seq![106u8, 97u8]);
    reveal_strlit("jae");
    vstd::string::is_ascii_spec_bytes("jae");
    assert(lit("jae") =~= seq![106u8, 97u8, 101u8]);
    reveal_strlit("jg");
    vstd::string::is_ascii_spec_bytes("jg");
    assert(lit("jg") =~= seq![106u8, 103u8]);
    reveal_strlit("jge");
    vstd::string::is_ascii_spec_bytes("jge");
    assert(lit("jge") =~= seq![106u8, 103u8, 101u8]);
    reveal_strlit("jb");
    vstd::string::is_ascii_spec_bytes("jb");
    assert(lit("jb") =~= seq![106u8, 98u8]);
    reveal_strlit("jbe");
    vstd::string::is_ascii_spec_bytes("jbe");
    assert(lit("jbe") =~= seq![106u8, 98u8, 101u8]);
    reveal_strlit("jl");
    vstd::string::is_ascii_spec_bytes("jl");
    assert(lit("jl") =~= seq![106u8, 108u8]);
    reveal_strlit("jle");
    vstd::string::is_ascii_spec_bytes("jle");
    assert(lit("jle") =~= seq![106u8, 108u8, 101u8]);
    reveal_strlit("ret");
    vstd::string::is_ascii_spec_bytes("ret");
    assert(lit("ret") =~= seq![114u8, 101u8, 116u8]);
    reveal_strlit("syscall");
    vstd::string::is_ascii_spec_bytes("syscall");
    assert(lit("syscall") =~= seq![115u8, 121u8, 115u8, 99u8, 97u8, 108u8, 108u8]);
    reveal_strlit("call");
    vstd::string::is_ascii_spec_bytes("call");
    assert(lit("call") =~= seq![99u8, 97u8, 108u8, 108u8]);
    reveal_strlit("mov");
    vstd::string::is_ascii_spec_bytes("mov");
    assert(lit("mov") =~= seq![109u8, 111u8, 118u8]);
    reveal_strlit("hlt");
    vstd::string::is_ascii_spec_bytes("hlt");
    assert(lit("hlt") =~= seq![104u8, 108u8, 116u8]);
}

/// each mnemonic's name differs from the names before it in `spec_mnemonic_from_word`, in its
/// length or in one byte
#[verifier::rlimit(60)]
proof fn lemma_mnemonic_name_reads_back(m: M)
    ensures
        spec_mnemonic_from_word(mnemonic_name(m)) == Some(m),
{
    lemma_mnemonic_name_bytes();
    match m {
        M::ADD => {

        },
        M::SUB => {
        assert(lit("sub")[0] != lit("add")[0]);
        },
        M::MUL => {
        assert(lit("mul")[0] != lit("add")[0]);
        assert(lit("mul")[0] != lit("sub")[0]);
        },
        M::IMUL => {
        assert(lit("imul").len() != lit("add").len());
        assert(lit("imul").len() != lit("sub").len());
        assert(lit("imul").len() != lit("mul").len());
        },
        M::DIV => {
        assert(lit("div")[0] != lit("add")[0]);
        assert(lit("div")[0] != lit("sub")[0]);
        assert(lit("div")[0] != lit("mul")[0]);
        assert(lit("div").len() != lit("imul").len());
        },
        M::IDIV => {
        assert(lit("idiv").len() != lit("add").len());
        assert(lit("idiv").len() != lit("sub").len());
        assert(lit("idiv").len() != lit("mul").len());
        assert(lit("idiv")[1] != lit("imul")[1]);
        assert(lit("idiv").len() != lit("div").len());
        },
        M::SHL => {
        assert(lit("shl")[0] != lit("add")[0]);
        assert(lit("shl")[1] != lit("sub")[1]);
        assert(lit("shl")[0] != lit("mul")[0]);
        assert(lit("shl").len() != lit("imul").len());
        assert(lit("shl")[0] != lit("div")[0]);
        assert(lit("shl").len() != lit("idiv").len());
        },
        M::SHR => {
        assert(lit("shr")[0] != lit("add")[0]);
        assert(lit("shr")[1] != lit("sub")[1]);
        assert(lit("shr")[0] != lit("mul")[0]);
        assert(lit("shr").len() != lit("imul").len());
        assert(lit("shr")[0] != lit("div")[0]);
        assert(lit("shr").len() != lit("idiv").len());
        assert(lit("shr")[2] != lit("shl")[2]);
        },
        M::SAR => {
        assert(lit("sar")[0] != lit("add")[0]);
        assert(lit("sar")[1] != lit("sub")[1]);
        assert(lit("sar")[0] != lit("mul")[0]);
        assert(lit("sar").len() != lit("imul").len());
        assert(lit("sar")[0] != lit("div")[0]);
        assert(lit("sar").len() != lit("idiv").len());
        assert(lit("sar")[1] != lit("shl")[1]);
        assert(lit("sar")[1] != lit("shr")[1]);
        },
        M::XOR => {
        assert(lit("xor")[0] != lit("add")[0]);
        assert(lit("xor")[0] != lit("sub")[0]);
        assert(lit("xor")[0] != lit("mul")[0]);
        assert(lit("xor").len() != lit("imul").len());
        assert(lit("xor")[0] != lit("div")[0]);
        assert(lit("xor").len() != lit("idiv").len());
        assert(lit("xor")[0] != lit("shl")[0]);
        assert(lit("xor")[0] != lit("shr")[0]);
        assert(lit("xor")[0] != lit("sar")[0]);
        },
        M::NOT => {
        assert(lit("not")[0] != lit("add")[0]);
        assert(lit("not")[0] != lit("sub")[0]);
        assert(lit("not")[0] != lit("mul")[0]);
        assert(lit("not").len() != lit("imul").len());
        assert(lit("not")[0] != lit("div")[0]);
        assert(lit("not").len() != lit("idiv").len());
        assert(lit("not")[0] != lit("shl")[0]);
        assert(lit("not")[0] != lit("shr")[0]);
        assert(lit("not")[0] != lit("sar")[0]);
        assert(lit("not")[0] != lit("xor")[0]);
        },
        M::OR => {
        assert(lit("or").len() != lit("add").len());
        assert(lit("or").len() != lit("sub").len());
        assert(lit("or").len() != lit("mul").len());
        assert(lit("or").len() != lit("imul").len());
        assert(lit("or").len() != lit("div").len());
        assert(lit("or").len() != lit("idiv").len());
        assert(lit("or").len() != lit("shl").len());
        assert(lit("or").len() != lit("shr").len());
        assert(lit("or").len() != lit("sar").len());
        assert(lit("or").len() != lit("xor").len());
        assert(lit("or").len() != lit("not").len());
        },
        M::AND => {
        assert(lit("and")[1] != lit("add")[1]);
        assert(lit("and")[0] != lit("sub")[0]);
        assert(lit("and")[0] != lit("mul")[0]);
        assert(lit("and").len() != lit("imul").len());
        assert(lit("and")[0] != lit("div")[0]);
        assert(lit("and").len() != lit("idiv").len());
        assert(lit("and")[0] != lit("shl")[0]);
        assert(lit("and")[0] != lit("shr")[0]);
        assert(lit("and")[0] != lit("sar")[0]);
        assert(lit("and")[0] != lit("xor")[0]);
        assert(lit("and")[0] != lit("not")[0]);
        assert(lit("and").len() != lit("or").len());
        },
        M::PUSH => {
        assert(lit("push").len() != lit("add").len());
        assert(lit("push").len() != lit("sub").len());
        assert(lit("push").len() != lit("mul").len());
        assert(lit("push")[0] != lit("imul")[0]);
        assert(lit("push").len() != lit("div").len());
        assert(lit("push")[0] != lit("idiv")[0]);
        assert(lit("push").len() != lit("shl").len());
        assert(lit("push").len() != lit("shr").len());
        assert(lit("push").len() != lit("sar").len());
        assert(lit("push").len() != lit("xor").len());
        assert(lit("push").len() != lit("not").len());
        assert(lit("push").len() != lit("or").len());
        assert(lit("push").len() != lit("and").len());
        },
        M::POP => {
        assert(lit("pop")[0] != lit("add")[0]);
        assert(lit("pop")[0] != lit("sub")[0]);
        assert(lit("pop")[0] != lit("mul")[0]);
        assert(lit("pop").len() != lit("imul").len());
        assert(lit("pop")[0] != lit("div")[0]);
        assert(lit("pop").len() != lit("idiv").len());
        assert(lit("pop")[0] != lit("shl")[0]);
        assert(lit("pop")[0] != lit("shr")[0]);
        assert(lit("pop")[0] != lit("sar")[0]);
        assert(lit("pop")[0] != lit("xor")[0]);
        assert(lit("pop")[0] != lit("not")[0]);
        assert(lit("pop").len() != lit("or").len());
        assert(lit("pop")[0] != lit("and")[0]);
        assert(lit("pop").len() != lit("push").len());
        },
        M::CMP => {
        assert(lit("cmp")[0] != lit("add")[0]);
        assert(lit("cmp")[0] != lit("sub")[0]);
        assert(lit("cmp")[0] != lit("mul")[0]);
        assert(lit("cmp").len() != lit("imul").len());
        assert(lit("cmp")[0] != lit("div")[0]);
        assert(lit("cmp").len() != lit("idiv").len());
        assert(lit("cmp")[0] != lit("shl")[0]);
        assert(lit("cmp")[0] != lit("shr")[0]);
        assert(lit("cmp")[0] != lit("sar")[0]);
        assert(lit("cmp")[0] != lit("xor")[0]);
        assert(lit("cmp")[0] != lit("not")[0]);
        assert(lit("cmp").len() != lit("or").len());
        assert(lit("cmp")[0] != lit("and")[0]);
        assert(lit("cmp").len() != lit("push").len());
        assert(lit("cmp")[0] != lit("pop")[0]);
        },
        M::TEST => {
        assert(lit("test").len() != lit("add").len());
        assert(lit("test").len() != lit("sub").len());
        assert(lit("test").len() != lit("mul").len());
        assert(lit("test")[0] != lit("imul")[0]);
        assert(lit("test").len() != lit("div").len());
        assert(lit("test")[0] != lit("idiv")[0]);
        assert(lit("test").len() != lit("shl").len());
        assert(lit("test").len() != lit("shr").len());
        assert(lit("test").len() != lit("sar").len());
        assert(lit("test").len() != lit("xor").len());
        assert(lit("test").len() != lit("not").len());
        assert(lit("test").len() != lit("or").len());
        assert(lit("test").len() != lit("and").len());
        assert(lit("test")[0] != lit("push")[0]);
        assert(lit("test").len() != lit("pop").len());
        assert(lit("test").len() != lit("cmp").len());
        },
        M::XCHG => {
        assert(lit("xchg").len() != lit("add").len());
        assert(lit("xchg").len() != lit("sub").len());
        assert(lit("xchg").len() != lit("mul").len());
        assert(lit("xchg")[0] != lit("imul")[0]);
        assert(lit("xchg").len() != lit("div").len());
        assert(lit("xchg")[0] != lit("idiv")[0]);
        assert(lit("xchg").len() != lit("shl").len());
        assert(lit("xchg").len() != lit("shr").len());
        assert(lit("xchg").len() != lit("sar").len());
        assert(lit("xchg").len() != lit("xor").len());
        assert(lit("xchg").len() != lit("not").len());
        assert(lit("xchg").len() != lit("or").len());
        assert(lit("xchg").len() != lit("and").len());
        assert(lit("xchg")[0] != lit("push")[0]);
        assert(lit("xchg").len() != lit("pop").len());
        assert(lit("xchg").len() != lit("cmp").len());
        assert(lit("xchg")[0] != lit("test")[0]);
        },
        M::CMPXCHG => {
        assert(lit("cmpxchg").len() != lit("add").len());
        assert(lit("cmpxchg").len() != lit("sub").len());
        assert(lit("cmpxchg").len() != lit("mul").len());
        assert(lit("cmpxchg").len() != lit("imul").len());
        assert(lit("cmpxchg").len() != lit("div").len());
        assert(lit("cmpxchg").len() != lit("idiv").len());
        assert(lit("cmpxchg").len() != lit("shl").len());
        assert(lit("cmpxchg").len() != lit("shr").len());
        assert(lit("cmpxchg").len() != lit("sar").len());
        assert(lit("cmpxchg").len() != lit("xor").len());
        assert(lit("cmpxchg").len() != lit("not").len());
        assert(lit("cmpxchg").len() != lit("or").len());
        assert(lit("cmpxchg").len() != lit("and").len());
        assert(lit("cmpxchg").len() != lit("push").len());
        assert(lit("cmpxchg").len() != lit("pop").len());
        assert(lit("cmpxchg").len() != lit("cmp").len());
        assert(lit("cmpxchg").len() != lit("test").len());
        assert(lit("cmpxchg").len() != lit("xchg").len());
        },
        M::JMP => {
        assert(lit("jmp")[0] != lit("add")[0]);
        assert(lit("jmp")[0] != lit("sub")[0]);
        assert(lit("jmp")[0] != lit("mul")[0]);
        assert(lit("jmp").len() != lit("imul").len());
        assert(lit("jmp")[0] != lit("div")[0]);
        assert(lit("jmp").len() != lit("idiv").len());
        assert(lit("jmp")[0] != lit("shl")[0]);
        assert(lit("jmp")[0] != lit("shr")[0]);
        assert(lit("jmp")[0] != lit("sar")[0]);
        assert(lit("jmp")[0] != lit("xor")[0]);
        assert(lit("jmp")[0] != lit("not")[0]);
        assert(lit("jmp").len() != lit("or").len());
        assert(lit("jmp")[0] != lit("and")[0]);
        assert(lit("jmp").len() != lit("push").len());
        assert(lit("jmp")[0] != lit("pop")[0]);
        assert(lit("jmp")[0] != lit("cmp")[0]);
        assert(lit("jmp").len() != lit("test").len());
        assert(lit("jmp").len() != lit("xchg").len());
        assert(lit("jmp").len() != lit("cmpxchg").len());
        },
        M::JZ => {
        assert(lit("jz").len() != lit("add").len());
        assert(lit("jz").len() != lit("sub").len());
        assert(lit("jz").len() != lit("mul").len());
        assert(lit("jz").len() != lit("imul").len());
        assert(lit("jz").len() != lit("div").len());
        assert(lit("jz").len() != lit("idiv").len());
        assert(lit("jz").len() != lit("shl").len());
        assert(lit("jz").len() != lit("shr").len());
        assert(lit("jz").len() != lit("sar").len());
        assert(lit("jz").len() != lit("xor").len());
        assert(lit("jz").len() != lit("not").len());
        assert(lit("jz")[0] != lit("or")[0]);
        assert(lit("jz").len() != lit("and").len());
        assert(lit("jz").len() != lit("push").len());
        assert(lit("jz").len() != lit("pop").len());
        assert(lit("jz").len() != lit("cmp").len());
        assert(lit("jz").len() != lit("test").len());
        assert(lit("jz").len() != lit("xchg").len());
        assert(lit("jz").len() != lit("cmpxchg").len());
        assert(lit("jz").len() != lit("jmp").len());
        },
        M::JE => {
        assert(lit("je").len() != lit("add").len());
        assert(lit("je").len() != lit("sub").len());
        assert(lit("je").len() != lit("mul").len());
        assert(lit("je").len() != lit("imul").len());
        assert(lit("je").len() != lit("div").len());
        assert(lit("je").len() != lit("idiv").len());
        assert(lit("je").len() != lit("shl").len());
        assert(lit("je").len() != lit("shr").len());
        assert(lit("je").len() != lit("sar").len());
        assert(lit("je").len() != lit("xor").len());
        assert(lit("je").len() != lit("not").len());
        assert(lit("je")[0] != lit("or")[0]);
        assert(lit("je").len() != lit("and").len());
        assert(lit("je").len() != lit("push").len());
        assert(lit("je").len() != lit("pop").len());
        assert(lit("je").len() != lit("cmp").len());
        assert(lit("je").len() != lit("test").len());
        assert(lit("je").len() != lit("xchg").len());
        assert(lit("je").len() != lit("cmpxchg").len());
        assert(lit("je").len() != lit("jmp").len());
        assert(lit("je")[1] != lit("jz")[1]);
        },
        M::JNZ => {
        assert(lit("jnz")[0] != lit("add")[0]);
        assert(lit("jnz")[0] != lit("sub")[0]);
        assert(lit("jnz")[0] != lit("mul")[0]);
        assert(lit("jnz").len() != lit("imul").len());
        assert(lit("jnz")[0] != lit("div")[0]);
        assert(lit("jnz").len() != lit("idiv").len());
        assert(lit("jnz")[0] != lit("shl")[0]);
        assert(lit("jnz")[0] != lit("shr")[0]);
        assert(lit("jnz")[0] != lit("sar")[0]);
        assert(lit("jnz")[0] != lit("xor")[0]);
        assert(lit("jnz")[0] != lit("not")[0]);
        assert(lit("jnz").len() != lit("or").len());
        assert(lit("jnz")[0] != lit("and")[0]);
        assert(lit("jnz").len() != lit("push").len());
        assert(lit("jnz")[0] != lit("pop")[0]);
        assert(lit("jnz")[0] != lit("cmp")[0]);
        assert(lit("jnz").len() != lit("test").len());
        assert(lit("jnz").len() != lit("xchg").len());
        assert(lit("jnz").len() != lit("cmpxchg").len());
        assert(lit("jnz")[1] != lit("jmp")[1]);
        assert(lit("jnz").len() != lit("jz").len());
        assert(lit("jnz").len() != lit("je").len());
        },
        M::JNE => {
        assert(lit("jne")[0] != lit("add")[0]);
        assert(lit("jne")[0] != lit("sub")[0]);
        assert(lit("jne")[0] != lit("mul")[0]);
        assert(lit("jne").len() != lit("imul").len());
        assert(lit("jne")[0] != lit("div")[0]);
        assert(lit("jne").len() != lit("idiv").len());
        assert(lit("jne")[0] != lit("shl")[0]);
        assert(lit("jne")[0] != lit("shr")[0]);
        assert(lit("jne")[0] != lit("sar")[0]);
        assert(lit("jne")[0] != lit("xor")[0]);
        assert(lit("jne")[0] != lit("not")[0]);
        assert(lit("jne").len() != lit("or").len());
        assert(lit("jne")[0] != lit("and")[0]);
        assert(lit("jne").len() != lit("push").len());
        assert(lit("jne")[0] != lit("pop")[0]);
        assert(lit("jne")[0] != lit("cmp")[0]);
        assert(lit("jne").len() != lit("test").len());
        assert(lit("jne").len() != lit("xchg").len());
        assert(lit("jne").len() != lit("cmpxchg").len());
        assert(lit("jne")[1] != lit("jmp")[1]);
        assert(lit("jne").len() != lit("jz").len());
        assert(lit("jne").len() != lit("je").len());
        assert(lit("jne")[2] != lit("jnz")[2]);
        },
        M::JA => {
        assert(lit("ja").len() != lit("add").len());
        assert(lit("ja").len() != lit("sub").len());
        assert(lit("ja").len() != lit("mul").len());
        assert(lit("ja").len() != lit("imul").len());
        assert(lit("ja").len() != lit("div").len());
        assert(lit("ja").len() != lit("idiv").len());
        assert(lit("ja").len() != lit("shl").len());
        assert(lit("ja").len() != lit("shr").len());
        assert(lit("ja").len() != lit("sar").len());
        assert(lit("ja").len() != lit("xor").len());
        assert(lit("ja").len() != lit("not").len());
        assert(lit("ja")[0] != lit("or")[0]);
        assert(lit("ja").len() != lit("and").len());
        assert(lit("ja").len() != lit("push").len());
        assert(lit("ja").len() != lit("pop").len());
        assert(lit("ja").len() != lit("cmp").len());
        assert(lit("ja").len() != lit("test").len());
        assert(lit("ja").len() != lit("xchg").len());
        assert(lit("ja").len() != lit("cmpxchg").len());
        assert(lit("ja").len() != lit("jmp").len());
        assert(lit("ja")[1] != lit("jz")[1]);
        assert(lit("ja")[1] != lit("je")[1]);
        assert(lit("ja").len() != lit("jnz").len());
        assert(lit("ja").len() != lit("jne").len());
        },
        M::JAE => {
        assert(lit("jae")[0] != lit("add")[0]);
        assert(lit("jae")[0] != lit("sub")[0]);
        assert(lit("jae")[0] != lit("mul")[0]);
        assert(lit("jae").len() != lit("imul").len());
        assert(lit("jae")[0] != lit("div")[0]);
        assert(lit("jae").len() != lit("idiv").len());
        assert(lit("jae")[0] != lit("shl")[0]);
        assert(lit("jae")[0] != lit("shr")[0]);
        assert(lit("jae")[0] != lit("sar")[0]);
        assert(lit("jae")[0] != lit("xor")[0]);
        assert(lit("jae")[0] != lit("not")[0]);
        assert(lit("jae").len() != lit("or").len());
        assert(lit("jae")[0] != lit("and")[0]);
        assert(lit("jae").len() != lit("push").len());
        assert(lit("jae")[0] != lit("pop")[0]);
        assert(lit("jae")[0] != lit("cmp")[0]);
        assert(lit("jae").len() != lit("test").len());
        assert(lit("jae").len() != lit("xchg").len());
        assert(lit("jae").len() != lit("cmpxchg").len());
        assert(lit("jae")[1] != lit("jmp")[1]);
        assert(lit("jae").len() != lit("jz").len());
        assert(lit("jae").len() != lit("je").len());
        assert(lit("jae")[1] != lit("jnz")[1]);
        assert(lit("jae")[1] != lit("jne")[1]);
        assert(lit("jae").len() != lit("ja").len());
        },
        M::JG => {
        assert(lit("jg").len() != lit("add").len());
        assert(lit("jg").len() != lit("sub").len());
        assert(lit("jg").len() != lit("mul").len());
        assert(lit("jg").len() != lit("imul").len());
        assert(lit("jg").len() != lit("div").len());
        assert(lit("jg").len() != lit("idiv").len());
        assert(lit("jg").len() != lit("shl").len());
        assert(lit("jg").len() != lit("shr").len());
        assert(lit("jg").len() != lit("sar").len());
        assert(lit("jg").len() != lit("xor").len());
        assert(lit("jg").len() != lit("not").len());
        assert(lit("jg")[0] != lit("or")[0]);
        assert(lit("jg").len() != lit("and").len());
        assert(lit("jg").len() != lit("push").len());
        assert(lit("jg").len() != lit("pop").len());
        assert(lit("jg").len() != lit("cmp").len());
        assert(lit("jg").len() != lit("test").len());
        assert(lit("jg").len() != lit("xchg").len());
        assert(lit("jg").len() != lit("cmpxchg").len());
        assert(lit("jg").len() != lit("jmp").len());
        assert(lit("jg")[1] != lit("jz")[1]);
        assert(lit("jg")[1] != lit("je")[1]);
        assert(lit("jg").len() != lit("jnz").len());
        assert(lit("jg").len() != lit("jne").len());
        assert(lit("jg")[1] != lit("ja")[1]);
        assert(lit("jg").len() != lit("jae").len());
        },
        M::JGE => {
        assert(lit("jge")[0] != lit("add")[0]);
        assert(lit("jge")[0] != lit("sub")[0]);
        assert(lit("jge")[0] != lit("mul")[0]);
        assert(lit("jge").len() != lit("imul").len());
        assert(lit("jge")[0] != lit("div")[0]);
        assert(lit("jge").len() != lit("idiv").len());
        assert(lit("jge")[0] != lit("shl")[0]);
        assert(lit("jge")[0] != lit("shr")[0]);
        assert(lit("jge")[0] != lit("sar")[0]);
        assert(lit("jge")[0] != lit("xor")[0]);
        assert(lit("jge")[0] != lit("not")[0]);
        assert(lit("jge").len() != lit("or").len());
        assert(lit("jge")[0] != lit("and")[0]);
        assert(lit("jge").len() != lit("push").len());
        assert(lit("jge")[0] != lit("pop")[0]);
        assert(lit("jge")[0] != lit("cmp")[0]);
        assert(lit("jge").len() != lit("test").len());
        assert(lit("jge").len() != lit("xchg").len());
        assert(lit("jge").len() != lit("cmpxchg").len());
        assert(lit("jge")[1] != lit("jmp")[1]);
        assert(lit("jge").len() != lit("jz").len());
        assert(lit("jge").len() != lit("je").len());
        assert(lit("jge")[1] != lit("jnz")[1]);
        assert(lit("jge")[1] != lit("jne")[1]);
        assert(lit("jge").len() != lit("ja").len());
        assert(lit("jge")[1] != lit("jae")[1]);
        assert(lit("jge").len() != lit("jg").len());
        },
        M::JB => {
        assert(lit("jb").len() != lit("add").len());
        assert(lit("jb").len() != lit("sub").len());
        assert(lit("jb").len() != lit("mul").len());
        assert(lit("jb").len() != lit("imul").len());
        assert(lit("jb").len() != lit("div").len());
        assert(lit("jb").len() != lit("idiv").len());
        assert(lit("jb").len() != lit("shl").len());
        assert(lit("jb").len() != lit("shr").len());
        assert(lit("jb").len() != lit("sar").len());
        assert(lit("jb").len() != lit("xor").len());
        assert(lit("jb").len() != lit("not").len());
        assert(lit("jb")[0] != lit("or")[0]);
        assert(lit("jb").len() != lit("and").len());
        assert(lit("jb").len() != lit("push").len());
        assert(lit("jb").len() != lit("pop").len());
        assert(lit("jb").len() != lit("cmp").len());
        assert(lit("jb").len() != lit("test").len());
        assert(lit("jb").len() != lit("xchg").len());
        assert(lit("jb").len() != lit("cmpxchg").len());
        assert(lit("jb").len() != lit("jmp").len());
        assert(lit("jb")[1] != lit("jz")[1]);
        assert(lit("jb")[1] != lit("je")[1]);
        assert(lit("jb").len() != lit("jnz").len());
        assert(lit("jb").len() != lit("jne").len());
        assert(lit("jb")[1] != lit("ja")[1]);
        assert(lit("jb").len() != lit("jae").len());
        assert(lit("jb")[1] != lit("jg")[1]);
        assert(lit("jb").len() != lit("jge").len());
        },
        M::JBE => {
        assert(lit("jbe")[0] != lit("add")[0]);
        assert(lit("jbe")[0] != lit("sub")[0]);
        assert(lit("jbe")[0] != lit("mul")[0]);
        assert(lit("jbe").len() != lit("imul").len());
        assert(lit("jbe")[0] != lit("div")[0]);
        assert(lit("jbe").len() != lit("idiv").len());
        assert(lit("jbe")[0] != lit("shl")[0]);
        assert(lit("jbe")[0] != lit("shr")[0]);
        assert(lit("jbe")[0] != lit("sar")[0]);
        assert(lit("jbe")[0] != lit("xor")[0]);
        assert(lit("jbe")[0] != lit("not")[0]);
        assert(lit("jbe").len() != lit("or").len());
        assert(lit("jbe")[0] != lit("and")[0]);
        assert(lit("jbe").len() != lit("push").len());
        assert(lit("jbe")[0] != lit("pop")[0]);
        assert(lit("jbe")[0] != lit("cmp")[0]);
        assert(lit("jbe").len() != lit("test").len());
        assert(lit("jbe").len() != lit("xchg").len());
        assert(lit("jbe").len() != lit("cmpxchg").len());
        assert(lit("jbe")[1] != lit("jmp")[1]);
        assert(lit("jbe").len() != lit("jz").len());
        assert(lit("jbe").len() != lit("je").len());
        assert(lit("jbe")[1] != lit("jnz")[1]);
        assert(lit("jbe")[1] != lit("jne")[1]);
        assert(lit("jbe").len() != lit("ja").len());
        assert(lit("jbe")[1] != lit("jae")[1]);
        assert(lit("jbe").len() != lit("jg").len());
        assert(lit("jbe")[1] != lit("jge")[1]);
        assert(lit("jbe").len() != lit("jb").len());
        },
        M::JL => {
        assert(lit("jl").len() != lit("add").len());
        assert(lit("jl").len() != lit("sub").len());
        assert(lit("jl").len() != lit("mul").len());
        assert(lit("jl").len() != lit("imul").len());
        assert(lit("jl").len() != lit("div").len());
        assert(lit("jl").len() != lit("idiv").len());
        assert(lit("jl").len() != lit("shl").len());
        assert(lit("jl").len() != lit("shr").len());
        assert(lit("jl").len() != lit("sar").len());
        assert(lit("jl").len() != lit("xor").len());
        assert(lit("jl").len() != lit("not").len());
        assert(lit("jl")[0] != lit("or")[0]);
        assert(lit("jl").len() != lit("and").len());
        assert(lit("jl").len() != lit("push").len());
        assert(lit("jl").len() != lit("pop").len());
        assert(lit("jl").len() != lit("cmp").len());
        assert(lit("jl").len() != lit("test").len());
        assert(lit("jl").len() != lit("xchg").len());
        assert(lit("jl").len() != lit("cmpxchg").len());
        assert(lit("jl").len() != lit("jmp").len());
        assert(lit("jl")[1] != lit("jz")[1]);
        assert(lit("jl")[1] != lit("je")[1]);
        assert(lit("jl").len() != lit("jnz").len());
        assert(lit("jl").len() != lit("jne").len());
        assert(lit("jl")[1] != lit("ja")[1]);
        assert(lit("jl").len() != lit("jae").len());
        assert(lit("jl")[1] != lit("jg")[1]);
        assert(lit("jl").len() != lit("jge").len());
        assert(lit("jl")[1] != lit("jb")[1]);
        assert(lit("jl").len() != lit("jbe").len());
        },
        M::JLE => {
        assert(lit("jle")[0] != lit("add")[0]);
        assert(lit("jle")[0] != lit("sub")[0]);
        assert(lit("jle")[0] != lit("mul")[0]);
        assert(lit("jle").len() != lit("imul").len());
        assert(lit("jle")[0] != lit("div")[0]);
        assert(lit("jle").len() != lit("idiv").len());
        assert(lit("jle")[0] != lit("shl")[0]);
        assert(lit("jle")[0] != lit("shr")[0]);
        assert(lit("jle")[0] != lit("sar")[0]);
        assert(lit("jle")[0] != lit("xor")[0]);
        assert(lit("jle")[0] != lit("not")[0]);
        assert(lit("jle").len() != lit("or").len());
        assert(lit("jle")[0] != lit("and")[0]);
        assert(lit("jle").len() != lit("push").len());
        assert(lit("jle")[0] != lit("pop")[0]);
        assert(lit("jle")[0] != lit("cmp")[0]);
        assert(lit("jle").len() != lit("test").len());
        assert(lit("jle").len() != lit("xchg").len());
        assert(lit("jle").len() != lit("cmpxchg").len());
        assert(lit("jle")[1] != lit("jmp")[1]);
        assert(lit("jle").len() != lit("jz").len());
        assert(lit("jle").len() != lit("je").len());
        assert(lit("jle")[1] != lit("jnz")[1]);
        assert(lit("jle")[1] != lit("jne")[1]);
        assert(lit("jle").len() != lit("ja").len());
        assert(lit("jle")[1] != lit("jae")[1]);
        assert(lit("jle").len() != lit("jg").len());
        assert(lit("jle")[1] != lit("jge")[1]);
        assert(lit("jle").len() != lit("jb").len());
        assert(lit("jle")[1] != lit("jbe")[1]);
        assert(lit("jle").len() != lit("jl").len());
        },
        M::RET => {
        assert(lit("ret")[0] != lit("add")[0]);
        assert(lit("ret")[0] != lit("sub")[0]);
        assert(lit("ret")[0] != lit("mul")[0]);
        assert(lit("ret").len() != lit("imul").len());
        assert(lit("ret")[0] != lit("div")[0]);
        assert(lit("ret").len() != lit("idiv").len());
        assert(lit("ret")[0] != lit("shl")[0]);
        assert(lit("ret")[0] != lit("shr")[0]);
        assert(lit("ret")[0] != lit("sar")[0]);
        assert(lit("ret")[0] != lit("xor")[0]);
        assert(lit("ret")[0] != lit("not")[0]);
        assert(lit("ret").len() != lit("or").len());
        assert(lit("ret")[0] != lit("and")[0]);
        assert(lit("ret").len() != lit("push").len());
        assert(lit("ret")[0] != lit("pop")[0]);
        assert(lit("ret")[0] != lit("cmp")[0]);
        assert(lit("ret").len() != lit("test").len());
        assert(lit("ret").len() != lit("xchg").len());
        assert(lit("ret").len() != lit("cmpxchg").len());
        assert(lit("ret")[0] != lit("jmp")[0]);
        assert(lit("ret").len() != lit("jz").len());
        assert(lit("ret").len() != lit("je").len());
        assert(lit("ret")[0] != lit("jnz")[0]);
        assert(lit("ret")[0] != lit("jne")[0]);
        assert(lit("ret").len() != lit("ja").len());
        assert(lit("ret")[0] != lit("jae")[0]);
        assert(lit("ret").len() != lit("jg").len());
        assert(lit("ret")[0] != lit("jge")[0]);
        assert(lit("ret").len() != lit("jb").len());
        assert(lit("ret")[0] != lit("jbe")[0]);
        assert(lit("ret").len() != lit("jl").len());
        assert(lit("ret")[0] != lit("jle")[0]);
        },
        M::SYSCALL => {
        assert(lit("syscall").len() != lit("add").len());
        assert(lit("syscall").len() != lit("sub").len());
        assert(lit("syscall").len() != lit("mul").len());
        assert(lit("syscall").len() != lit("imul").len());
        assert(lit("syscall").len() != lit("div").len());
        assert(lit("syscall").len() != lit("idiv").len());
        assert(lit("syscall").len() != lit("shl").len());
        assert(lit("syscall").len() != lit("shr").len());
        assert(lit("syscall").len() != lit("sar").len());
        assert(lit("syscall").len() != lit("xor").len());
        assert(lit("syscall").len() != lit("not").len());
        assert(lit("syscall").len() != lit("or").len());
        assert(lit("syscall").len() != lit("and").len());
        assert(lit("syscall").len() != lit("push").len());
        assert(lit("syscall").len() != lit("pop").len());
        assert(lit("syscall").len() != lit("cmp").len());
        assert(lit("syscall").len() != lit("test").len());
        assert(lit("syscall").len() != lit("xchg").len());
        assert(lit("syscall")[0] != lit("cmpxchg")[0]);
        assert(lit("syscall").len() != lit("jmp").len());
        assert(lit("syscall").len() != lit("jz").len());
        assert(lit("syscall").len() != lit("je").len());
        assert(lit("syscall").len() != lit("jnz").len());
        assert(lit("syscall").len() != lit("jne").len());
        assert(lit("syscall").len() != lit("ja").len());
        assert(lit("syscall").len() != lit("jae").len());
        assert(lit("syscall").len() != lit("jg").len());
        assert(lit("syscall").len() != lit("jge").len());
        assert(lit("syscall").len() != lit("jb").len());
        assert(lit("syscall").len() != lit("jbe").len());
        assert(lit("syscall").len() != lit("jl").len());
        assert(lit("syscall").len() != lit("jle").len());
        assert(lit("syscall").len() != lit("ret").len());
        },
        M::CALL => {
        assert(lit("call").len() != lit("add").len());
        assert(lit("call").len() != lit("sub").len());
        assert(lit("call").len() != lit("mul").len());
        assert(lit("call")[0] != lit("imul")[0]);
        assert(lit("call").len() != lit("div").len());
        assert(lit("call")[0] != lit("idiv")[0]);
        assert(lit("call").len() != lit("shl").len());
        assert(lit("call").len() != lit("shr").len());
        assert(lit("call").len() != lit("sar").len());
        assert(lit("call").len() != lit("xor").len());
        assert(lit("call").len() != lit("not").len());
        assert(lit("call").len() != lit("or").len());
        assert(lit("call").len() != lit("and").len());
        assert(lit("call")[0] != lit("push")[0]);
        assert(lit("call").len() != lit("pop").len());
        assert(lit("call").len() != lit("cmp").len());
        assert(lit("call")[0] != lit("test")[0]);
        assert(lit("call")[0] != lit("xchg")[0]);
        assert(lit("call").len() != lit("cmpxchg").len());
        assert(lit("call").len() != lit("jmp").len());
        assert(lit("call").len() != lit("jz").len());
        assert(lit("call").len() != lit("je").len());
        assert(lit("call").len() != lit("jnz").len());
        assert(lit("call").len() != lit("jne").len());
        assert(lit("call").len() != lit("ja").len());
        assert(lit("call").len() != lit("jae").len());
        assert(lit("call").len() != lit("jg").len());
        assert(lit("call").len() != lit("jge").len());
        assert(lit("call").len() != lit("jb").len());
        assert(lit("call").len() != lit("jbe").len());
        assert(lit("call").len() != lit("jl").len());
        assert(lit("call").len() != lit("jle").len());
        assert(lit("call").len() != lit("ret").len());
        assert(lit("call").len() != lit("syscall").len());
        },
        M::MOV => {
        assert(lit("mov")[0] != lit("add")[0]);
        assert(lit("mov")[0] != lit("sub")[0]);
        assert(lit("mov")[1] != lit("mul")[1]);
        assert(lit("mov").len() != lit("imul").len());
        assert(lit("mov")[0] != lit("div")[0]);
        assert(lit("mov").len() != lit("idiv").len());
        assert(lit("mov")[0] != lit("shl")[0]);
        assert(lit("mov")[0] != lit("shr")[0]);
        assert(lit("mov")[0] != lit("sar")[0]);
        assert(lit("mov")[0] != lit("xor")[0]);
        assert(lit("mov")[0] != lit("not")[0]);
        assert(lit("mov").len() != lit("or").len());
        assert(lit("mov")[0] != lit("and")[0]);
        assert(lit("mov").len() != lit("push").len());
        assert(lit("mov")[0] != lit("pop")[0]);
        assert(lit("mov")[0] != lit("cmp")[0]);
        assert(lit("mov").len() != lit("test").len());
        assert(lit("mov").len() != lit("xchg").len());
        assert(lit("mov").len() != lit("cmpxchg").len());
        assert(lit("mov")[0] != lit("jmp")[0]);
        assert(lit("mov").len() != lit("jz").len());
        assert(lit("mov").len() != lit("je").len());
        assert(lit("mov")[0] != lit("jnz")[0]);
        assert(lit("mov")[0] != lit("jne")[0]);
        assert(lit("mov").len() != lit("ja").len());
        assert(lit("mov")[0] != lit("jae")[0]);
        assert(lit("mov").len() != lit("jg").len());
        assert(lit("mov")[0] != lit("jge")[0]);
        assert(lit("mov").len() != lit("jb").len());
        assert(lit("mov")[0] != lit("jbe")[0]);
        assert(lit("mov").len() != lit("jl").len());
        assert(lit("mov")[0] != lit("jle")[0]);
        assert(lit("mov")[0] != lit("ret")[0]);
        assert(lit("mov").len() != lit("syscall").len());
        assert(lit("mov").len() != lit("call").len());
        },
        M::HLT => {
        assert(lit("hlt")[0] != lit("add")[0]);
        assert(lit("hlt")[0] != lit("sub")[0]);
        assert(lit("hlt")[0] != lit("mul")[0]);
        assert(lit("hlt").len() != lit("imul").len());
        assert(lit("hlt")[0] != lit("div")[0]);
        assert(lit("hlt").len() != lit("idiv").len());
        assert(lit("hlt")[0] != lit("shl")[0]);
        assert(lit("hlt")[0] != lit("shr")[0]);
        assert(lit("hlt")[0] != lit("sar")[0]);
        assert(lit("hlt")[0] != lit("xor")[0]);
        assert(lit("hlt")[0] != lit("not")[0]);
        assert(lit("hlt").len() != lit("or").len());
        assert(lit("hlt")[0] != lit("and")[0]);
        assert(lit("hlt").len() != lit("push").len());
        assert(lit("hlt")[0] != lit("pop")[0]);
        assert(lit("hlt")[0] != lit("cmp")[0]);
        assert(lit("hlt").len() != lit("test").len());
        assert(lit("hlt").len() != lit("xchg").len());
        assert(lit("hlt").len() != lit("cmpxchg").len());
        assert(lit("hlt")[0] != lit("jmp")[0]);
        assert(lit("hlt").len() != lit("jz").len());
        assert(lit("hlt").len() != lit("je").len());
        assert(lit("hlt")[0] != lit("jnz")[0]);
        assert(lit("hlt")[0] != lit("jne")[0]);
        assert(lit("hlt").len() != lit("ja").len());
        assert(lit("hlt")[0] != lit("jae")[0]);
        assert(lit("hlt").len() != lit("jg").len());
        assert(lit("hlt")[0] != lit("jge")[0]);
        assert(lit("hlt").len() != lit("jb").len());
        assert(lit("hlt")[0] != lit("jbe")[0]);
        assert(lit("hlt").len() != lit("jl").len());
        assert(lit("hlt")[0] != lit("jle")[0]);
        assert(lit("hlt")[0] != lit("ret")[0]);
        assert(lit("hlt").len() != lit("syscall").len());
        assert(lit("hlt").len() != lit("call").len());
        assert(lit("hlt")[0] != lit("mov")[0]);
        },
    }
}

proof fn lemma_mnemonic_from_word_inverse(w: Seq<u8>)
    ensures
        spec_mnemonic_from_word(w) matches Some(m) ==> w == mnemonic_name(m),
{
}

/// Law: each mnemonic is read back from its lower-case name, and only from it: `from_word` gives
/// a mnemonic exactly for the name of that mnemonic, matched byte for byte (so `ADD` gives none).
pub proof fn law_mnemonic_names(m: M, w: Seq<u8>)
    ensures
        spec_mnemonic_from_word(mnemonic_name(m)) == Some(m),
        spec_mnemonic_from_word(w) == Some(m) <==> w == mnemonic_name(m),
{
    lemma_mnemonic_name_reads_back(m);
    lemma_mnemonic_from_word_inverse(w);
}

/// Law: each arithmetic mnemonic (`add`, `sub`, `mul`, `imul`, `div`, `idiv`) takes any of the
/// size prefixes `byte`, `word`, `dword` and `qword`, with a register (general or extended) first
/// and a register, a memory operand or an immediate second.
pub proof fn law_arith_forms(m: M, pres: Seq<P>, a: O, b: O)
    requires
        m == M::ADD || m == M::SUB || m == M::MUL || m == M::IMUL || m == M::DIV || m == M::IDIV,
        forall|i: int| #![trigger pres[i]] 0 <= i < pres.len() ==> pres[i] == P::Byte || pres[i] == P::Word || pres[i] == P::DWord || pres[i] == P::QWord,
        a == O::Reg || a == O::XReg,
        b != O::Imm ==> b == O::Reg || b == O::XReg || b == O::RMem || b == O::AMem,
    ensures
        spec_instruction_allowed(m, pres, seq![a, b]),
{
    let k: int = if m == M::ADD { 0 } else if m == M::SUB { 1 } else if m == M::MUL { 2 } else if m == M::IMUL { 3 } else if m == M::DIV { 4 } else { 5 };
    let pat = spec_allowed_patterns()[k];
    let ops = seq![a, b];
    assert(pat.0 == m);
    assert forall|i: int| 0 <= i < pres.len() implies pat.1.contains(#[trigger] pres[i]) by {
        let p = pres[i];
        let j: int = if p == P::Byte { 0 } else if p == P::Word { 1 } else if p == P::DWord { 2 } else { 3 };
        assert(pat.1[j] == p);
    }
    assert(pat.2[0][0] == O::XReg);
    assert(spec_qualified_eq(a, pat.2[0][0]));
    assert(kind_allowed(ops[0], pat.2[0]));
    let j: int = if b == O::Reg || b == O::XReg { 0 } else if b == O::Imm { 2 } else { 1 };
    assert(spec_qualified_eq(b, pat.2[1][j]));
    assert(kind_allowed(ops[1], pat.2[1]));
    assert(pattern_accepts(pat, m, pres, ops));
}

/// a size prefix: `byte`, `word`, `dword` or `qword`
pub open spec fn is_size_prefix(p: P) -> bool {
    p == P::Byte || p == P::Word || p == P::DWord || p == P::QWord
}

/// every prefix gives a size
pub open spec fn sized_only(pres: Seq<P>) -> bool {
    forall|i: int| 0 <= i < pres.len() ==> is_size_prefix(#[trigger] pres[i])
}

/// every prefix gives a size or marks floating point
pub open spec fn sized_or_fp(pres: Seq<P>) -> bool {
    forall|i: int| 0 <= i < pres.len() ==> is_size_prefix(#[trigger] pres[i]) || pres[i] == P::Fp
}

/// every prefix is the call prefix
pub open spec fn call_only(pres: Seq<P>) -> bool {
    forall|i: int| 0 <= i < pres.len() ==> #[trigger] pres[i] == P::Call
}

/// a general or an extended register
pub open spec fn any_register(o: O) -> bool {
    o == O::Reg || o == O::XReg
}

/// a memory operand, at a register or at an address
pub open spec fn memory_operand(o: O) -> bool {
    o == O::RMem || o == O::AMem
}

/// the instruction forms of the instruction set, family by family: which prefixes a mnemonic
/// takes and which operands, in order
pub open spec fn isa_form(m: M, pres: Seq<P>, ops: Seq<O>) -> bool {
    match m {
        M::ADD | M::SUB => sized_only(pres) && ops.len() == 2 && any_register(ops[0]),
        M::MUL | M::IMUL | M::DIV | M::IDIV | M::MOV => sized_or_fp(pres) && ops.len() == 2 && any_register(ops[0]),
        M::SHL | M::SHR | M::SAR | M::XCHG => sized_only(pres) && ops.len() == 2 && ops[0] == O::Reg && ops[1] == O::Reg,
        M::XOR | M::OR | M::AND => sized_only(pres) && ops.len() == 2 && ops[0] == O::Reg && ops[1] != O::XReg,
        M::NOT => sized_only(pres) && ops.len() == 1 && ops[0] == O::Reg,
        M::PUSH | M::POP => sized_only(pres) && ops.len() == 1 && any_register(ops[0]),
        M::CMP => sized_or_fp(pres) && ops.len() == 2 && ops[0] == O::Reg,
        M::TEST => sized_or_fp(pres) && ops.len() == 1 && any_register(ops[0]),
        M::CMPXCHG => sized_only(pres) && ops.len() == 4 && any_register(ops[0]) && any_register(ops[1])
            && memory_operand(ops[2]) && memory_operand(ops[3]),
        M::CALL => pres.len() == 0 && ops.len() == 1 && (ops[0] == O::Reg || memory_operand(ops[0])),
        M::RET | M::SYSCALL | M::HLT => pres.len() == 0 && ops.len() == 0,
        _ => call_only(pres) && ops.len() == 1 && (ops[0] == O::Reg || memory_operand(ops[0])),
    }
}

/// what the prefix lists and the operand positions of the table admit
proof fn lemma_form_lists(s4: Seq<P>, s5: Seq<P>, c: Seq<P>, e: Seq<P>, x: Seq<O>, r: Seq<O>, xmi: Seq<O>, rmi: Seq<O>, rm: Seq<O>, m: Seq<O>)
    requires
        s4 == seq![P::Byte, P::Word, P::DWord, P::QWord],
        s5 == seq![P::Byte, P::Word, P::DWord, P::QWord, P::Fp],
        c == seq![P::Call],
        e == Seq::<P>::empty(),
        x == seq![O::XReg],
        r == seq![O::Reg],
        xmi == seq![O::XReg, O::RMem, O::Imm],
        rmi == seq![O::Reg, O::RMem, O::Imm],
        rm == seq![O::Reg, O::RMem],
        m == seq![O::RMem],
    ensures
        forall|p: P| #[trigger] s4.contains(p) <==> is_size_prefix(p),
        forall|p: P| #[trigger] s5.contains(p) <==> (is_size_prefix(p) || p == P::Fp),
        forall|p: P| #[trigger] c.contains(p) <==> p == P::Call,
        forall|p: P| !(#[trigger] e.contains(p)),
        forall|o: O| #[trigger] kind_allowed(o, x) <==> any_register(o),
        forall|o: O| #[trigger] kind_allowed(o, r) <==> o == O::Reg,
        forall|o: O| #[trigger] kind_allowed(o, xmi),
        forall|o: O| #[trigger] kind_allowed(o, rmi) <==> o != O::XReg,
        forall|o: O| #[trigger] kind_allowed(o, rm) <==> (o == O::Reg || memory_operand(o)),
        forall|o: O| #[trigger] kind_allowed(o, m) <==> memory_operand(o),
{
    assert forall|p: P| #[trigger] s4.contains(p) <==> is_size_prefix(p) by {
        if is_size_prefix(p) {
            let j: int = if p == P::Byte { 0 } else if p == P::Word { 1 } else if p == P::DWord { 2 } else { 3 };
            assert(s4[j] == p);
        }
    }
    assert forall|p: P| #[trigger] s5.contains(p) <==> (is_size_prefix(p) || p == P::Fp) by {
        if is_size_prefix(p) || p == P::Fp {
            let j: int = if p == P::Byte { 0 } else if p == P::Word { 1 } else if p == P::DWord { 2 } else if p == P::QWord { 3 } else { 4 };
            assert(s5[j] == p);
        }
    }
    assert forall|p: P| #[trigger] c.contains(p) <==> p == P::Call by {
        if p == P::Call {
            assert(c[0] == p);
        }
    }
    assert forall|o: O| #[trigger] kind_allowed(o, x) <==> any_register(o) by {
        if any_register(o) {
            assert(spec_qualified_eq(o, x[0]));
        }
    }
    assert forall|o: O| #[trigger] kind_allowed(o, r) <==> o == O::Reg by {
        if o == O::Reg {
            assert(spec_qualified_eq(o, r[0]));
        }
    }
    assert forall|o: O| #[trigger] kind_allowed(o, xmi) by {
        let j: int = if o == O::Reg || o == O::XReg { 0 } else if o == O::Imm { 2 } else { 1 };
        assert(spec_qualified_eq(o, xmi[j]));
    }
    assert forall|o: O| #[trigger] kind_allowed(o, rmi) <==> o != O::XReg by {
        if o != O::XReg {
            let j: int = if o == O::Reg { 0 } else if o == O::Imm { 2 } else { 1 };
            assert(spec_qualified_eq(o, rmi[j]));
        }
    }
    assert forall|o: O| #[trigger] kind_allowed(o, rm) <==> (o == O::Reg || memory_operand(o)) by {
        if o == O::Reg || memory_operand(o) {
            let j: int = if o == O::Reg { 0 } else { 1 };
            assert(spec_qualified_eq(o, rm[j]));
        }
    }
    assert forall|o: O| #[trigger] kind_allowed(o, m) <==> memory_operand(o) by {
        if memory_operand(o) {
            assert(spec_qualified_eq(o, m[0]));
        }
    }
}

/// the position of a mnemonic's entry in the table
pub open spec fn pattern_index(m: M) -> int {
    match m {
        M::ADD => 0,
        M::SUB => 1,
        M::MUL => 2,
        M::IMUL => 3,
        M::DIV => 4,
        M::IDIV => 5,
        M::SHL => 6,
        M::SHR => 7,
        M::SAR => 8,
        M::XOR => 9,
        M::NOT => 10,
        M::OR => 11,
        M::AND => 12,
        M::PUSH => 13,
        M::POP => 14,
        M::CMP => 15,
        M::TEST => 16,
        M::XCHG => 17,
        M::CMPXCHG => 18,
        M::JMP => 19,
        M::JZ => 20,
        M::JNZ => 21,
        M::JE => 22,
        M::JNE => 23,
        M::JA => 24,
        M::JG => 25,
        M::JB => 26,
        M::JL => 27,
        M::JAE => 28,
        M::JGE => 29,
        M::JBE => 30,
        M::JLE => 31,
        M::RET => 32,
        M::SYSCALL => 33,
        M::CALL => 34,
        M::MOV => 35,
        M::HLT => 36,
    }
}

/// which prefixes a prefix list of the table admits
proof fn lemma_prefixes_fit(pat: PatternV, pres: Seq<P>)
    ensures
        pat.1 == seq![P::Byte, P::Word, P::DWord, P::QWord] ==> (prefixes_fit(pat, pres) <==> sized_only(pres)),
        pat.1 == seq![P::Byte, P::Word, P::DWord, P::QWord, P::Fp] ==> (prefixes_fit(pat, pres) <==> sized_or_fp(pres)),
        pat.1 == seq![P::Call] ==> (prefixes_fit(pat, pres) <==> call_only(pres)),
        pat.1 == Seq::<P>::empty() ==> (prefixes_fit(pat, pres) <==> pres.len() == 0),
{
    lemma_form_lists(
        seq![P::Byte, P::Word, P::DWord, P::QWord],
        seq![P::Byte, P::Word, P::DWord, P::QWord, P::Fp],
        seq![P::Call],
        Seq::<P>::empty(),
        seq![O::XReg],
        seq![O::Reg],
        seq![O::XReg, O::RMem, O::Imm],
        seq![O::Reg, O::RMem, O::Imm],
        seq![O::Reg, O::RMem],
        seq![O::RMem],
    );
    if pat.1 == Seq::<P>::empty() && pres.len() > 0 {
        assert(!pat.1.contains(pres[0]));
    }
}

/// the operands fit a pattern of up to four positions exactly when each fits its position
proof fn lemma_operands_fit(pat: PatternV, ops: Seq<O>)
    requires
        pat.2.len() <= 4,
    ensures
        operands_fit(pat, ops) <==> (ops.len() == pat.2.len() && (ops.len() > 0 ==> kind_allowed(ops[0], pat.2[0]))
            && (ops.len() > 1 ==> kind_allowed(ops[1], pat.2[1])) && (ops.len() > 2 ==> kind_allowed(ops[2], pat.2[2]))
            && (ops.len() > 3 ==> kind_allowed(ops[3], pat.2[3]))),
{
    if ops.len() == pat.2.len() && (ops.len() > 0 ==> kind_allowed(ops[0], pat.2[0]))
        && (ops.len() > 1 ==> kind_allowed(ops[1], pat.2[1])) && (ops.len() > 2 ==> kind_allowed(ops[2], pat.2[2]))
        && (ops.len() > 3 ==> kind_allowed(ops[3], pat.2[3])) {
        assert forall|i: int| 0 <= i < ops.len() implies kind_allowed(#[trigger] ops[i], pat.2[i]) by {
            if i == 0 {} else if i == 1 {} else if i == 2 {} else {}
        }
    }
}

proof fn lemma_entry_form(q: int, pres: Seq<P>, ops: Seq<O>)
    requires
        0 <= q < spec_allowed_patterns().len(),
    ensures
        pattern_accepts(spec_allowed_patterns()[q], spec_allowed_patterns()[q].0, pres, ops)
            <==> isa_form(spec_allowed_patterns()[q].0, pres, ops),
{
    lemma_form_lists(
        seq![P::Byte, P::Word, P::DWord, P::QWord],
        seq![P::Byte, P::Word, P::DWord, P::QWord, P::Fp],
        seq![P::Call],
        Seq::<P>::empty(),
        seq![O::XReg],
        seq![O::Reg],
        seq![O::XReg, O::RMem, O::Imm],
        seq![O::Reg, O::RMem, O::Imm],
        seq![O::Reg, O::RMem],
        seq![O::RMem],
    );
    let pat = spec_allowed_patterns()[q];
    lemma_prefixes_fit(pat, pres);
    if q == 0 {
        lemma_operands_fit(pat, ops);
    } else if q == 1 {
        lemma_operands_fit(pat, ops);
    } else if q == 2 {
        lemma_operands_fit(pat, ops);
    } else if q == 3 {
        lemma_operands_fit(pat, ops);
    } else if q == 4 {
        lemma_operands_fit(pat, ops);
    } else if q == 5 {
        lemma_operands_fit(pat, ops);
    } else if q == 6 {
        lemma_operands_fit(pat, ops);
    } else if q == 7 {
        lemma_operands_fit(pat, ops);
    } else if q == 8 {
        lemma_operands_fit(pat, ops);
    } else if q == 9 {
        lemma_operands_fit(pat, ops);
    } else if q == 10 {
        lemma_operands_fit(pat, ops);
    } else if q == 11 {
        lemma_operands_fit(pat, ops);
    } else if q == 12 {
        lemma_operands_fit(pat, ops);
    } else if q == 13 {
        lemma_operands_fit(pat, ops);
    } else if q == 14 {
        lemma_operands_fit(pat, ops);
    } else if q == 15 {
        lemma_operands_fit(pat, ops);
    } else if q == 16 {
        lemma_operands_fit(pat, ops);
    } else if q == 17 {
        lemma_operands_fit(pat, ops);
    } else if q == 18 {
        lemma_operands_fit(pat, ops);
    } else if q == 19 {
        lemma_operands_fit(pat, ops);
    } else if q == 20 {
        lemma_operands_fit(pat, ops);
    } else if q == 21 {
        lemma_operands_fit(pat, ops);
    } else if q == 22 {
        lemma_operands_fit(pat, ops);
    } else if q == 23 {
        lemma_operands_fit(pat, ops);
    } else if q == 24 {
        lemma_operands_fit(pat, ops);
    } else if q == 25 {
        lemma_operands_fit(pat, ops);
    } else if q == 26 {
        lemma_operands_fit(pat, ops);
    } else if q == 27 {
        lemma_operands_fit(pat, ops);
    } else if q == 28 {
        lemma_operands_fit(pat, ops);
    } else if q == 29 {
        lemma_operands_fit(pat, ops);
    } else if q == 30 {
        lemma_operands_fit(pat, ops);
    } else if q == 31 {
        lemma_operands_fit(pat, ops);
    } else if q == 32 {
        lemma_operands_fit(pat, ops);
    } else if q == 33 {
        lemma_operands_fit(pat, ops);
    } else if q == 34 {
        lemma_operands_fit(pat, ops);
    } else if q == 35 {
        lemma_operands_fit(pat, ops);
    } else {
        lemma_operands_fit(pat, ops);
    }
}

/// Law: the assembler accepts exactly the instruction forms of the instruction set. `add` and
/// `sub` take size prefixes, and a register then any operand; `mul`, `imul`, `div`, `idiv` and
/// `mov` take the floating-point prefix as well; `shl`, `shr`, `sar` and `xchg` take two general
/// registers; `xor`, `or` and `and` a general register then anything but an extended register;
/// `not` one general register; `push` and `pop` one register; `cmp` a general register then any
/// operand, with size or floating-point prefixes; `test` one register, likewise; `cmpxchg` two
/// registers and two memory operands; the jumps take at most the call prefix, and `call` none,
/// with one general register or memory operand; `ret`, `syscall` and `hlt` take nothing.
pub proof fn law_instruction_forms(m: M, pres: Seq<P>, ops: Seq<O>)
    ensures
        spec_instruction_allowed(m, pres, ops) <==> isa_form(m, pres, ops),
{
    let tbl = spec_allowed_patterns();
    if spec_instruction_allowed(m, pres, ops) {
        let k = choose|k: int| 0 <= k < tbl.len() && pattern_accepts(#[trigger] tbl[k], m, pres, ops);
        lemma_entry_form(k, pres, ops);
    }
    if isa_form(m, pres, ops) {
        let k = pattern_index(m);
        assert(0 <= k < tbl.len() && tbl[k].0 == m);
        lemma_entry_form(k, pres, ops);
        assert(pattern_accepts(tbl[k], m, pres, ops));
    }
}

proof fn lemma_register_name_bytes()
    ensures
        lit("r0") == seq![114u8, 48u8],
        lit("r1") == seq![114u8, 49u8],
        lit("r2") == seq![114u8, 50u8],
        lit("r3") == seq![114u8, 51u8],
        lit("r4") == seq![114u8, 52u8],
        lit("r5") == seq![114u8, 53u8],
        lit("r6") == seq![114u8, 54u8],
        lit("r7") == seq![114u8, 55u8],
        lit("r8") == seq![114u8, 56u8],
        lit("r9") == seq![114u8, 57u8],
        lit("r10") == seq![114u8, 49u8, 48u8],
        lit("r11") == seq![114u8, 49u8, 49u8],
        lit("r12") == seq![114u8, 49u8, 50u8],
        lit("rones") == seq![114u8, 111u8, 110u8, 101u8, 115u8],
        lit("r13") == seq![114u8, 49u8, 51u8],
        lit("rone") == seq![114u8, 111u8, 110u8, 101u8],
        lit("r14") == seq![114u8, 49u8, 52u8],
        lit("rzero") == seq![114u8, 122u8, 101u8, 114u8, 111u8],
        lit("r15") == seq![114u8, 49u8, 53u8],
        lit("sp") == seq![115u8, 112u8],
        lit("bp") == seq![98u8, 112u8],
        lit("pc") == seq![112u8, 99u8],
        lit("cf") == seq![99u8, 102u8],
        lit("rf0") == seq![114u8, 102u8, 48u8],
        lit("rf1") == seq![114u8, 102u8, 49u8],
        lit("rf2") == seq![114u8, 102u8, 50u8],
        lit("rf3") == seq![114u8, 102u8, 51u8],
        lit("rf4") == seq![114u8, 102u8, 52u8],
        lit("rf5") == seq![114u8, 102u8, 53u8],
{
    reveal_strlit("r0");
    vstd::string::is_ascii_spec_bytes("r0");
    assert(lit("r0") =~= seq![114u8, 48u8]);
    reveal_strlit("r1");
    vstd::string::is_ascii_spec_bytes("r1");
    assert(lit("r1") =~= seq![114u8, 49u8]);
    reveal_strlit("r2");
    vstd::string::is_ascii_spec_bytes("r2");
    assert(lit("r2") =~= seq![114u8, 50u8]);
    reveal_strlit("r3");
    vstd::string::is_ascii_spec_bytes("r3");
    assert(lit("r3") =~= seq![114u8, 51u8]);
    reveal_strlit("r4");
    vstd::string::is_ascii_spec_bytes("r4");
    assert(lit("r4") =~= seq![114u8, 52u8]);
    reveal_strlit("r5");
    vstd::string::is_ascii_spec_bytes("r5");
    assert(lit("r5") =~= seq![114u8, 53u8]);
    reveal_strlit("r6");
    vstd::string::is_ascii_spec_bytes("r6");
    assert(lit("r6") =~= seq![114u8, 54u8]);
    reveal_strlit("r7");
    vstd::string::is_ascii_spec_bytes("r7");
    assert(lit("r7") =~= seq![114u8, 55u8]);
    reveal_strlit("r8");
    vstd::string::is_ascii_spec_bytes("r8");
    assert(lit("r8") =~= seq![114u8, 56u8]);
    reveal_strlit("r9");
    vstd::string::is_ascii_spec_bytes("r9");
    assert(lit("r9") =~= seq![114u8, 57u8]);
    reveal_strlit("r10");
    vstd::string::is_ascii_spec_bytes("r10");
    assert(lit("r10") =~= seq![114u8, 49u8, 48u8]);
    reveal_strlit("r11");
    vstd::string::is_ascii_spec_bytes("r11");
    assert(lit("r11") =~= seq![114u8, 49u8, 49u8]);
    reveal_strlit("r12");
    vstd::string::is_ascii_spec_bytes("r12");
    assert(lit("r12") =~= seq![114u8, 49u8, 50u8]);
    reveal_strlit("rones");
    vstd::string::is_ascii_spec_bytes("rones");
    assert(lit("rones") =~= seq![114u8, 111u8, 110u8, 101u8, 115u8]);
    reveal_strlit("r13");
    vstd::string::is_ascii_spec_bytes("r13");
    assert(lit("r13") =~= seq![114u8, 49u8, 51u8]);
    reveal_strlit("rone");
    vstd::string::is_ascii_spec_bytes("rone");
    assert(lit("rone") =~= seq![114u8, 111u8, 110u8, 101u8]);
    reveal_strlit("r14");
    vstd::string::is_ascii_spec_bytes("r14");
    assert(lit("r14") =~= seq![114u8, 49u8, 52u8]);
    reveal_strlit("rzero");
    vstd::string::is_ascii_spec_bytes("rzero");
    assert(lit("rzero") =~= seq![114u8, 122u8, 101u8, 114u8, 111u8]);
    reveal_strlit("r15");
    vstd::string::is_ascii_spec_bytes("r15");
    assert(lit("r15") =~= seq![114u8, 49u8, 53u8]);
    reveal_strlit("sp");
    vstd::string::is_ascii_spec_bytes("sp");
    assert(lit("sp") =~= seq![115u8, 112u8]);
    reveal_strlit("bp");
    vstd::string::is_ascii_spec_bytes("bp");
    assert(lit("bp") =~= seq![98u8, 112u8]);
    reveal_strlit("pc");
    vstd::string::is_ascii_spec_bytes("pc");
    assert(lit("pc") =~= seq![112u8, 99u8]);
    reveal_strlit("cf");
    vstd::string::is_ascii_spec_bytes("cf");
    assert(lit("cf") =~= seq![99u8, 102u8]);
    reveal_strlit("rf0");
    vstd::string::is_ascii_spec_bytes("rf0");
    assert(lit("rf0") =~= seq![114u8, 102u8, 48u8]);
    reveal_strlit("rf1");
    vstd::string::is_ascii_spec_bytes("rf1");
    assert(lit("rf1") =~= seq![114u8, 102u8, 49u8]);
    reveal_strlit("rf2");
    vstd::string::is_ascii_spec_bytes("rf2");
    assert(lit("rf2") =~= seq![114u8, 102u8, 50u8]);
    reveal_strlit("rf3");
    vstd::string::is_ascii_spec_bytes("rf3");
    assert(lit("rf3") =~= seq![114u8, 102u8, 51u8]);
    reveal_strlit("rf4");
    vstd::string::is_ascii_spec_bytes("rf4");
    assert(lit("rf4") =~= seq![114u8, 102u8, 52u8]);
    reveal_strlit("rf5");
    vstd::string::is_ascii_spec_bytes("rf5");
    assert(lit("rf5") =~= seq![114u8, 102u8, 53u8]);
}

proof fn lemma_register_reads_r0()
    ensures
        spec_register_from_word(seq![114u8, 48u8]) == Some(Register::R0),
{
    lemma_register_name_bytes();

}

proof fn lemma_register_reads_r1()
    ensures
        spec_register_from_word(seq![114u8, 49u8]) == Some(Register::R1),
{
    lemma_register_name_bytes();
    assert(lit("r0")[1] != seq![114u8, 49u8][1]);
}

proof fn lemma_register_reads_r2()
    ensures
        spec_register_from_word(seq![114u8, 50u8]) == Some(Register::R2),
{
    lemma_register_name_bytes();
    assert(lit("r0")[1] != seq![114u8, 50u8][1]);
    assert(lit("r1")[1] != seq![114u8, 50u8][1]);
}

proof fn lemma_register_reads_r3()
    ensures
        spec_register_from_word(seq![114u8, 51u8]) == Some(Register::R3),
{
    lemma_register_name_bytes();
    assert(lit("r0")[1] != seq![114u8, 51u8][1]);
    assert(lit("r1")[1] != seq![114u8, 51u8][1]);
    assert(lit("r2")[1] != seq![114u8, 51u8][1]);
}

proof fn lemma_register_reads_r4()
    ensures
        spec_register_from_word(seq![114u8, 52u8]) == Some(Register::R4),
{
    lemma_register_name_bytes();
    assert(lit("r0")[1] != seq![114u8, 52u8][1]);
    assert(lit("r1")[1] != seq![114u8, 52u8][1]);
    assert(lit("r2")[1] != seq![114u8, 52u8][1]);
    assert(lit("r3")[1] != seq![114u8, 52u8][1]);
}

proof fn lemma_register_reads_r5()
    ensures
        spec_register_from_word(seq![114u8, 53u8]) == Some(Register::R5),
{
    lemma_register_name_bytes();
    assert(lit("r0")[1] != seq![114u8, 53u8][1]);
    assert(lit("r1")[1] != seq![114u8, 53u8][1]);
    assert(lit("r2")[1] != seq![114u8, 53u8][1]);
    assert(lit("r3")[1] != seq![114u8, 53u8][1]);
    assert(lit("r4")[1] != seq![114u8, 53u8][1]);
}

proof fn lemma_register_reads_r6()
    ensures
        spec_register_from_word(seq![114u8, 54u8]) == Some(Register::R6),
{
    lemma_register_name_bytes();
    assert(lit("r0")[1] != seq![114u8, 54u8][1]);
    assert(lit("r1")[1] != seq![114u8, 54u8][1]);
    assert(lit("r2")[1] != seq![114u8, 54u8][1]);
    assert(lit("r3")[1] != seq![114u8, 54u8][1]);
    assert(lit("r4")[1] != seq![114u8, 54u8][1]);
    assert(lit("r5")[1] != seq![114u8, 54u8][1]);
}

proof fn lemma_register_reads_r7()
    ensures
        spec_register_from_word(seq![114u8, 55u8]) == Some(Register::R7),
{
    lemma_register_name_bytes();
    assert(lit("r0")[1] != seq![114u8, 55u8][1]);
    assert(lit("r1")[1] != seq![114u8, 55u8][1]);
    assert(lit("r2")[1] != seq![114u8, 55u8][1]);
    assert(lit("r3")[1] != seq![114u8, 55u8][1]);
    assert(lit("r4")[1] != seq![114u8, 55u8][1]);
    assert(lit("r5")[1] != seq![114u8, 55u8][1]);
    assert(lit("r6")[1] != seq![114u8, 55u8][1]);
}

proof fn lemma_register_reads_r8()
    ensures
        spec_register_from_word(seq![114u8, 56u8]) == Some(Register::R8),
{
    lemma_register_name_bytes();
    assert(lit("r0")[1] != seq![114u8, 56u8][1]);
    assert(lit("r1")[1] != seq![114u8, 56u8][1]);
    assert(lit("r2")[1] != seq![114u8, 56u8][1]);
    assert(lit("r3")[1] != seq![114u8, 56u8][1]);
    assert(lit("r4")[1] != seq![114u8, 56u8][1]);
    assert(lit("r5")[1] != seq![114u8, 56u8][1]);
    assert(lit("r6")[1] != seq![114u8, 56u8][1]);
    assert(lit("r7")[1] != seq![114u8, 56u8][1]);
}

proof fn lemma_register_reads_r9()
    ensures
        spec_register_from_word(seq![114u8, 57u8]) == Some(Register::R9),
{
    lemma_register_name_bytes();
    assert(lit("r0")[1] != seq![114u8, 57u8][1]);
    assert(lit("r1")[1] != seq![114u8, 57u8][1]);
    assert(lit("r2")[1] != seq![114u8, 57u8][1]);
    assert(lit("r3")[1] != seq![114u8, 57u8][1]);
    assert(lit("r4")[1] != seq![114u8, 57u8][1]);
    assert(lit("r5")[1] != seq![114u8, 57u8][1]);
    assert(lit("r6")[1] != seq![114u8, 57u8][1]);
    assert(lit("r7")[1] != seq![114u8, 57u8][1]);
    assert(lit("r8")[1] != seq![114u8, 57u8][1]);
}

proof fn lemma_register_reads_r10()
    ensures
        spec_register_from_word(seq![114u8, 49u8, 48u8]) == Some(Register::R10),
{
    lemma_register_name_bytes();
    assert(lit("r0").len() != seq![114u8, 49u8, 48u8].len());
    assert(lit("r1").len() != seq![114u8, 49u8, 48u8].len());
    assert(lit("r2").len() != seq![114u8, 49u8, 48u8].len());
    assert(lit("r3").len() != seq![114u8, 49u8, 48u8].len());
    assert(lit("r4").len() != seq![114u8, 49u8, 48u8].len());
    assert(lit("r5").len() != seq![114u8, 49u8, 48u8].len());
    assert(lit("r6").len() != seq![114u8, 49u8, 48u8].len());
    assert(lit("r7").len() != seq![114u8, 49u8, 48u8].len());
    assert(lit("r8").len() != seq![114u8, 49u8, 48u8].len());
    assert(lit("r9").len() != seq![114u8, 49u8, 48u8].len());
}

proof fn lemma_register_reads_r11()
    ensures
        spec_register_from_word(seq![114u8, 49u8, 49u8]) == Some(Register::R11),
{
    lemma_register_name_bytes();
    assert(lit("r0").len() != seq![114u8, 49u8, 49u8].len());
    assert(lit("r1").len() != seq![114u8, 49u8, 49u8].len());
    assert(lit("r2").len() != seq![114u8, 49u8, 49u8].len());
    assert(lit("r3").len() != seq![114u8, 49u8, 49u8].len());
    assert(lit("r4").len() != seq![114u8, 49u8, 49u8].len());
    assert(lit("r5").len() != seq![114u8, 49u8, 49u8].len());
    assert(lit("r6").len() != seq![114u8, 49u8, 49u8].len());
    assert(lit("r7").len() != seq![114u8, 49u8, 49u8].len());
    assert(lit("r8").len() != seq![114u8, 49u8, 49u8].len());
    assert(lit("r9").len() != seq![114u8, 49u8, 49u8].len());
    assert(lit("r10")[2] != seq![114u8, 49u8, 49u8][2]);
}

proof fn lemma_register_reads_r12()
    ensures
        spec_register_from_word(seq![114u8, 49u8, 50u8]) == Some(Register::R12),
{
    lemma_register_name_bytes();
    assert(lit("r0").len() != seq![114u8, 49u8, 50u8].len());
    assert(lit("r1").len() != seq![114u8, 49u8, 50u8].len());
    assert(lit("r2").len() != seq![114u8, 49u8, 50u8].len());
    assert(lit("r3").len() != seq![114u8, 49u8, 50u8].len());
    assert(lit("r4").len() != seq![114u8, 49u8, 50u8].len());
    assert(lit("r5").len() != seq![114u8, 49u8, 50u8].len());
    assert(lit("r6").len() != seq![114u8, 49u8, 50u8].len());
    assert(lit("r7").len() != seq![114u8, 49u8, 50u8].len());
    assert(lit("r8").len() != seq![114u8, 49u8, 50u8].len());
    assert(lit("r9").len() != seq![114u8, 49u8, 50u8].len());
    assert(lit("r10")[2] != seq![114u8, 49u8, 50u8][2]);
    assert(lit("r11")[2] != seq![114u8, 49u8, 50u8][2]);
}

proof fn lemma_register_reads_rones()
    ensures
        spec_register_from_word(seq![114u8, 111u8, 110u8, 101u8, 115u8]) == Some(Register::RONES),
{
    lemma_register_name_bytes();
    assert(lit("r0").len() != seq![114u8, 111u8, 110u8, 101u8, 115u8].len());
    assert(lit("r1").len() != seq![114u8, 111u8, 110u8, 101u8, 115u8].len());
    assert(lit("r2").len() != seq![114u8, 111u8, 110u8, 101u8, 115u8].len());
    assert(lit("r3").len() != seq![114u8, 111u8, 110u8, 101u8, 115u8].len());
    assert(lit("r4").len() != seq![114u8, 111u8, 110u8, 101u8, 115u8].len());
    assert(lit("r5").len() != seq![114u8, 111u8, 110u8, 101u8, 115u8].len());
    assert(lit("r6").len() != seq![114u8, 111u8, 110u8, 101u8, 115u8].len());
    assert(lit("r7").len() != seq![114u8, 111u8, 110u8, 101u8, 115u8].len());
    assert(lit("r8").len() != seq![114u8, 111u8, 110u8, 101u8, 115u8].len());
    assert(lit("r9").len() != seq![114u8, 111u8, 110u8, 101u8, 115u8].len());
    assert(lit("r10").len() != seq![114u8, 111u8, 110u8, 101u8, 115u8].len());
    assert(lit("r11").len() != seq![114u8, 111u8, 110u8, 101u8, 115u8].len());
    assert(lit("r12").len() != seq![114u8, 111u8, 110u8, 101u8, 115u8].len());
}

proof fn lemma_register_reads_r13()
    ensures
        spec_register_from_word(seq![114u8, 49u8, 51u8]) == Some(Register::RONES),
{
    lemma_register_name_bytes();
    assert(lit("r0").len() != seq![114u8, 49u8, 51u8].len());
    assert(lit("r1").len() != seq![114u8, 49u8, 51u8].len());
    assert(lit("r2").len() != seq![114u8, 49u8, 51u8].len());
    assert(lit("r3").len() != seq![114u8, 49u8, 51u8].len());
    assert(lit("r4").len() != seq![114u8, 49u8, 51u8].len());
    assert(lit("r5").len() != seq![114u8, 49u8, 51u8].len());
    assert(lit("r6").len() != seq![114u8, 49u8, 51u8].len());
    assert(lit("r7").len() != seq![114u8, 49u8, 51u8].len());
    assert(lit("r8").len() != seq![114u8, 49u8, 51u8].len());
    assert(lit("r9").len() != seq![114u8, 49u8, 51u8].len());
    assert(lit("r10")[2] != seq![114u8, 49u8, 51u8][2]);
    assert(lit("r11")[2] != seq![114u8, 49u8, 51u8][2]);
    assert(lit("r12")[2] != seq![114u8, 49u8, 51u8][2]);
    assert(lit("rones").len() != seq![114u8, 49u8, 51u8].len());
}

proof fn lemma_register_reads_rone()
    ensures
        spec_register_from_word(seq![114u8, 111u8, 110u8, 101u8]) == Some(Register::RONE),
{
    lemma_register_name_bytes();
    assert(lit("r0").len() != seq![114u8, 111u8, 110u8, 101u8].len());
    assert(lit("r1").len() != seq![114u8, 111u8, 110u8, 101u8].len());
    assert(lit("r2").len() != seq![114u8, 111u8, 110u8, 101u8].len());
    assert(lit("r3").len() != seq![114u8, 111u8, 110u8, 101u8].len());
    assert(lit("r4").len() != seq![114u8, 111u8, 110u8, 101u8].len());
    assert(lit("r5").len() != seq![114u8, 111u8, 110u8, 101u8].len());
    assert(lit("r6").len() != seq![114u8, 111u8, 110u8, 101u8].len());
    assert(lit("r7").len() != seq![114u8, 111u8, 110u8, 101u8].len());
    assert(lit("r8").len() != seq![114u8, 111u8, 110u8, 101u8].len());
    assert(lit("r9").len() != seq![114u8, 111u8, 110u8, 101u8].len());
    assert(lit("r10").len() != seq![114u8, 111u8, 110u8, 101u8].len());
    assert(lit("r11").len() != seq![114u8, 111u8, 110u8, 101u8].len());
    assert(lit("r12").len() != seq![114u8, 111u8, 110u8, 101u8].len());
    assert(lit("rones").len() != seq![114u8, 111u8, 110u8, 101u8].len());
    assert(lit("r13").len() != seq![114u8, 111u8, 110u8, 101u8].len());
}

proof fn lemma_register_reads_r14()
    ensures
        spec_register_from_word(seq![114u8, 49u8, 52u8]) == Some(Register::RONE),
{
    lemma_register_name_bytes();
    assert(lit("r0").len() != seq![114u8, 49u8, 52u8].len());
    assert(lit("r1").len() != seq![114u8, 49u8, 52u8].len());
    assert(lit("r2").len() != seq![114u8, 49u8, 52u8].len());
    assert(lit("r3").len() != seq![114u8, 49u8, 52u8].len());
    assert(lit("r4").len() != seq![114u8, 49u8, 52u8].len());
    assert(lit("r5").len() != seq![114u8, 49u8, 52u8].len());
    assert(lit("r6").len() != seq![114u8, 49u8, 52u8].len());
    assert(lit("r7").len() != seq![114u8, 49u8, 52u8].len());
    assert(lit("r8").len() != seq![114u8, 49u8, 52u8].len());
    assert(lit("r9").len() != seq![114u8, 49u8, 52u8].len());
    assert(lit("r10")[2] != seq![114u8, 49u8, 52u8][2]);
    assert(lit("r11")[2] != seq![114u8, 49u8, 52u8][2]);
    assert(lit("r12")[2] != seq![114u8, 49u8, 52u8][2]);
    assert(lit("rones").len() != seq![114u8, 49u8, 52u8].len());
    assert(lit("r13")[2] != seq![114u8, 49u8, 52u8][2]);
    assert(lit("rone").len() != seq![114u8, 49u8, 52u8].len());
}

proof fn lemma_register_reads_rzero()
    ensures
        spec_register_from_word(seq![114u8, 122u8, 101u8, 114u8, 111u8]) == Some(Register::RZERO),
{
    lemma_register_name_bytes();
    assert(lit("r0").len() != seq![114u8, 122u8, 101u8, 114u8, 111u8].len());
    assert(lit("r1").len() != seq![114u8, 122u8, 101u8, 114u8, 111u8].len());
    assert(lit("r2").len() != seq![114u8, 122u8, 101u8, 114u8, 111u8].len());
    assert(lit("r3").len() != seq![114u8, 122u8, 101u8, 114u8, 111u8].len());
    assert(lit("r4").len() != seq![114u8, 122u8, 101u8, 114u8, 111u8].len());
    assert(lit("r5").len() != seq![114u8, 122u8, 101u8, 114u8, 111u8].len());
    assert(lit("r6").len() != seq![114u8, 122u8, 101u8, 114u8, 111u8].len());
    assert(lit("r7").len() != seq![114u8, 122u8, 101u8, 114u8, 111u8].len());
    assert(lit("r8").len() != seq![114u8, 122u8, 101u8, 114u8, 111u8].len());
    assert(lit("r9").len() != seq![114u8, 122u8, 101u8, 114u8, 111u8].len());
    assert(lit("r10").len() != seq![114u8, 122u8, 101u8, 114u8, 111u8].len());
    assert(lit("r11").len() != seq![114u8, 122u8, 101u8, 114u8, 111u8].len());
    assert(lit("r12").len() != seq![114u8, 122u8, 101u8, 114u8, 111u8].len());
    assert(lit("rones")[1] != seq![114u8, 122u8, 101u8, 114u8, 111u8][1]);
    assert(lit("r13").len() != seq![114u8, 122u8, 101u8, 114u8, 111u8].len());
    assert(lit("rone").len() != seq![114u8, 122u8, 101u8, 114u8, 111u8].len());
    assert(lit("r14").len() != seq![114u8, 122u8, 101u8, 114u8, 111u8].len());
}

proof fn lemma_register_reads_r15()
    ensures
        spec_register_from_word(seq![114u8, 49u8, 53u8]) == Some(Register::RZERO),
{
    lemma_register_name_bytes();
    assert(lit("r0").len() != seq![114u8, 49u8, 53u8].len());
    assert(lit("r1").len() != seq![114u8, 49u8, 53u8].len());
    assert(lit("r2").len() != seq![114u8, 49u8, 53u8].len());
    assert(lit("r3").len() != seq![114u8, 49u8, 53u8].len());
    assert(lit("r4").len() != seq![114u8, 49u8, 53u8].len());
    assert(lit("r5").len() != seq![114u8, 49u8, 53u8].len());
    assert(lit("r6").len() != seq![114u8, 49u8, 53u8].len());
    assert(lit("r7").len() != seq![114u8, 49u8, 53u8].len());
    assert(lit("r8").len() != seq![114u8, 49u8, 53u8].len());
    assert(lit("r9").len() != seq![114u8, 49u8, 53u8].len());
    assert(lit("r10")[2] != seq![114u8, 49u8, 53u8][2]);
    assert(lit("r11")[2] != seq![114u8, 49u8, 53u8][2]);
    assert(lit("r12")[2] != seq![114u8, 49u8, 53u8][2]);
    assert(lit("rones").len() != seq![114u8, 49u8, 53u8].len());
    assert(lit("r13")[2] != seq![114u8, 49u8, 53u8][2]);
    assert(lit("rone").len() != seq![114u8, 49u8, 53u8].len());
    assert(lit("r14")[2] != seq![114u8, 49u8, 53u8][2]);
    assert(lit("rzero").len() != seq![114u8, 49u8, 53u8].len());
}

proof fn lemma_register_reads_sp()
    ensures
        spec_register_from_word(seq![115u8, 112u8]) == Some(Register::SP),
{
    lemma_register_name_bytes();
    assert(lit("r0")[0] != seq![115u8, 112u8][0]);
    assert(lit("r1")[0] != seq![115u8, 112u8][0]);
    assert(lit("r2")[0] != seq![115u8, 112u8][0]);
    assert(lit("r3")[0] != seq![115u8, 112u8][0]);
    assert(lit("r4")[0] != seq![115u8, 112u8][0]);
    assert(lit("r5")[0] != seq![115u8, 112u8][0]);
    assert(lit("r6")[0] != seq![115u8, 112u8][0]);
    assert(lit("r7")[0] != seq![115u8, 112u8][0]);
    assert(lit("r8")[0] != seq![115u8, 112u8][0]);
    assert(lit("r9")[0] != seq![115u8, 112u8][0]);
    assert(lit("r10").len() != seq![115u8, 112u8].len());
    assert(lit("r11").len() != seq![115u8, 112u8].len());
    assert(lit("r12").len() != seq![115u8, 112u8].len());
    assert(lit("rones").len() != seq![115u8, 112u8].len());
    assert(lit("r13").len() != seq![115u8, 112u8].len());
    assert(lit("rone").len() != seq![115u8, 112u8].len());
    assert(lit("r14").len() != seq![115u8, 112u8].len());
    assert(lit("rzero").len() != seq![115u8, 112u8].len());
    assert(lit("r15").len() != seq![115u8, 112u8].len());
}

proof fn lemma_register_reads_bp()
    ensures
        spec_register_from_word(seq![98u8, 112u8]) == Some(Register::BP),
{
    lemma_register_name_bytes();
    assert(lit("r0")[0] != seq![98u8, 112u8][0]);
    assert(lit("r1")[0] != seq![98u8, 112u8][0]);
    assert(lit("r2")[0] != seq![98u8, 112u8][0]);
    assert(lit("r3")[0] != seq![98u8, 112u8][0]);
    assert(lit("r4")[0] != seq![98u8, 112u8][0]);
    assert(lit("r5")[0] != seq![98u8, 112u8][0]);
    assert(lit("r6")[0] != seq![98u8, 112u8][0]);
    assert(lit("r7")[0] != seq![98u8, 112u8][0]);
    assert(lit("r8")[0] != seq![98u8, 112u8][0]);
    assert(lit("r9")[0] != seq![98u8, 112u8][0]);
    assert(lit("r10").len() != seq![98u8, 112u8].len());
    assert(lit("r11").len() != seq![98u8, 112u8].len());
    assert(lit("r12").len() != seq![98u8, 112u8].len());
    assert(lit("rones").len() != seq![98u8, 112u8].len());
    assert(lit("r13").len() != seq![98u8, 112u8].len());
    assert(lit("rone").len() != seq![98u8, 112u8].len());
    assert(lit("r14").len() != seq![98u8, 112u8].len());
    assert(lit("rzero").len() != seq![98u8, 112u8].len());
    assert(lit("r15").len() != seq![98u8, 112u8].len());
    assert(lit("sp")[0] != seq![98u8, 112u8][0]);
}

proof fn lemma_register_reads_pc()
    ensures
        spec_register_from_word(seq![112u8, 99u8]) == Some(Register::PC),
{
    lemma_register_name_bytes();
    assert(lit("r0")[0] != seq![112u8, 99u8][0]);
    assert(lit("r1")[0] != seq![112u8, 99u8][0]);
    assert(lit("r2")[0] != seq![112u8, 99u8][0]);
    assert(lit("r3")[0] != seq![112u8, 99u8][0]);
    assert(lit("r4")[0] != seq![112u8, 99u8][0]);
    assert(lit("r5")[0] != seq![112u8, 99u8][0]);
    assert(lit("r6")[0] != seq![112u8, 99u8][0]);
    assert(lit("r7")[0] != seq![112u8, 99u8][0]);
    assert(lit("r8")[0] != seq![112u8, 99u8][0]);
    assert(lit("r9")[0] != seq![112u8, 99u8][0]);
    assert(lit("r10").len() != seq![112u8, 99u8].len());
    assert(lit("r11").len() != seq![112u8, 99u8].len());
    assert(lit("r12").len() != seq![112u8, 99u8].len());
    assert(lit("rones").len() != seq![112u8, 99u8].len());
    assert(lit("r13").len() != seq![112u8, 99u8].len());
    assert(lit("rone").len() != seq![112u8, 99u8].len());
    assert(lit("r14").len() != seq![112u8, 99u8].len());
    assert(lit("rzero").len() != seq![112u8, 99u8].len());
    assert(lit("r15").len() != seq![112u8, 99u8].len());
    assert(lit("sp")[0] != seq![112u8, 99u8][0]);
    assert(lit("bp")[0] != seq![112u8, 99u8][0]);
}

proof fn lemma_register_reads_cf()
    ensures
        spec_register_from_word(seq![99u8, 102u8]) == Some(Register::CF),
{
    lemma_register_name_bytes();
    assert(lit("r0")[0] != seq![99u8, 102u8][0]);
    assert(lit("r1")[0] != seq![99u8, 102u8][0]);
    assert(lit("r2")[0] != seq![99u8, 102u8][0]);
    assert(lit("r3")[0] != seq![99u8, 102u8][0]);
    assert(lit("r4")[0] != seq![99u8, 102u8][0]);
    assert(lit("r5")[0] != seq![99u8, 102u8][0]);
    assert(lit("r6")[0] != seq![99u8, 102u8][0]);
    assert(lit("r7")[0] != seq![99u8, 102u8][0]);
    assert(lit("r8")[0] != seq![99u8, 102u8][0]);
    assert(lit("r9")[0] != seq![99u8, 102u8][0]);
    assert(lit("r10").len() != seq![99u8, 102u8].len());
    assert(lit("r11").len() != seq![99u8, 102u8].len());
    assert(lit("r12").len() != seq![99u8, 102u8].len());
    assert(lit("rones").len() != seq![99u8, 102u8].len());
    assert(lit("r13").len() != seq![99u8, 102u8].len());
    assert(lit("rone").len() != seq![99u8, 102u8].len());
    assert(lit("r14").len() != seq![99u8, 102u8].len());
    assert(lit("rzero").len() != seq![99u8, 102u8].len());
    assert(lit("r15").len() != seq![99u8, 102u8].len());
    assert(lit("sp")[0] != seq![99u8, 102u8][0]);
    assert(lit("bp")[0] != seq![99u8, 102u8][0]);
    assert(lit("pc")[0] != seq![99u8, 102u8][0]);
}

proof fn lemma_register_reads_rf0()
    ensures
        spec_register_from_word(seq![114u8, 102u8, 48u8]) == Some(Register::RF0),
{
    lemma_register_name_bytes();
    assert(lit("r0").len() != seq![114u8, 102u8, 48u8].len());
    assert(lit("r1").len() != seq![114u8, 102u8, 48u8].len());
    assert(lit("r2").len() != seq![114u8, 102u8, 48u8].len());
    assert(lit("r3").len() != seq![114u8, 102u8, 48u8].len());
    assert(lit("r4").len() != seq![114u8, 102u8, 48u8].len());
    assert(lit("r5").len() != seq![114u8, 102u8, 48u8].len());
    assert(lit("r6").len() != seq![114u8, 102u8, 48u8].len());
    assert(lit("r7").len() != seq![114u8, 102u8, 48u8].len());
    assert(lit("r8").len() != seq![114u8, 102u8, 48u8].len());
    assert(lit("r9").len() != seq![114u8, 102u8, 48u8].len());
    assert(lit("r10")[1] != seq![114u8, 102u8, 48u8][1]);
    assert(lit("r11")[1] != seq![114u8, 102u8, 48u8][1]);
    assert(lit("r12")[1] != seq![114u8, 102u8, 48u8][1]);
    assert(lit("rones").len() != seq![114u8, 102u8, 48u8].len());
    assert(lit("r13")[1] != seq![114u8, 102u8, 48u8][1]);
    assert(lit("rone").len() != seq![114u8, 102u8, 48u8].len());
    assert(lit("r14")[1] != seq![114u8, 102u8, 48u8][1]);
    assert(lit("rzero").len() != seq![114u8, 102u8, 48u8].len());
    assert(lit("r15")[1] != seq![114u8, 102u8, 48u8][1]);
    assert(lit("sp").len() != seq![114u8, 102u8, 48u8].len());
    assert(lit("bp").len() != seq![114u8, 102u8, 48u8].len());
    assert(lit("pc").len() != seq![114u8, 102u8, 48u8].len());
    assert(lit("cf").len() != seq![114u8, 102u8, 48u8].len());
}

proof fn lemma_register_reads_rf1()
    ensures
        spec_register_from_word(seq![114u8, 102u8, 49u8]) == Some(Register::RF1),
{
    lemma_register_name_bytes();
    assert(lit("r0").len() != seq![114u8, 102u8, 49u8].len());
    assert(lit("r1").len() != seq![114u8, 102u8, 49u8].len());
    assert(lit("r2").len() != seq![114u8, 102u8, 49u8].len());
    assert(lit("r3").len() != seq![114u8, 102u8, 49u8].len());
    assert(lit("r4").len() != seq![114u8, 102u8, 49u8].len());
    assert(lit("r5").len() != seq![114u8, 102u8, 49u8].len());
    assert(lit("r6").len() != seq![114u8, 102u8, 49u8].len());
    assert(lit("r7").len() != seq![114u8, 102u8, 49u8].len());
    assert(lit("r8").len() != seq![114u8, 102u8, 49u8].len());
    assert(lit("r9").len() != seq![114u8, 102u8, 49u8].len());
    assert(lit("r10")[1] != seq![114u8, 102u8, 49u8][1]);
    assert(lit("r11")[1] != seq![114u8, 102u8, 49u8][1]);
    assert(lit("r12")[1] != seq![114u8, 102u8, 49u8][1]);
    assert(lit("rones").len() != seq![114u8, 102u8, 49u8].len());
    assert(lit("r13")[1] != seq![114u8, 102u8, 49u8][1]);
    assert(lit("rone").len() != seq![114u8, 102u8, 49u8].len());
    assert(lit("r14")[1] != seq![114u8, 102u8, 49u8][1]);
    assert(lit("rzero").len() != seq![114u8, 102u8, 49u8].len());
    assert(lit("r15")[1] != seq![114u8, 102u8, 49u8][1]);
    assert(lit("sp").len() != seq![114u8, 102u8, 49u8].len());
    assert(lit("bp").len() != seq![114u8, 102u8, 49u8].len());
    assert(lit("pc").len() != seq![114u8, 102u8, 49u8].len());
    assert(lit("cf").len() != seq![114u8, 102u8, 49u8].len());
    assert(lit("rf0")[2] != seq![114u8, 102u8, 49u8][2]);
}

proof fn lemma_register_reads_rf2()
    ensures
        spec_register_from_word(seq![114u8, 102u8, 50u8]) == Some(Register::RF2),
{
    lemma_register_name_bytes();
    assert(lit("r0").len() != seq![114u8, 102u8, 50u8].len());
    assert(lit("r1").len() != seq![114u8, 102u8, 50u8].len());
    assert(lit("r2").len() != seq![114u8, 102u8, 50u8].len());
    assert(lit("r3").len() != seq![114u8, 102u8, 50u8].len());
    assert(lit("r4").len() != seq![114u8, 102u8, 50u8].len());
    assert(lit("r5").len() != seq![114u8, 102u8, 50u8].len());
    assert(lit("r6").len() != seq![114u8, 102u8, 50u8].len());
    assert(lit("r7").len() != seq![114u8, 102u8, 50u8].len());
    assert(lit("r8").len() != seq![114u8, 102u8, 50u8].len());
    assert(lit("r9").len() != seq![114u8, 102u8, 50u8].len());
    assert(lit("r10")[1] != seq![114u8, 102u8, 50u8][1]);
    assert(lit("r11")[1] != seq![114u8, 102u8, 50u8][1]);
    assert(lit("r12")[1] != seq![114u8, 102u8, 50u8][1]);
    assert(lit("rones").len() != seq![114u8, 102u8, 50u8].len());
    assert(lit("r13")[1] != seq![114u8, 102u8, 50u8][1]);
    assert(lit("rone").len() != seq![114u8, 102u8, 50u8].len());
    assert(lit("r14")[1] != seq![114u8, 102u8, 50u8][1]);
    assert(lit("rzero").len() != seq![114u8, 102u8, 50u8].len());
    assert(lit("r15")[1] != seq![114u8, 102u8, 50u8][1]);
    assert(lit("sp").len() != seq![114u8, 102u8, 50u8].len());
    assert(lit("bp").len() != seq![114u8, 102u8, 50u8].len());
    assert(lit("pc").len() != seq![114u8, 102u8, 50u8].len());
    assert(lit("cf").len() != seq![114u8, 102u8, 50u8].len());
    assert(lit("rf0")[2] != seq![114u8, 102u8, 50u8][2]);
    assert(lit("rf1")[2] != seq![114u8, 102u8, 50u8][2]);
}

proof fn lemma_register_reads_rf3()
    ensures
        spec_register_from_word(seq![114u8, 102u8, 51u8]) == Some(Register::RF3),
{
    lemma_register_name_bytes();
    assert(lit("r0").len() != seq![114u8, 102u8, 51u8].len());
    assert(lit("r1").len() != seq![114u8, 102u8, 51u8].len());
    assert(lit("r2").len() != seq![114u8, 102u8, 51u8].len());
    assert(lit("r3").len() != seq![114u8, 102u8, 51u8].len());
    assert(lit("r4").len() != seq![114u8, 102u8, 51u8].len());
    assert(lit("r5").len() != seq![114u8, 102u8, 51u8].len());
    assert(lit("r6").len() != seq![114u8, 102u8, 51u8].len());
    assert(lit("r7").len() != seq![114u8, 102u8, 51u8].len());
    assert(lit("r8").len() != seq![114u8, 102u8, 51u8].len());
    assert(lit("r9").len() != seq![114u8, 102u8, 51u8].len());
    assert(lit("r10")[1] != seq![114u8, 102u8, 51u8][1]);
    assert(lit("r11")[1] != seq![114u8, 102u8, 51u8][1]);
    assert(lit("r12")[1] != seq![114u8, 102u8, 51u8][1]);
    assert(lit("rones").len() != seq![114u8, 102u8, 51u8].len());
    assert(lit("r13")[1] != seq![114u8, 102u8, 51u8][1]);
    assert(lit("rone").len() != seq![114u8, 102u8, 51u8].len());
    assert(lit("r14")[1] != seq![114u8, 102u8, 51u8][1]);
    assert(lit("rzero").len() != seq![114u8, 102u8, 51u8].len());
    assert(lit("r15")[1] != seq![114u8, 102u8, 51u8][1]);
    assert(lit("sp").len() != seq![114u8, 102u8, 51u8].len());
    assert(lit("bp").len() != seq![114u8, 102u8, 51u8].len());
    assert(lit("pc").len() != seq![114u8, 102u8, 51u8].len());
    assert(lit("cf").len() != seq![114u8, 102u8, 51u8].len());
    assert(lit("rf0")[2] != seq![114u8, 102u8, 51u8][2]);
    assert(lit("rf1")[2] != seq![114u8, 102u8, 51u8][2]);
    assert(lit("rf2")[2] != seq![114u8, 102u8, 51u8][2]);
}

proof fn lemma_register_reads_rf4()
    ensures
        spec_register_from_word(seq![114u8, 102u8, 52u8]) == Some(Register::RF4),
{
    lemma_register_name_bytes();
    assert(lit("r0").len() != seq![114u8, 102u8, 52u8].len());
    assert(lit("r1").len() != seq![114u8, 102u8, 52u8].len());
    assert(lit("r2").len() != seq![114u8, 102u8, 52u8].len());
    assert(lit("r3").len() != seq![114u8, 102u8, 52u8].len());
    assert(lit("r4").len() != seq![114u8, 102u8, 52u8].len());
    assert(lit("r5").len() != seq![114u8, 102u8, 52u8].len());
    assert(lit("r6").len() != seq![114u8, 102u8, 52u8].len());
    assert(lit("r7").len() != seq![114u8, 102u8, 52u8].len());
    assert(lit("r8").len() != seq![114u8, 102u8, 52u8].len());
    assert(lit("r9").len() != seq![114u8, 102u8, 52u8].len());
    assert(lit("r10")[1] != seq![114u8, 102u8, 52u8][1]);
    assert(lit("r11")[1] != seq![114u8, 102u8, 52u8][1]);
    assert(lit("r12")[1] != seq![114u8, 102u8, 52u8][1]);
    assert(lit("rones").len() != seq![114u8, 102u8, 52u8].len());
    assert(lit("r13")[1] != seq![114u8, 102u8, 52u8][1]);
    assert(lit("rone").len() != seq![114u8, 102u8, 52u8].len());
    assert(lit("r14")[1] != seq![114u8, 102u8, 52u8][1]);
    assert(lit("rzero").len() != seq![114u8, 102u8, 52u8].len());
    assert(lit("r15")[1] != seq![114u8, 102u8, 52u8][1]);
    assert(lit("sp").len() != seq![114u8, 102u8, 52u8].len());
    assert(lit("bp").len() != seq![114u8, 102u8, 52u8].len());
    assert(lit("pc").len() != seq![114u8, 102u8, 52u8].len());
    assert(lit("cf").len() != seq![114u8, 102u8, 52u8].len());
    assert(lit("rf0")[2] != seq![114u8, 102u8, 52u8][2]);
    assert(lit("rf1")[2] != seq![114u8, 102u8, 52u8][2]);
    assert(lit("rf2")[2] != seq![114u8, 102u8, 52u8][2]);
    assert(lit("rf3")[2] != seq![114u8, 102u8, 52u8][2]);
}

proof fn lemma_register_reads_rf5()
    ensures
        spec_register_from_word(seq![114u8, 102u8, 53u8]) == Some(Register::RF5),
{
    lemma_register_name_bytes();
    assert(lit("r0").len() != seq![114u8, 102u8, 53u8].len());
    assert(lit("r1").len() != seq![114u8, 102u8, 53u8].len());
    assert(lit("r2").len() != seq![114u8, 102u8, 53u8].len());
    assert(lit("r3").len() != seq![114u8, 102u8, 53u8].len());
    assert(lit("r4").len() != seq![114u8, 102u8, 53u8].len());
    assert(lit("r5").len() != seq![114u8, 102u8, 53u8].len());
    assert(lit("r6").len() != seq![114u8, 102u8, 53u8].len());
    assert(lit("r7").len() != seq![114u8, 102u8, 53u8].len());
    assert(lit("r8").len() != seq![114u8, 102u8, 53u8].len());
    assert(lit("r9").len() != seq![114u8, 102u8, 53u8].len());
    assert(lit("r10")[1] != seq![114u8, 102u8, 53u8][1]);
    assert(lit("r11")[1] != seq![114u8, 102u8, 53u8][1]);
    assert(lit("r12")[1] != seq![114u8, 102u8, 53u8][1]);
    assert(lit("rones").len() != seq![114u8, 102u8, 53u8].len());
    assert(lit("r13")[1] != seq![114u8, 102u8, 53u8][1]);
    assert(lit("rone").len() != seq![114u8, 102u8, 53u8].len());
    assert(lit("r14")[1] != seq![114u8, 102u8, 53u8][1]);
    assert(lit("rzero").len() != seq![114u8, 102u8, 53u8].len());
    assert(lit("r15")[1] != seq![114u8, 102u8, 53u8][1]);
    assert(lit("sp").len() != seq![114u8, 102u8, 53u8].len());
    assert(lit("bp").len() != seq![114u8, 102u8, 53u8].len());
    assert(lit("pc").len() != seq![114u8, 102u8, 53u8].len());
    assert(lit("cf").len() != seq![114u8, 102u8, 53u8].len());
    assert(lit("rf0")[2] != seq![114u8, 102u8, 53u8][2]);
    assert(lit("rf1")[2] != seq![114u8, 102u8, 53u8][2]);
    assert(lit("rf2")[2] != seq![114u8, 102u8, 53u8][2]);
    assert(lit("rf3")[2] != seq![114u8, 102u8, 53u8][2]);
    assert(lit("rf4")[2] != seq![114u8, 102u8, 53u8][2]);
}

/// Law: the registers are numbered by their names. `r0` to `r15` are registers 0 to 15, where
/// `rones`, `rone` and `rzero` name registers 13, 14 and 15 as well; `sp`, `bp`, `pc` and `cf`
/// are registers 16 to 19; `rf0` to `rf5` are registers 20 to 25.
pub proof fn law_register_numbers(k: int)
    requires
        0 <= k <= 15,
    ensures
        k < 10 ==> (spec_register_from_word(seq![114u8, (48 + k) as u8]) matches Some(r) && spec_register_value(r) == k),
        k >= 10 ==> (spec_register_from_word(seq![114u8, 49u8, (38 + k) as u8]) matches Some(r) && spec_register_value(r) == k),
        k <= 5 ==> (spec_register_from_word(seq![114u8, 102u8, (48 + k) as u8]) matches Some(r) && spec_register_value(r) == 20 + k),
        spec_register_from_word(seq![114u8, 111u8, 110u8, 101u8, 115u8]) matches Some(r) && spec_register_value(r) == 13,
        spec_register_from_word(seq![114u8, 111u8, 110u8, 101u8]) matches Some(r) && spec_register_value(r) == 14,
        spec_register_from_word(seq![114u8, 122u8, 101u8, 114u8, 111u8]) matches Some(r) && spec_register_value(r) == 15,
        spec_register_from_word(seq![115u8, 112u8]) matches Some(r) && spec_register_value(r) == 16,
        spec_register_from_word(seq![98u8, 112u8]) matches Some(r) && spec_register_value(r) == 17,
        spec_register_from_word(seq![112u8, 99u8]) matches Some(r) && spec_register_value(r) == 18,
        spec_register_from_word(seq![99u8, 102u8]) matches Some(r) && spec_register_value(r) == 19,
{
    lemma_register_reads_r0();
    lemma_register_reads_r1();
    lemma_register_reads_r2();
    lemma_register_reads_r3();
    lemma_register_reads_r4();
    lemma_register_reads_r5();
    lemma_register_reads_r6();
    lemma_register_reads_r7();
    lemma_register_reads_r8();
    lemma_register_reads_r9();
    lemma_register_reads_r10();
    lemma_register_reads_r11();
    lemma_register_reads_r12();
    lemma_register_reads_rones();
    lemma_register_reads_r13();
    lemma_register_reads_rone();
    lemma_register_reads_r14();
    lemma_register_reads_rzero();
    lemma_register_reads_r15();
    lemma_register_reads_sp();
    lemma_register_reads_bp();
    lemma_register_reads_pc();
    lemma_register_reads_cf();
    lemma_register_reads_rf0();
    lemma_register_reads_rf1();
    lemma_register_reads_rf2();
    lemma_register_reads_rf3();
    lemma_register_reads_rf4();
    lemma_register_reads_rf5();
    if k == 0 {
        assert(k == 0);
    } else if k == 1 {
        assert(k == 1);
    } else if k == 2 {
        assert(k == 2);
    } else if k == 3 {
        assert(k == 3);
    } else if k == 4 {
        assert(k == 4);
    } else if k == 5 {
        assert(k == 5);
    } else if k == 6 {
        assert(k == 6);
    } else if k == 7 {
        assert(k == 7);
    } else if k == 8 {
        assert(k == 8);
    } else if k == 9 {
        assert(k == 9);
    } else if k == 10 {
        assert(k == 10);
    } else if k == 11 {
        assert(k == 11);
    } else if k == 12 {
        assert(k == 12);
    } else if k == 13 {
        assert(k == 13);
    } else if k == 14 {
        assert(k == 14);
    } else {
        assert(k == 15);
    }
}

/// the word of each prefix that can be written
pub open spec fn prefix_word(v: P) -> Option<Seq<u8>> {
    match v {
        P::Byte => Some(seq![98u8, 121u8, 116u8, 101u8]),
        P::Word => Some(seq![119u8, 111u8, 114u8, 100u8]),
        P::DWord => Some(seq![100u8, 119u8, 111u8, 114u8, 100u8]),
        P::QWord => Some(seq![113u8, 119u8, 111u8, 114u8, 100u8]),
        P::Fp => Some(seq![102u8, 112u8]),
        P::Call => Some(seq![99u8, 97u8, 108u8, 108u8]),
        P::Sign => None,
        P::Oprev => None,
        P::Era => None,
    }
}

proof fn lemma_prefix_word_bytes()
    ensures
        lit("byte") == seq![98u8, 121u8, 116u8, 101u8],
        lit("word") == seq![119u8, 111u8, 114u8, 100u8],
        lit("dword") == seq![100u8, 119u8, 111u8, 114u8, 100u8],
        lit("qword") == seq![113u8, 119u8, 111u8, 114u8, 100u8],
        lit("fp") == seq![102u8, 112u8],
        lit("call") == seq![99u8, 97u8, 108u8, 108u8],
{
    reveal_strlit("byte");
    vstd::string::is_ascii_spec_bytes("byte");
    assert(lit("byte") =~= seq![98u8, 121u8, 116u8, 101u8]);
    reveal_strlit("word");
    vstd::string::is_ascii_spec_bytes("word");
    assert(lit("word") =~= seq![119u8, 111u8, 114u8, 100u8]);
    reveal_strlit("dword");
    vstd::string::is_ascii_spec_bytes("dword");
    assert(lit("dword") =~= seq![100u8, 119u8, 111u8, 114u8, 100u8]);
    reveal_strlit("qword");
    vstd::string::is_ascii_spec_bytes("qword");
    assert(lit("qword") =~= seq![113u8, 119u8, 111u8, 114u8, 100u8]);
    reveal_strlit("fp");
    vstd::string::is_ascii_spec_bytes("fp");
    assert(lit("fp") =~= seq![102u8, 112u8]);
    reveal_strlit("call");
    vstd::string::is_ascii_spec_bytes("call");
    assert(lit("call") =~= seq![99u8, 97u8, 108u8, 108u8]);
}

/// Law: each prefix that can be written is read back from its word, and only from it, byte for
/// byte: `byte`, `word`, `dword`, `qword`, `fp` and `call`; the prefixes that the assembler adds
/// itself have no word.
pub proof fn law_prefix_words(v: P, w: Seq<u8>)
    ensures
        prefix_word(v) matches Some(n) ==> spec_prefix_from_word(n) == Some(v),
        spec_prefix_from_word(w) == Some(v) <==> prefix_word(v) == Some(w),
{
    lemma_prefix_word_bytes();
    match v {
        P::Byte => {
        },
        P::Word => {
            assert(lit("byte")[0] != seq![119u8, 111u8, 114u8, 100u8][0]);
        },
        P::DWord => {
            assert(lit("byte").len() != seq![100u8, 119u8, 111u8, 114u8, 100u8].len());
            assert(lit("word").len() != seq![100u8, 119u8, 111u8, 114u8, 100u8].len());
        },
        P::QWord => {
            assert(lit("byte").len() != seq![113u8, 119u8, 111u8, 114u8, 100u8].len());
            assert(lit("word").len() != seq![113u8, 119u8, 111u8, 114u8, 100u8].len());
            assert(lit("dword")[0] != seq![113u8, 119u8, 111u8, 114u8, 100u8][0]);
        },
        P::Fp => {
            assert(lit("byte").len() != seq![102u8, 112u8].len());
            assert(lit("word").len() != seq![102u8, 112u8].len());
            assert(lit("dword").len() != seq![102u8, 112u8].len());
            assert(lit("qword").len() != seq![102u8, 112u8].len());
        },
        P::Call => {
            assert(lit("byte")[0] != seq![99u8, 97u8, 108u8, 108u8][0]);
            assert(lit("word")[0] != seq![99u8, 97u8, 108u8, 108u8][0]);
            assert(lit("dword").len() != seq![99u8, 97u8, 108u8, 108u8].len());
            assert(lit("qword").len() != seq![99u8, 97u8, 108u8, 108u8].len());
            assert(lit("fp").len() != seq![99u8, 97u8, 108u8, 108u8].len());
        },
        P::Sign => {},
        P::Oprev => {},
        P::Era => {},
    }
}

} // verus!
