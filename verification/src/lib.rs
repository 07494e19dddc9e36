//! assembler for ttvm object files: lexing, parsing and emission

pub mod text;
pub mod mnemonics;
pub mod types;
pub mod errors;
pub mod lex;
pub mod parse;
pub mod names;
pub mod emit;
pub mod instr;
pub mod params;
