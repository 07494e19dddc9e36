//! assembly diagnostics: what the assembler reports, and where

use vstd::prelude::*;
use crate::types::{Tok, TokV, Keyword, Section, Type};
use crate::mnemonics::{P, Register};

verus! {

/// a diagnostic at a position of the source
#[derive(Debug, Clone, Copy)]
pub struct AsmErr<'a> {
    pub message: &'a str,
    pub line: u32,
    pub column: u32,
    pub context: Option<&'a str>,
}

/// a token as a diagnostic shows it: its kind and its content; a token that holds other tokens
/// is shown by its kind
#[derive(Debug, Clone)]
pub enum Shown {
    String(Vec<u8>),
    Word(Vec<u8>),
    Label(Vec<u8>),
    Keyword(Keyword),
    Section(Section),
    Type(Type),
    Symbol(u8),
    Newline,
    Addr(u32),
    UInt(u64),
    SInt(i64),
    Float(Vec<u8>),
    Prefix(P),
    Reg(Register),
    Invalid,
    KwDecl,
    Param,
    Signature,
    Instruction,
    Sized,
    Deref,
}

pub enum ShownV {
    String(Seq<u8>),
    Word(Seq<u8>),
    Label(Seq<u8>),
    Keyword(Keyword),
    Section(Section),
    Type(Type),
    Symbol(u8),
    Newline,
    Addr(u32),
    UInt(u64),
    SInt(i64),
    Float(Seq<u8>),
    Prefix(P),
    Reg(Register),
    Invalid,
    KwDecl,
    Param,
    Signature,
    Instruction,
    Sized,
    Deref,
}

pub open spec fn shown_view(s: Shown) -> ShownV {
    match s {
        Shown::String(b) => ShownV::String(b@),
        Shown::Word(b) => ShownV::Word(b@),
        Shown::Label(b) => ShownV::Label(b@),
        Shown::Keyword(k) => ShownV::Keyword(k),
        Shown::Section(k) => ShownV::Section(k),
        Shown::Type(k) => ShownV::Type(k),
        Shown::Symbol(k) => ShownV::Symbol(k),
        Shown::Newline => ShownV::Newline,
        Shown::Addr(k) => ShownV::Addr(k),
        Shown::UInt(k) => ShownV::UInt(k),
        Shown::SInt(k) => ShownV::SInt(k),
        Shown::Float(b) => ShownV::Float(b@),
        Shown::Prefix(k) => ShownV::Prefix(k),
        Shown::Reg(k) => ShownV::Reg(k),
        Shown::Invalid => ShownV::Invalid,
        Shown::KwDecl => ShownV::KwDecl,
        Shown::Param => ShownV::Param,
        Shown::Signature => ShownV::Signature,
        Shown::Instruction => ShownV::Instruction,
        Shown::Sized => ShownV::Sized,
        Shown::Deref => ShownV::Deref,
    }
}

/// how a diagnostic shows a token
pub open spec fn shown_of(t: TokV) -> ShownV {
    match t {
        TokV::String(b) => ShownV::String(b),
        TokV::Word(b) => ShownV::Word(b),
        TokV::Label(b) => ShownV::Label(b),
        TokV::Keyword(k) => ShownV::Keyword(k),
        TokV::Section(k) => ShownV::Section(k),
        TokV::Type(k) => ShownV::Type(k),
        TokV::Symbol(k) => ShownV::Symbol(k),
        TokV::Newline => ShownV::Newline,
        TokV::Addr(k) => ShownV::Addr(k),
        TokV::UInt(k) => ShownV::UInt(k),
        TokV::SInt(k) => ShownV::SInt(k),
        TokV::Float(b) => ShownV::Float(b),
        TokV::Prefix(k) => ShownV::Prefix(k),
        TokV::Reg(k) => ShownV::Reg(k),
        TokV::Invalid => ShownV::Invalid,
        TokV::KwDecl(_, _) => ShownV::KwDecl,
        TokV::Param(_, _) => ShownV::Param,
        TokV::Signature(_, _, _) => ShownV::Signature,
        TokV::Instruction(_, _, _, _) => ShownV::Instruction,
        TokV::Sized(_, _) => ShownV::Sized,
        TokV::Deref(_) => ShownV::Deref,
    }
}

/// the token as a diagnostic shows it
pub fn show(t: &Tok) -> (r: Shown)
    ensures
        shown_view(r) == shown_of(t.view()),
{
    match t {
        Tok::String(b) => Shown::String(crate::text::bytes_to_vec(*b)),
        Tok::Word(b) => Shown::Word(crate::text::bytes_to_vec(*b)),
        Tok::Label(b) => Shown::Label(crate::text::bytes_to_vec(*b)),
        Tok::Keyword(k) => Shown::Keyword(*k),
        Tok::Section(k) => Shown::Section(*k),
        Tok::Type(k) => Shown::Type(k.clone_type()),
        Tok::Symbol(k) => Shown::Symbol(*k),
        Tok::Newline => Shown::Newline,
        Tok::Addr(k) => Shown::Addr(*k),
        Tok::UInt(k) => Shown::UInt(*k),
        Tok::SInt(k) => Shown::SInt(*k),
        Tok::Float(b) => Shown::Float(crate::text::bytes_to_vec(*b)),
        Tok::Prefix(k) => Shown::Prefix(*k),
        Tok::Reg(k) => Shown::Reg(*k),
        Tok::Invalid => Shown::Invalid,
        Tok::KwDecl(_, _) => Shown::KwDecl,
        Tok::Param(_, _) => Shown::Param,
        Tok::Signature(_, _, _) => Shown::Signature,
        Tok::Instruction(_, _, _, _) => Shown::Instruction,
        Tok::Sized(_, _) => Shown::Sized,
        Tok::Deref(_) => Shown::Deref,
    }
}

/// what a diagnostic names beside its message: nothing, the offending token (shown after the
/// message and a colon), or a name (shown after the message, in quotes)
#[derive(Debug, Clone)]
pub enum Subject {
    Nothing,
    Token(Shown),
    Name(Vec<u8>),
}

pub enum SubjectV {
    Nothing,
    Token(ShownV),
    Name(Seq<u8>),
}

pub open spec fn subject_view(s: Subject) -> SubjectV {
    match s {
        Subject::Nothing => SubjectV::Nothing,
        Subject::Token(t) => SubjectV::Token(shown_view(t)),
        Subject::Name(n) => SubjectV::Name(n@),
    }
}

/// a diagnostic, marked as a warning or as an error, with what it names
#[derive(Debug, Clone)]
pub struct Report {
    pub warning: bool,
    pub err: AsmErr<'static>,
    pub subject: Subject,
}

/// the content of a diagnostic
pub struct ReportV {
    pub warning: bool,
    pub message: Seq<char>,
    pub subject: SubjectV,
    pub line: u32,
    pub column: u32,
}

pub open spec fn report_view(r: Report) -> ReportV {
    ReportV { warning: r.warning, message: r.err.message@, subject: subject_view(r.subject), line: r.err.line, column: r.err.column }
}

pub open spec fn reports_view(s: Seq<Report>) -> Seq<ReportV> {
    Seq::new(s.len(), |i: int| report_view(s[i]))
}

/// an error with the given message at the given position
pub open spec fn error_at(message: &str, line: u32, column: u32) -> ReportV {
    ReportV { warning: false, message: message@, subject: SubjectV::Nothing, line, column }
}

/// an error with the given message, naming `subject`, at the given position
pub open spec fn error_about(message: &str, subject: SubjectV, line: u32, column: u32) -> ReportV {
    ReportV { warning: false, message: message@, subject, line, column }
}

/// a warning with the given message at the given position
pub open spec fn warning_at(message: &str, line: u32, column: u32) -> ReportV {
    ReportV { warning: true, message: message@, subject: SubjectV::Nothing, line, column }
}

/// records an error
pub fn report_error(reports: &mut Vec<Report>, message: &'static str, line: u32, column: u32)
    ensures
        reports_view(final(reports)@) == reports_view(old(reports)@).push(error_at(message, line, column)),
        final(reports)@.len() == old(reports)@.len() + 1,
{
    reports.push(Report { warning: false, err: AsmErr { message, line, column, context: None }, subject: Subject::Nothing });
    assert(reports_view(reports@) =~= reports_view(old(reports)@).push(error_at(message, line, column)));
}

/// records an error that names something
pub fn report_error_about(reports: &mut Vec<Report>, message: &'static str, subject: Subject, line: u32, column: u32)
    ensures
        reports_view(final(reports)@) == reports_view(old(reports)@).push(error_about(message, subject_view(subject), line, column)),
        final(reports)@.len() == old(reports)@.len() + 1,
{
    let ghost sv = subject_view(subject);
    reports.push(Report { warning: false, err: AsmErr { message, line, column, context: None }, subject });
    assert(reports_view(reports@) =~= reports_view(old(reports)@).push(error_about(message, sv, line, column)));
}

/// records a warning
pub fn report_warning(reports: &mut Vec<Report>, message: &'static str, line: u32, column: u32)
    ensures
        reports_view(final(reports)@) == reports_view(old(reports)@).push(warning_at(message, line, column)),
        final(reports)@.len() == old(reports)@.len() + 1,
{
    reports.push(Report { warning: true, err: AsmErr { message, line, column, context: None }, subject: Subject::Nothing });
    assert(reports_view(reports@) =~= reports_view(old(reports)@).push(warning_at(message, line, column)));
}

} // verus!
