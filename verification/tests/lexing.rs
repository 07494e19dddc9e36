use tas::errors::Report;
use tas::lex::{is_wordchar, lex, lex_checked, lex_other};
use tas::types::{Tok, Token};

fn lexed(src: &str) -> (Result<Vec<Token<'_>>, Vec<Token<'_>>>, Vec<Report>) {
    let mut reports = Vec::new();
    let r = lex(src, &mut reports);
    (r, reports)
}

#[test]
fn lex_words_symbols_and_numbers() {
    let (r, reports) = lexed("add r1, 5\n");
    let toks = r.expect("no error expected");
    assert!(reports.is_empty());
    assert_eq!(toks.len(), 6);
    assert!(matches!(toks[0].tok, Tok::Word(w) if w == b"add"));
    assert_eq!((toks[0].line, toks[0].column), (1, 1));
    assert!(matches!(toks[1].tok, Tok::Word(w) if w == b"r1"));
    assert_eq!((toks[1].line, toks[1].column), (1, 5));
    assert!(matches!(toks[2].tok, Tok::Symbol(b',')));
    assert_eq!((toks[2].line, toks[2].column), (1, 7));
    assert!(matches!(toks[3].tok, Tok::UInt(5)));
    assert_eq!((toks[3].line, toks[3].column), (1, 9));
    assert!(matches!(toks[4].tok, Tok::Newline));
    assert_eq!((toks[4].line, toks[4].column), (1, 10));
    assert!(matches!(toks[5].tok, Tok::Newline));
    assert_eq!((toks[5].line, toks[5].column), (2, 1));
}

#[test]
fn lex_always_ends_with_newline() {
    let (r, _) = lexed("");
    let toks = r.unwrap();
    assert_eq!(toks.len(), 1);
    assert!(matches!(toks[0].tok, Tok::Newline));
    let (r, _) = lexed("word");
    let toks = r.unwrap();
    // a word still open at the end of the source is read before the final newline
    assert_eq!(toks.len(), 2);
    assert!(matches!(toks[0].tok, Tok::Word(w) if w == b"word"));
    assert!(matches!(toks[1].tok, Tok::Newline));
}

#[test]
fn lex_signed_and_float_literals() {
    let (r, _) = lexed("-5 1.5 .loop #x\n");
    let toks = r.unwrap();
    assert!(matches!(toks[0].tok, Tok::SInt(-5)));
    assert!(matches!(toks[1].tok, Tok::Float(t) if t == b"1.5"));
    assert!(matches!(toks[2].tok, Tok::Word(w) if w == b".loop"));
    assert!(matches!(toks[3].tok, Tok::Word(w) if w == b"#x"));
    let (r, _) = lexed("-9223372036854775808 18446744073709551615\n");
    let toks = r.unwrap();
    assert!(matches!(toks[0].tok, Tok::SInt(i64::MIN)));
    assert!(matches!(toks[1].tok, Tok::UInt(u64::MAX)));
}

#[test]
fn lex_invalid_token_is_an_error() {
    let (r, reports) = lexed("foo.bar\n");
    let toks = r.expect_err("an invalid token is an error");
    assert_eq!(reports.len(), 1);
    assert!(!reports[0].warning);
    assert_eq!(reports[0].err.message, "invalid token");
    assert_eq!((reports[0].err.line, reports[0].err.column), (1, 1));
    assert_eq!(toks.len(), 2);
}

#[test]
fn lex_unterminated_string() {
    let (r, reports) = lexed("\"abc\nx");
    assert!(r.is_err());
    assert_eq!(reports.len(), 1);
    assert_eq!(reports[0].err.message, "unterminated string literal");
    assert_eq!((reports[0].err.line, reports[0].err.column), (1, 1));
}

#[test]
fn lex_strings_comments_and_escapes() {
    let (r, reports) = lexed("\"a\\\"b\" ; comment \"\n\"\\x41\"\n");
    let toks = r.unwrap();
    assert!(reports.is_empty());
    assert!(matches!(toks[0].tok, Tok::String(s) if s == b"a\\\"b"));
    assert!(matches!(toks[1].tok, Tok::Newline));
    assert!(matches!(toks[2].tok, Tok::String(s) if s == b"\\x41"));
}

#[test]
fn lex_reports_where_it_cannot_go_on() {
    let mut reports = Vec::new();
    assert!(lex_checked("18446744073709551616\n", &mut reports).is_none());
    assert!(lex_checked("- \n", &mut reports).is_none());
    assert!(lex_checked("\"abc\\", &mut reports).is_none());
    assert!(reports.is_empty());
    assert!(lex_checked("1 2 3\n", &mut reports).is_some());
}

#[test]
fn lex_other_classifies_text() {
    let src = b"12 -7 3.25 abc a.b";
    assert!(matches!(lex_other(src, 0, 2), Some(Tok::UInt(12))));
    assert!(matches!(lex_other(src, 3, 5), Some(Tok::SInt(-7))));
    assert!(matches!(lex_other(src, 6, 10), Some(Tok::Float(t)) if t == b"3.25"));
    assert!(matches!(lex_other(src, 11, 14), Some(Tok::Word(t)) if t == b"abc"));
    assert!(matches!(lex_other(src, 15, 18), Some(Tok::Invalid)));
}

#[test]
fn wordchars() {
    assert!(is_wordchar(b'a'));
    assert!(is_wordchar(b'Z'));
    assert!(is_wordchar(b'7'));
    assert!(is_wordchar(b'@'));
    assert!(is_wordchar(b'_'));
    assert!(is_wordchar(b'.'));
    assert!(!is_wordchar(b'-'));
    assert!(!is_wordchar(b' '));
    assert!(!is_wordchar(b'#'));
}

#[test]
fn newline_tokens_count_lines_and_columns() {
    let mut reports = Vec::new();
    let toks = lex("ab c\n;x\n\"s\"\n", &mut reports).unwrap();
    let nls: Vec<(u32, u32)> = toks.iter().filter(|t| matches!(t.tok, Tok::Newline)).map(|t| (t.line, t.column)).collect();
    assert_eq!(nls, vec![(1, 5), (2, 3), (3, 4), (4, 1)]);
}

#[test]
fn last_token_without_newline() {
    let (r, reports) = lexed("hlt");
    let toks = r.unwrap();
    assert!(reports.is_empty());
    assert_eq!(toks.len(), 2);
    assert!(matches!(toks[0].tok, Tok::Word(w) if w == b"hlt"));
    assert_eq!((toks[0].line, toks[0].column), (1, 1));
    assert!(matches!(toks[1].tok, Tok::Newline));
    assert_eq!((toks[1].line, toks[1].column), (1, 4));
    let (r, _) = lexed("x 12");
    let toks = r.unwrap();
    assert!(matches!(toks[1].tok, Tok::UInt(12)));
    let (r, reports) = lexed("a 1.2.3");
    assert!(r.is_err());
    assert_eq!(reports[0].err.message, "invalid token");
}

#[test]
fn unterminated_string_at_end() {
    let (r, reports) = lexed("x \"abc");
    let toks = r.unwrap_err();
    assert_eq!(reports.len(), 1);
    assert_eq!(reports[0].err.message, "unterminated string literal");
    assert_eq!((reports[0].err.line, reports[0].err.column), (1, 3));
    assert_eq!(toks.len(), 2);
    assert!(matches!(toks[1].tok, Tok::Newline));
}
