use tas::errors::{Report, Shown, Subject};
use tas::lex::lex;
use tas::parse::{keyword_of, parse_type, section_of, semantic_parse, syntactic_parse, type_of_word};
use tas::types::{copy_token, Keyword, Section, Tok, Token, Type};

fn syn(src: &str) -> (Result<Vec<Token<'_>>, Vec<Token<'_>>>, Vec<Report>) {
    let mut reports = Vec::new();
    let toks = lex(src, &mut reports).unwrap();
    let r = syntactic_parse(toks, &mut reports);
    (r, reports)
}

fn sem(src: &str) -> (Result<Vec<Token<'_>>, Vec<Token<'_>>>, Vec<Report>) {
    let mut reports = Vec::new();
    let toks = lex(src, &mut reports).unwrap();
    let toks = syntactic_parse(toks, &mut reports).unwrap();
    let r = semantic_parse(toks, &mut reports);
    (r, reports)
}

#[test]
fn syntactic_labels_keywords_addresses() {
    let (r, reports) = syn("start: !section .data !! $16\n");
    let toks = r.unwrap();
    assert!(reports.is_empty());
    assert!(matches!(toks[0].tok, Tok::Label(w) if w == b"start"));
    assert!(matches!(toks[1].tok, Tok::Keyword(Keyword::Section)));
    assert_eq!(toks[1].column, 9);
    assert!(matches!(toks[2].tok, Tok::Word(w) if w == b".data"));
    assert!(matches!(toks[3].tok, Tok::Type(Type::Invalid)));
    assert!(matches!(toks[4].tok, Tok::Addr(16)));
    assert_eq!(toks[4].column, 26);
    assert!(matches!(toks[5].tok, Tok::Newline));
}

#[test]
fn syntactic_errors() {
    let (r, reports) = syn(": !foo $x\n");
    let toks = r.unwrap_err();
    assert_eq!(reports.len(), 3);
    assert_eq!(reports[0].err.message, "invalid label");
    assert_eq!(reports[1].err.message, "invalid keyword");
    assert_eq!((reports[1].err.line, reports[1].err.column), (1, 4));
    assert_eq!(reports[2].err.message, "invalid memory address");
    assert!(matches!(reports[0].subject, Subject::Nothing));
    assert!(matches!(&reports[1].subject, Subject::Token(Shown::Word(w)) if w == b"foo"));
    assert!(matches!(&reports[2].subject, Subject::Token(Shown::Word(w)) if w == b"x"));
    // the word after a bad keyword and after a bad address stays in the stream
    assert!(matches!(toks[0].tok, Tok::Word(w) if w == b"foo"));
    assert!(matches!(toks[1].tok, Tok::Word(w) if w == b"x"));
}

#[test]
fn syntactic_parse_keeps_plain_streams() {
    let (r, reports) = syn("mov r1 r2 ( ) , [ ]\n");
    let toks = r.unwrap();
    assert!(reports.is_empty());
    assert_eq!(toks.len(), 10);
}

#[test]
fn recognizers() {
    assert_eq!(keyword_of(b"purpose"), Some(Keyword::Purpose));
    assert_eq!(keyword_of(b"none"), Some(Keyword::NoneFlags));
    assert_eq!(keyword_of(b"cutoff"), Some(Keyword::Cutoff));
    assert_eq!(keyword_of(b"nope"), None);
    assert_eq!(section_of(b".indx"), Some(Section::Indx));
    assert_eq!(section_of(b".text"), None);
    assert_eq!(type_of_word(b"u128"), Some(Type::U128));
    assert_eq!(type_of_word(b"lstr"), Some(Type::Lstr));
    assert_eq!(type_of_word(b"auto"), None);
}

#[test]
fn types_from_tokens() {
    let mut reports = Vec::new();
    let toks = lex("u16[] u8[5] s32* !! x\n", &mut reports).unwrap();
    let toks = syntactic_parse(toks, &mut reports).unwrap();
    // u16 [ ]
    let t = parse_type(toks[0..3].to_vec(), &mut reports);
    assert_eq!(t, Ok(Type::Uarr(Box::new(Type::U16))));
    // u8 [ 5 ]
    let t = parse_type(toks[3..7].to_vec(), &mut reports);
    assert_eq!(t, Ok(Type::Sarr(5, Box::new(Type::U8))));
    // s32 *
    let t = parse_type(toks[7..9].to_vec(), &mut reports);
    assert_eq!(t, Ok(Type::Ptr(Box::new(Type::S32))));
    // !!
    let t = parse_type(toks[9..10].to_vec(), &mut reports);
    assert_eq!(t, Ok(Type::Invalid));
    assert!(reports.is_empty());
    // x is no type
    let t = parse_type(toks[10..11].to_vec(), &mut reports);
    assert_eq!(t, Err(Type::Unset));
    assert_eq!(reports.len(), 1);
    assert_eq!(reports[0].err.message, "invalid type");
    // nothing at all
    assert_eq!(parse_type(Vec::new(), &mut reports), Ok(Type::Unset));
}

#[test]
fn type_size_too_large() {
    let mut reports = Vec::new();
    let toks = lex("u8 [ 64 ]\n", &mut reports).unwrap();
    let t = parse_type(toks[0..4].to_vec(), &mut reports);
    assert_eq!(t, Err(Type::U8));
    assert_eq!(reports[0].err.message, "size too large");
}

#[test]
fn semantic_declarations() {
    let (r, reports) = sem("!section .conf\n!purpose gpc\n!name \"bot\"\n!invar 3\n!section .data\nmsg: !str \"hi\"\nv: !s32 7\n");
    let toks = r.unwrap();
    assert!(reports.is_empty());
    assert!(matches!(toks[0].tok, Tok::Section(Section::Conf)));
    assert!(matches!(&toks[2].tok, Tok::KwDecl(Keyword::Purpose, v) if matches!(**v, Tok::UInt(1))));
    assert!(matches!(&toks[4].tok, Tok::KwDecl(Keyword::Name, v) if matches!(**v, Tok::String(s) if s == b"bot")));
    assert!(matches!(&toks[6].tok, Tok::KwDecl(Keyword::Invar, v) if matches!(**v, Tok::UInt(3))));
    assert!(matches!(toks[8].tok, Tok::Section(Section::Data)));
    assert!(matches!(toks[10].tok, Tok::Label(l) if l == b"msg"));
    assert!(matches!(&toks[11].tok, Tok::KwDecl(Keyword::Str, v) if matches!(**v, Tok::String(s) if s == b"hi")));
    assert!(matches!(&toks[14].tok, Tok::KwDecl(Keyword::S32, v) if matches!(**v, Tok::SInt(7))));
}

#[test]
fn semantic_index_signature() {
    let (r, reports) = sem("!section .indx\nstart(u8 a, u16[] b) u32\n");
    let toks = r.unwrap();
    assert!(reports.is_empty());
    assert!(matches!(toks[0].tok, Tok::Section(Section::Indx)));
    match &toks[1].tok {
        Tok::Signature(name, params, rtype) => {
            assert_eq!(*name, b"start");
            assert_eq!(params.len(), 2);
            assert!(matches!(&params[0], Tok::Param(n, Type::U8) if *n == b"a"));
            assert!(matches!(&params[1], Tok::Param(n, t) if *n == b"b" && *t == Type::Uarr(Box::new(Type::U16))));
            assert_eq!(*rtype, Type::U32);
        },
        other => panic!("expected a signature, got {:?}", other),
    }
    assert_eq!((toks[1].line, toks[1].column), (2, 1));
}

#[test]
fn semantic_errors_and_warnings() {
    let (r, reports) = sem("!section .conf\n!str \"x\"\nfoo\n!section .data\n!s32 \"no\"\n");
    assert!(r.is_err());
    assert_eq!(reports.len(), 5);
    assert_eq!(reports[0].err.message, "keyword declaration not valid for .conf section");
    assert!(!reports[0].warning);
    assert!(reports[1].warning);
    assert_eq!(reports[1].err.message, "unknown token");
    assert!(reports[2].warning);
    assert_eq!(reports[3].err.message, "invalid s32 literal");
    assert!(reports[4].warning);
}

#[test]
fn semantic_cutoff_stops_without_error() {
    let (r, reports) = sem("!section .conf\n!str \"x\"\n!cutoff\nanything\n");
    let toks = r.unwrap();
    assert_eq!(reports.len(), 2);
    assert_eq!(toks.len(), 4);
}

#[test]
fn semantic_parse_keeps_streams_without_keywords() {
    let (r, reports) = sem("mov r1 r2\nfoo: bar\n");
    let toks = r.unwrap();
    assert!(reports.is_empty());
    assert_eq!(toks.len(), 8);
}

#[test]
fn semantic_invalid_section_is_reported_but_no_error() {
    let (r, reports) = sem("!section 5\n");
    assert!(r.is_ok());
    assert_eq!(reports.len(), 1);
    assert_eq!(reports[0].err.message, "invalid section");
    assert!(matches!(reports[0].subject, Subject::Token(Shown::UInt(5))));
}

#[test]
fn semantic_errors_show_the_offending_token() {
    let (r, reports) = sem("!section .conf\n!purpose 1.5\n!name 7\n!section .data\n!str \"a\"\n!res -1\n!section .indx\nf x\n");
    assert!(r.is_err());
    let errors: Vec<&Report> = reports.iter().filter(|x| !x.warning).collect();
    let msgs: Vec<&str> = errors.iter().map(|x| x.err.message).collect();
    assert_eq!(
        msgs,
        vec!["invalid purpose", "invalid name", "invalid reserve literal", "expected left parenthesis, got", "expected left parenthesis, got", "expected left parenthesis, got"]
    );
    assert!(matches!(&errors[0].subject, Subject::Token(Shown::Float(t)) if t == b"1.5"));
    assert!(matches!(errors[1].subject, Subject::Token(Shown::UInt(7))));
    assert!(matches!(errors[2].subject, Subject::Token(Shown::SInt(-1))));
    assert!(matches!(&errors[3].subject, Subject::Token(Shown::Word(w)) if w == b"x"));
    assert!(matches!(errors[4].subject, Subject::Token(Shown::Newline)));
    // the unknown tokens after the bad declarations are warnings that show nothing
    assert!(reports.iter().filter(|x| x.warning).all(|x| matches!(x.subject, Subject::Nothing)));
}

#[test]
fn semantic_cutoff_ignores_what_follows() {
    let src = "!section .data\n!res x\n!res 3\n!section\n!cutoff\n!bogus x\n!section .indx\n";
    let mut reports = Vec::new();
    let toks = lex(src, &mut reports).unwrap();
    let toks = syntactic_parse(toks, &mut reports).unwrap_err();
    let c = toks.iter().position(|t| matches!(t.tok, Tok::Keyword(Keyword::Cutoff))).unwrap();
    let cut: Vec<Token> = toks[..c].iter().map(copy_token).collect();
    let mut reps = Vec::new();
    let full = semantic_parse(toks, &mut reps);
    // errors were reported before the cutoff, and the result is still Ok
    assert!(reps.iter().any(|x| !x.warning));
    let full = full.unwrap();
    let mut reps = Vec::new();
    let cut = match semantic_parse(cut, &mut reps) {
        Ok(v) | Err(v) => v,
    };
    assert_eq!(full.len(), cut.len());
    assert_eq!(format!("{:?}", full), format!("{:?}", cut));
}

#[test]
fn semantic_parse_keeps_other_keywords_outside_sections() {
    let mut reports = Vec::new();
    let toks = lex("!purpose 5\n!str \"x\" foo\n", &mut reports).unwrap();
    let toks = syntactic_parse(toks, &mut reports).unwrap();
    let before = format!("{:?}", toks);
    let n = toks.len();
    let r = semantic_parse(toks, &mut reports).unwrap();
    assert!(reports.is_empty());
    assert_eq!(r.len(), n);
    assert_eq!(format!("{:?}", r), before);
}
