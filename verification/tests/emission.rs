use tas::emit::{emit, emit_checked, FloatSrc, Image, Piece};
use tas::errors::Report;
use tas::lex::lex;
use tas::params::Params;
use tas::parse::{semantic_parse, syntactic_parse};

fn assemble(src: &str) -> (Option<Option<Image<'_>>>, Vec<Report>) {
    let mut reports = Vec::new();
    let toks = lex(src, &mut reports).unwrap();
    let toks = syntactic_parse(toks, &mut reports).unwrap();
    let toks = semantic_parse(toks, &mut reports).unwrap();
    let r = emit_checked(toks, false, &mut reports);
    (r, reports)
}

fn bytes(p: &[Piece]) -> Vec<u8> {
    p.iter()
        .map(|x| match x {
            Piece::Byte(b) => *b,
            Piece::F64(_) | Piece::F32(_) => panic!("float piece"),
        })
        .collect()
}

const PROGRAM: &str = "!section .conf\n!purpose gpc\n!name \"bot1\"\n!invar 3\n!section .data\nmsg: !str \"hi\"\nval: !s32 -5\n!section .code\nstart:\n!section .indx\nstart(u8 a, u16[] b) u32\n";

#[test]
fn emit_program() {
    let (r, reports) = assemble(PROGRAM);
    assert!(reports.is_empty());
    let im = r.unwrap().unwrap();
    assert_eq!(bytes(&im.conf), vec![1, 4, b'b', b'o', b't', b'1', 3, 0, 0, 0, 0]);
    assert_eq!(bytes(&im.data), vec![0, 0, 0, 2, 1, 2, b'h', b'i', 0, 0xff, 0xff, 0xff, 0xfb]);
    assert!(im.code.is_empty());
    assert_eq!(
        bytes(&im.indx),
        vec![0, 1, 5, b's', b't', b'a', b'r', b't', 0, 0, 0, 0, 2, 1, b'a', 1, b'b', 0x81, 0x04, 0x82, 0x84]
    );
    let file = bytes(&im.file_pieces());
    let mut expected: Vec<u8> = vec![1];
    expected.extend_from_slice(b"SECTION.conf");
    expected.extend_from_slice(&11u32.to_be_bytes());
    expected.extend_from_slice(&bytes(&im.conf));
    expected.extend_from_slice(b"SECTION.data");
    expected.extend_from_slice(&13u32.to_be_bytes());
    expected.extend_from_slice(&bytes(&im.data));
    expected.extend_from_slice(b"SECTION.code");
    expected.extend_from_slice(&0u32.to_be_bytes());
    expected.extend_from_slice(b"SECTION.indx");
    expected.extend_from_slice(&21u32.to_be_bytes());
    expected.extend_from_slice(&bytes(&im.indx));
    assert_eq!(file, expected);
}

#[test]
fn emit_3tr_purpose_with_floats() {
    let src = "!section .conf\n!purpose 3tr\n!name \"b\"\n!fstr \"f\"\n!some 258\n!none 1\n!section .data\n!f64 2.5\n!res 7\n";
    let (r, reports) = assemble(src);
    // the invar declaration is missing, which is a warning
    assert_eq!(reports.len(), 1);
    assert!(reports[0].warning);
    assert_eq!(reports[0].err.message, "missing invar declaration, defaulting to 0");
    let im = r.unwrap().unwrap();
    assert_eq!(bytes(&im.conf), vec![0, 1, b'b', 0, 1, 2, 0, 1]);
    assert_eq!(im.data.len(), 3 + 2 + 2 + 3);
    assert!(matches!(im.data[0..5], [Piece::Byte(0), Piece::Byte(1), Piece::Byte(b'f'), Piece::Byte(0), Piece::Byte(2)]));
    assert!(matches!(im.data[5], Piece::Byte(2)));
    assert!(matches!(im.data[6], Piece::F64(FloatSrc::Text(t)) if t == b"2.5"));
    assert!(matches!(im.data[7..10], [Piece::Byte(3), Piece::Byte(0), Piece::Byte(7)]));
}

#[test]
fn emit_missing_config() {
    let (r, reports) = assemble("!section .data\n!res 1\n");
    assert!(r.unwrap().is_none());
    assert_eq!(reports.len(), 1);
    assert_eq!(reports[0].err.message, "missing config section");
    let (r, reports) = assemble("!section .conf\n!name \"x\"\n");
    assert!(r.unwrap().is_none());
    assert_eq!(reports[0].err.message, "missing purpose");
    let (r, reports) = assemble("!section .conf\n!purpose 1\n");
    assert!(r.unwrap().is_none());
    assert_eq!(reports[0].err.message, "missing name declaration");
    let (r, reports) = assemble("!section .conf\n!purpose 0\n!name \"n\"\n!invar 1\n");
    assert!(r.unwrap().is_none());
    assert_eq!(reports[0].err.message, "missing fstr declaration");
    let (r, reports) = assemble("!section .conf\n!purpose 0\n!name \"n\"\n!invar 1\n!fstr \"f\"\n!some 1\n");
    assert!(r.unwrap().is_none());
    assert_eq!(reports[0].err.message, "missing some/none declaration");
    let (r, reports) = assemble("!section .conf\n!purpose 1\n!name \"n\"\n!invar 1\n!fstr \"f\"\n");
    assert!(r.unwrap().is_none());
    assert_eq!(reports[0].err.message, "fstr must not be declared for non 3tr purpose");
}

#[test]
fn emit_some_none_ignored_for_other_purposes() {
    let (r, reports) = assemble("!section .conf\n!purpose 2\n!name \"n\"\n!invar 1\n!some 1\n!none 2\n");
    assert!(r.unwrap().is_some());
    assert_eq!(reports.len(), 2);
    assert!(reports.iter().all(|x| x.warning));
    assert_eq!(reports[0].err.message, "some and none are ignored for non 3tr purposes");
}

#[test]
fn emit_duplicates() {
    let (r, reports) = assemble("!section .conf\n!purpose 1\n!purpose 2\n");
    assert!(r.unwrap().is_none());
    assert_eq!(reports[0].err.message, "duplicate config declaration");
    let (r, reports) = assemble("!section .conf\n!purpose 1\n!name \"n\"\n!section .code\na:\na:\n");
    assert!(r.unwrap().is_none());
    assert_eq!(reports[0].err.message, "duplicate label definition");
    let (r, reports) = assemble("!section .conf\n!purpose 1\n!name \"n\"\n!section .code\n.child:\n");
    assert!(r.unwrap().is_none());
    assert_eq!(reports[0].err.message, "invalid child label definition");
    let (r, reports) = assemble("!section .conf\n!purpose 1\n!name \"n\"\n!section .code\nf:\n!section .indx\nf() u8\nf() u8\n");
    assert!(r.unwrap().is_none());
    assert_eq!(reports[0].err.message, "duplicate index definition");
}

#[test]
fn emit_special_entry_points() {
    let base = "!section .conf\n!purpose 1\n!name \"n\"\n!invar 0\n!section .code\n@think:\n@constructor:\n!section .indx\n";
    let src = format!("{}@think() u16\n", base);
    let (r, reports) = assemble(&src);
    assert!(r.unwrap().is_none());
    assert_eq!(reports[0].err.message, "@think must return u32 or auto");
    let src = format!("{}@think() u32\n@constructor(u32 x) u8\n", base);
    let (r, reports) = assemble(&src);
    assert!(reports.is_empty());
    let im = r.unwrap().unwrap();
    assert_eq!(
        bytes(&im.indx),
        vec![0, 2, 6, b'@', b't', b'h', b'i', b'n', b'k', 0, 0, 0, 0, 0,
             12, b'@', b'c', b'o', b'n', b's', b't', b'r', b'u', b'c', b't', b'o', b'r', 0, 0, 0, 0, 1, 1, b'x', 0]
    );
    let src = format!("{}@constructor() void\n", base);
    let (r, reports) = assemble(&src);
    assert!(r.unwrap().is_none());
    assert_eq!(reports[0].err.message, "@constructor must be void");
    let src = format!("{}@constructor(u8 x) u8\n", base);
    let (r, reports) = assemble(&src);
    assert!(r.unwrap().is_none());
    assert_eq!(reports[0].err.message, "@constructor parameters must be auto or u32");
}

#[test]
fn emit_cannot_go_on() {
    let mut reports = Vec::new();
    // an index entry whose name is no label
    let (r, _) = assemble("!section .conf\n!purpose 1\n!name \"n\"\n!section .indx\nf() u8\n");
    assert!(r.is_none());
    // a return type without an encoding
    let (r, _) = assemble("!section .conf\n!purpose 1\n!name \"n\"\n!section .code\nf:\n!section .indx\nf()\n");
    assert!(r.is_none());
    // a word in the code section
    let (r, _) = assemble("!section .conf\n!purpose 1\n!name \"n\"\n!section .code\nmov\n");
    assert!(r.is_none());
    // no token at all
    assert!(emit_checked(Vec::new(), false, &mut reports).is_none());
    assert!(reports.is_empty());
}

#[test]
fn emit_reports_nothing_but_warnings_when_it_succeeds() {
    let mut reports = Vec::new();
    let toks = lex(PROGRAM, &mut reports).unwrap();
    let toks = syntactic_parse(toks, &mut reports).unwrap();
    let toks = semantic_parse(toks, &mut reports).unwrap();
    let r = emit(toks, false, &mut reports);
    assert!(r.is_some());
    assert!(reports.iter().all(|x| x.warning));
}

#[test]
fn params_need_paths() {
    let mut p = Params::default();
    assert!(p.unpopulated());
    p.s = "a.tasm".to_string();
    assert!(p.unpopulated());
    p.use_stdout = true;
    assert!(!p.unpopulated());
    p.use_stdout = false;
    p.o = "a.ttvm".to_string();
    assert!(!p.unpopulated());
}
