use ewal::arith::Const;
use ewal::ast::Arg;
use ewal::ast::File;
use ewal::ast::Instruction;
use ewal::ast::Metadata;
use ewal::ast::Node;
use ewal::base::FieldSelector;
use ewal::code::CompileError;
use ewal::code::Compiler;
use ewal::color::Color;
use ewal::color::ParseColorError;
use ewal::object::parse;
use ewal::object::Instr;
use ewal::runtime::Error;
use ewal::runtime::Runtime;

fn minimal_file() -> File {
    File {
        header: vec![
            Node::Metadata(Metadata::Name(b"A".to_vec())),
            Node::Metadata(Metadata::Radius(4)),
            Node::Metadata(Metadata::Field(
                b"data".to_vec(),
                FieldSelector { offset: 0, length: 71 },
            )),
        ],
        body: vec![Node::Instruction(Instruction::Exit)],
    }
}

#[test]
fn test_color_parse() {
    assert_eq!(Color::from_str("#abc"), Ok(Color(0xAABBCCFF)));
    assert_eq!(Color::from_str("#abcdef"), Ok(Color(0xABCDEFFF)));
    assert_eq!(Color::from_str("#abcdef12"), Ok(Color(0xABCDEF12)));
    assert_eq!(Color::from_str("abc"), Ok(Color(0xAABBCCFF)));
    assert_eq!(Color::from_str("#ab"), Err(ParseColorError::BadLength(2)));
    assert_eq!(
        Color::from_str("#xyz"),
        Err(ParseColorError::ParseIntError(ewal::arith::ParseIntError::InvalidDigit))
    );
    assert_eq!(Color(0xAABBCCFF).components(), (0xAA, 0xBB, 0xCC));
    assert_eq!(Color(0xAABBCCFF).bits(), 0xAABBCCFF);
}

#[test]
fn test_object_roundtrip() {
    // Compile, load, re-emit: the bytes come back unchanged.
    let mut c = Compiler::new(b"ephemeral".to_vec());
    let mut w: Vec<u8> = Vec::new();
    c.compile_to_writer(&mut w, &minimal_file()).unwrap();
    let o = parse(&w).unwrap();
    assert_eq!(o.emit(), w);
    assert_eq!(o.type_num, 1);
    assert_eq!(o.code.len(), 1);
    assert!(matches!(o.code[0], Instr::Exit));
    let mut rt = Runtime::new();
    let meta = rt.load_from_slice(&w).unwrap();
    assert_eq!(meta.name, b"A".to_vec());
    assert_eq!(meta.radius, 4);
    assert_eq!(meta.type_num, 1);
    assert_eq!(meta.field_map.len(), 1);
    assert_eq!(meta.field_map[0].0, b"data".to_vec());
    assert_eq!(meta.field_map[0].1, FieldSelector { offset: 0, length: 71 });
}

#[test]
fn test_header_layout() {
    // The fixed header fields sit where the format says.
    let mut c = Compiler::new(b"tag".to_vec());
    let mut w: Vec<u8> = Vec::new();
    c.compile_to_writer(&mut w, &minimal_file()).unwrap();
    assert_eq!(&w[0..4], &[0x02, 0x03, 0x07, 0x41]);
    assert_eq!(&w[4..6], &[0x00, 0x01]);
    assert_eq!(&w[6..8], &[0x00, 0x00]);
    assert_eq!(w[8], 3);
    assert_eq!(&w[9..12], b"tag");
}

#[test]
fn test_magic_and_version_gating() {
    let mut c = Compiler::new(b"t".to_vec());
    let mut w: Vec<u8> = Vec::new();
    c.compile_to_writer(&mut w, &minimal_file()).unwrap();

    let mut bad_magic = w.clone();
    bad_magic[0] = 0x99;
    match parse(&bad_magic) {
        Err(Error::BadMagicNumber(v)) => assert_eq!(v, 0x99030741),
        r => panic!("unexpected: {:?}", r),
    }

    let mut bad_minor = w.clone();
    bad_minor[5] = 9;
    match parse(&bad_minor) {
        Err(Error::BadMinorVersion(v)) => assert_eq!(v, 9),
        r => panic!("unexpected: {:?}", r),
    }

    let mut bad_major = w.clone();
    bad_major[7] = 2;
    match parse(&bad_major) {
        Err(Error::BadMajorVersion(v)) => assert_eq!(v, 2),
        r => panic!("unexpected: {:?}", r),
    }

    assert!(matches!(parse(&w[0..3]), Err(Error::IOError)));
}

#[test]
fn test_build_tag_pinning() {
    // The first load pins the tag; a later load with another tag fails.
    let mut c1 = Compiler::new(b"one".to_vec());
    let mut w1: Vec<u8> = Vec::new();
    c1.compile_to_writer(&mut w1, &minimal_file()).unwrap();
    let mut c2 = Compiler::new(b"two".to_vec());
    let mut w2: Vec<u8> = Vec::new();
    c2.compile_to_writer(&mut w2, &minimal_file()).unwrap();

    let mut rt = Runtime::new();
    rt.load_from_slice(&w1).unwrap();
    match rt.load_from_slice(&w2) {
        Err(Error::BuildTagMismatch { want, got }) => {
            assert_eq!(want, b"one".to_vec());
            assert_eq!(got, b"two".to_vec());
        },
        r => panic!("unexpected: {:?}", r),
    }
    // The same tag loads again without complaint.
    rt.load_from_slice(&w1).unwrap();
}

#[test]
fn test_bad_wire_codes() {
    let mut c = Compiler::new(b"t".to_vec());
    let mut w: Vec<u8> = Vec::new();
    c.compile_to_writer(&mut w, &minimal_file()).unwrap();
    // The last instruction byte is the single Exit opcode; an unknown
    // opcode there is refused.
    let n = w.len();
    let mut bad_instr = w.clone();
    bad_instr[n - 1] = 91;
    assert!(matches!(parse(&bad_instr), Err(Error::BadInstructionOpCode(91))));
    // The first header record byte follows the type id and record count:
    // magic, versions, the one-byte tag, type id and count come first.
    let mut bad_meta = w.clone();
    bad_meta[13] = 11;
    assert!(matches!(parse(&bad_meta), Err(Error::BadMetadataOpCode(11))));
}

#[test]
fn test_parameter_constant_roundtrip() {
    // A signed parameter and a label jump survive the trip to bytes and
    // back.
    let file = File {
        header: vec![
            Node::Metadata(Metadata::Name(b"B".to_vec())),
            Node::Metadata(Metadata::Parameter(b"p".to_vec(), Const::Signed(-5))),
            Node::Metadata(Metadata::BgColor(b"#abc".to_vec())),
            Node::Metadata(Metadata::Symmetries(ewal::base::Symmetries::from_bits(0xff))),
        ],
        body: vec![
            Node::Label(b"top".to_vec()),
            Node::Instruction(Instruction::GetParameter(Arg::Ast(b"p".to_vec()))),
            Node::Instruction(Instruction::Pop),
            Node::Instruction(Instruction::JumpZero(Arg::Ast(b"top".to_vec()))),
            Node::Instruction(Instruction::Exit),
        ],
    };
    let mut c = Compiler::new(b"t".to_vec());
    let mut w: Vec<u8> = Vec::new();
    c.compile_to_writer(&mut w, &file).unwrap();
    let o = parse(&w).unwrap();
    assert_eq!(o.emit(), w);
    assert_eq!(o.code.len(), 4);
    assert!(matches!(o.code[0], Instr::GetParameter(Const::Signed(-5))));
    assert!(matches!(o.code[2], Instr::JumpZero(0)));
    let mut rt = Runtime::new();
    let meta = rt.load_from_slice(&w).unwrap();
    assert_eq!(meta.bg_color, Color(0xAABBCCFF));
    assert_eq!(meta.symmetries.bits(), 0xff);
    assert_eq!(meta.parameter_map.len(), 1);
    assert_eq!(meta.parameter_map[0].1, Const::Signed(-5));
}

#[test]
fn test_compile_unknown_name() {
    let file = File {
        header: vec![Node::Metadata(Metadata::Name(b"C".to_vec()))],
        body: vec![Node::Instruction(Instruction::GetField(Arg::Ast(b"nosuch".to_vec())))],
    };
    let mut c = Compiler::new(b"t".to_vec());
    let mut w: Vec<u8> = Vec::new();
    assert!(matches!(
        c.compile_to_writer(&mut w, &file),
        Err(CompileError::UnknownName)
    ));
}

#[test]
fn test_compile_standard_fields() {
    // The implicit `type`, `header` and `data` selectors resolve without
    // a directive.
    let file = File {
        header: vec![Node::Metadata(Metadata::Name(b"D".to_vec()))],
        body: vec![
            Node::Instruction(Instruction::GetField(Arg::Ast(b"type".to_vec()))),
            Node::Instruction(Instruction::Exit),
        ],
    };
    let mut c = Compiler::new(b"t".to_vec());
    let mut w: Vec<u8> = Vec::new();
    c.compile_to_writer(&mut w, &file).unwrap();
    let o = parse(&w).unwrap();
    assert!(matches!(
        o.code[0],
        Instr::GetField(FieldSelector { offset: 80, length: 16 })
    ));
}

#[test]
fn test_compile_bad_color() {
    let file = File {
        header: vec![
            Node::Metadata(Metadata::Name(b"E".to_vec())),
            Node::Metadata(Metadata::FgColor(b"#abcd".to_vec())),
        ],
        body: vec![],
    };
    let mut c = Compiler::new(b"t".to_vec());
    let mut w: Vec<u8> = Vec::new();
    assert!(matches!(
        c.compile_to_writer(&mut w, &file),
        Err(CompileError::ParseColorError(ParseColorError::BadLength(4)))
    ));
    assert!(w.is_empty());
}

#[test]
fn test_utf8_rejected_on_load() {
    let mut c = Compiler::new(b"t".to_vec());
    let mut w: Vec<u8> = Vec::new();
    c.compile_to_writer(&mut w, &minimal_file()).unwrap();
    // The element name "A" is the byte after the first record's code and
    // length: magic, versions, one-byte tag, type id, count, code, len.
    let mut bad_name = w.clone();
    assert_eq!(bad_name[15], b'A');
    bad_name[15] = 0xff;
    assert!(matches!(parse(&bad_name), Err(Error::FromUtf8Error)));
    let mut rt = Runtime::new();
    assert!(matches!(rt.load_from_slice(&bad_name), Err(Error::FromUtf8Error)));
    // The build tag is checked the same way.
    let mut bad_tag = w.clone();
    assert_eq!(bad_tag[9], b't');
    bad_tag[9] = 0xff;
    assert!(matches!(parse(&bad_tag), Err(Error::FromUtf8Error)));
}

#[test]
fn test_utf8_rejected_on_compile() {
    let file = File {
        header: vec![Node::Metadata(Metadata::Name(vec![0xff, 0xfe]))],
        body: vec![Node::Instruction(Instruction::Exit)],
    };
    let mut c = Compiler::new(b"t".to_vec());
    let mut w: Vec<u8> = Vec::new();
    assert!(matches!(
        c.compile_to_writer(&mut w, &file),
        Err(CompileError::InternalError)
    ));
}
