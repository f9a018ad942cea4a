use x64_backend::error::CodegenError;
use x64_backend::ir::DataType;
use x64_backend::lexer::{parse_string_into_tokens, ByteClass, Lexeme};
use x64_backend::parser::Token;

fn lex(source: &str) -> Result<Vec<Lexeme>, CodegenError> {
    parse_string_into_tokens(source.as_bytes().to_vec())
}

fn tokens(source: &str) -> Vec<Token> {
    lex(source)
        .unwrap()
        .into_iter()
        .map(|lexeme| match lexeme {
            Lexeme::Token(token) => token,
            Lexeme::Float(text) => panic!("unexpected number {text:?}"),
        })
        .collect()
}

fn one(source: &str) -> Token {
    let mut found = tokens(source);
    assert_eq!(found.len(), 1);
    found.remove(0)
}

fn malformed(source: &str) {
    assert_eq!(lex(source), Err(CodegenError::MalformedIr));
}

#[test]
fn parse_tokens() {
    let src = r#"
        "\"A\n\x42"
        fn @main(u32, ptr) {
            %0 = #0
            %1 = #1
            ret i32 $0
        }
        "#
    .to_string();
    let tokens = parse_string_into_tokens(src.into_bytes());
    println!("{tokens:?}");
    let expected: Vec<Token> = vec![
        Token::LineBreak,
        Token::String(vec![0x22, 0x41, 0x0a, 0x42]),
        Token::LineBreak,
        Token::Fn,
        Token::FnName("main".to_string()),
        Token::ParenOpen,
        Token::TypeName(DataType::U32),
        Token::Comma,
        Token::TypeName(DataType::Ptr),
        Token::ParenClose,
        Token::BraceOpen,
        Token::LineBreak,
        Token::RegID(0),
        Token::Equal,
        Token::ArgID(0),
        Token::LineBreak,
        Token::RegID(1),
        Token::Equal,
        Token::ArgID(1),
        Token::LineBreak,
        Token::Ret,
        Token::TypeName(DataType::I32),
        Token::NumU(0),
        Token::LineBreak,
        Token::BraceClose,
        Token::LineBreak,
    ];
    assert_eq!(tokens, Ok(expected.into_iter().map(Lexeme::Token).collect()));
}

#[test]
fn empty_text_has_no_tokens() {
    assert_eq!(lex(""), Ok(vec![]));
    assert_eq!(lex("   \t  "), Ok(vec![]));
}

#[test]
fn words_are_keywords_and_type_names() {
    assert_eq!(
        tokens("fn extern call alloc ret"),
        vec![Token::Fn, Token::Extern, Token::Call, Token::Alloc, Token::Ret]
    );
    let types = [
        ("u64", DataType::U64),
        ("u32", DataType::U32),
        ("u16", DataType::U16),
        ("u8", DataType::U8),
        ("usize", DataType::USize),
        ("i64", DataType::I64),
        ("i32", DataType::I32),
        ("i16", DataType::I16),
        ("i8", DataType::I8),
        ("isize", DataType::ISize),
        ("f64", DataType::F64),
        ("f32", DataType::F32),
        ("ptr", DataType::Ptr),
    ];
    for (word, dtype) in types {
        assert_eq!(one(word), Token::TypeName(dtype));
    }
    malformed("foo");
    malformed("u64x");
    malformed("Fn");
    malformed("re");
}

#[test]
fn signs_stand_for_themselves() {
    assert_eq!(
        tokens("=,()[]{}+-*/~&|^"),
        vec![
            Token::Equal,
            Token::Comma,
            Token::ParenOpen,
            Token::ParenClose,
            Token::RectParenOpen,
            Token::RectParenClose,
            Token::BraceOpen,
            Token::BraceClose,
            Token::Add,
            Token::Sub,
            Token::Mul,
            Token::Div,
            Token::Not,
            Token::And,
            Token::Or,
            Token::Xor,
        ]
    );
    malformed("!");
    malformed("?");
    malformed("é");
}

#[test]
fn numbers_are_read_to_their_base() {
    assert_eq!(one("$0"), Token::NumU(0));
    assert_eq!(one("$12"), Token::NumU(12));
    assert_eq!(one("$007"), Token::NumU(7));
    assert_eq!(one("$0d42"), Token::NumU(42));
    assert_eq!(one("$0x1F"), Token::NumU(31));
    assert_eq!(one("$0xff"), Token::NumU(255));
    assert_eq!(one("$0x"), Token::NumU(0));
    assert_eq!(one("$0o17"), Token::NumU(15));
    assert_eq!(one("$0b101"), Token::NumU(5));
    assert_eq!(one("$18446744073709551615"), Token::NumU(u64::MAX));
    assert_eq!(one("$0xFFFFFFFFFFFFFFFF"), Token::NumU(u64::MAX));
    assert_eq!(one("$0o1777777777777777777777"), Token::NumU(u64::MAX));
    assert_eq!(one("$-7"), Token::NumI(-7));
    assert_eq!(one("$-0"), Token::NumI(0));
    assert_eq!(one("$-9223372036854775808"), Token::NumI(i64::MIN));
    assert_eq!(one("$-9223372036854775807"), Token::NumI(i64::MIN + 1));
}

#[test]
fn numbers_that_cannot_be_read_are_malformed() {
    for source in [
        "$",
        "$ 1",
        "$0d",
        "$-",
        "$18446744073709551616",
        "$0x10000000000000000",
        "$0o2000000000000000000000",
        "$-9223372036854775809",
        "$0xg",
        "$0b2",
        "$0o8",
        "$0d1a",
        "$abc",
        "$1a",
        "$-1.5",
        "$0x1.5",
        "$--1",
    ] {
        malformed(source);
    }
}

#[test]
fn numbers_with_a_fraction_are_handed_on_as_text() {
    assert_eq!(lex("$1.5"), Ok(vec![Lexeme::Float(b"1.5".to_vec())]));
    assert_eq!(lex("$0.25"), Ok(vec![Lexeme::Float(b"0.25".to_vec())]));
    assert_eq!(
        lex("f64 $1.e5 "),
        Ok(vec![Lexeme::Token(Token::TypeName(DataType::F64)), Lexeme::Float(b"1.e5".to_vec())])
    );
    assert_eq!(lex("$.5"), Ok(vec![Lexeme::Float(b".5".to_vec())]));
}

#[test]
fn registers_arguments_labels_and_names() {
    assert_eq!(one("%12"), Token::RegID(12));
    assert_eq!(one("%0"), Token::RegID(0));
    assert_eq!(one("#3"), Token::ArgID(3));
    assert_eq!(one("%18446744073709551615"), Token::RegID(u64::MAX));
    malformed("%");
    malformed("#");
    malformed("%x");
    malformed("%18446744073709551616");
    assert_eq!(one(":loop_1.x"), Token::Label("loop_1.x".to_string()));
    assert_eq!(one(":"), Token::Label(String::new()));
    assert_eq!(one("@main"), Token::FnName("main".to_string()));
    assert_eq!(one("@_Zn.3"), Token::FnName("_Zn.3".to_string()));
    assert_eq!(
        tokens("@f(%1)"),
        vec![Token::FnName("f".to_string()), Token::ParenOpen, Token::RegID(1), Token::ParenClose]
    );
    malformed("%1a");
}

#[test]
fn strings_hold_bytes() {
    assert_eq!(one("\"hi\""), Token::String(b"hi".to_vec()));
    assert_eq!(one("\"\""), Token::String(vec![]));
    assert_eq!(one("\"é\""), Token::String(vec![0xc3, 0xa9]));
    assert_eq!(one("\"a b\tc\""), Token::String(b"a b\tc".to_vec()));
    assert_eq!(
        one(r#""\x41\o101\d065\b01000001\n\t\\\"\'""#),
        Token::String(vec![0x41, 0x41, 65, 0x41, 0x0a, 0x09, 0x5c, 0x22, 0x27])
    );
    assert_eq!(one(r#""\xff\o377\d255\b11111111\x0a""#), Token::String(vec![255, 255, 255, 255, 10]));
    assert_eq!(one("\"line\nbreak\""), Token::String(b"line\nbreak".to_vec()));
}

#[test]
fn strings_that_cannot_be_read_are_malformed() {
    for source in [
        "\"open",
        "\"",
        r#""\q""#,
        r#""\"#,
        r#""\x4""#,
        r#""\xg0""#,
        r#""\o400""#,
        r#""\o18""#,
        r#""\d256""#,
        r#""\d25""#,
        r#""\b0000000""#,
        r#""\b00000002""#,
    ] {
        malformed(source);
    }
}

#[test]
fn comments_run_to_the_end_of_the_line() {
    assert_eq!(tokens("\\ nothing of this counts $ % \"\nret"), vec![Token::LineBreak, Token::Ret]);
    assert_eq!(tokens("ret \\ the end"), vec![Token::Ret]);
    assert_eq!(tokens("\\"), Vec::<Token>::new());
}

#[test]
fn line_breaks_that_follow_each_other_count_once() {
    assert_eq!(tokens("\n"), vec![Token::LineBreak]);
    assert_eq!(tokens("\n\n\n"), vec![Token::LineBreak]);
    assert_eq!(tokens("ret\n\nret\n"), vec![Token::Ret, Token::LineBreak, Token::Ret, Token::LineBreak]);
    assert_eq!(tokens("\n \n"), vec![Token::LineBreak, Token::LineBreak]);
    assert_eq!(tokens("\r\n"), vec![Token::LineBreak]);
}

#[test]
fn white_space_of_every_kind_separates() {
    for space in [
        " ", "\t", "\u{0b}", "\u{0c}", "\r", "\u{85}", "\u{a0}", "\u{1680}", "\u{2000}",
        "\u{2005}", "\u{200a}", "\u{2028}", "\u{2029}", "\u{202f}", "\u{205f}", "\u{3000}",
    ] {
        assert_eq!(tokens(&format!("ret{space}ret")), vec![Token::Ret, Token::Ret]);
        assert_eq!(tokens(space), Vec::<Token>::new());
    }
    // what merely looks like it
    malformed("\u{200b}");
    malformed("\u{180e}");
    malformed("\u{feff}");
}

#[test]
fn a_whole_function() {
    let source = "fn @main(u32 ptr) {\n    %0 = u32 + u32 #0 u32 $0x10\n    ret i32 $-1\n}\n";
    assert_eq!(
        tokens(source),
        vec![
            Token::Fn,
            Token::FnName("main".to_string()),
            Token::ParenOpen,
            Token::TypeName(DataType::U32),
            Token::TypeName(DataType::Ptr),
            Token::ParenClose,
            Token::BraceOpen,
            Token::LineBreak,
            Token::RegID(0),
            Token::Equal,
            Token::TypeName(DataType::U32),
            Token::Add,
            Token::TypeName(DataType::U32),
            Token::ArgID(0),
            Token::TypeName(DataType::U32),
            Token::NumU(16),
            Token::LineBreak,
            Token::Ret,
            Token::TypeName(DataType::I32),
            Token::NumI(-1),
            Token::LineBreak,
            Token::BraceClose,
            Token::LineBreak,
        ]
    );
}

#[test]
fn bytes_belong_to_classes() {
    for byte in 0..=255u8 {
        let c = byte as char;
        assert_eq!(ByteClass::Digit.holds(byte), c.is_ascii_digit());
        assert_eq!(ByteClass::Alphanumeric.holds(byte), c.is_ascii_alphanumeric());
        assert_eq!(ByteClass::Name.holds(byte), c.is_ascii_alphanumeric() || c == '_' || c == '.');
        assert_eq!(ByteClass::Number.holds(byte), c.is_ascii_alphanumeric() || c == '-' || c == '.');
        assert_eq!(ByteClass::Comment.holds(byte), c != '\n');
    }
}
