use x64_backend::error::CodegenError;
use x64_backend::ir::{DataType, Instruction, TopLevel};
use x64_backend::parser::{parse_tokens_into_ir, Token};

fn name(text: &str) -> Token {
    Token::FnName(text.to_string())
}

fn ty(dtype: DataType) -> Token {
    Token::TypeName(dtype)
}

/// The tokens of a function `f` without arguments around the given body.
fn in_function(body: Vec<Token>) -> Vec<Token> {
    let mut tokens = vec![
        Token::Fn,
        name("f"),
        Token::ParenOpen,
        Token::ParenClose,
        Token::BraceOpen,
        Token::LineBreak,
    ];
    tokens.extend(body);
    tokens.push(Token::LineBreak);
    tokens.push(Token::BraceClose);
    tokens
}

fn body_of(body: Vec<Token>) -> Result<Vec<Instruction>, CodegenError> {
    let mut program = parse_tokens_into_ir(in_function(body))?;
    assert_eq!(program.len(), 1);
    match program.remove(0) {
        TopLevel::Fn { name, args, body } => {
            assert_eq!(name, "f");
            assert_eq!(args, vec![]);
            Ok(body)
        }
        TopLevel::Extern(_) => panic!("a function was expected"),
    }
}

fn step_of(step: Vec<Token>) -> Result<Instruction, CodegenError> {
    let mut body = body_of(step)?;
    assert_eq!(body.len(), 1);
    Ok(body.remove(0))
}

#[test]
fn function_with_arguments_and_steps() {
    let tokens = vec![
        Token::LineBreak,
        Token::Fn,
        name("main"),
        Token::ParenOpen,
        ty(DataType::U32),
        ty(DataType::Ptr),
        Token::ParenClose,
        Token::BraceOpen,
        Token::LineBreak,
        Token::RegID(0),
        Token::Equal,
        ty(DataType::U32),
        Token::ArgID(0),
        Token::LineBreak,
        Token::Ret,
        ty(DataType::I32),
        Token::NumU(0),
        Token::LineBreak,
        Token::BraceClose,
        Token::LineBreak,
    ];
    assert_eq!(
        parse_tokens_into_ir(tokens),
        Ok(vec![TopLevel::Fn {
            name: "main".to_string(),
            args: vec![DataType::U32, DataType::Ptr],
            body: vec![
                Instruction::DefReg { id: 0, rhs: Box::new(Instruction::Arg(DataType::U32, 0)) },
                Instruction::Ret(Some(Box::new(Instruction::UInt(DataType::I32, 0)))),
            ],
        }])
    );
}

#[test]
fn no_tokens_are_an_empty_program() {
    assert_eq!(parse_tokens_into_ir(vec![]), Ok(vec![]));
    assert_eq!(parse_tokens_into_ir(vec![Token::LineBreak]), Ok(vec![]));
}

#[test]
fn parsed_functions_follow_each_other() {
    let mut tokens = in_function(vec![Token::Ret]);
    tokens.push(Token::LineBreak);
    tokens.extend(in_function(vec![Token::Label("x".to_string())]));
    let program = parse_tokens_into_ir(tokens).unwrap();
    assert_eq!(
        program,
        vec![
            TopLevel::Fn { name: "f".to_string(), args: vec![], body: vec![Instruction::Ret(None)] },
            TopLevel::Fn {
                name: "f".to_string(),
                args: vec![],
                body: vec![Instruction::Label("x".to_string())],
            },
        ]
    );
}

#[test]
fn literals_keep_their_types() {
    assert_eq!(
        step_of(vec![Token::Ret, ty(DataType::U8), Token::NumU(200)]),
        Ok(Instruction::Ret(Some(Box::new(Instruction::UInt(DataType::U8, 200)))))
    );
    assert_eq!(
        step_of(vec![Token::Ret, ty(DataType::I64), Token::NumI(-3)]),
        Ok(Instruction::Ret(Some(Box::new(Instruction::Int(DataType::I64, -3)))))
    );
    assert_eq!(
        step_of(vec![Token::Ret, ty(DataType::F64), Token::NumF(2.5f64.to_bits())]),
        Ok(Instruction::Ret(Some(Box::new(Instruction::Float(DataType::F64, 2.5f64.to_bits())))))
    );
}

#[test]
fn operations_are_written_in_front_of_their_operands() {
    let tokens = vec![
        Token::RegID(2),
        Token::Equal,
        ty(DataType::U32),
        Token::Add,
        ty(DataType::U32),
        Token::Mul,
        ty(DataType::U32),
        Token::RegID(0),
        ty(DataType::U32),
        Token::NumU(4),
        ty(DataType::U32),
        Token::RegID(1),
    ];
    assert_eq!(
        step_of(tokens),
        Ok(Instruction::DefReg {
            id: 2,
            rhs: Box::new(Instruction::Add(
                DataType::U32,
                Box::new(Instruction::Mul(
                    DataType::U32,
                    Box::new(Instruction::Reg(DataType::U32, 0)),
                    Box::new(Instruction::UInt(DataType::U32, 4)),
                )),
                Box::new(Instruction::Reg(DataType::U32, 1)),
            )),
        })
    );
    for (token, expected) in [
        (Token::Sub, Instruction::Sub(DataType::I8, Box::new(Instruction::Int(DataType::I8, 1)), Box::new(Instruction::Int(DataType::I8, 2)))),
        (Token::Div, Instruction::Div(DataType::I8, Box::new(Instruction::Int(DataType::I8, 1)), Box::new(Instruction::Int(DataType::I8, 2)))),
    ] {
        let tokens = vec![
            Token::Ret,
            ty(DataType::I8),
            token,
            ty(DataType::I8),
            Token::NumI(1),
            ty(DataType::I8),
            Token::NumI(2),
        ];
        assert_eq!(step_of(tokens), Ok(Instruction::Ret(Some(Box::new(expected)))));
    }
}

#[test]
fn allocation_load_and_store() {
    assert_eq!(
        step_of(vec![Token::RegID(1), Token::Equal, Token::Alloc, ty(DataType::U16)]),
        Ok(Instruction::DefReg { id: 1, rhs: Box::new(Instruction::Alloc(DataType::U16)) })
    );
    assert_eq!(
        step_of(vec![
            Token::RegID(2),
            Token::Equal,
            ty(DataType::U16),
            Token::RectParenOpen,
            Token::RegID(1),
            Token::RectParenClose,
        ]),
        Ok(Instruction::DefReg {
            id: 2,
            rhs: Box::new(Instruction::Load { id: 1, dtype: DataType::U16 }),
        })
    );
    assert_eq!(
        step_of(vec![
            ty(DataType::U16),
            Token::RectParenOpen,
            Token::RegID(1),
            Token::RectParenClose,
            Token::Equal,
            ty(DataType::U16),
            Token::NumU(9),
        ]),
        Ok(Instruction::Store {
            lhs_dtype: DataType::U16,
            id: 1,
            rhs: Box::new(Instruction::UInt(DataType::U16, 9)),
        })
    );
}

#[test]
fn calls_as_steps_and_as_values() {
    let call = vec![
        Token::Call,
        name("g"),
        Token::ParenOpen,
        ty(DataType::U64),
        Token::RegID(3),
        ty(DataType::I32),
        Token::NumI(-1),
        ty(DataType::Ptr),
        Token::RectParenOpen,
        Token::RegID(4),
        Token::RectParenClose,
        Token::ParenClose,
    ];
    assert_eq!(
        step_of(call),
        Ok(Instruction::Call {
            ret_type: None,
            fn_name: "g".to_string(),
            args: vec![
                Instruction::Reg(DataType::U64, 3),
                Instruction::Int(DataType::I32, -1),
                Instruction::Reg(DataType::Ptr, 4),
            ],
        })
    );
    let value = vec![
        Token::RegID(0),
        Token::Equal,
        ty(DataType::U64),
        Token::Call,
        name("h"),
        Token::ParenOpen,
        ty(DataType::F32),
        Token::NumF(1.0f64.to_bits()),
        Token::ParenClose,
    ];
    assert_eq!(
        step_of(value),
        Ok(Instruction::DefReg {
            id: 0,
            rhs: Box::new(Instruction::Call {
                ret_type: Some(DataType::U64),
                fn_name: "h".to_string(),
                args: vec![Instruction::Float(DataType::F32, 1.0f64.to_bits())],
            }),
        })
    );
    // a register in brackets is an argument of a step only
    let bracket = vec![
        Token::Ret,
        ty(DataType::U64),
        Token::Call,
        name("h"),
        Token::ParenOpen,
        ty(DataType::Ptr),
        Token::RectParenOpen,
        Token::RegID(4),
        Token::RectParenClose,
        Token::ParenClose,
    ];
    assert_eq!(step_of(bracket), Err(CodegenError::MalformedIr));
}

#[test]
fn return_without_value_ends_at_the_line_break() {
    assert_eq!(
        body_of(vec![Token::Ret, Token::LineBreak, Token::Label("end".to_string())]),
        Ok(vec![Instruction::Ret(None), Instruction::Label("end".to_string())])
    );
}

#[test]
fn tokens_that_end_early_end_the_program() {
    let complete = in_function(vec![Token::Ret]);
    let mut tokens = complete.clone();
    tokens.push(Token::LineBreak);
    tokens.extend(vec![Token::Fn, name("g"), Token::ParenOpen, Token::ParenClose, Token::BraceOpen]);
    let program = parse_tokens_into_ir(tokens).unwrap();
    assert_eq!(program, parse_tokens_into_ir(complete).unwrap());
    assert_eq!(program.len(), 1);
    assert_eq!(parse_tokens_into_ir(vec![Token::Fn]), Ok(vec![]));
    assert_eq!(parse_tokens_into_ir(vec![Token::Fn, Token::ParenOpen, Token::ParenClose]), Ok(vec![]));
    assert_eq!(
        parse_tokens_into_ir(in_function(vec![Token::Ret, ty(DataType::U8)])),
        Err(CodegenError::MalformedIr)
    );
    let mut unfinished = in_function(vec![]);
    unfinished.truncate(5);
    unfinished.extend(vec![Token::Ret, ty(DataType::U8)]);
    assert_eq!(parse_tokens_into_ir(unfinished), Ok(vec![]));
}

#[test]
fn tokens_out_of_place_are_malformed() {
    assert_eq!(parse_tokens_into_ir(vec![Token::Ret]), Err(CodegenError::MalformedIr));
    assert_eq!(
        parse_tokens_into_ir(vec![Token::LineBreak, Token::LineBreak]),
        Err(CodegenError::MalformedIr)
    );
    // a comma between the types of the arguments
    let tokens = vec![
        Token::Fn,
        name("f"),
        Token::ParenOpen,
        ty(DataType::U8),
        Token::Comma,
        ty(DataType::U8),
        Token::ParenClose,
    ];
    assert_eq!(parse_tokens_into_ir(tokens), Err(CodegenError::MalformedIr));
    assert_eq!(step_of(vec![Token::Equal]), Err(CodegenError::MalformedIr));
    assert_eq!(step_of(vec![ty(DataType::U8), Token::NumU(1)]), Err(CodegenError::MalformedIr));
    assert_eq!(step_of(vec![Token::Ret, Token::NumU(1)]), Err(CodegenError::MalformedIr));
    assert_eq!(
        step_of(vec![Token::Ret, ty(DataType::U8), Token::Comma]),
        Err(CodegenError::MalformedIr)
    );
    assert_eq!(
        step_of(vec![Token::Call, name("g"), Token::ParenOpen, Token::NumU(1), Token::ParenClose]),
        Err(CodegenError::MalformedIr)
    );
    // an empty line inside a body
    assert_eq!(body_of(vec![Token::LineBreak, Token::Ret]), Err(CodegenError::MalformedIr));
}

#[test]
fn what_is_not_implemented_is_reported_as_such() {
    assert_eq!(
        parse_tokens_into_ir(vec![Token::Extern, name("puts")]),
        Err(CodegenError::Unimplemented)
    );
    for token in [Token::Not, Token::And, Token::Or, Token::Xor] {
        let tokens = vec![
            Token::Ret,
            ty(DataType::U8),
            token,
            ty(DataType::U8),
            Token::NumU(1),
            ty(DataType::U8),
            Token::NumU(2),
        ];
        assert_eq!(step_of(tokens), Err(CodegenError::Unimplemented));
    }
}

#[test]
fn tokens_can_be_asked_what_they_are() {
    assert_eq!(name("f").as_fn_name(), Some(&"f".to_string()));
    assert_eq!(Token::Fn.as_fn_name(), None);
    assert!(Token::LineBreak.is_line_break());
    assert!(!Token::BraceClose.is_line_break());
    assert!(Token::BraceClose.is_brace_close());
    assert!(!Token::BraceOpen.is_brace_close());
    assert_eq!(ty(DataType::F32).as_type_name(), Some(DataType::F32));
    assert_eq!(Token::Alloc.as_type_name(), None);
    assert_eq!(Token::RegID(7).as_reg_id(), Some(&7));
    assert_eq!(Token::ArgID(7).as_reg_id(), None);
}
