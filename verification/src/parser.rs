//! From tokens to the instruction tree.
//!
//! A program is a sequence of functions. A function is the word `fn`, its
//! name, the types of its arguments in parentheses, and its steps in
//! braces, one on each line. Operands are written in prefix form: a type,
//! then a value or an operation with its two operands.
//!
//! Parsing stops without an error where the tokens end inside an item:
//! what was complete until then is the result.
use vstd::prelude::*;
use crate::error::CodegenError;
use crate::ir::{DataType, Instruction, InstructionShape, TopLevel, TopLevelShape};

verus! {

/// One word of the source text.
#[derive(Debug, Clone, PartialEq)]
pub enum Token {
    Fn,
    Extern,
    Call,
    Alloc,
    Ret,
    Add,
    Sub,
    Mul,
    Div,
    Not,
    And,
    Or,
    Xor,
    Equal,
    Comma,
    ParenOpen,
    ParenClose,
    RectParenOpen,
    RectParenClose,
    BraceOpen,
    BraceClose,
    NumU(u64),
    NumI(i64),
    /// A floating-point number, given by the bits of its double-precision
    /// encoding.
    NumF(u64),
    String(Vec<u8>),
    Label(String),
    FnName(String),
    RegID(u64),
    ArgID(u64),
    TypeName(DataType),
    LineBreak,
}

impl Token {
    /// Returns the name, if the token is the name of a function.
    pub fn as_fn_name(&self) -> (name: Option<&String>)
        ensures
            name == match *self {
                Token::FnName(name) => Some(&name),
                _ => None,
            },
    {
        if let Self::FnName(v) = self {
            Some(v)
        } else {
            None
        }
    }

    /// Returns `true` if the token is [`LineBreak`].
    ///
    /// [`LineBreak`]: Token::LineBreak
    #[must_use]
    pub fn is_line_break(&self) -> (line_break: bool)
        ensures
            line_break == (*self is LineBreak),
    {
        matches!(self, Self::LineBreak)
    }

    /// Returns `true` if the token is [`BraceClose`].
    ///
    /// [`BraceClose`]: Token::BraceClose
    #[must_use]
    pub fn is_brace_close(&self) -> (brace_close: bool)
        ensures
            brace_close == (*self is BraceClose),
    {
        matches!(self, Self::BraceClose)
    }

    /// Returns the type, if the token is the name of a type.
    pub fn as_type_name(&self) -> (dtype: Option<DataType>)
        ensures
            dtype == match *self {
                Token::TypeName(dtype) => Some(dtype),
                _ => None,
            },
    {
        if let Self::TypeName(v) = self {
            Some(*v)
        } else {
            None
        }
    }

    /// Returns the ID, if the token is a virtual register.
    pub fn as_reg_id(&self) -> (id: Option<&u64>)
        ensures
            id == match *self {
                Token::RegID(id) => Some(&id),
                _ => None,
            },
    {
        if let Self::RegID(v) = self {
            Some(v)
        } else {
            None
        }
    }
}

/// A token as a mathematical value: the token with its bytes and its
/// names as sequences.
pub enum TokenShape {
    Fn,
    Extern,
    Call,
    Alloc,
    Ret,
    Add,
    Sub,
    Mul,
    Div,
    Not,
    And,
    Or,
    Xor,
    Equal,
    Comma,
    ParenOpen,
    ParenClose,
    RectParenOpen,
    RectParenClose,
    BraceOpen,
    BraceClose,
    NumU(u64),
    NumI(i64),
    NumF(u64),
    String(Seq<u8>),
    Label(Seq<char>),
    FnName(Seq<char>),
    RegID(u64),
    ArgID(u64),
    TypeName(DataType),
    LineBreak,
}

impl Token {
    /// The token as a mathematical value.
    pub open spec fn shape(self) -> TokenShape {
        match self {
            Token::Fn => TokenShape::Fn,
            Token::Extern => TokenShape::Extern,
            Token::Call => TokenShape::Call,
            Token::Alloc => TokenShape::Alloc,
            Token::Ret => TokenShape::Ret,
            Token::Add => TokenShape::Add,
            Token::Sub => TokenShape::Sub,
            Token::Mul => TokenShape::Mul,
            Token::Div => TokenShape::Div,
            Token::Not => TokenShape::Not,
            Token::And => TokenShape::And,
            Token::Or => TokenShape::Or,
            Token::Xor => TokenShape::Xor,
            Token::Equal => TokenShape::Equal,
            Token::Comma => TokenShape::Comma,
            Token::ParenOpen => TokenShape::ParenOpen,
            Token::ParenClose => TokenShape::ParenClose,
            Token::RectParenOpen => TokenShape::RectParenOpen,
            Token::RectParenClose => TokenShape::RectParenClose,
            Token::BraceOpen => TokenShape::BraceOpen,
            Token::BraceClose => TokenShape::BraceClose,
            Token::NumU(value) => TokenShape::NumU(value),
            Token::NumI(value) => TokenShape::NumI(value),
            Token::NumF(bits) => TokenShape::NumF(bits),
            Token::String(bytes) => TokenShape::String(bytes@),
            Token::Label(name) => TokenShape::Label(name@),
            Token::FnName(name) => TokenShape::FnName(name@),
            Token::RegID(id) => TokenShape::RegID(id),
            Token::ArgID(position) => TokenShape::ArgID(position),
            Token::TypeName(dtype) => TokenShape::TypeName(dtype),
            Token::LineBreak => TokenShape::LineBreak,
        }
    }
}

/// Where the tokens from `pos` onwards begin with an item: the item and
/// the position behind it. `Ok(None)` where the tokens end inside the
/// item, an error where they cannot begin one.
pub type Parsed<T> = Result<Option<(T, int)>, CodegenError>;

/// One argument of a call behind its type: a virtual register, a number,
/// or, where `indirect` allows it, a virtual register in square brackets.
pub open spec fn spec_argument(tokens: Seq<Token>, pos: int, dtype: DataType, indirect: bool) -> Parsed<
    InstructionShape,
> {
    if pos < 0 || pos >= tokens.len() {
        Ok(None)
    } else {
        match tokens[pos] {
            Token::RegID(id) => Ok(Some((InstructionShape::Reg(dtype, id), pos + 1))),
            Token::NumU(value) => Ok(Some((InstructionShape::UInt(dtype, value), pos + 1))),
            Token::NumI(value) => Ok(Some((InstructionShape::Int(dtype, value), pos + 1))),
            Token::NumF(bits) => Ok(Some((InstructionShape::Float(dtype, bits), pos + 1))),
            Token::RectParenOpen => if !indirect {
                Err(CodegenError::MalformedIr)
            } else if pos + 2 >= tokens.len() {
                Ok(None)
            } else {
                match tokens[pos + 1] {
                    Token::RegID(id) => Ok(Some((InstructionShape::Reg(dtype, id), pos + 3))),
                    _ => Ok(None),
                }
            },
            _ => Err(CodegenError::MalformedIr),
        }
    }
}

/// The arguments of a call up to the closing parenthesis, behind those
/// in `before`.
pub open spec fn spec_arguments(
    tokens: Seq<Token>,
    pos: int,
    before: Seq<InstructionShape>,
    indirect: bool,
) -> Parsed<Seq<InstructionShape>>
    decreases tokens.len() - pos,
{
    if pos < 0 || pos >= tokens.len() {
        Ok(None)
    } else {
        match tokens[pos] {
            Token::ParenClose => Ok(Some((before, pos + 1))),
            Token::TypeName(dtype) => match spec_argument(tokens, pos + 1, dtype, indirect) {
                Err(error) => Err(error),
                Ok(None) => Ok(None),
                Ok(Some((argument, next))) => if next <= pos || next > tokens.len() {
                    Ok(None)
                } else {
                    spec_arguments(tokens, next, before.push(argument), indirect)
                },
            },
            _ => Err(CodegenError::MalformedIr),
        }
    }
}

/// A call behind the word `call`: the name of the function, an opening
/// parenthesis and the arguments.
pub open spec fn spec_call(
    tokens: Seq<Token>,
    pos: int,
    ret_type: Option<DataType>,
    indirect: bool,
) -> Parsed<InstructionShape> {
    if pos < 0 || pos + 1 >= tokens.len() {
        Ok(None)
    } else {
        match tokens[pos] {
            Token::FnName(fn_name) => match spec_arguments(
                tokens,
                pos + 2,
                Seq::empty(),
                indirect,
            ) {
                Err(error) => Err(error),
                Ok(None) => Ok(None),
                Ok(Some((arguments, next))) => Ok(
                    Some(
                        (
                            InstructionShape::Call { ret_type, fn_name: fn_name@, args: arguments },
                            next,
                        ),
                    ),
                ),
            },
            _ => Ok(None),
        }
    }
}

/// An operand: a type and a value or an operation, or an allocation.
pub open spec fn spec_operand(tokens: Seq<Token>, pos: int) -> Parsed<InstructionShape>
    decreases tokens.len() - pos,
{
    if pos < 0 || pos >= tokens.len() {
        Ok(None)
    } else {
        match tokens[pos] {
            Token::TypeName(dtype) => if pos + 1 >= tokens.len() {
                Ok(None)
            } else {
                match tokens[pos + 1] {
                    Token::Add | Token::Sub | Token::Mul | Token::Div => match spec_operand(
                        tokens,
                        pos + 2,
                    ) {
                        Err(error) => Err(error),
                        Ok(None) => Ok(None),
                        Ok(Some((lhs, middle))) => if middle <= pos || middle > tokens.len() {
                            Ok(None)
                        } else {
                            match spec_operand(tokens, middle) {
                                Err(error) => Err(error),
                                Ok(None) => Ok(None),
                                Ok(Some((rhs, next))) => Ok(
                                    Some((spec_operation(tokens[pos + 1], dtype, lhs, rhs), next)),
                                ),
                            }
                        },
                    },
                    Token::Not | Token::And | Token::Or | Token::Xor => Err(
                        CodegenError::Unimplemented,
                    ),
                    Token::NumU(value) => Ok(Some((InstructionShape::UInt(dtype, value), pos + 2))),
                    Token::NumI(value) => Ok(Some((InstructionShape::Int(dtype, value), pos + 2))),
                    Token::NumF(bits) => Ok(Some((InstructionShape::Float(dtype, bits), pos + 2))),
                    Token::RegID(id) => Ok(Some((InstructionShape::Reg(dtype, id), pos + 2))),
                    Token::ArgID(position) => Ok(Some((InstructionShape::Arg(dtype, position), pos + 2))),
                    Token::RectParenOpen => if pos + 3 >= tokens.len() {
                        Ok(None)
                    } else {
                        match tokens[pos + 2] {
                            Token::RegID(id) => Ok(Some((InstructionShape::Load { id, dtype }, pos + 4))),
                            _ => Ok(None),
                        }
                    },
                    Token::Call => spec_call(tokens, pos + 2, Some(dtype), false),
                    _ => Err(CodegenError::MalformedIr),
                }
            },
            Token::Alloc => if pos + 1 >= tokens.len() {
                Ok(None)
            } else {
                match tokens[pos + 1] {
                    Token::TypeName(dtype) => Ok(Some((InstructionShape::Alloc(dtype), pos + 2))),
                    _ => Ok(None),
                }
            },
            _ => Err(CodegenError::MalformedIr),
        }
    }
}

/// The operation that a token stands for.
pub open spec fn spec_operation(
    sign: Token,
    dtype: DataType,
    lhs: InstructionShape,
    rhs: InstructionShape,
) -> InstructionShape {
    match sign {
        Token::Add => InstructionShape::Add(dtype, Box::new(lhs), Box::new(rhs)),
        Token::Sub => InstructionShape::Sub(dtype, Box::new(lhs), Box::new(rhs)),
        Token::Mul => InstructionShape::Mul(dtype, Box::new(lhs), Box::new(rhs)),
        _ => InstructionShape::Div(dtype, Box::new(lhs), Box::new(rhs)),
    }
}

/// One step of a function body: a call, a return, a definition, a label
/// or a store.
pub open spec fn spec_step(tokens: Seq<Token>, pos: int) -> Parsed<InstructionShape> {
    if pos < 0 || pos >= tokens.len() {
        Ok(None)
    } else {
        match tokens[pos] {
            Token::Call => spec_call(tokens, pos + 1, None, true),
            Token::Ret => if pos + 1 >= tokens.len() {
                Ok(None)
            } else if tokens[pos + 1] is LineBreak {
                Ok(Some((InstructionShape::Ret(None), pos + 1)))
            } else {
                match spec_operand(tokens, pos + 1) {
                    Err(error) => Err(error),
                    Ok(None) => Ok(None),
                    Ok(Some((value, next))) => Ok(
                        Some((InstructionShape::Ret(Some(Box::new(value))), next)),
                    ),
                }
            },
            Token::RegID(id) => if pos + 1 >= tokens.len() {
                Ok(None)
            } else {
                match spec_operand(tokens, pos + 2) {
                    Err(error) => Err(error),
                    Ok(None) => Ok(None),
                    Ok(Some((rhs, next))) => Ok(
                        Some((InstructionShape::DefReg { id, rhs: Box::new(rhs) }, next)),
                    ),
                }
            },
            Token::Label(name) => Ok(Some((InstructionShape::Label(name@), pos + 1))),
            Token::TypeName(dtype) => if pos + 1 >= tokens.len() {
                Ok(None)
            } else if !(tokens[pos + 1] is RectParenOpen) {
                Err(CodegenError::MalformedIr)
            } else if pos + 4 >= tokens.len() {
                Ok(None)
            } else {
                match tokens[pos + 2] {
                    Token::RegID(id) => match spec_operand(tokens, pos + 5) {
                        Err(error) => Err(error),
                        Ok(None) => Ok(None),
                        Ok(Some((rhs, next))) => Ok(
                            Some(
                                (
                                    InstructionShape::Store { lhs_dtype: dtype, id, rhs: Box::new(rhs) },
                                    next,
                                ),
                            ),
                        ),
                    },
                    _ => Ok(None),
                }
            },
            _ => Err(CodegenError::MalformedIr),
        }
    }
}

/// The types of the arguments of a function up to the closing
/// parenthesis, behind those in `before`.
pub open spec fn spec_parameters(tokens: Seq<Token>, pos: int, before: Seq<DataType>) -> Parsed<
    Seq<DataType>,
>
    decreases tokens.len() - pos,
{
    if pos < 0 || pos >= tokens.len() {
        Ok(None)
    } else {
        match tokens[pos] {
            Token::TypeName(dtype) => spec_parameters(tokens, pos + 1, before.push(dtype)),
            Token::ParenClose => Ok(Some((before, pos + 1))),
            _ => Err(CodegenError::MalformedIr),
        }
    }
}

/// The position behind one line break at `pos`, if there is one.
pub open spec fn spec_skip_line_break(tokens: Seq<Token>, pos: int) -> int {
    if 0 <= pos < tokens.len() && tokens[pos] is LineBreak {
        pos + 1
    } else {
        pos
    }
}

/// The steps of a function body up to the closing brace, behind those in
/// `before`. One line break may stand in front of each step and of the
/// closing brace.
pub open spec fn spec_steps(tokens: Seq<Token>, pos: int, before: Seq<InstructionShape>) -> Parsed<
    Seq<InstructionShape>,
>
    decreases tokens.len() - pos,
{
    let at = spec_skip_line_break(tokens, pos);
    if at < 0 || at >= tokens.len() {
        Ok(None)
    } else if tokens[at] is BraceClose {
        Ok(Some((before, at + 1)))
    } else {
        match spec_step(tokens, at) {
            Err(error) => Err(error),
            Ok(None) => Ok(None),
            Ok(Some((step, next))) => if next <= pos || next > tokens.len() {
                Ok(None)
            } else {
                spec_steps(tokens, next, before.push(step))
            },
        }
    }
}

/// An item at the top level: a function. Functions that are defined
/// elsewhere cannot be declared yet.
pub open spec fn spec_top_level(tokens: Seq<Token>, pos: int) -> Parsed<TopLevelShape> {
    if pos < 0 || pos >= tokens.len() {
        Ok(None)
    } else {
        match tokens[pos] {
            Token::Fn => if pos + 2 >= tokens.len() {
                Ok(None)
            } else {
                match tokens[pos + 1] {
                    Token::FnName(name) => match spec_parameters(tokens, pos + 3, Seq::empty()) {
                        Err(error) => Err(error),
                        Ok(None) => Ok(None),
                        Ok(Some((parameters, brace))) => if brace >= tokens.len() {
                            Ok(None)
                        } else {
                            match spec_steps(tokens, brace + 1, Seq::empty()) {
                                Err(error) => Err(error),
                                Ok(None) => Ok(None),
                                Ok(Some((steps, next))) => Ok(
                                    Some(
                                        (
                                            TopLevelShape::Fn {
                                                name: name@,
                                                args: parameters,
                                                body: steps,
                                            },
                                            next,
                                        ),
                                    ),
                                ),
                            }
                        },
                    },
                    _ => Ok(None),
                }
            },
            Token::Extern => Err(CodegenError::Unimplemented),
            _ => Err(CodegenError::MalformedIr),
        }
    }
}

/// The items of a program behind those in `before`. One line break may
/// stand in front of each item. Where the tokens end, inside an item or
/// between two, the items until then are the program.
pub open spec fn spec_program(tokens: Seq<Token>, pos: int, before: Seq<TopLevelShape>) -> Result<
    Seq<TopLevelShape>,
    CodegenError,
>
    decreases tokens.len() - pos,
{
    let at = spec_skip_line_break(tokens, pos);
    match spec_top_level(tokens, at) {
        Err(error) => Err(error),
        Ok(None) => Ok(before),
        Ok(Some((item, next))) => if next <= pos || next > tokens.len() {
            Ok(before)
        } else {
            spec_program(tokens, next, before.push(item))
        },
    }
}


/// Whether what was parsed at `pos` is what the tokens there stand for:
/// the same tree behind the same number of tokens, the same error, or the
/// end of the tokens in both.
pub open spec fn parsed_tree(
    result: Result<Option<(Instruction, usize)>, CodegenError>,
    expected: Parsed<InstructionShape>,
    pos: usize,
    len: nat,
) -> bool {
    match result {
        Ok(Some((instruction, next))) => expected == Ok::<_, CodegenError>(
            Some((instruction.shape(), next as int)),
        ) && pos < next <= len,
        Ok(None) => expected == Ok::<Option<(InstructionShape, int)>, CodegenError>(None),
        Err(error) => expected == Err::<Option<(InstructionShape, int)>, _>(error),
    }
}

/// Whether the trees that were parsed at `pos` are those that the tokens
/// there stand for.
pub open spec fn parsed_trees(
    result: Result<Option<(Vec<Instruction>, usize)>, CodegenError>,
    expected: Parsed<Seq<InstructionShape>>,
    pos: usize,
    len: nat,
) -> bool {
    match result {
        Ok(Some((instructions, next))) => expected == Ok::<_, CodegenError>(
            Some((Instruction::shapes(instructions@), next as int)),
        ) && pos < next <= len,
        Ok(None) => expected == Ok::<Option<(Seq<InstructionShape>, int)>, CodegenError>(None),
        Err(error) => expected == Err::<Option<(Seq<InstructionShape>, int)>, _>(error),
    }
}

fn parse_argument(tokens: &Vec<Token>, pos: usize, dtype: DataType, indirect: bool) -> (result:
    Result<Option<(Instruction, usize)>, CodegenError>)
    ensures
        parsed_tree(
            result,
            spec_argument(tokens@, pos as int, dtype, indirect),
            pos,
            tokens@.len(),
        ),
{
    if pos >= tokens.len() {
        return Ok(None);
    }
    match &tokens[pos] {
        Token::RegID(id) => Ok(Some((Instruction::Reg(dtype, *id), pos + 1))),
        Token::NumU(value) => Ok(Some((Instruction::UInt(dtype, *value), pos + 1))),
        Token::NumI(value) => Ok(Some((Instruction::Int(dtype, *value), pos + 1))),
        Token::NumF(bits) => Ok(Some((Instruction::Float(dtype, *bits), pos + 1))),
        Token::RectParenOpen => {
            if !indirect {
                Err(CodegenError::MalformedIr)
            } else if tokens.len() - pos <= 2 {
                Ok(None)
            } else {
                match tokens[pos + 1].as_reg_id() {
                    Some(id) => Ok(Some((Instruction::Reg(dtype, *id), pos + 3))),
                    None => Ok(None),
                }
            }
        },
        _ => Err(CodegenError::MalformedIr),
    }
}

fn parse_arguments(tokens: &Vec<Token>, pos: usize, indirect: bool) -> (result: Result<
    Option<(Vec<Instruction>, usize)>,
    CodegenError,
>)
    ensures
        parsed_trees(
            result,
            spec_arguments(tokens@, pos as int, Seq::empty(), indirect),
            pos,
            tokens@.len(),
        ),
{
    let mut args: Vec<Instruction> = Vec::new();
    let mut at: usize = pos;
    assert(Instruction::shapes(args@) =~= Seq::empty());
    loop
        invariant
            pos <= at,
            spec_arguments(tokens@, pos as int, Seq::empty(), indirect) == spec_arguments(
                tokens@,
                at as int,
                Instruction::shapes(args@),
                indirect,
            ),
        decreases tokens@.len() - at,
    {
        if at >= tokens.len() {
            return Ok(None);
        }
        match &tokens[at] {
            Token::ParenClose => {
                return Ok(Some((args, at + 1)));
            },
            Token::TypeName(dtype) => match parse_argument(tokens, at + 1, *dtype, indirect) {
                Err(error) => {
                    return Err(error);
                },
                Ok(None) => {
                    return Ok(None);
                },
                Ok(Some((argument, next))) => {
                    let ghost before = Instruction::shapes(args@);
                    args.push(argument);
                    assert(Instruction::shapes(args@) =~= before.push(argument.shape()));
                    at = next;
                },
            },
            _ => {
                return Err(CodegenError::MalformedIr);
            },
        }
    }
}

fn parse_call(tokens: &Vec<Token>, pos: usize, ret_type: Option<DataType>, indirect: bool) -> (result:
    Result<Option<(Instruction, usize)>, CodegenError>)
    requires
        pos > 0,
    ensures
        parsed_tree(
            result,
            spec_call(tokens@, pos as int, ret_type, indirect),
            (pos - 1) as usize,
            tokens@.len(),
        ),
{
    if pos >= tokens.len() || tokens.len() - pos <= 1 {
        return Ok(None);
    }
    let fn_name = match tokens[pos].as_fn_name() {
        Some(name) => name.clone(),
        None => {
            return Ok(None);
        },
    };
    match parse_arguments(tokens, pos + 2, indirect) {
        Err(error) => Err(error),
        Ok(None) => Ok(None),
        Ok(Some((args, next))) => {
            let call = Instruction::Call { ret_type, fn_name, args };
            assert(call.shape()->Call_args =~= Instruction::shapes(args@));
            Ok(Some((call, next)))
        },
    }
}

fn operation(sign: &Token, dtype: DataType, lhs: Instruction, rhs: Instruction) -> (instruction:
    Instruction)
    ensures
        instruction.shape() == spec_operation(*sign, dtype, lhs.shape(), rhs.shape()),
{
    match sign {
        Token::Add => Instruction::Add(dtype, Box::new(lhs), Box::new(rhs)),
        Token::Sub => Instruction::Sub(dtype, Box::new(lhs), Box::new(rhs)),
        Token::Mul => Instruction::Mul(dtype, Box::new(lhs), Box::new(rhs)),
        _ => Instruction::Div(dtype, Box::new(lhs), Box::new(rhs)),
    }
}

fn parse_operand(tokens: &Vec<Token>, pos: usize) -> (result: Result<
    Option<(Instruction, usize)>,
    CodegenError,
>)
    ensures
        parsed_tree(result, spec_operand(tokens@, pos as int), pos, tokens@.len()),
    decreases tokens@.len() - pos,
{
    if pos >= tokens.len() {
        return Ok(None);
    }
    match &tokens[pos] {
        Token::TypeName(dtype) => {
            if tokens.len() - pos <= 1 {
                return Ok(None);
            }
            match &tokens[pos + 1] {
                Token::Add | Token::Sub | Token::Mul | Token::Div => {
                    let (lhs, middle) = match parse_operand(tokens, pos + 2) {
                        Err(error) => {
                            return Err(error);
                        },
                        Ok(None) => {
                            return Ok(None);
                        },
                        Ok(Some(parsed)) => parsed,
                    };
                    match parse_operand(tokens, middle) {
                        Err(error) => Err(error),
                        Ok(None) => Ok(None),
                        Ok(Some((rhs, next))) => Ok(
                            Some((operation(&tokens[pos + 1], *dtype, lhs, rhs), next)),
                        ),
                    }
                },
                Token::Not | Token::And | Token::Or | Token::Xor => Err(
                    CodegenError::Unimplemented,
                ),
                Token::NumU(value) => Ok(Some((Instruction::UInt(*dtype, *value), pos + 2))),
                Token::NumI(value) => Ok(Some((Instruction::Int(*dtype, *value), pos + 2))),
                Token::NumF(bits) => Ok(Some((Instruction::Float(*dtype, *bits), pos + 2))),
                Token::RegID(id) => Ok(Some((Instruction::Reg(*dtype, *id), pos + 2))),
                Token::ArgID(position) => Ok(Some((Instruction::Arg(*dtype, *position), pos + 2))),
                Token::RectParenOpen => {
                    if tokens.len() - pos <= 3 {
                        Ok(None)
                    } else {
                        match tokens[pos + 2].as_reg_id() {
                            Some(id) => Ok(
                                Some((Instruction::Load { id: *id, dtype: *dtype }, pos + 4)),
                            ),
                            None => Ok(None),
                        }
                    }
                },
                Token::Call => match parse_call(tokens, pos + 2, Some(*dtype), false) {
                    Err(error) => Err(error),
                    Ok(None) => Ok(None),
                    Ok(Some(parsed)) => Ok(Some(parsed)),
                },
                _ => Err(CodegenError::MalformedIr),
            }
        },
        Token::Alloc => {
            if tokens.len() - pos <= 1 {
                Ok(None)
            } else {
                match tokens[pos + 1].as_type_name() {
                    Some(dtype) => Ok(Some((Instruction::Alloc(dtype), pos + 2))),
                    None => Ok(None),
                }
            }
        },
        _ => Err(CodegenError::MalformedIr),
    }
}

fn parse_fn_body(tokens: &Vec<Token>, pos: usize) -> (result: Result<
    Option<(Instruction, usize)>,
    CodegenError,
>)
    ensures
        parsed_tree(result, spec_step(tokens@, pos as int), pos, tokens@.len()),
{
    if pos >= tokens.len() {
        return Ok(None);
    }
    match &tokens[pos] {
        Token::Call => parse_call(tokens, pos + 1, None, true),
        Token::Ret => {
            if tokens.len() - pos <= 1 {
                Ok(None)
            } else if tokens[pos + 1].is_line_break() {
                Ok(Some((Instruction::Ret(None), pos + 1)))
            } else {
                match parse_operand(tokens, pos + 1) {
                    Err(error) => Err(error),
                    Ok(None) => Ok(None),
                    Ok(Some((value, next))) => Ok(
                        Some((Instruction::Ret(Some(Box::new(value))), next)),
                    ),
                }
            }
        },
        Token::RegID(id) => {
            if tokens.len() - pos <= 1 {
                Ok(None)
            } else {
                match parse_operand(tokens, pos + 2) {
                    Err(error) => Err(error),
                    Ok(None) => Ok(None),
                    Ok(Some((rhs, next))) => Ok(
                        Some((Instruction::DefReg { id: *id, rhs: Box::new(rhs) }, next)),
                    ),
                }
            }
        },
        Token::Label(name) => Ok(Some((Instruction::Label(name.clone()), pos + 1))),
        Token::TypeName(dtype) => {
            if tokens.len() - pos <= 1 {
                return Ok(None);
            }
            match &tokens[pos + 1] {
                Token::RectParenOpen => {},
                _ => {
                    return Err(CodegenError::MalformedIr);
                },
            }
            if tokens.len() - pos <= 4 {
                return Ok(None);
            }
            let id: u64 = match tokens[pos + 2].as_reg_id() {
                Some(id) => *id,
                None => {
                    return Ok(None);
                },
            };
            match parse_operand(tokens, pos + 5) {
                Err(error) => Err(error),
                Ok(None) => Ok(None),
                Ok(Some((rhs, next))) => Ok(
                    Some(
                        (Instruction::Store { lhs_dtype: *dtype, id, rhs: Box::new(rhs) }, next),
                    ),
                ),
            }
        },
        _ => Err(CodegenError::MalformedIr),
    }
}

fn parse_parameters(tokens: &Vec<Token>, pos: usize) -> (result: Result<
    Option<(Vec<DataType>, usize)>,
    CodegenError,
>)
    ensures
        match result {
            Ok(Some((parameters, next))) => spec_parameters(tokens@, pos as int, Seq::empty())
                == Ok::<_, CodegenError>(Some((parameters@, next as int))) && pos < next
                <= tokens@.len(),
            Ok(None) => spec_parameters(tokens@, pos as int, Seq::empty()) == Ok::<
                Option<(Seq<DataType>, int)>,
                CodegenError,
            >(None),
            Err(error) => spec_parameters(tokens@, pos as int, Seq::empty()) == Err::<
                Option<(Seq<DataType>, int)>,
                _,
            >(error),
        },
{
    let mut parameters: Vec<DataType> = Vec::new();
    let mut at: usize = pos;
    loop
        invariant
            pos <= at,
            spec_parameters(tokens@, pos as int, Seq::empty()) == spec_parameters(
                tokens@,
                at as int,
                parameters@,
            ),
        decreases tokens@.len() - at,
    {
        if at >= tokens.len() {
            return Ok(None);
        }
        match &tokens[at] {
            Token::TypeName(dtype) => {
                parameters.push(*dtype);
                at += 1;
            },
            Token::ParenClose => {
                return Ok(Some((parameters, at + 1)));
            },
            _ => {
                return Err(CodegenError::MalformedIr);
            },
        }
    }
}

fn skip_line_break(tokens: &Vec<Token>, pos: usize) -> (at: usize)
    ensures
        at == spec_skip_line_break(tokens@, pos as int),
        pos <= at,
{
    if pos < tokens.len() && tokens[pos].is_line_break() {
        pos + 1
    } else {
        pos
    }
}

fn parse_steps(tokens: &Vec<Token>, pos: usize) -> (result: Result<
    Option<(Vec<Instruction>, usize)>,
    CodegenError,
>)
    ensures
        parsed_trees(result, spec_steps(tokens@, pos as int, Seq::empty()), pos, tokens@.len()),
{
    let mut body: Vec<Instruction> = Vec::new();
    let mut at: usize = pos;
    assert(Instruction::shapes(body@) =~= Seq::empty());
    loop
        invariant
            pos <= at,
            spec_steps(tokens@, pos as int, Seq::empty()) == spec_steps(
                tokens@,
                at as int,
                Instruction::shapes(body@),
            ),
        decreases tokens@.len() - at,
    {
        let start: usize = skip_line_break(tokens, at);
        if start >= tokens.len() {
            return Ok(None);
        }
        if tokens[start].is_brace_close() {
            return Ok(Some((body, start + 1)));
        }
        match parse_fn_body(tokens, start) {
            Err(error) => {
                return Err(error);
            },
            Ok(None) => {
                return Ok(None);
            },
            Ok(Some((step, next))) => {
                let ghost before = Instruction::shapes(body@);
                body.push(step);
                assert(Instruction::shapes(body@) =~= before.push(step.shape()));
                at = next;
            },
        }
    }
}

fn parse_top_level(tokens: &Vec<Token>, pos: usize) -> (result: Result<
    Option<(TopLevel, usize)>,
    CodegenError,
>)
    ensures
        match result {
            Ok(Some((item, next))) => spec_top_level(tokens@, pos as int) == Ok::<_, CodegenError>(
                Some((item.shape(), next as int)),
            ) && pos < next <= tokens@.len(),
            Ok(None) => spec_top_level(tokens@, pos as int) == Ok::<
                Option<(TopLevelShape, int)>,
                CodegenError,
            >(None),
            Err(error) => spec_top_level(tokens@, pos as int) == Err::<
                Option<(TopLevelShape, int)>,
                _,
            >(error),
        },
{
    if pos >= tokens.len() {
        return Ok(None);
    }
    match &tokens[pos] {
        Token::Fn => {
            if tokens.len() - pos <= 2 {
                return Ok(None);
            }
            let name = match tokens[pos + 1].as_fn_name() {
                Some(name) => name.clone(),
                None => {
                    return Ok(None);
                },
            };
            let (args, brace) = match parse_parameters(tokens, pos + 3) {
                Err(error) => {
                    return Err(error);
                },
                Ok(None) => {
                    return Ok(None);
                },
                Ok(Some(parsed)) => parsed,
            };
            if brace >= tokens.len() {
                return Ok(None);
            }
            match parse_steps(tokens, brace + 1) {
                Err(error) => Err(error),
                Ok(None) => Ok(None),
                Ok(Some((body, next))) => Ok(Some((TopLevel::Fn { name, args, body }, next))),
            }
        },
        Token::Extern => Err(CodegenError::Unimplemented),
        _ => Err(CodegenError::MalformedIr),
    }
}

/// Parses the items of a program.
///
/// A token that cannot stand where it stands is malformed; the
/// declaration of a function that is defined elsewhere and the bitwise
/// operations are not implemented. Where the tokens end inside an item,
/// the items in front of it are the program.
pub fn parse_tokens_into_ir(tokens: Vec<Token>) -> (result: Result<Vec<TopLevel>, CodegenError>)
    ensures
        match result {
            Ok(program) => spec_program(tokens@, 0, Seq::empty()) == Ok::<_, CodegenError>(
                TopLevel::shapes(program@),
            ),
            Err(error) => spec_program(tokens@, 0, Seq::empty()) == Err::<Seq<TopLevelShape>, _>(
                error,
            ),
        },
{
    let mut ir: Vec<TopLevel> = Vec::new();
    let mut at: usize = 0;
    assert(TopLevel::shapes(ir@) =~= Seq::empty());
    loop
        invariant
            spec_program(tokens@, 0, Seq::empty()) == spec_program(
                tokens@,
                at as int,
                TopLevel::shapes(ir@),
            ),
        decreases tokens@.len() - at,
    {
        let start: usize = skip_line_break(&tokens, at);
        match parse_top_level(&tokens, start) {
            Err(error) => {
                return Err(error);
            },
            Ok(None) => {
                return Ok(ir);
            },
            Ok(Some((item, next))) => {
                let ghost before = TopLevel::shapes(ir@);
                ir.push(item);
                assert(TopLevel::shapes(ir@) =~= before.push(item.shape()));
                at = next;
            },
        }
    }
}


/// The arguments of a call end behind their beginning and inside the
/// tokens.
pub proof fn lemma_arguments_advance(
    tokens: Seq<Token>,
    pos: int,
    before: Seq<InstructionShape>,
    indirect: bool,
)
    requires
        0 <= pos,
    ensures
        spec_arguments(tokens, pos, before, indirect) matches Ok(Some((_, next))) ==> pos < next
            <= tokens.len(),
    decreases tokens.len() - pos,
{
    if pos < tokens.len() {
        match tokens[pos] {
            Token::TypeName(dtype) => match spec_argument(tokens, pos + 1, dtype, indirect) {
                Ok(Some((argument, next))) => {
                    if pos < next <= tokens.len() {
                        lemma_arguments_advance(tokens, next, before.push(argument), indirect);
                    }
                },
                _ => {},
            },
            _ => {},
        }
    }
}

/// Every operand takes at least one token and none behind the end of
/// the tokens: parsing never stands still.
pub proof fn lemma_operand_advances(tokens: Seq<Token>, pos: int)
    requires
        0 <= pos,
    ensures
        spec_operand(tokens, pos) matches Ok(Some((_, next))) ==> pos < next <= tokens.len(),
    decreases tokens.len() - pos,
{
    if pos + 1 < tokens.len() {
        match tokens[pos] {
            Token::TypeName(dtype) => match tokens[pos + 1] {
                Token::Add | Token::Sub | Token::Mul | Token::Div => {
                    lemma_operand_advances(tokens, pos + 2);
                    match spec_operand(tokens, pos + 2) {
                        Ok(Some((_, middle))) => {
                            lemma_operand_advances(tokens, middle);
                        },
                        _ => {},
                    }
                },
                Token::Call => {
                    lemma_arguments_advance(tokens, pos + 4, Seq::empty(), false);
                },
                _ => {},
            },
            _ => {},
        }
    }
}

/// Every step takes at least one token and none behind the end of the
/// tokens.
pub proof fn lemma_step_advances(tokens: Seq<Token>, pos: int)
    requires
        0 <= pos,
    ensures
        spec_step(tokens, pos) matches Ok(Some((_, next))) ==> pos < next <= tokens.len(),
{
    lemma_arguments_advance(tokens, pos + 3, Seq::empty(), true);
    lemma_operand_advances(tokens, pos + 1);
    lemma_operand_advances(tokens, pos + 2);
    lemma_operand_advances(tokens, pos + 5);
}

} // verus!
