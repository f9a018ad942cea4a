//! From the bytes of the source text to tokens.
//!
//! Words are keywords and type names. A sign stands for itself. `$`
//! begins a number, `%` a virtual register, `#` an argument, `:` a label,
//! `@` the name of a function, `"` a string of bytes and `\` a comment up
//! to the end of the line. A line break is a token; where line breaks
//! follow each other directly only the last one is.
//!
//! The text of a number with a fraction is handed on as it stands: who
//! calls knows how floating-point numbers are read.
use vstd::prelude::*;
use vstd::string::StringExecFns;
use crate::error::CodegenError;
use crate::ir::DataType;
use crate::parser::{Token, TokenShape};

verus! {

/// What the source text is made of: a token, or the text of a
/// floating-point number.
#[derive(Debug, Clone, PartialEq)]
pub enum Lexeme {
    Token(Token),
    Float(Vec<u8>),
}

/// A lexeme as a mathematical value.
pub enum LexemeShape {
    Token(TokenShape),
    Float(Seq<u8>),
}

impl Lexeme {
    /// The lexeme as a mathematical value.
    pub open spec fn shape(self) -> LexemeShape {
        match self {
            Lexeme::Token(token) => LexemeShape::Token(token.shape()),
            Lexeme::Float(text) => LexemeShape::Float(text@),
        }
    }

    /// The shapes of a sequence of lexemes.
    pub open spec fn shapes(lexemes: Seq<Lexeme>) -> Seq<LexemeShape> {
        Seq::new(lexemes.len(), |i: int| lexemes[i].shape())
    }
}

/// The kinds of bytes that runs are made of.
#[derive(Debug, Clone, Copy, PartialEq, Eq, Structural)]
pub enum ByteClass {
    /// A decimal digit.
    Digit,
    /// A letter or a decimal digit.
    Alphanumeric,
    /// A letter, a decimal digit, an underscore or a full stop.
    Name,
    /// A letter, a decimal digit, a minus sign or a full stop.
    Number,
    /// Anything but a line feed.
    Comment,
}

/// Whether the byte is an ASCII letter.
pub open spec fn spec_is_letter(byte: u8) -> bool {
    (0x41 <= byte <= 0x5a) || (0x61 <= byte <= 0x7a)
}

/// Whether the byte is an ASCII decimal digit.
pub open spec fn spec_is_digit(byte: u8) -> bool {
    0x30 <= byte <= 0x39
}

impl ByteClass {
    /// Whether the byte belongs to the class.
    pub open spec fn spec_holds(self, byte: u8) -> bool {
        match self {
            ByteClass::Digit => spec_is_digit(byte),
            ByteClass::Alphanumeric => spec_is_letter(byte) || spec_is_digit(byte),
            ByteClass::Name => spec_is_letter(byte) || spec_is_digit(byte) || byte == 0x5f || byte
                == 0x2e,
            ByteClass::Number => spec_is_letter(byte) || spec_is_digit(byte) || byte == 0x2d || byte
                == 0x2e,
            ByteClass::Comment => byte != 0x0a,
        }
    }

    /// Whether the byte belongs to the class.
    pub fn holds(self, byte: u8) -> (holds: bool)
        ensures
            holds == self.spec_holds(byte),
    {
        let letter = (0x41 <= byte && byte <= 0x5a) || (0x61 <= byte && byte <= 0x7a);
        let digit = 0x30 <= byte && byte <= 0x39;
        match self {
            ByteClass::Digit => digit,
            ByteClass::Alphanumeric => letter || digit,
            ByteClass::Name => letter || digit || byte == 0x5f || byte == 0x2e,
            ByteClass::Number => letter || digit || byte == 0x2d || byte == 0x2e,
            ByteClass::Comment => byte != 0x0a,
        }
    }
}

/// The end of the run of bytes of the class that begins at `pos`.
pub open spec fn spec_run_end(source: Seq<u8>, pos: int, class: ByteClass) -> int
    decreases source.len() - pos,
{
    if pos < 0 || pos >= source.len() || !class.spec_holds(source[pos]) {
        pos
    } else {
        spec_run_end(source, pos + 1, class)
    }
}

/// Whether the byte is white space on its own: tab, line feed, vertical
/// tab, form feed, carriage return or space.
pub open spec fn spec_is_space(byte: u8) -> bool {
    (0x09 <= byte <= 0x0d) || byte == 0x20
}

/// Whether two bytes are the next-line character or the no-break space.
pub open spec fn spec_is_space_of_two(first: u8, second: u8) -> bool {
    first == 0xc2 && (second == 0x85 || second == 0xa0)
}

/// Whether three bytes are the Ogham space mark, a space of fixed width,
/// the line or the paragraph separator, the narrow no-break space, the
/// mathematical space or the ideographic space.
pub open spec fn spec_is_space_of_three(first: u8, second: u8, third: u8) -> bool {
    ||| first == 0xe1 && second == 0x9a && third == 0x80
    ||| first == 0xe2 && second == 0x80 && 0x80 <= third <= 0x8a
    ||| first == 0xe2 && second == 0x80 && (third == 0xa8 || third == 0xa9 || third == 0xaf)
    ||| first == 0xe2 && second == 0x81 && third == 0x9f
    ||| first == 0xe3 && second == 0x80 && third == 0x80
}

/// Number of bytes of the white space character that begins at `pos`,
/// and 0 where none begins there. White space is every character that
/// Unicode calls so.
pub open spec fn spec_white_space(source: Seq<u8>, pos: int) -> int {
    if pos < 0 || pos >= source.len() {
        0
    } else if spec_is_space(source[pos]) {
        1
    } else if pos + 1 < source.len() && spec_is_space_of_two(source[pos], source[pos + 1]) {
        2
    } else if pos + 2 < source.len() && spec_is_space_of_three(
        source[pos],
        source[pos + 1],
        source[pos + 2],
    ) {
        3
    } else {
        0
    }
}

/// The text of one byte that may stand in a name.
pub open spec fn spec_name_text(byte: u8) -> Seq<char> {
    if byte == 97 {
        "a"@
    } else if byte == 98 {
        "b"@
    } else if byte == 99 {
        "c"@
    } else if byte == 100 {
        "d"@
    } else if byte == 101 {
        "e"@
    } else if byte == 102 {
        "f"@
    } else if byte == 103 {
        "g"@
    } else if byte == 104 {
        "h"@
    } else if byte == 105 {
        "i"@
    } else if byte == 106 {
        "j"@
    } else if byte == 107 {
        "k"@
    } else if byte == 108 {
        "l"@
    } else if byte == 109 {
        "m"@
    } else if byte == 110 {
        "n"@
    } else if byte == 111 {
        "o"@
    } else if byte == 112 {
        "p"@
    } else if byte == 113 {
        "q"@
    } else if byte == 114 {
        "r"@
    } else if byte == 115 {
        "s"@
    } else if byte == 116 {
        "t"@
    } else if byte == 117 {
        "u"@
    } else if byte == 118 {
        "v"@
    } else if byte == 119 {
        "w"@
    } else if byte == 120 {
        "x"@
    } else if byte == 121 {
        "y"@
    } else if byte == 122 {
        "z"@
    } else if byte == 65 {
        "A"@
    } else if byte == 66 {
        "B"@
    } else if byte == 67 {
        "C"@
    } else if byte == 68 {
        "D"@
    } else if byte == 69 {
        "E"@
    } else if byte == 70 {
        "F"@
    } else if byte == 71 {
        "G"@
    } else if byte == 72 {
        "H"@
    } else if byte == 73 {
        "I"@
    } else if byte == 74 {
        "J"@
    } else if byte == 75 {
        "K"@
    } else if byte == 76 {
        "L"@
    } else if byte == 77 {
        "M"@
    } else if byte == 78 {
        "N"@
    } else if byte == 79 {
        "O"@
    } else if byte == 80 {
        "P"@
    } else if byte == 81 {
        "Q"@
    } else if byte == 82 {
        "R"@
    } else if byte == 83 {
        "S"@
    } else if byte == 84 {
        "T"@
    } else if byte == 85 {
        "U"@
    } else if byte == 86 {
        "V"@
    } else if byte == 87 {
        "W"@
    } else if byte == 88 {
        "X"@
    } else if byte == 89 {
        "Y"@
    } else if byte == 90 {
        "Z"@
    } else if byte == 48 {
        "0"@
    } else if byte == 49 {
        "1"@
    } else if byte == 50 {
        "2"@
    } else if byte == 51 {
        "3"@
    } else if byte == 52 {
        "4"@
    } else if byte == 53 {
        "5"@
    } else if byte == 54 {
        "6"@
    } else if byte == 55 {
        "7"@
    } else if byte == 56 {
        "8"@
    } else if byte == 57 {
        "9"@
    } else if byte == 95 {
        "_"@
    } else if byte == 46 {
        "."@
    } else {
        ""@
    }
}

/// The text that bytes of names stand for.
pub open spec fn spec_text(bytes: Seq<u8>, count: int) -> Seq<char>
    decreases count,
{
    if count <= 0 {
        Seq::empty()
    } else {
        spec_text(bytes, count - 1) + spec_name_text(bytes[count - 1])
    }
}

/// The keyword or type name that a word is, if it is one.
pub open spec fn spec_keyword(word: Seq<char>) -> Option<TokenShape> {
    if word == "fn"@ {
        Some(TokenShape::Fn)
    } else if word == "extern"@ {
        Some(TokenShape::Extern)
    } else if word == "call"@ {
        Some(TokenShape::Call)
    } else if word == "alloc"@ {
        Some(TokenShape::Alloc)
    } else if word == "ret"@ {
        Some(TokenShape::Ret)
    } else if word == "u64"@ {
        Some(TokenShape::TypeName(DataType::U64))
    } else if word == "u32"@ {
        Some(TokenShape::TypeName(DataType::U32))
    } else if word == "u16"@ {
        Some(TokenShape::TypeName(DataType::U16))
    } else if word == "u8"@ {
        Some(TokenShape::TypeName(DataType::U8))
    } else if word == "usize"@ {
        Some(TokenShape::TypeName(DataType::USize))
    } else if word == "i64"@ {
        Some(TokenShape::TypeName(DataType::I64))
    } else if word == "i32"@ {
        Some(TokenShape::TypeName(DataType::I32))
    } else if word == "i16"@ {
        Some(TokenShape::TypeName(DataType::I16))
    } else if word == "i8"@ {
        Some(TokenShape::TypeName(DataType::I8))
    } else if word == "isize"@ {
        Some(TokenShape::TypeName(DataType::ISize))
    } else if word == "f64"@ {
        Some(TokenShape::TypeName(DataType::F64))
    } else if word == "f32"@ {
        Some(TokenShape::TypeName(DataType::F32))
    } else if word == "ptr"@ {
        Some(TokenShape::TypeName(DataType::Ptr))
    } else {
        None
    }
}

/// The value of a digit in a number to the given base.
pub open spec fn spec_digit_value(byte: u8, base: int) -> Option<int> {
    let value = if spec_is_digit(byte) {
        byte - 0x30
    } else if 0x41 <= byte <= 0x46 {
        byte - 0x41 + 10
    } else if 0x61 <= byte <= 0x66 {
        byte - 0x61 + 10
    } else {
        16
    };
    if value < base {
        Some(value)
    } else {
        None
    }
}

/// The value of the first `count` digits of a number to the given base,
/// or `None` where one of them is no digit to that base.
pub open spec fn spec_digits_value(digits: Seq<u8>, base: int, count: int) -> Option<int>
    decreases count,
{
    if count <= 0 {
        Some(0)
    } else {
        match (
            spec_digits_value(digits, base, count - 1),
            spec_digit_value(digits[count - 1], base),
        ) {
            (Some(front), Some(last)) => Some(front * base + last),
            _ => None,
        }
    }
}

/// The number that digits to the given base stand for, where it fits
/// 64 bits.
pub open spec fn spec_unsigned(digits: Seq<u8>, base: int) -> Option<u64> {
    match spec_digits_value(digits, base, digits.len() as int) {
        Some(value) => if value <= u64::MAX {
            Some(value as u64)
        } else {
            None
        },
        None => None,
    }
}

/// The lexeme that the text of a number stands for.
///
/// `0x`, `0o` and `0b` begin a number to the base 16, 8 and 2, and `0d` a
/// decimal number. A minus sign begins a negative decimal number. A
/// number with a full stop is a floating-point number. Everything else
/// is a decimal number.
pub open spec fn spec_number(text: Seq<u8>) -> Result<LexemeShape, CodegenError> {
    if text.len() == 0 {
        Err(CodegenError::MalformedIr)
    } else if text[0] == 0x30 && text.len() == 1 {
        Ok(LexemeShape::Token(TokenShape::NumU(0)))
    } else if text[0] == 0x30 && (text[1] == 0x78 || text[1] == 0x6f || text[1] == 0x62) {
        match spec_unsigned(
            text.skip(2),
            if text[1] == 0x78 {
                16
            } else if text[1] == 0x6f {
                8
            } else {
                2
            },
        ) {
            Some(value) => Ok(LexemeShape::Token(TokenShape::NumU(value))),
            None => Err(CodegenError::MalformedIr),
        }
    } else if text[0] == 0x30 && text[1] == 0x64 {
        match spec_unsigned(text.skip(2), 10) {
            Some(value) => if text.len() > 2 {
                Ok(LexemeShape::Token(TokenShape::NumU(value)))
            } else {
                Err(CodegenError::MalformedIr)
            },
            None => Err(CodegenError::MalformedIr),
        }
    } else if text[0] == 0x2d {
        match spec_digits_value(text.skip(1), 10, text.len() - 1) {
            Some(value) => if text.len() > 1 && value <= 0x8000_0000_0000_0000 {
                Ok(LexemeShape::Token(TokenShape::NumI((-value) as i64)))
            } else {
                Err(CodegenError::MalformedIr)
            },
            None => Err(CodegenError::MalformedIr),
        }
    } else if text.contains(0x2e) {
        Ok(LexemeShape::Float(text))
    } else {
        match spec_unsigned(text, 10) {
            Some(value) => Ok(LexemeShape::Token(TokenShape::NumU(value))),
            None => Err(CodegenError::MalformedIr),
        }
    }
}

/// The byte that an escape sequence behind the backslash stands for, and
/// the position behind the sequence.
///
/// `x` is followed by two hexadecimal digits, `o` by three octal digits,
/// `d` by three decimal digits and `b` by eight binary digits; `n` is a
/// line feed, `t` a tab, and a backslash and the two quotation marks
/// stand for themselves.
pub open spec fn spec_escape(source: Seq<u8>, pos: int) -> Result<(u8, int), CodegenError> {
    if pos < 0 || pos >= source.len() {
        Err(CodegenError::MalformedIr)
    } else if source[pos] == 0x6e {
        Ok((0x0au8, pos + 1))
    } else if source[pos] == 0x74 {
        Ok((0x09u8, pos + 1))
    } else if source[pos] == 0x5c || source[pos] == 0x22 || source[pos] == 0x27 {
        Ok((source[pos], pos + 1))
    } else if source[pos] == 0x78 || source[pos] == 0x6f || source[pos] == 0x64 || source[pos]
        == 0x62 {
        let base: int = if source[pos] == 0x78 {
            16
        } else if source[pos] == 0x6f {
            8
        } else if source[pos] == 0x64 {
            10
        } else {
            2
        };
        let count: int = if source[pos] == 0x78 {
            2
        } else if source[pos] == 0x62 {
            8
        } else {
            3
        };
        if pos + count >= source.len() {
            Err(CodegenError::MalformedIr)
        } else {
            match spec_digits_value(source.subrange(pos + 1, pos + 1 + count), base, count) {
                Some(value) => if value <= 255 {
                    Ok((value as u8, pos + 1 + count))
                } else {
                    Err(CodegenError::MalformedIr)
                },
                None => Err(CodegenError::MalformedIr),
            }
        }
    } else {
        Err(CodegenError::MalformedIr)
    }
}

/// The bytes of a string up to the closing quotation mark, behind those
/// in `before`, and the position behind the quotation mark.
pub open spec fn spec_string(source: Seq<u8>, pos: int, before: Seq<u8>) -> Result<
    (Seq<u8>, int),
    CodegenError,
>
    decreases source.len() - pos,
{
    if pos < 0 || pos >= source.len() {
        Err(CodegenError::MalformedIr)
    } else if source[pos] == 0x22 {
        Ok((before, pos + 1))
    } else if source[pos] == 0x5c {
        match spec_escape(source, pos + 1) {
            Err(error) => Err(error),
            Ok((byte, next)) => if next <= pos || next > source.len() {
                Err(CodegenError::MalformedIr)
            } else {
                spec_string(source, next, before.push(byte))
            },
        }
    } else {
        spec_string(source, pos + 1, before.push(source[pos]))
    }
}

/// The token that a sign stands for.
pub open spec fn spec_sign(byte: u8) -> Option<TokenShape> {
    if byte == 0x3d {
        Some(TokenShape::Equal)
    } else if byte == 0x2c {
        Some(TokenShape::Comma)
    } else if byte == 0x28 {
        Some(TokenShape::ParenOpen)
    } else if byte == 0x29 {
        Some(TokenShape::ParenClose)
    } else if byte == 0x5b {
        Some(TokenShape::RectParenOpen)
    } else if byte == 0x5d {
        Some(TokenShape::RectParenClose)
    } else if byte == 0x7b {
        Some(TokenShape::BraceOpen)
    } else if byte == 0x7d {
        Some(TokenShape::BraceClose)
    } else if byte == 0x2b {
        Some(TokenShape::Add)
    } else if byte == 0x2d {
        Some(TokenShape::Sub)
    } else if byte == 0x2a {
        Some(TokenShape::Mul)
    } else if byte == 0x2f {
        Some(TokenShape::Div)
    } else if byte == 0x7e {
        Some(TokenShape::Not)
    } else if byte == 0x26 {
        Some(TokenShape::And)
    } else if byte == 0x7c {
        Some(TokenShape::Or)
    } else if byte == 0x5e {
        Some(TokenShape::Xor)
    } else {
        None
    }
}

/// What begins at `pos`, where no white space begins there: the lexeme,
/// if there is one, and the position behind it.
pub open spec fn spec_lexeme(source: Seq<u8>, pos: int) -> Result<
    (Option<LexemeShape>, int),
    CodegenError,
> {
    let first = source[pos];
    if spec_is_letter(first) {
        let end = spec_run_end(source, pos, ByteClass::Alphanumeric);
        match spec_keyword(spec_text(source.subrange(pos, end), end - pos)) {
            Some(token) => Ok((Some(LexemeShape::Token(token)), end)),
            None => Err(CodegenError::MalformedIr),
        }
    } else if spec_sign(first) is Some {
        Ok((Some(LexemeShape::Token(spec_sign(first)->Some_0)), pos + 1))
    } else if first == 0x24 {
        let end = spec_run_end(source, pos + 1, ByteClass::Number);
        match spec_number(source.subrange(pos + 1, end)) {
            Ok(lexeme) => Ok((Some(lexeme), end)),
            Err(error) => Err(error),
        }
    } else if first == 0x25 || first == 0x23 {
        let end = spec_run_end(source, pos + 1, ByteClass::Digit);
        match spec_unsigned(source.subrange(pos + 1, end), 10) {
            Some(value) => if end == pos + 1 {
                Err(CodegenError::MalformedIr)
            } else if first == 0x25 {
                Ok((Some(LexemeShape::Token(TokenShape::RegID(value))), end))
            } else {
                Ok((Some(LexemeShape::Token(TokenShape::ArgID(value))), end))
            },
            None => Err(CodegenError::MalformedIr),
        }
    } else if first == 0x3a || first == 0x40 {
        let end = spec_run_end(source, pos + 1, ByteClass::Name);
        let name = spec_text(source.subrange(pos + 1, end), end - pos - 1);
        if first == 0x3a {
            Ok((Some(LexemeShape::Token(TokenShape::Label(name))), end))
        } else {
            Ok((Some(LexemeShape::Token(TokenShape::FnName(name))), end))
        }
    } else if first == 0x22 {
        match spec_string(source, pos + 1, Seq::empty()) {
            Ok((bytes, next)) => Ok((Some(LexemeShape::Token(TokenShape::String(bytes))), next)),
            Err(error) => Err(error),
        }
    } else if first == 0x5c {
        Ok((None, spec_run_end(source, pos + 1, ByteClass::Comment)))
    } else {
        Err(CodegenError::MalformedIr)
    }
}

/// The lexemes of the source text from `pos` onwards, behind those in
/// `before`.
pub open spec fn spec_lexemes(source: Seq<u8>, pos: int, before: Seq<LexemeShape>) -> Result<
    Seq<LexemeShape>,
    CodegenError,
>
    decreases source.len() - pos,
{
    if pos < 0 || pos >= source.len() {
        Ok(before)
    } else if spec_white_space(source, pos) > 0 {
        spec_lexemes(
            source,
            pos + spec_white_space(source, pos),
            if source[pos] == 0x0a && !(pos + 1 < source.len() && source[pos + 1] == 0x0a) {
                before.push(LexemeShape::Token(TokenShape::LineBreak))
            } else {
                before
            },
        )
    } else {
        match spec_lexeme(source, pos) {
            Err(error) => Err(error),
            Ok((lexeme, next)) => if next <= pos || next > source.len() {
                Err(CodegenError::MalformedIr)
            } else {
                spec_lexemes(
                    source,
                    next,
                    match lexeme {
                        Some(lexeme) => before.push(lexeme),
                        None => before,
                    },
                )
            },
        }
    }
}


/// The text of one byte that may stand in a name.
fn name_text(byte: u8) -> (text: &'static str)
    requires
        ByteClass::Name.spec_holds(byte),
    ensures
        text@ == spec_name_text(byte),
{
    match byte {
        97 => "a",
        98 => "b",
        99 => "c",
        100 => "d",
        101 => "e",
        102 => "f",
        103 => "g",
        104 => "h",
        105 => "i",
        106 => "j",
        107 => "k",
        108 => "l",
        109 => "m",
        110 => "n",
        111 => "o",
        112 => "p",
        113 => "q",
        114 => "r",
        115 => "s",
        116 => "t",
        117 => "u",
        118 => "v",
        119 => "w",
        120 => "x",
        121 => "y",
        122 => "z",
        65 => "A",
        66 => "B",
        67 => "C",
        68 => "D",
        69 => "E",
        70 => "F",
        71 => "G",
        72 => "H",
        73 => "I",
        74 => "J",
        75 => "K",
        76 => "L",
        77 => "M",
        78 => "N",
        79 => "O",
        80 => "P",
        81 => "Q",
        82 => "R",
        83 => "S",
        84 => "T",
        85 => "U",
        86 => "V",
        87 => "W",
        88 => "X",
        89 => "Y",
        90 => "Z",
        48 => "0",
        49 => "1",
        50 => "2",
        51 => "3",
        52 => "4",
        53 => "5",
        54 => "6",
        55 => "7",
        56 => "8",
        57 => "9",
        95 => "_",
        _ => ".",
    }
}

/// The text that the bytes of a name stand for.
fn text_of(source: &Vec<u8>, from: usize, to: usize) -> (text: String)
    requires
        from <= to <= source@.len(),
        forall|i: int| from <= i < to ==> ByteClass::Name.spec_holds(#[trigger] source@[i]),
    ensures
        text@ == spec_text(source@.subrange(from as int, to as int), to - from),
{
    let ghost bytes = source@.subrange(from as int, to as int);
    let mut text = String::new();
    let mut i: usize = from;
    while i < to
        invariant
            from <= i <= to <= source@.len(),
            bytes == source@.subrange(from as int, to as int),
            forall|i: int| from <= i < to ==> ByteClass::Name.spec_holds(#[trigger] source@[i]),
            text@ == spec_text(bytes, i - from),
        decreases to - i,
    {
        assert(bytes[i - from] == source@[i as int]);
        text.append(name_text(source[i]));
        i += 1;
    }
    text
}

/// The keyword or type name that a word is, if it is one.
fn keyword(word: &String) -> (token: Option<Token>)
    ensures
        match token {
            Some(token) => spec_keyword(word@) == Some(token.shape()),
            None => spec_keyword(word@) is None,
        },
{
    if *word == String::from_str("fn") {
        Some(Token::Fn)
    } else if *word == String::from_str("extern") {
        Some(Token::Extern)
    } else if *word == String::from_str("call") {
        Some(Token::Call)
    } else if *word == String::from_str("alloc") {
        Some(Token::Alloc)
    } else if *word == String::from_str("ret") {
        Some(Token::Ret)
    } else if *word == String::from_str("u64") {
        Some(Token::TypeName(DataType::U64))
    } else if *word == String::from_str("u32") {
        Some(Token::TypeName(DataType::U32))
    } else if *word == String::from_str("u16") {
        Some(Token::TypeName(DataType::U16))
    } else if *word == String::from_str("u8") {
        Some(Token::TypeName(DataType::U8))
    } else if *word == String::from_str("usize") {
        Some(Token::TypeName(DataType::USize))
    } else if *word == String::from_str("i64") {
        Some(Token::TypeName(DataType::I64))
    } else if *word == String::from_str("i32") {
        Some(Token::TypeName(DataType::I32))
    } else if *word == String::from_str("i16") {
        Some(Token::TypeName(DataType::I16))
    } else if *word == String::from_str("i8") {
        Some(Token::TypeName(DataType::I8))
    } else if *word == String::from_str("isize") {
        Some(Token::TypeName(DataType::ISize))
    } else if *word == String::from_str("f64") {
        Some(Token::TypeName(DataType::F64))
    } else if *word == String::from_str("f32") {
        Some(Token::TypeName(DataType::F32))
    } else if *word == String::from_str("ptr") {
        Some(Token::TypeName(DataType::Ptr))
    } else {
        None
    }
}

/// The end of the run of bytes of the class that begins at `pos`.
fn run_end(source: &Vec<u8>, pos: usize, class: ByteClass) -> (end: usize)
    requires
        pos <= source@.len(),
    ensures
        end == spec_run_end(source@, pos as int, class),
        pos <= end <= source@.len(),
        forall|i: int| pos <= i < end ==> class.spec_holds(#[trigger] source@[i]),
{
    let mut end: usize = pos;
    while end < source.len() && class.holds(source[end])
        invariant
            pos <= end <= source@.len(),
            spec_run_end(source@, pos as int, class) == spec_run_end(source@, end as int, class),
            forall|i: int| pos <= i < end ==> class.spec_holds(#[trigger] source@[i]),
        decreases source@.len() - end,
    {
        end += 1;
    }
    end
}

/// Number of bytes of the white space character that begins at `pos`.
fn white_space(source: &Vec<u8>, pos: usize) -> (width: usize)
    requires
        pos < source@.len(),
    ensures
        width == spec_white_space(source@, pos as int),
        width <= 3,
        pos + width <= source@.len(),
{
    let len: usize = source.len();
    let first: u8 = source[pos];
    if (0x09 <= first && first <= 0x0d) || first == 0x20 {
        1
    } else if len - pos > 1 && first == 0xc2 && (source[pos + 1] == 0x85 || source[pos + 1]
        == 0xa0) {
        2
    } else if len - pos > 2 {
        let second: u8 = source[pos + 1];
        let third: u8 = source[pos + 2];
        if (first == 0xe1 && second == 0x9a && third == 0x80) || (first == 0xe2 && second == 0x80
            && ((third <= 0x8a && third >= 0x80) || third == 0xa8 || third == 0xa9 || third
            == 0xaf)) || (first == 0xe2 && second == 0x81 && third == 0x9f) || (first == 0xe3
            && second == 0x80 && third == 0x80) {
            3
        } else {
            0
        }
    } else {
        0
    }
}

/// The value of a digit in a number to the given base.
fn digit_value(byte: u8, base: u8) -> (value: Option<u8>)
    requires
        base <= 16,
    ensures
        match value {
            Some(value) => spec_digit_value(byte, base as int) == Some(value as int),
            None => spec_digit_value(byte, base as int) is None,
        },
{
    let value: u8 = if 0x30 <= byte && byte <= 0x39 {
        byte - 0x30
    } else if 0x41 <= byte && byte <= 0x46 {
        byte - 0x41 + 10
    } else if 0x61 <= byte && byte <= 0x66 {
        byte - 0x61 + 10
    } else {
        16
    };
    if value < base {
        Some(value)
    } else {
        None
    }
}

/// The values of the digits of a number only grow from digit to digit.
proof fn lemma_digits_value_grows(digits: Seq<u8>, base: int, count: int, more: int)
    requires
        1 <= base,
        0 <= count <= more,
        spec_digits_value(digits, base, more) is Some,
    ensures
        spec_digits_value(digits, base, count) is Some,
        0 <= spec_digits_value(digits, base, count)->Some_0 <= spec_digits_value(
            digits,
            base,
            more,
        )->Some_0,
    decreases more,
{
    if more > 0 {
        lemma_digits_value_grows(digits, base, 0, more - 1);
        let front = spec_digits_value(digits, base, more - 1)->Some_0;
        assert(front * base >= front) by (nonlinear_arith)
            requires
                front >= 0,
                base >= 1,
        ;
        if count < more {
            lemma_digits_value_grows(digits, base, count, more - 1);
        }
    }
}

/// The number that the digits from `from` up to `to` stand for, where
/// it is no more than `limit`.
fn magnitude(source: &Vec<u8>, from: usize, to: usize, base: u8, limit: u64) -> (value: Option<u64>)
    requires
        from <= to <= source@.len(),
        1 <= base <= 16,
    ensures
        match value {
            Some(found) => spec_digits_value(
                source@.subrange(from as int, to as int),
                base as int,
                to - from,
            ) == Some(found as int) && found <= limit,
            None => match spec_digits_value(
                source@.subrange(from as int, to as int),
                base as int,
                to - from,
            ) {
                Some(value) => value > limit,
                None => true,
            },
        },
{
    let ghost digits = source@.subrange(from as int, to as int);
    let mut value: u64 = 0;
    let mut i: usize = from;
    while i < to
        invariant
            from <= i <= to <= source@.len(),
            1 <= base <= 16,
            digits == source@.subrange(from as int, to as int),
            spec_digits_value(digits, base as int, i - from) == Some(value as int),
            value <= limit,
        decreases to - i,
    {
        assert(digits[i - from] == source@[i as int]);
        let digit: u8 = match digit_value(source[i], base) {
            Some(digit) => digit,
            None => {
                proof {
                    if spec_digits_value(digits, base as int, to - from) is Some {
                        lemma_digits_value_grows(digits, base as int, i - from + 1, to - from);
                    }
                }
                return None;
            },
        };
        let next: Option<u64> = match value.checked_mul(base as u64) {
            Some(shifted) => shifted.checked_add(digit as u64),
            None => None,
        };
        match next {
            Some(next) if next <= limit => {
                value = next;
            },
            _ => {
                proof {
                    if spec_digits_value(digits, base as int, to - from) is Some {
                        lemma_digits_value_grows(digits, base as int, i - from + 1, to - from);
                    }
                }
                return None;
            },
        }
        i += 1;
    }
    Some(value)
}

/// Whether a full stop stands among the bytes from `from` up to `to`.
fn has_full_stop(source: &Vec<u8>, from: usize, to: usize) -> (found: bool)
    requires
        from <= to <= source@.len(),
    ensures
        found == source@.subrange(from as int, to as int).contains(0x2eu8),
{
    let ghost text = source@.subrange(from as int, to as int);
    let mut i: usize = from;
    while i < to
        invariant
            from <= i <= to <= source@.len(),
            text == source@.subrange(from as int, to as int),
            forall|j: int| 0 <= j < i - from ==> text[j] != 0x2e,
        decreases to - i,
    {
        if source[i] == 0x2e {
            assert(text[i - from] == 0x2e);
            return true;
        }
        i += 1;
    }
    false
}

/// The bytes from `from` up to `to`.
fn copy_of(source: &Vec<u8>, from: usize, to: usize) -> (bytes: Vec<u8>)
    requires
        from <= to <= source@.len(),
    ensures
        bytes@ == source@.subrange(from as int, to as int),
{
    let mut bytes: Vec<u8> = Vec::new();
    let mut i: usize = from;
    while i < to
        invariant
            from <= i <= to <= source@.len(),
            bytes@ == source@.subrange(from as int, i as int),
        decreases to - i,
    {
        bytes.push(source[i]);
        i += 1;
        assert(bytes@ =~= source@.subrange(from as int, i as int));
    }
    bytes
}

/// The lexeme that the text of a number from `from` up to `to` stands for.
fn parse_number(source: &Vec<u8>, from: usize, to: usize) -> (result: Result<Lexeme, CodegenError>)
    requires
        from <= to <= source@.len(),
    ensures
        match result {
            Ok(lexeme) => spec_number(source@.subrange(from as int, to as int)) == Ok::<
                _,
                CodegenError,
            >(lexeme.shape()),
            Err(error) => spec_number(source@.subrange(from as int, to as int)) == Err::<
                LexemeShape,
                _,
            >(error),
        },
{
    let ghost text = source@.subrange(from as int, to as int);
    if from == to {
        return Err(CodegenError::MalformedIr);
    }
    let first: u8 = source[from];
    assert(text[0] == first);
    if first == 0x30 && to - from == 1 {
        return Ok(Lexeme::Token(Token::NumU(0)));
    }
    if first == 0x30 {
        let second: u8 = source[from + 1];
        assert(text[1] == second);
        assert(text.skip(2) =~= source@.subrange(from + 2, to as int));
        if second == 0x78 || second == 0x6f || second == 0x62 {
            let base: u8 = if second == 0x78 {
                16
            } else if second == 0x6f {
                8
            } else {
                2
            };
            return match magnitude(source, from + 2, to, base, u64::MAX) {
                Some(value) => Ok(Lexeme::Token(Token::NumU(value))),
                None => Err(CodegenError::MalformedIr),
            };
        }
        if second == 0x64 {
            return match magnitude(source, from + 2, to, 10, u64::MAX) {
                Some(value) => if to - from > 2 {
                    Ok(Lexeme::Token(Token::NumU(value)))
                } else {
                    Err(CodegenError::MalformedIr)
                },
                None => Err(CodegenError::MalformedIr),
            };
        }
    }
    if first == 0x2d {
        assert(text.skip(1) =~= source@.subrange(from + 1, to as int));
        return match magnitude(source, from + 1, to, 10, 0x8000_0000_0000_0000) {
            Some(value) => if to - from > 1 {
                let ghost digits = spec_digits_value(text.skip(1), 10, text.len() - 1)->Some_0;
                assert(digits == value);
                if value == 0x8000_0000_0000_0000 {
                    assert((-digits) as i64 == i64::MIN);
                    Ok(Lexeme::Token(Token::NumI(i64::MIN)))
                } else {
                    assert((-digits) as i64 == -(value as i64));
                    Ok(Lexeme::Token(Token::NumI(-(value as i64))))
                }
            } else {
                Err(CodegenError::MalformedIr)
            },
            None => Err(CodegenError::MalformedIr),
        };
    }
    if has_full_stop(source, from, to) {
        return Ok(Lexeme::Float(copy_of(source, from, to)));
    }
    match magnitude(source, from, to, 10, u64::MAX) {
        Some(value) => Ok(Lexeme::Token(Token::NumU(value))),
        None => Err(CodegenError::MalformedIr),
    }
}

/// The byte that the escape sequence behind the backslash stands for,
/// and the position behind the sequence.
fn escape(source: &Vec<u8>, pos: usize) -> (result: Result<(u8, usize), CodegenError>)
    ensures
        match result {
            Ok((byte, next)) => spec_escape(source@, pos as int) == Ok::<_, CodegenError>(
                (byte, next as int),
            ) && pos < next <= source@.len(),
            Err(error) => spec_escape(source@, pos as int) == Err::<(u8, int), _>(error),
        },
{
    if pos >= source.len() {
        return Err(CodegenError::MalformedIr);
    }
    let letter: u8 = source[pos];
    if letter == 0x6e {
        Ok((0x0a, pos + 1))
    } else if letter == 0x74 {
        Ok((0x09, pos + 1))
    } else if letter == 0x5c || letter == 0x22 || letter == 0x27 {
        Ok((letter, pos + 1))
    } else if letter == 0x78 || letter == 0x6f || letter == 0x64 || letter == 0x62 {
        let base: u8 = if letter == 0x78 {
            16
        } else if letter == 0x6f {
            8
        } else if letter == 0x64 {
            10
        } else {
            2
        };
        let count: usize = if letter == 0x78 {
            2
        } else if letter == 0x62 {
            8
        } else {
            3
        };
        if source.len() - pos <= count {
            Err(CodegenError::MalformedIr)
        } else {
            match magnitude(source, pos + 1, pos + 1 + count, base, 255) {
                Some(value) => {
                    let ghost digits = spec_digits_value(
                        source@.subrange(pos + 1, pos + 1 + count),
                        base as int,
                        count as int,
                    )->Some_0;
                    assert(digits == value);
                    assert(digits as u8 == value as u8);
                    Ok((value as u8, pos + 1 + count))
                },
                None => Err(CodegenError::MalformedIr),
            }
        }
    } else {
        Err(CodegenError::MalformedIr)
    }
}

/// The bytes of the string that begins at `pos` behind its opening
/// quotation mark, and the position behind the closing one.
fn parse_string(source: &Vec<u8>, pos: usize) -> (result: Result<(Vec<u8>, usize), CodegenError>)
    ensures
        match result {
            Ok((bytes, next)) => spec_string(source@, pos as int, Seq::empty()) == Ok::<
                _,
                CodegenError,
            >((bytes@, next as int)) && pos < next <= source@.len(),
            Err(error) => spec_string(source@, pos as int, Seq::empty()) == Err::<
                (Seq<u8>, int),
                _,
            >(error),
        },
{
    let mut bytes: Vec<u8> = Vec::new();
    let mut at: usize = pos;
    loop
        invariant
            pos <= at,
            spec_string(source@, pos as int, Seq::empty()) == spec_string(
                source@,
                at as int,
                bytes@,
            ),
        decreases source@.len() - at,
    {
        if at >= source.len() {
            return Err(CodegenError::MalformedIr);
        }
        let byte: u8 = source[at];
        if byte == 0x22 {
            return Ok((bytes, at + 1));
        } else if byte == 0x5c {
            match escape(source, at + 1) {
                Err(error) => {
                    return Err(error);
                },
                Ok((escaped, next)) => {
                    bytes.push(escaped);
                    at = next;
                },
            }
        } else {
            bytes.push(byte);
            at += 1;
        }
    }
}

/// The token that a sign stands for.
fn sign(byte: u8) -> (token: Option<Token>)
    ensures
        match token {
            Some(token) => spec_sign(byte) == Some(token.shape()),
            None => spec_sign(byte) is None,
        },
{
    match byte {
        0x3d => Some(Token::Equal),
        0x2c => Some(Token::Comma),
        0x28 => Some(Token::ParenOpen),
        0x29 => Some(Token::ParenClose),
        0x5b => Some(Token::RectParenOpen),
        0x5d => Some(Token::RectParenClose),
        0x7b => Some(Token::BraceOpen),
        0x7d => Some(Token::BraceClose),
        0x2b => Some(Token::Add),
        0x2d => Some(Token::Sub),
        0x2a => Some(Token::Mul),
        0x2f => Some(Token::Div),
        0x7e => Some(Token::Not),
        0x26 => Some(Token::And),
        0x7c => Some(Token::Or),
        0x5e => Some(Token::Xor),
        _ => None,
    }
}

/// What begins at `pos`, where no white space begins there: the lexeme,
/// if there is one, and the position behind it.
fn lexeme(source: &Vec<u8>, pos: usize) -> (result: Result<(Option<Lexeme>, usize), CodegenError>)
    requires
        pos < source@.len(),
    ensures
        match result {
            Ok((Some(lexeme), next)) => spec_lexeme(source@, pos as int) == Ok::<_, CodegenError>(
                (Some(lexeme.shape()), next as int),
            ) && pos < next <= source@.len(),
            Ok((None, next)) => spec_lexeme(source@, pos as int) == Ok::<_, CodegenError>(
                (None::<LexemeShape>, next as int),
            ) && pos < next <= source@.len(),
            Err(error) => spec_lexeme(source@, pos as int) == Err::<(Option<LexemeShape>, int), _>(
                error,
            ),
        },
{
    let len: usize = source.len();
    let first: u8 = source[pos];
    if (0x41 <= first && first <= 0x5a) || (0x61 <= first && first <= 0x7a) {
        let end: usize = run_end(source, pos + 1, ByteClass::Alphanumeric);
        assert(spec_run_end(source@, pos as int, ByteClass::Alphanumeric) == end);
        let word = text_of(source, pos, end);
        return match keyword(&word) {
            Some(token) => Ok((Some(Lexeme::Token(token)), end)),
            None => Err(CodegenError::MalformedIr),
        };
    }
    match sign(first) {
        Some(token) => {
            return Ok((Some(Lexeme::Token(token)), pos + 1));
        },
        None => {},
    }
    if first == 0x24 {
        let end: usize = run_end(source, pos + 1, ByteClass::Number);
        match parse_number(source, pos + 1, end) {
            Ok(lexeme) => Ok((Some(lexeme), end)),
            Err(error) => Err(error),
        }
    } else if first == 0x25 || first == 0x23 {
        let end: usize = run_end(source, pos + 1, ByteClass::Digit);
        match magnitude(source, pos + 1, end, 10, u64::MAX) {
            Some(value) => if end == pos + 1 {
                Err(CodegenError::MalformedIr)
            } else if first == 0x25 {
                Ok((Some(Lexeme::Token(Token::RegID(value))), end))
            } else {
                Ok((Some(Lexeme::Token(Token::ArgID(value))), end))
            },
            None => Err(CodegenError::MalformedIr),
        }
    } else if first == 0x3a || first == 0x40 {
        let end: usize = run_end(source, pos + 1, ByteClass::Name);
        let name = text_of(source, pos + 1, end);
        if first == 0x3a {
            Ok((Some(Lexeme::Token(Token::Label(name))), end))
        } else {
            Ok((Some(Lexeme::Token(Token::FnName(name))), end))
        }
    } else if first == 0x22 {
        match parse_string(source, pos + 1) {
            Ok((bytes, next)) => Ok((Some(Lexeme::Token(Token::String(bytes))), next)),
            Err(error) => Err(error),
        }
    } else if first == 0x5c {
        Ok((None, run_end(source, pos + 1, ByteClass::Comment)))
    } else {
        Err(CodegenError::MalformedIr)
    }
}

/// Splits the source text into lexemes.
///
/// What cannot begin a lexeme is malformed, and so are a word that is no
/// keyword, a number that does not fit 64 bits, a digit that its base
/// does not have, an escape sequence that does not exist and a string
/// without an end.
pub fn parse_string_into_tokens(source: Vec<u8>) -> (result: Result<Vec<Lexeme>, CodegenError>)
    ensures
        match result {
            Ok(lexemes) => spec_lexemes(source@, 0, Seq::empty()) == Ok::<_, CodegenError>(
                Lexeme::shapes(lexemes@),
            ),
            Err(error) => spec_lexemes(source@, 0, Seq::empty()) == Err::<Seq<LexemeShape>, _>(
                error,
            ),
        },
{
    let mut lexemes: Vec<Lexeme> = Vec::new();
    let mut at: usize = 0;
    assert(Lexeme::shapes(lexemes@) =~= Seq::empty());
    while at < source.len()
        invariant
            spec_lexemes(source@, 0, Seq::empty()) == spec_lexemes(
                source@,
                at as int,
                Lexeme::shapes(lexemes@),
            ),
        decreases source@.len() - at,
    {
        let ghost before = Lexeme::shapes(lexemes@);
        let width: usize = white_space(&source, at);
        if width > 0 {
            if source[at] == 0x0a && !(source.len() - at > 1 && source[at + 1] == 0x0a) {
                lexemes.push(Lexeme::Token(Token::LineBreak));
                assert(Lexeme::shapes(lexemes@) =~= before.push(
                    LexemeShape::Token(TokenShape::LineBreak),
                ));
            }
            at += width;
        } else {
            match lexeme(&source, at) {
                Err(error) => {
                    return Err(error);
                },
                Ok((found, next)) => {
                    match found {
                        Some(found) => {
                            lexemes.push(found);
                            assert(Lexeme::shapes(lexemes@) =~= before.push(found.shape()));
                        },
                        None => {},
                    }
                    at = next;
                },
            }
        }
    }
    Ok(lexemes)
}


/// A run ends behind its beginning and inside the text.
pub proof fn lemma_run_end_bounds(source: Seq<u8>, pos: int, class: ByteClass)
    requires
        0 <= pos <= source.len(),
    ensures
        pos <= spec_run_end(source, pos, class) <= source.len(),
    decreases source.len() - pos,
{
    if pos < source.len() && class.spec_holds(source[pos]) {
        lemma_run_end_bounds(source, pos + 1, class);
    }
}

/// A string ends behind its beginning and inside the text.
pub proof fn lemma_string_advances(source: Seq<u8>, pos: int, before: Seq<u8>)
    requires
        0 <= pos,
    ensures
        spec_string(source, pos, before) matches Ok((_, next)) ==> pos < next <= source.len(),
    decreases source.len() - pos,
{
    if pos < source.len() && source[pos] != 0x22 {
        if source[pos] == 0x5c {
            match spec_escape(source, pos + 1) {
                Ok((byte, next)) => {
                    if pos < next <= source.len() {
                        lemma_string_advances(source, next, before.push(byte));
                    }
                },
                Err(_) => {},
            }
        } else {
            lemma_string_advances(source, pos + 1, before.push(source[pos]));
        }
    }
}

/// Every lexeme takes at least one byte and none behind the end of the
/// text: reading never stands still and never leaves the text.
pub proof fn lemma_lexeme_advances(source: Seq<u8>, pos: int)
    requires
        0 <= pos < source.len(),
    ensures
        spec_lexeme(source, pos) matches Ok((_, next)) ==> pos < next <= source.len(),
{
    lemma_run_end_bounds(source, pos + 1, ByteClass::Alphanumeric);
    lemma_run_end_bounds(source, pos + 1, ByteClass::Number);
    lemma_run_end_bounds(source, pos + 1, ByteClass::Digit);
    lemma_run_end_bounds(source, pos + 1, ByteClass::Name);
    lemma_run_end_bounds(source, pos + 1, ByteClass::Comment);
    lemma_string_advances(source, pos + 1, Seq::empty());
}

} // verus!
