//! Numbers and bytes as assembly text.
use vstd::prelude::*;
use vstd::string::StringExecFns;

verus! {

/// The text of one decimal digit.
pub open spec fn spec_digit(digit: int) -> Seq<char> {
    if digit == 0 {
        "0"@
    } else if digit == 1 {
        "1"@
    } else if digit == 2 {
        "2"@
    } else if digit == 3 {
        "3"@
    } else if digit == 4 {
        "4"@
    } else if digit == 5 {
        "5"@
    } else if digit == 6 {
        "6"@
    } else if digit == 7 {
        "7"@
    } else if digit == 8 {
        "8"@
    } else {
        "9"@
    }
}

/// The decimal text of a number, without leading zeros.
pub open spec fn spec_decimal(value: nat) -> Seq<char>
    decreases value,
{
    if value < 10 {
        spec_digit(value as int)
    } else {
        spec_decimal(value / 10) + spec_digit((value % 10) as int)
    }
}

/// The text of one hexadecimal digit, in capitals.
pub open spec fn spec_hex_digit(digit: int) -> Seq<char> {
    if digit < 10 {
        spec_digit(digit)
    } else if digit == 10 {
        "A"@
    } else if digit == 11 {
        "B"@
    } else if digit == 12 {
        "C"@
    } else if digit == 13 {
        "D"@
    } else if digit == 14 {
        "E"@
    } else {
        "F"@
    }
}

/// The text of one byte in a data line: `0x`, the hexadecimal digits of
/// the byte without a leading zero, a comma and a space.
pub open spec fn spec_asm_byte(byte: u8) -> Seq<char> {
    "0x"@ + if byte < 16 {
        spec_hex_digit(byte as int)
    } else {
        spec_hex_digit(byte as int / 16) + spec_hex_digit(byte as int % 16)
    } + ", "@
}

/// The text of the first `count` of `bytes` in a data line.
pub open spec fn spec_asm_str(bytes: Seq<u8>, count: int) -> Seq<char>
    decreases count,
{
    if count <= 0 {
        Seq::empty()
    } else {
        spec_asm_str(bytes, count - 1) + spec_asm_byte(bytes[count - 1])
    }
}

fn digit(value: u64) -> (text: &'static str)
    requires
        value < 10,
    ensures
        text@ == spec_digit(value as int),
{
    match value {
        0 => "0",
        1 => "1",
        2 => "2",
        3 => "3",
        4 => "4",
        5 => "5",
        6 => "6",
        7 => "7",
        8 => "8",
        _ => "9",
    }
}

fn hex_digit(value: u8) -> (text: &'static str)
    requires
        value < 16,
    ensures
        text@ == spec_hex_digit(value as int),
{
    match value {
        0 => "0",
        1 => "1",
        2 => "2",
        3 => "3",
        4 => "4",
        5 => "5",
        6 => "6",
        7 => "7",
        8 => "8",
        9 => "9",
        10 => "A",
        11 => "B",
        12 => "C",
        13 => "D",
        14 => "E",
        _ => "F",
    }
}

/// The decimal text of a number, without leading zeros.
pub fn decimal(value: u64) -> (text: String)
    ensures
        text@ == spec_decimal(value as nat),
    decreases value,
{
    if value < 10 {
        String::from_str(digit(value))
    } else {
        let mut text = decimal(value / 10);
        text.append(digit(value % 10));
        text
    }
}

/// The bytes as the operands of a data line of assembly.
pub fn asm_str_from(bytes: &Vec<u8>) -> (result: String)
    ensures
        result@ == spec_asm_str(bytes@, bytes@.len() as int),
{
    let mut result = String::new();
    let mut i: usize = 0;
    while i < bytes.len()
        invariant
            i <= bytes@.len(),
            result@ == spec_asm_str(bytes@, i as int),
        decreases bytes@.len() - i,
    {
        let b: u8 = bytes[i];
        let ghost before = result@;
        result.append("0x");
        if b < 16 {
            result.append(hex_digit(b));
        } else {
            result.append(hex_digit(b / 16));
            result.append(hex_digit(b % 16));
        }
        result.append(", ");
        assert(result@ =~= before + spec_asm_byte(b));
        i += 1;
    }
    result
}

} // verus!
