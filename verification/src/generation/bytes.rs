//! Integers as eight bytes, most significant byte first.
use vstd::arithmetic::div_mod::lemma_div_denominator;
use vstd::prelude::*;

verus! {

/// The byte of `value` that has `below` bytes of lower significance.
pub open spec fn byte_at(value: int, below: int) -> u8 {
    if below == 0 {
        (value % 256) as u8
    } else if below == 1 {
        (value / 0x100 % 256) as u8
    } else if below == 2 {
        (value / 0x1_0000 % 256) as u8
    } else if below == 3 {
        (value / 0x100_0000 % 256) as u8
    } else if below == 4 {
        (value / 0x1_0000_0000 % 256) as u8
    } else if below == 5 {
        (value / 0x100_0000_0000 % 256) as u8
    } else if below == 6 {
        (value / 0x1_0000_0000_0000 % 256) as u8
    } else {
        (value / 0x100_0000_0000_0000 % 256) as u8
    }
}

/// The eight bytes of `value`, most significant first.
pub open spec fn spec_be_bytes(value: u64) -> [u8; 8] {
    [
        byte_at(value as int, 7),
        byte_at(value as int, 6),
        byte_at(value as int, 5),
        byte_at(value as int, 4),
        byte_at(value as int, 3),
        byte_at(value as int, 2),
        byte_at(value as int, 1),
        byte_at(value as int, 0),
    ]
}

/// The unsigned number that shares its bits with `value`.
pub open spec fn spec_bits_of(value: i64) -> u64 {
    if value >= 0 {
        value as u64
    } else {
        (value + 0x1_0000_0000_0000_0000) as u64
    }
}

/// The number that eight bytes stand for, most significant byte first.
pub open spec fn spec_be_value(bytes: [u8; 8]) -> int {
    bytes[0] * 0x100_0000_0000_0000 + bytes[1] * 0x1_0000_0000_0000 + bytes[2]
        * 0x100_0000_0000 + bytes[3] * 0x1_0000_0000 + bytes[4] * 0x100_0000 + bytes[5] * 0x1_0000
        + bytes[6] * 0x100 + bytes[7]
}

/// The bytes of a number stand for that number.
pub proof fn lemma_be_round_trip(value: u64)
    ensures
        spec_be_value(spec_be_bytes(value)) == value,
{
    let v0 = value as int;
    let v1 = v0 / 256;
    let v2 = v1 / 256;
    let v3 = v2 / 256;
    let v4 = v3 / 256;
    let v5 = v4 / 256;
    let v6 = v5 / 256;
    let v7 = v6 / 256;
    lemma_div_denominator(v0, 0x100, 0x100);
    lemma_div_denominator(v0, 0x1_0000, 0x100);
    lemma_div_denominator(v0, 0x100_0000, 0x100);
    lemma_div_denominator(v0, 0x1_0000_0000, 0x100);
    lemma_div_denominator(v0, 0x100_0000_0000, 0x100);
    lemma_div_denominator(v0, 0x1_0000_0000_0000, 0x100);
    assert(v2 == v0 / 0x1_0000);
    assert(v3 == v0 / 0x100_0000);
    assert(v4 == v0 / 0x1_0000_0000);
    assert(v5 == v0 / 0x100_0000_0000);
    assert(v6 == v0 / 0x1_0000_0000_0000);
    assert(v7 == v0 / 0x100_0000_0000_0000);
    assert(v7 < 256);
    let bytes = spec_be_bytes(value);
    assert(bytes[7] == v0 % 256);
    assert(bytes[6] == v1 % 256);
    assert(bytes[5] == v2 % 256);
    assert(bytes[4] == v3 % 256);
    assert(bytes[3] == v4 % 256);
    assert(bytes[2] == v5 % 256);
    assert(bytes[1] == v6 % 256);
    assert(bytes[0] == v7);
    assert(v6 == 256 * v7 + bytes[1]);
    assert(v5 == 256 * v6 + bytes[2]);
    assert(v4 == 256 * v5 + bytes[3]);
    assert(v3 == 256 * v4 + bytes[4]);
    assert(v2 == 256 * v3 + bytes[5]);
    assert(v1 == 256 * v2 + bytes[6]);
    assert(v0 == 256 * v1 + bytes[7]);
}

/// Two numbers with the same bytes are the same number.
pub proof fn lemma_be_bytes_injective(a: u64, b: u64)
    requires
        spec_be_bytes(a) == spec_be_bytes(b),
    ensures
        a == b,
{
    lemma_be_round_trip(a);
    lemma_be_round_trip(b);
}

/// The eight bytes of `value`, most significant first.
pub fn be_bytes(value: u64) -> (bytes: [u8; 8])
    ensures
        bytes == spec_be_bytes(value),
{
    let bytes: [u8; 8] = [
        (value / 0x100_0000_0000_0000 % 256) as u8,
        (value / 0x1_0000_0000_0000 % 256) as u8,
        (value / 0x100_0000_0000 % 256) as u8,
        (value / 0x1_0000_0000 % 256) as u8,
        (value / 0x100_0000 % 256) as u8,
        (value / 0x1_0000 % 256) as u8,
        (value / 0x100 % 256) as u8,
        (value % 256) as u8,
    ];
    assert(bytes =~= spec_be_bytes(value));
    bytes
}

/// The eight bytes of a signed number in two's complement, most
/// significant first.
pub fn be_bytes_signed(value: i64) -> (bytes: [u8; 8])
    ensures
        bytes == spec_be_bytes(spec_bits_of(value)),
{
    if value >= 0 {
        be_bytes(value as u64)
    } else {
        be_bytes(((value - i64::MIN) as u64) + 0x8000_0000_0000_0000u64)
    }
}

/// The number that eight bytes stand for, most significant byte first.
pub fn be_value(bytes: &[u8; 8]) -> (value: u64)
    ensures
        value == spec_be_value(*bytes),
{
    let mut value: u64 = 0;
    let mut i: usize = 0;
    while i < 8
        invariant
            i <= 8,
            i == 0 ==> value == 0,
            i == 1 ==> value == bytes@[0],
            i == 2 ==> value == bytes@[0] * 0x100 + bytes@[1],
            i == 3 ==> value == bytes@[0] * 0x1_0000 + bytes@[1] * 0x100 + bytes@[2],
            i == 4 ==> value == bytes@[0] * 0x100_0000 + bytes@[1] * 0x1_0000 + bytes@[2] * 0x100
                + bytes@[3],
            i == 5 ==> value == bytes@[0] * 0x1_0000_0000 + bytes@[1] * 0x100_0000 + bytes@[2]
                * 0x1_0000 + bytes@[3] * 0x100 + bytes@[4],
            i == 6 ==> value == bytes@[0] * 0x100_0000_0000 + bytes@[1] * 0x1_0000_0000 + bytes@[2]
                * 0x100_0000 + bytes@[3] * 0x1_0000 + bytes@[4] * 0x100 + bytes@[5],
            i == 7 ==> value == bytes@[0] * 0x1_0000_0000_0000 + bytes@[1] * 0x100_0000_0000
                + bytes@[2] * 0x1_0000_0000 + bytes@[3] * 0x100_0000 + bytes@[4] * 0x1_0000
                + bytes@[5] * 0x100 + bytes@[6],
            i == 8 ==> value == spec_be_value(*bytes),
        decreases 8 - i,
    {
        value = value * 256 + bytes[i] as u64;
        i += 1;
    }
    value
}

} // verus!
