//! Hexadecimal digits and fixed-width hexadecimal numbers.

use vstd::arithmetic::div_mod::lemma_div_denominator;
use vstd::arithmetic::power::{lemma_pow_positive, pow};
use vstd::prelude::*;

verus! {

/// Appending a character with `String::push` adds that one character at the end of the string.
pub assume_specification[ String::push ](s: &mut String, c: char)
    ensures
        final(s)@ == old(s)@.push(c),
;

/// The lower-case hexadecimal digit for a number below sixteen.
pub open spec fn hex_digit(d: nat) -> char {
    seq![
        '0', '1', '2', '3', '4', '5', '6', '7', '8', '9', 'a', 'b', 'c', 'd', 'e', 'f',
    ][d as int]
}

/// The `width` low hexadecimal digits of `value`, most significant digit first.
pub open spec fn hex(value: nat, width: nat) -> Seq<char>
    decreases width,
{
    if width == 0 {
        Seq::empty()
    } else {
        hex(value / 16, (width - 1) as nat).push(hex_digit(value % 16))
    }
}

/// 16 to the power of `width`: the first number that does not fit in `width` digits.
pub open spec fn hex_capacity(width: nat) -> nat
    decreases width,
{
    if width == 0 {
        1
    } else {
        16 * hex_capacity((width - 1) as nat)
    }
}

/// `hex` yields exactly as many digits as it is asked for.
pub proof fn lemma_hex_len(value: nat, width: nat)
    ensures
        hex(value, width).len() == width,
    decreases width,
{
    if width > 0 {
        lemma_hex_len(value / 16, (width - 1) as nat);
    }
}

/// The value of a lower-case hexadecimal digit, 0 for any other character.
pub open spec fn char_value(c: char) -> nat {
    if '0' <= c <= '9' {
        (c as int - '0' as int) as nat
    } else if 'a' <= c <= 'f' {
        (c as int - 'a' as int + 10) as nat
    } else {
        0
    }
}

/// The number that lower-case hexadecimal digits spell in base sixteen, most
/// significant digit first.
pub open spec fn hex_value(digits: Seq<char>) -> nat
    decreases digits.len(),
{
    if digits.len() == 0 {
        0
    } else {
        16 * hex_value(digits.drop_last()) + char_value(digits.last())
    }
}

/// The digits of a number that fits in them spell that number.
pub proof fn law_value_of_hex(value: nat, width: nat)
    requires
        value < hex_capacity(width),
    ensures
        hex_value(hex(value, width)) == value,
    decreases width,
{
    if width > 0 {
        let rest = hex(value / 16, (width - 1) as nat);
        law_value_of_hex(value / 16, (width - 1) as nat);
        assert(hex(value, width).drop_last() =~= rest);
        assert(char_value(hex_digit(value % 16)) == value % 16);
    }
}

/// Two numbers that fit in `width` digits and are written alike are equal.
pub proof fn law_hex_injective(a: nat, b: nat, width: nat)
    requires
        a < hex_capacity(width),
        b < hex_capacity(width),
        hex(a, width) == hex(b, width),
    ensures
        a == b,
{
    law_value_of_hex(a, width);
    law_value_of_hex(b, width);
}

/// The capacity of `width` digits is 16 to the power of `width`.
pub proof fn law_hex_capacity(width: nat)
    ensures
        hex_capacity(width) == pow(16, width),
    decreases width,
{
    reveal(pow);
    if width > 0 {
        law_hex_capacity((width - 1) as nat);
    }
}

/// The digit `i` places from the end is one of `0` to `9` or `a` to `f`: the
/// one for the number's digit of that weight in base sixteen.
pub proof fn law_hex_digit_of_weight(value: nat, width: nat, i: nat)
    requires
        i < width,
    ensures
        hex(value, width).len() == width,
        ({
            let digit = (value as int / pow(16, i)) % 16;
            let c = hex(value, width)[width - 1 - i];
            &&& 0 <= digit <= 9 ==> '0' <= c <= '9' && c as int - '0' as int == digit
            &&& 10 <= digit <= 15 ==> 'a' <= c <= 'f' && c as int - 'a' as int == digit - 10
            &&& 0 <= digit <= 15
        }),
    decreases width,
{
    reveal(pow);
    lemma_hex_len(value, width);
    if i == 0 {
        assert(hex(value, width).last() == hex_digit(value % 16));
    } else {
        let less = (i - 1) as nat;
        let rest = hex(value / 16, (width - 1) as nat);
        law_hex_digit_of_weight(value / 16, (width - 1) as nat, less);
        lemma_pow_positive(16, less);
        lemma_div_denominator(value as int, 16, pow(16, less));
        assert(hex(value, width)[width - 1 - i] == rest[width - 2 - less]);
    }
}

/// Eight digits hold every `u32`.
pub proof fn lemma_hex_capacity_u32()
    ensures
        hex_capacity(8) == 0x1_0000_0000,
{
    reveal_with_fuel(hex_capacity, 9);
}

/// The lower-case hexadecimal digit for a number below sixteen.
fn digit_char(d: u32) -> (c: char)
    requires
        d < 16,
    ensures
        c == hex_digit(d as nat),
{
    match d {
        0 => '0',
        1 => '1',
        2 => '2',
        3 => '3',
        4 => '4',
        5 => '5',
        6 => '6',
        7 => '7',
        8 => '8',
        9 => '9',
        10 => 'a',
        11 => 'b',
        12 => 'c',
        13 => 'd',
        14 => 'e',
        _ => 'f',
    }
}

/// Appends the `width` low hexadecimal digits of `value` to `text`.
pub(crate) fn push_hex(text: &mut String, value: u32, width: u32)
    ensures
        final(text)@ == old(text)@ + hex(value as nat, width as nat),
    decreases width,
{
    if width > 0 {
        push_hex(text, value / 16, width - 1);
        text.push(digit_char(value % 16));
    }
    assert(text@ =~= old(text)@ + hex(value as nat, width as nat));
}

/// The value of an ASCII hexadecimal digit of either case.
pub open spec fn digit_value(byte: u8) -> Option<u8> {
    if 0x30 <= byte <= 0x39 {
        Some((byte - 0x30) as u8)
    } else if 0x61 <= byte <= 0x66 {
        Some((byte - 0x61 + 10) as u8)
    } else if 0x41 <= byte <= 0x46 {
        Some((byte - 0x41 + 10) as u8)
    } else {
        None
    }
}

/// The value of a two-byte hexadecimal number. A plus sign may stand in place
/// of the first digit.
pub open spec fn pair_value(first: u8, second: u8) -> Option<u8> {
    match (digit_value(first), digit_value(second)) {
        (Some(high), Some(low)) => Some((16 * high + low) as u8),
        (None, Some(low)) => if first == 0x2b {
            Some(low)
        } else {
            None
        },
        _ => None,
    }
}

/// The two lower-case digits of a byte read back as that byte.
pub proof fn law_pair_of_hex(byte: u8)
    ensures
        pair_value(
            hex(byte as nat, 2)[0] as u8,
            hex(byte as nat, 2)[1] as u8,
        ) == Some(byte),
{
    reveal_with_fuel(hex, 3);
    let high = byte as nat / 16;
    let low = byte as nat % 16;
    assert(hex(byte as nat, 2) =~= seq![hex_digit(high % 16), hex_digit(low)]);
    assert(high < 16 && high % 16 == high);
    assert(digit_value(hex_digit(high) as u8) == Some(high as u8));
    assert(digit_value(hex_digit(low) as u8) == Some(low as u8));
}

/// Two bytes spell the number `value` just where the second is the digit of its
/// low half, and the first that of its high half, or a plus sign where the high
/// half is zero. A letter may be of either case.
pub proof fn law_pair_value(first: u8, second: u8, value: u8)
    ensures
        pair_value(first, second) == Some(value) <==> ({
            let high = value as int / 16;
            let low = value as int % 16;
            &&& {
                ||| low <= 9 && second == '0' as int + low
                ||| low >= 10 && second == 'a' as int + low - 10
                ||| low >= 10 && second == 'A' as int + low - 10
            }
            &&& {
                ||| high <= 9 && first == '0' as int + high
                ||| high >= 10 && first == 'a' as int + high - 10
                ||| high >= 10 && first == 'A' as int + high - 10
                ||| high == 0 && first == '+' as int
            }
        }),
{
}

fn digit(byte: u8) -> (value: Option<u8>)
    ensures
        value == digit_value(byte),
{
    if 0x30 <= byte && byte <= 0x39 {
        Some(byte - 0x30)
    } else if 0x61 <= byte && byte <= 0x66 {
        Some(byte - 0x61 + 10)
    } else if 0x41 <= byte && byte <= 0x46 {
        Some(byte - 0x41 + 10)
    } else {
        None
    }
}

/// Reads a two-byte hexadecimal number.
pub(crate) fn pair(first: u8, second: u8) -> (value: Option<u8>)
    ensures
        value == pair_value(first, second),
{
    match (digit(first), digit(second)) {
        (Some(high), Some(low)) => Some(16 * high + low),
        (None, Some(low)) => if first == 0x2b {
            Some(low)
        } else {
            None
        },
        _ => None,
    }
}

} // verus!
