//! Unsigned integers as byte sequences, in either byte order.

use vstd::arithmetic::div_mod::lemma_div_denominator;
use vstd::arithmetic::power::{lemma_pow_positive, pow};
use vstd::prelude::*;

verus! {

/// The order in which a machine keeps the bytes of an integer.
#[derive(Debug, Clone, Copy, PartialEq, Eq, Structural)]
pub enum ByteOrder {
    /// Least significant byte first.
    Little,
    /// Most significant byte first.
    Big,
}

/// The `width` low bytes of `value`, least significant byte first.
pub open spec fn le_bytes(value: nat, width: nat) -> Seq<u8>
    decreases width,
{
    if width == 0 {
        Seq::empty()
    } else {
        seq![(value % 256) as u8] + le_bytes(value / 256, (width - 1) as nat)
    }
}

/// The number that `bytes` spells, least significant byte first.
pub open spec fn le_value(bytes: Seq<u8>) -> nat
    decreases bytes.len(),
{
    if bytes.len() == 0 {
        0
    } else {
        bytes[0] as nat + 256 * le_value(bytes.drop_first())
    }
}

/// 256 to the power of `width`: the first number that does not fit in `width` bytes.
pub open spec fn byte_capacity(width: nat) -> nat
    decreases width,
{
    if width == 0 {
        1
    } else {
        256 * byte_capacity((width - 1) as nat)
    }
}

/// The `width` low bytes of `value` in a byte order.
pub open spec fn int_bytes(order: ByteOrder, value: nat, width: nat) -> Seq<u8> {
    match order {
        ByteOrder::Little => le_bytes(value, width),
        ByteOrder::Big => le_bytes(value, width).reverse(),
    }
}

/// The number that `bytes` spells in a byte order.
pub open spec fn int_value(order: ByteOrder, bytes: Seq<u8>) -> nat {
    match order {
        ByteOrder::Little => le_value(bytes),
        ByteOrder::Big => le_value(bytes.reverse()),
    }
}

/// `le_bytes` yields exactly as many bytes as it is asked for.
proof fn lemma_le_bytes_len(value: nat, width: nat)
    ensures
        le_bytes(value, width).len() == width,
    decreases width,
{
    if width > 0 {
        lemma_le_bytes_len(value / 256, (width - 1) as nat);
    }
}

/// `int_bytes` yields exactly as many bytes as it is asked for.
pub broadcast proof fn lemma_int_bytes_len(order: ByteOrder, value: nat, width: nat)
    ensures
        (#[trigger] int_bytes(order, value, width)).len() == width,
{
    lemma_le_bytes_len(value, width);
}

/// A byte sequence spells a number that fits in its length.
pub proof fn lemma_int_value_bound(order: ByteOrder, bytes: Seq<u8>)
    ensures
        int_value(order, bytes) < byte_capacity(bytes.len()),
{
    lemma_le_value_bound(bytes);
    lemma_le_value_bound(bytes.reverse());
}

/// A byte sequence spells a number that fits in its length.
proof fn lemma_le_value_bound(bytes: Seq<u8>)
    ensures
        le_value(bytes) < byte_capacity(bytes.len()),
    decreases bytes.len(),
{
    if bytes.len() > 0 {
        lemma_le_value_bound(bytes.drop_first());
    }
}

/// The capacities of the two integer widths in use.
pub proof fn lemma_byte_capacity_values()
    ensures
        byte_capacity(4) == 0x1_0000_0000,
        byte_capacity(8) == 0x1_0000_0000_0000_0000,
{
    reveal_with_fuel(byte_capacity, 9);
}

/// A longer sequence has room for at least as many numbers.
pub proof fn lemma_byte_capacity_monotonic(a: nat, b: nat)
    requires
        a <= b,
    ensures
        1 <= byte_capacity(a) <= byte_capacity(b),
    decreases b,
{
    if b > 0 {
        if a == b {
            lemma_byte_capacity_monotonic((a - 1) as nat, (b - 1) as nat);
        } else {
            lemma_byte_capacity_monotonic(a, (b - 1) as nat);
        }
    }
}

/// Reading back the bytes of a number that fits gives the number.
proof fn lemma_value_of_le_bytes(value: nat, width: nat)
    requires
        value < byte_capacity(width),
    ensures
        le_value(le_bytes(value, width)) == value,
    decreases width,
{
    if width > 0 {
        let rest = le_bytes(value / 256, (width - 1) as nat);
        lemma_value_of_le_bytes(value / 256, (width - 1) as nat);
        assert(le_bytes(value, width).drop_first() =~= rest);
    }
}

/// Writing the number that a byte sequence spells gives the sequence.
proof fn lemma_le_bytes_of_value(bytes: Seq<u8>)
    ensures
        le_bytes(le_value(bytes), bytes.len()) == bytes,
    decreases bytes.len(),
{
    if bytes.len() > 0 {
        let rest = bytes.drop_first();
        lemma_le_bytes_of_value(rest);
        let value = le_value(bytes);
        assert(value % 256 == bytes[0] && value / 256 == le_value(rest));
        assert(le_bytes(value, bytes.len()) =~= bytes);
    }
}

/// In either byte order, reading back the bytes of a number that fits gives the
/// number.
pub proof fn law_value_of_bytes(order: ByteOrder, value: nat, width: nat)
    requires
        value < byte_capacity(width),
    ensures
        int_value(order, int_bytes(order, value, width)) == value,
{
    lemma_value_of_le_bytes(value, width);
    assert(le_bytes(value, width).reverse().reverse() =~= le_bytes(value, width));
}

/// In either byte order, writing the number that a byte sequence spells gives
/// the sequence.
pub proof fn law_bytes_of_value(order: ByteOrder, bytes: Seq<u8>)
    ensures
        int_bytes(order, int_value(order, bytes), bytes.len()) == bytes,
{
    lemma_le_bytes_of_value(bytes);
    lemma_le_bytes_of_value(bytes.reverse());
    assert(bytes.reverse().reverse() =~= bytes);
}

/// The capacity of `width` bytes is 256 to the power of `width`.
pub proof fn law_byte_capacity(width: nat)
    ensures
        byte_capacity(width) == pow(256, width),
    decreases width,
{
    reveal(pow);
    if width > 0 {
        law_byte_capacity((width - 1) as nat);
    }
}

/// The byte of weight 256 to the power of `i`, least significant byte first.
proof fn lemma_le_byte(value: nat, width: nat, i: nat)
    requires
        i < width,
    ensures
        le_bytes(value, width)[i as int] as int == (value as int / pow(256, i)) % 256,
    decreases width,
{
    reveal(pow);
    lemma_le_bytes_len(value / 256, (width - 1) as nat);
    if i > 0 {
        let less = (i - 1) as nat;
        lemma_le_byte(value / 256, (width - 1) as nat, less);
        lemma_pow_positive(256, less);
        lemma_div_denominator(value as int, 256, pow(256, less));
    }
}

/// The byte of weight 256 to the power of `i` is that digit of the number in
/// base 256. It stands `i` places from the start in one byte order, and `i`
/// places from the end in the other.
pub proof fn law_byte_of_weight(order: ByteOrder, value: nat, width: nat, i: nat)
    requires
        i < width,
    ensures
        int_bytes(order, value, width).len() == width,
        order is Little ==> int_bytes(order, value, width)[i as int] as int == (value as int / pow(
            256,
            i,
        )) % 256,
        order is Big ==> int_bytes(order, value, width)[width - 1 - i] as int == (value as int
            / pow(256, i)) % 256,
{
    lemma_int_bytes_len(order, value, width);
    lemma_le_bytes_len(value, width);
    lemma_le_byte(value, width, i);
}

/// The number that bytes spell has each byte as its digit of that weight in
/// base 256, and no further digits.
pub proof fn law_weight_of_byte(order: ByteOrder, bytes: Seq<u8>, i: nat)
    requires
        i < bytes.len(),
    ensures
        int_value(order, bytes) < pow(256, bytes.len()),
        order is Little ==> (int_value(order, bytes) as int / pow(256, i)) % 256
            == bytes[i as int],
        order is Big ==> (int_value(order, bytes) as int / pow(256, i)) % 256
            == bytes[bytes.len() - 1 - i],
{
    law_bytes_of_value(order, bytes);
    law_byte_of_weight(order, int_value(order, bytes), bytes.len(), i);
    lemma_int_value_bound(order, bytes);
    law_byte_capacity(bytes.len());
}

/// Appends the `width` low bytes of `value` to `buf`, least significant byte
/// first.
fn push_le(buf: &mut Vec<u8>, value: u64, width: usize)
    ensures
        final(buf)@ == old(buf)@ + le_bytes(value as nat, width as nat),
{
    let mut rest: u64 = value;
    let mut left: usize = width;
    assert(buf@ + le_bytes(rest as nat, left as nat) =~= old(buf)@ + le_bytes(
        value as nat,
        width as nat,
    ));
    while left > 0
        invariant
            left <= width,
            buf@ + le_bytes(rest as nat, left as nat) == old(buf)@ + le_bytes(
                value as nat,
                width as nat,
            ),
        decreases left,
    {
        let ghost before = buf@;
        let ghost tail = le_bytes(rest as nat / 256, (left - 1) as nat);
        let byte: u8 = (rest % 256) as u8;
        buf.push(byte);
        assert(before + (seq![byte] + tail) =~= buf@ + tail);
        rest = rest / 256;
        left = left - 1;
    }
    assert(buf@ + le_bytes(rest as nat, 0) =~= buf@);
}

/// Appends the `width` low bytes of `value` to `buf`, most significant byte
/// first.
fn push_be(buf: &mut Vec<u8>, value: u64, width: usize)
    ensures
        final(buf)@ == old(buf)@ + le_bytes(value as nat, width as nat).reverse(),
    decreases width,
{
    if width > 0 {
        push_be(buf, value / 256, width - 1);
        buf.push((value % 256) as u8);
        proof {
            let rest = le_bytes(value as nat / 256, (width - 1) as nat);
            assert((seq![(value as nat % 256) as u8] + rest).reverse() =~= rest.reverse().push(
                (value % 256) as u8,
            ));
        }
    }
    assert(buf@ =~= old(buf)@ + le_bytes(value as nat, width as nat).reverse());
}

/// Appends the `width` low bytes of `value` to `buf` in a byte order.
pub(crate) fn push_int(buf: &mut Vec<u8>, order: ByteOrder, value: u64, width: usize)
    ensures
        final(buf)@ == old(buf)@ + int_bytes(order, value as nat, width as nat),
{
    match order {
        ByteOrder::Little => push_le(buf, value, width),
        ByteOrder::Big => push_be(buf, value, width),
    }
}

/// Reads the `width` bytes of `buf` from position `at` on as a number, least
/// significant byte first.
fn read_le(buf: &[u8], at: usize, width: usize) -> (value: u64)
    requires
        at + width <= buf@.len(),
        width <= 8,
    ensures
        value == le_value(buf@.subrange(at as int, at + width)),
{
    let mut value: u64 = 0;
    let mut left: usize = width;
    assert(buf@.subrange(at + left, at + width) =~= Seq::<u8>::empty());
    while left > 0
        invariant
            left <= width <= 8,
            at + width <= buf.len(),
            buf.len() == buf@.len(),
            value == le_value(buf@.subrange(at + left, at + width)),
        decreases left,
    {
        let ghost done = buf@.subrange(at + left, at + width);
        let ghost longer = buf@.subrange(at + left - 1, at + width);
        proof {
            assert(longer.drop_first() =~= done);
            lemma_le_value_bound(longer);
            lemma_byte_capacity_monotonic(longer.len(), 8);
            lemma_byte_capacity_values();
        }
        left = left - 1;
        value = buf[at + left] as u64 + 256 * value;
    }
    value
}

/// Reads the `width` bytes of `buf` from position `at` on as a number, most
/// significant byte first.
fn read_be(buf: &[u8], at: usize, width: usize) -> (value: u64)
    requires
        at + width <= buf@.len(),
        width <= 8,
    ensures
        value == le_value(buf@.subrange(at as int, at + width).reverse()),
{
    let mut value: u64 = 0;
    let mut i: usize = 0;
    assert(buf@.subrange(at as int, at + i).reverse() =~= Seq::<u8>::empty());
    while i < width
        invariant
            i <= width <= 8,
            at + width <= buf.len(),
            buf.len() == buf@.len(),
            value == le_value(buf@.subrange(at as int, at + i).reverse()),
        decreases width - i,
    {
        let ghost done = buf@.subrange(at as int, at + i).reverse();
        let ghost longer = buf@.subrange(at as int, at + i + 1).reverse();
        proof {
            assert(longer.drop_first() =~= done);
            lemma_le_value_bound(longer);
            lemma_byte_capacity_monotonic(longer.len(), 8);
            lemma_byte_capacity_values();
        }
        value = buf[at + i] as u64 + 256 * value;
        i = i + 1;
    }
    value
}

/// Reads the `width` bytes of `buf` from position `at` on as a number in a byte
/// order.
pub(crate) fn read_int(buf: &[u8], order: ByteOrder, at: usize, width: usize) -> (value: u64)
    requires
        at + width <= buf@.len(),
        width <= 8,
    ensures
        value == int_value(order, buf@.subrange(at as int, at + width)),
{
    match order {
        ByteOrder::Little => read_le(buf, at, width),
        ByteOrder::Big => read_be(buf, at, width),
    }
}

} // verus!
