//! Little-endian integers as byte sequences.

use vstd::arithmetic::power;
use vstd::prelude::*;
use zerocopy::byteorder::little_endian;
use zerocopy::FromBytes;
use zerocopy::IntoBytes;

verus! {

/// The `width` low bytes of `value`, least significant first.
pub open spec fn le_bytes(value: nat, width: nat) -> Seq<u8>
    decreases width,
{
    if width == 0 {
        Seq::empty()
    } else {
        seq![(value % 256) as u8] + le_bytes(value / 256, (width - 1) as nat)
    }
}

/// The number that `bytes` spell, least significant byte first.
pub open spec fn le_value(bytes: Seq<u8>) -> nat
    decreases bytes.len(),
{
    if bytes.len() == 0 {
        0
    } else {
        bytes[0] as nat + 256 * le_value(bytes.drop_first())
    }
}

/// The number of values that `width` bytes can hold.
pub open spec fn byte_values(width: nat) -> nat
    decreases width,
{
    if width == 0 {
        1
    } else {
        256 * byte_values((width - 1) as nat)
    }
}

/// An encoding has the width that was asked for.
pub proof fn lemma_le_bytes_len(value: nat, width: nat)
    ensures
        le_bytes(value, width).len() == width,
    decreases width,
{
    if width > 0 {
        lemma_le_bytes_len(value / 256, (width - 1) as nat);
    }
}

/// Decoding an encoding gives back the value, if the width can hold it.
pub proof fn lemma_le_value_of_le_bytes(value: nat, width: nat)
    requires
        value < byte_values(width),
    ensures
        le_value(le_bytes(value, width)) == value,
    decreases width,
{
    if width > 0 {
        let rest = le_bytes(value / 256, (width - 1) as nat);
        lemma_le_value_of_le_bytes(value / 256, (width - 1) as nat);
        assert(le_bytes(value, width).drop_first() =~= rest);
    }
}

/// Encoding what bytes decode to gives back the bytes.
pub proof fn lemma_le_bytes_of_le_value(bytes: Seq<u8>)
    ensures
        le_bytes(le_value(bytes), bytes.len()) == bytes,
        le_value(bytes) < byte_values(bytes.len()),
    decreases bytes.len(),
{
    if bytes.len() > 0 {
        let rest = bytes.drop_first();
        lemma_le_bytes_of_le_value(rest);
        assert(le_value(bytes) % 256 == bytes[0] as nat);
        assert(le_value(bytes) / 256 == le_value(rest));
        assert(le_bytes(le_value(bytes), bytes.len()) =~= bytes);
    }
}

/// The widths of the two integer fields hold every value of their types.
pub proof fn lemma_integer_widths()
    ensures
        byte_values(4) == u32::MAX + 1,
        byte_values(8) == u64::MAX + 1,
{
    reveal_with_fuel(byte_values, 9);
}

/// Law: byte `i` of an encoding is digit `i` of the value in base 256, counted
/// from the least significant one.
pub proof fn lemma_le_bytes_are_digits(value: nat, width: nat)
    ensures
        le_bytes(value, width).len() == width,
        forall|i: int|
            0 <= i < width ==> le_bytes(value, width)[i] as int == value as int
                / power::pow(256, i as nat) % 256,
    decreases width,
{
    lemma_le_bytes_len(value, width);
    if width > 0 {
        let rest = le_bytes(value / 256, (width - 1) as nat);
        lemma_le_bytes_are_digits(value / 256, (width - 1) as nat);
        assert forall|i: int| 0 <= i < width implies le_bytes(value, width)[i] as int
            == value as int / power::pow(256, i as nat) % 256 by {
            if i == 0 {
                power::lemma_pow0(256);
            } else {
                let scale = power::pow(256, (i - 1) as nat);
                reveal(power::pow);
                assert(power::pow(256, i as nat) == 256 * scale);
                power::lemma_pow_positive(256, (i - 1) as nat);
                vstd::arithmetic::div_mod::lemma_div_denominator(value as int, 256, scale);
                assert(le_bytes(value, width)[i] == rest[i - 1]);
            }
        }
    }
}

/// Law: the bytes that a number is read from are its digits in base 256, and the
/// number is no larger than as many digits can spell.
pub proof fn lemma_le_value_has_digits(bytes: Seq<u8>)
    ensures
        forall|i: int|
            0 <= i < bytes.len() ==> bytes[i] as int == le_value(bytes) as int
                / power::pow(256, i as nat) % 256,
        le_value(bytes) < power::pow(256, bytes.len()),
{
    lemma_le_bytes_of_le_value(bytes);
    lemma_le_bytes_are_digits(le_value(bytes), bytes.len());
    lemma_byte_values_is_power(bytes.len());
}

/// Law: `width` bytes can hold 256 to the power of `width` values.
pub proof fn lemma_byte_values_is_power(width: nat)
    ensures
        byte_values(width) == power::pow(256, width),
    decreases width,
{
    reveal(power::pow);
    if width > 0 {
        lemma_byte_values_is_power((width - 1) as nat);
    }
}

/// `zerocopy::IntoBytes::as_bytes` on `zerocopy`'s little-endian `U64`: the
/// eight bytes of `value`, least significant first, on every platform.
#[verifier::external_body]
pub(crate) fn u64_as_bytes(value: u64) -> (bytes: Vec<u8>)
    ensures
        bytes@ == le_bytes(value as nat, 8),
{
    little_endian::U64::new(value).as_bytes().to_vec()
}

/// `zerocopy::IntoBytes::as_bytes` on `zerocopy`'s little-endian `U32`: the
/// four bytes of `value`, least significant first, on every platform.
#[verifier::external_body]
pub(crate) fn u32_as_bytes(value: u32) -> (bytes: Vec<u8>)
    ensures
        bytes@ == le_bytes(value as nat, 4),
{
    little_endian::U32::new(value).as_bytes().to_vec()
}

/// `zerocopy::FromBytes::read_from_bytes` on `zerocopy`'s little-endian `U64`:
/// the number that the bytes spell if there are eight of them, else an error.
#[verifier::external_body]
pub(crate) fn u64_read_from_bytes(bytes: &[u8]) -> (value: Option<u64>)
    ensures
        value == (if bytes@.len() == 8 {
            Some(le_value(bytes@) as u64)
        } else {
            None
        }),
{
    match little_endian::U64::read_from_bytes(bytes) {
        Ok(value) => Some(value.get()),
        Err(_) => None,
    }
}

/// `zerocopy::FromBytes::read_from_bytes` on `zerocopy`'s little-endian `U32`:
/// the number that the bytes spell if there are four of them, else an error.
#[verifier::external_body]
pub(crate) fn u32_read_from_bytes(bytes: &[u8]) -> (value: Option<u32>)
    ensures
        value == (if bytes@.len() == 4 {
            Some(le_value(bytes@) as u32)
        } else {
            None
        }),
{
    match little_endian::U32::read_from_bytes(bytes) {
        Ok(value) => Some(value.get()),
        Err(_) => None,
    }
}

} // verus!
