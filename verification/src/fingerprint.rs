//! FNV-1a fingerprints of byte strings and their lowercase hexadecimal
//! spelling, the source of every deterministic interchange identifier.

use vstd::prelude::*;

use crate::text::{hex_digit, push_hex_digit};

verus! {

/// The 64-bit FNV prime.
pub const FNV_PRIME: u64 = 0x100000001b3;

/// One FNV-1a round: xor the byte in, then multiply modulo 2^64.
pub open spec fn fnv_step(hash: u64, byte: u8) -> u64 {
    (hash ^ (byte as u64)).wrapping_mul(FNV_PRIME)
}

/// FNV-1a of `bytes`, starting from the basis `offset`.
pub open spec fn spec_fnv64(bytes: Seq<u8>, offset: u64) -> u64
    decreases bytes.len(),
{
    if bytes.len() == 0 {
        offset
    } else {
        fnv_step(spec_fnv64(bytes.drop_last(), offset), bytes.last())
    }
}

/// FNV-1a of `bytes` from the basis `offset`.
pub fn fnv64(bytes: &[u8], offset: u64) -> (hash: u64)
    ensures
        hash == spec_fnv64(bytes@, offset),
{
    let mut hash: u64 = offset;
    let mut i: usize = 0;
    while i < bytes.len()
        invariant
            i <= bytes.len(),
            hash == spec_fnv64(bytes@.take(i as int), offset),
        decreases bytes.len() - i,
    {
        hash = (hash ^ (bytes[i] as u64)).wrapping_mul(FNV_PRIME);
        proof {
            assert(bytes@.take(i + 1).drop_last() =~= bytes@.take(i as int));
        }
        i = i + 1;
    }
    proof {
        assert(bytes@.take(i as int) =~= bytes@);
    }
    hash
}

/// The nibble of `value` at hexadecimal position `index`, most significant first.
pub open spec fn nibble(value: u64, index: int) -> u64 {
    (value >> ((60 - 4 * index) as u64)) & 15
}

/// The sixteen lowercase hexadecimal digits of `value`, zero padded.
pub open spec fn hex16(value: u64) -> Seq<char> {
    Seq::new(16, |i: int| hex_digit(nibble(value, i)))
}

/// The two lowercase hexadecimal digits of one byte.
pub open spec fn hex_byte(byte: u8) -> Seq<char> {
    seq![hex_digit((byte >> 4u8) as u64), hex_digit((byte & 15u8) as u64)]
}

/// Appends the sixteen zero-padded hexadecimal digits of `value`.
pub fn push_hex16(text: &mut String, value: u64)
    ensures
        final(text)@ == old(text)@ + hex16(value),
{
    let mut i: u64 = 0;
    while i < 16
        invariant
            i <= 16,
            text@ == old(text)@ + hex16(value).take(i as int),
        decreases 16 - i,
    {
        let shift: u64 = 60 - 4 * i;
        let digit: u64 = (value >> shift) & 15;
        assert(digit < 16) by (bit_vector)
            requires
                digit == (value >> shift) & 15,
        ;
        push_hex_digit(text, digit);
        proof {
            assert(digit == nibble(value, i as int));
            assert(hex16(value).take(i + 1) =~= hex16(value).take(i as int).push(hex_digit(digit)));
        }
        i = i + 1;
    }
    proof {
        assert(hex16(value).take(16) =~= hex16(value));
    }
}

/// Appends the two hexadecimal digits of one byte.
pub fn push_hex_byte(text: &mut String, byte: u8)
    ensures
        final(text)@ == old(text)@ + hex_byte(byte),
{
    let high: u8 = byte >> 4u8;
    let low: u8 = byte & 15u8;
    assert(high < 16 && low < 16) by (bit_vector)
        requires
            high == byte >> 4u8,
            low == byte & 15u8,
    ;
    push_hex_digit(text, high as u64);
    push_hex_digit(text, low as u64);
    proof {
        assert(text@ =~= old(text)@ + hex_byte(byte));
    }
}

} // verus!
