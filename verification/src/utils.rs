//! Bit-field helpers shared by the instruction set.

use vstd::arithmetic::power2::{lemma2_to64, lemma_pow2_strictly_increases, pow2};
use vstd::bits::lemma_u16_shl_is_mul;
use vstd::prelude::*;

verus! {

/// Whether the top bit of the `bit_count`-wide field in the low bits of `x`
/// is set, which makes the field negative in two's complement.
pub open spec fn is_negative_field(x: u16, bit_count: usize) -> bool {
    (x >> ((bit_count - 1) as usize)) & 1 != 0
}

/// The 16-bit word that `sign_extend` yields: a negative field gets every bit
/// from `bit_count` upwards set, any other word is left as it is.
pub open spec fn sign_extended(x: u16, bit_count: usize) -> u16 {
    if is_negative_field(x, bit_count) {
        x | (0xFFFFu16 << bit_count)
    } else {
        x
    }
}

/// Widens the `bit_count`-wide two's-complement field in `x` to 16 bits.
pub fn sign_extend(x: u16, bit_count: usize) -> (r: u16)
    requires
        1 <= bit_count <= 15,
    ensures
        r == sign_extended(x, bit_count),
{
    if (x >> (bit_count - 1)) & 1 != 0 {
        x | (0xFFFF << bit_count)
    } else {
        x
    }
}

/// The low byte of a word: bits 7 to 0.
pub open spec fn low_byte_of(word: u16) -> u8 {
    (word % 256) as u8
}

/// The high byte of a word: bits 15 to 8.
pub open spec fn high_byte_of(word: u16) -> u8 {
    (word / 256) as u8
}

/// Returns the low byte of `word`.
pub fn low_byte(word: u16) -> (byte: u8)
    ensures
        byte == low_byte_of(word),
{
    assert(word & 0xFF == word % 256) by (bit_vector);
    (word & 0xFF) as u8
}

/// Returns the high byte of `word`.
pub fn high_byte(word: u16) -> (byte: u8)
    ensures
        byte == high_byte_of(word),
{
    assert(word >> 8 == word / 256) by (bit_vector);
    (word >> 8) as u8
}

/// The number that a 16-bit word stands for in two's complement.
pub open spec fn word_value(word: u16) -> int {
    if word < 0x8000 {
        word as int
    } else {
        word - 0x10000
    }
}

/// The number that the `bit_count`-wide field `x` stands for in two's
/// complement.
pub open spec fn field_value(x: u16, bit_count: usize) -> int {
    if x < pow2((bit_count - 1) as nat) {
        x as int
    } else {
        x - pow2(bit_count as nat)
    }
}

/// Sign extension of a negative field sets every bit from `bit_count`
/// upwards and keeps the bits below; any other word it leaves unchanged.
pub proof fn lemma_sign_extend_bits(x: u16, bit_count: usize, bit: usize)
    requires
        1 <= bit_count <= 15,
        bit <= 15,
    ensures
        is_negative_field(x, bit_count) && bit >= bit_count ==> (sign_extended(x, bit_count)
            >> bit) & 1 == 1,
        bit < bit_count ==> (sign_extended(x, bit_count) >> bit) & 1 == (x >> bit) & 1,
        !is_negative_field(x, bit_count) ==> sign_extended(x, bit_count) == x,
{
    let n = bit_count as u16;
    let b = bit as u16;
    let extended = x | (0xFFFFu16 << n);
    assert(1 <= n <= 15 && b <= 15 ==> {
        &&& b >= n ==> (extended >> b) & 1 == 1
        &&& b < n ==> (extended >> b) & 1 == (x >> b) & 1
    }) by (bit_vector)
        requires
            extended == x | (0xFFFFu16 << n),
    ;
}

/// Sign extension keeps the number that a field stands for: the 16-bit word
/// reads in two's complement as the field did.
pub proof fn lemma_sign_extend_keeps_value(x: u16, bit_count: usize)
    requires
        1 <= bit_count <= 15,
        x < pow2(bit_count as nat),
    ensures
        word_value(sign_extended(x, bit_count)) == field_value(x, bit_count),
        -pow2((bit_count - 1) as nat) <= field_value(x, bit_count) < pow2((bit_count - 1) as nat),
{
    let n = bit_count as u16;
    let below = (bit_count - 1) as u16;
    lemma2_to64();
    lemma_pow2_strictly_increases(bit_count as nat, 16);
    lemma_pow2_strictly_increases((bit_count - 1) as nat, bit_count as nat);
    lemma_u16_shl_is_mul(1, n);
    lemma_u16_shl_is_mul(1, below);
    let whole = 1u16 << n;
    let half = 1u16 << below;
    assert(1 <= n <= 15 && below == n - 1 && x < whole ==> {
        &&& whole == 2 * half
        &&& ((x >> below) & 1 != 0) == (x >= half)
        &&& x >= half ==> (x | (0xFFFFu16 << n)) == x + 0x10000 - whole
        &&& x >= half ==> (x | (0xFFFFu16 << n)) >= 0x8000
    }) by (bit_vector)
        requires
            whole == 1u16 << n,
            half == 1u16 << below,
    ;
}

/// Adding a word to an address, wrapping round, moves the address by the
/// number that the word stands for in two's complement, modulo 2^16.
pub proof fn lemma_wrapping_add_is_signed(address: u16, offset: u16)
    ensures
        address.wrapping_add(offset) == (address + word_value(offset)) % 0x10000,
{
}

} // verus!
