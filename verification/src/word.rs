//! The fixed-width integers that a buffer can keep its bits in.

use crate::model::{drop_low, low_bits, shift_in};
use crate::sealed::Sealed;
use vstd::arithmetic::power2::{lemma2_to64, lemma_pow2_strictly_increases, pow2};
use vstd::bits::lemma_u32_shl_is_mul;
use vstd::prelude::*;

verus! {

/// A fixed-width integer, seen as a row of `width()` bits.
///
/// The operations shift logically: what a shift vacates is filled with zero
/// bits, also where the integer is signed and negative.
pub trait Word: Copy + Sealed {
    /// The number of bits of the integer.
    spec fn width() -> nat;

    /// The bits of the integer read as a binary number, bit 0 being the least
    /// significant. For a signed integer this is its two's complement
    /// pattern, so `-1` reads as `2^width - 1`.
    spec fn pattern(self) -> nat;

    /// A word has at least eight bits, and its pattern fits in them.
    proof fn lemma_pattern_bound(self)
        ensures
            8 <= Self::width(),
            self.pattern() < pow2(Self::width()),
    ;

    /// Two words with the same pattern are the same integer.
    proof fn lemma_pattern_injective(self, other: Self)
        requires
            self.pattern() == other.pattern(),
        ensures
            self == other,
    ;

    /// The word whose bits are all zero.
    fn zero() -> (r: Self)
        ensures
            r.pattern() == 0,
    ;

    /// The `amount` least significant bits, zero-extended to a byte.
    fn low(self, amount: u32) -> (r: u8)
        requires
            1 <= amount <= 8,
        ensures
            r == low_bits(self.pattern(), amount as nat),
    ;

    /// The word moved down by `amount` bits, zero bits coming in at the top.
    /// Moving an eight-bit word by eight bits gives zero.
    fn shift_right(self, amount: u32) -> (r: Self)
        requires
            1 <= amount <= 8,
        ensures
            r.pattern() == drop_low(self.pattern(), amount as nat),
    ;

    /// The word moved up by `amount` bits, its top bits falling off, with the
    /// `amount` least significant bits of `bits` in the places that came
    /// free. The other bits of `bits` are ignored.
    fn shift_left_with(self, amount: u32, bits: u8) -> (r: Self)
        requires
            1 <= amount <= 8,
        ensures
            r.pattern() == shift_in(Self::width(), self.pattern(), amount as nat, bits as nat),
    ;
}

/// `2^amount` as the machine computes it, for the amounts that occur.
pub(crate) proof fn lemma_pow2_is_shift(amount: u32)
    requires
        amount <= 8,
    ensures
        pow2(amount as nat) == (1u32 << amount),
{
    lemma2_to64();
    lemma_pow2_strictly_increases(amount as nat, 9);
    lemma_u32_shl_is_mul(1, amount);
}

/// The byte that keeps the `amount` least significant bits of `bits` and has
/// zero bits above them.
#[inline]
pub(crate) fn mask_low(bits: u8, amount: u32) -> (r: u8)
    requires
        1 <= amount <= 8,
    ensures
        r == low_bits(bits as nat, amount as nat),
{
    let bitmask: u8 = 0xFF >> (8 - amount);
    let r: u8 = bits & bitmask;
    proof {
        lemma_pow2_is_shift(amount);
        let p: u32 = 1u32 << amount;
        assert(r == (bits as u32) % p) by (bit_vector)
            requires
                1 <= amount <= 8,
                p == 1u32 << amount,
                bitmask == 0xFFu8 >> ((8 - amount) as u32),
                r == bits & bitmask,
        ;
    }
    r
}

} // verus!
