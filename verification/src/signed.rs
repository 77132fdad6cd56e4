//! The signed integers as buffer words.
//!
//! A signed word stands for the same row of bits as the unsigned integer of
//! its width that it casts to. Each operation is done on that unsigned
//! integer, so that a right shift never copies the sign bit.

use crate::model::{drop_low, lemma_drop_low_bound, lemma_fits};
use crate::word::Word;
use vstd::arithmetic::power2::{lemma2_to64, lemma_pow2_adds, lemma_pow2_unfold, pow2};
use vstd::prelude::*;

verus! {

/// What a shift down by one bit or more leaves of a number of `width` bits
/// is below `2^(width - 1)`: its top bit is zero.
proof fn lemma_top_bit_clear(width: nat, v: nat, amount: nat)
    requires
        1 <= amount <= width,
        v < pow2(width),
    ensures
        2 * drop_low(v, amount) < pow2(width),
{
    lemma_drop_low_bound(width, v, amount);
    lemma_fits(drop_low(v, amount), (width - amount) as nat, (width - 1) as nat);
    lemma_pow2_unfold(width);
}

/// Casting an `i8` to `u8` keeps its bits.
proof fn lemma_i8_to_u8(x: i8)
    by (bit_vector)
    ensures
        (x as u8) == (if x < 0 {
            x + 0x100
        } else {
            x as int
        }),
{
}

/// Casting a `u8` to `i8` keeps its bits.
proof fn lemma_u8_to_i8(y: u8)
    by (bit_vector)
    ensures
        y == (if (y as i8) < 0 {
            (y as i8) + 0x100
        } else {
            (y as i8) as int
        }),
{
}

impl Word for i8 {
    open spec fn width() -> nat {
        8
    }

    open spec fn pattern(self) -> nat {
        if self < 0 {
            (self + 0x100) as nat
        } else {
            self as nat
        }
    }

    proof fn lemma_pattern_bound(self) {
        lemma2_to64();
    }

    proof fn lemma_pattern_injective(self, other: Self) {
    }

    #[inline]
    fn zero() -> (r: Self) {
        0
    }

    #[inline]
    fn low(self, amount: u32) -> (r: u8) {
        proof {
            lemma_i8_to_u8(self);
        }
        (#[verifier::truncate] (self as u8)).low(amount)
    }

    /// What is left is never negative: the sign bit is not copied down.
    #[inline]
    fn shift_right(self, amount: u32) -> (r: Self)
        ensures
            0 <= r,
    {
        let shifted: u8 = (#[verifier::truncate] (self as u8)).shift_right(amount);
        proof {
            lemma2_to64();
            lemma_i8_to_u8(self);
            lemma_u8_to_i8(shifted);
            lemma_top_bit_clear(8, self.pattern(), amount as nat);
        }
        #[verifier::truncate] (shifted as i8)
    }

    #[inline]
    fn shift_left_with(self, amount: u32, bits: u8) -> (r: Self) {
        let shifted: u8 = (#[verifier::truncate] (self as u8)).shift_left_with(amount, bits);
        proof {
            lemma_i8_to_u8(self);
            lemma_u8_to_i8(shifted);
        }
        #[verifier::truncate] (shifted as i8)
    }
}

/// Casting an `i16` to `u16` keeps its bits.
proof fn lemma_i16_to_u16(x: i16)
    by (bit_vector)
    ensures
        (x as u16) == (if x < 0 {
            x + 0x1_0000
        } else {
            x as int
        }),
{
}

/// Casting a `u16` to `i16` keeps its bits.
proof fn lemma_u16_to_i16(y: u16)
    by (bit_vector)
    ensures
        y == (if (y as i16) < 0 {
            (y as i16) + 0x1_0000
        } else {
            (y as i16) as int
        }),
{
}

impl Word for i16 {
    open spec fn width() -> nat {
        16
    }

    open spec fn pattern(self) -> nat {
        if self < 0 {
            (self + 0x1_0000) as nat
        } else {
            self as nat
        }
    }

    proof fn lemma_pattern_bound(self) {
        lemma2_to64();
    }

    proof fn lemma_pattern_injective(self, other: Self) {
    }

    #[inline]
    fn zero() -> (r: Self) {
        0
    }

    #[inline]
    fn low(self, amount: u32) -> (r: u8) {
        proof {
            lemma_i16_to_u16(self);
        }
        (#[verifier::truncate] (self as u16)).low(amount)
    }

    /// What is left is never negative: the sign bit is not copied down.
    #[inline]
    fn shift_right(self, amount: u32) -> (r: Self)
        ensures
            0 <= r,
    {
        let shifted: u16 = (#[verifier::truncate] (self as u16)).shift_right(amount);
        proof {
            lemma2_to64();
            lemma_i16_to_u16(self);
            lemma_u16_to_i16(shifted);
            lemma_top_bit_clear(16, self.pattern(), amount as nat);
        }
        #[verifier::truncate] (shifted as i16)
    }

    #[inline]
    fn shift_left_with(self, amount: u32, bits: u8) -> (r: Self) {
        let shifted: u16 = (#[verifier::truncate] (self as u16)).shift_left_with(amount, bits);
        proof {
            lemma_i16_to_u16(self);
            lemma_u16_to_i16(shifted);
        }
        #[verifier::truncate] (shifted as i16)
    }
}

/// Casting an `i32` to `u32` keeps its bits.
proof fn lemma_i32_to_u32(x: i32)
    by (bit_vector)
    ensures
        (x as u32) == (if x < 0 {
            x + 0x1_0000_0000
        } else {
            x as int
        }),
{
}

/// Casting a `u32` to `i32` keeps its bits.
proof fn lemma_u32_to_i32(y: u32)
    by (bit_vector)
    ensures
        y == (if (y as i32) < 0 {
            (y as i32) + 0x1_0000_0000
        } else {
            (y as i32) as int
        }),
{
}

impl Word for i32 {
    open spec fn width() -> nat {
        32
    }

    open spec fn pattern(self) -> nat {
        if self < 0 {
            (self + 0x1_0000_0000) as nat
        } else {
            self as nat
        }
    }

    proof fn lemma_pattern_bound(self) {
        lemma2_to64();
    }

    proof fn lemma_pattern_injective(self, other: Self) {
    }

    #[inline]
    fn zero() -> (r: Self) {
        0
    }

    #[inline]
    fn low(self, amount: u32) -> (r: u8) {
        proof {
            lemma_i32_to_u32(self);
        }
        (#[verifier::truncate] (self as u32)).low(amount)
    }

    /// What is left is never negative: the sign bit is not copied down.
    #[inline]
    fn shift_right(self, amount: u32) -> (r: Self)
        ensures
            0 <= r,
    {
        let shifted: u32 = (#[verifier::truncate] (self as u32)).shift_right(amount);
        proof {
            lemma2_to64();
            lemma_i32_to_u32(self);
            lemma_u32_to_i32(shifted);
            lemma_top_bit_clear(32, self.pattern(), amount as nat);
        }
        #[verifier::truncate] (shifted as i32)
    }

    #[inline]
    fn shift_left_with(self, amount: u32, bits: u8) -> (r: Self) {
        let shifted: u32 = (#[verifier::truncate] (self as u32)).shift_left_with(amount, bits);
        proof {
            lemma_i32_to_u32(self);
            lemma_u32_to_i32(shifted);
        }
        #[verifier::truncate] (shifted as i32)
    }
}

/// Casting an `i64` to `u64` keeps its bits.
proof fn lemma_i64_to_u64(x: i64)
    by (bit_vector)
    ensures
        (x as u64) == (if x < 0 {
            x + 0x1_0000_0000_0000_0000
        } else {
            x as int
        }),
{
}

/// Casting a `u64` to `i64` keeps its bits.
proof fn lemma_u64_to_i64(y: u64)
    by (bit_vector)
    ensures
        y == (if (y as i64) < 0 {
            (y as i64) + 0x1_0000_0000_0000_0000
        } else {
            (y as i64) as int
        }),
{
}

impl Word for i64 {
    open spec fn width() -> nat {
        64
    }

    open spec fn pattern(self) -> nat {
        if self < 0 {
            (self + 0x1_0000_0000_0000_0000) as nat
        } else {
            self as nat
        }
    }

    proof fn lemma_pattern_bound(self) {
        lemma2_to64();
    }

    proof fn lemma_pattern_injective(self, other: Self) {
    }

    #[inline]
    fn zero() -> (r: Self) {
        0
    }

    #[inline]
    fn low(self, amount: u32) -> (r: u8) {
        proof {
            lemma_i64_to_u64(self);
        }
        (#[verifier::truncate] (self as u64)).low(amount)
    }

    /// What is left is never negative: the sign bit is not copied down.
    #[inline]
    fn shift_right(self, amount: u32) -> (r: Self)
        ensures
            0 <= r,
    {
        let shifted: u64 = (#[verifier::truncate] (self as u64)).shift_right(amount);
        proof {
            lemma2_to64();
            lemma_i64_to_u64(self);
            lemma_u64_to_i64(shifted);
            lemma_top_bit_clear(64, self.pattern(), amount as nat);
        }
        #[verifier::truncate] (shifted as i64)
    }

    #[inline]
    fn shift_left_with(self, amount: u32, bits: u8) -> (r: Self) {
        let shifted: u64 = (#[verifier::truncate] (self as u64)).shift_left_with(amount, bits);
        proof {
            lemma_i64_to_u64(self);
            lemma_u64_to_i64(shifted);
        }
        #[verifier::truncate] (shifted as i64)
    }
}

/// Casting an `i128` to `u128` keeps its bits.
proof fn lemma_i128_to_u128(x: i128)
    by (bit_vector)
    ensures
        (x as u128) == (if x < 0 {
            x + 0x1_0000_0000_0000_0000_0000_0000_0000_0000
        } else {
            x as int
        }),
{
}

/// Casting a `u128` to `i128` keeps its bits.
proof fn lemma_u128_to_i128(y: u128)
    by (bit_vector)
    ensures
        y == (if (y as i128) < 0 {
            (y as i128) + 0x1_0000_0000_0000_0000_0000_0000_0000_0000
        } else {
            (y as i128) as int
        }),
{
}

impl Word for i128 {
    open spec fn width() -> nat {
        128
    }

    open spec fn pattern(self) -> nat {
        if self < 0 {
            (self + 0x1_0000_0000_0000_0000_0000_0000_0000_0000) as nat
        } else {
            self as nat
        }
    }

    proof fn lemma_pattern_bound(self) {
        lemma2_to64();
        lemma_pow2_adds(64, 64);
    }

    proof fn lemma_pattern_injective(self, other: Self) {
    }

    #[inline]
    fn zero() -> (r: Self) {
        0
    }

    #[inline]
    fn low(self, amount: u32) -> (r: u8) {
        proof {
            lemma_i128_to_u128(self);
        }
        (#[verifier::truncate] (self as u128)).low(amount)
    }

    /// What is left is never negative: the sign bit is not copied down.
    #[inline]
    fn shift_right(self, amount: u32) -> (r: Self)
        ensures
            0 <= r,
    {
        let shifted: u128 = (#[verifier::truncate] (self as u128)).shift_right(amount);
        proof {
            lemma2_to64();
        lemma_pow2_adds(64, 64);
            lemma_i128_to_u128(self);
            lemma_u128_to_i128(shifted);
            lemma_top_bit_clear(128, self.pattern(), amount as nat);
        }
        #[verifier::truncate] (shifted as i128)
    }

    #[inline]
    fn shift_left_with(self, amount: u32, bits: u8) -> (r: Self) {
        let shifted: u128 = (#[verifier::truncate] (self as u128)).shift_left_with(amount, bits);
        proof {
            lemma_i128_to_u128(self);
            lemma_u128_to_i128(shifted);
        }
        #[verifier::truncate] (shifted as i128)
    }
}

} // verus!
