//! The unsigned integers as buffer words.

use crate::model::{lemma_low_bits_bound, lemma_low_bits_nested};
use crate::word::{lemma_pow2_is_shift, mask_low, Word};
use vstd::arithmetic::power2::{lemma2_to64, lemma_pow2_adds, pow2};
use vstd::bits::{
    lemma_u128_shr_is_div,
    lemma_u16_shr_is_div,
    lemma_u32_shr_is_div,
    lemma_u64_shr_is_div,
    lemma_u8_shr_is_div,
};
use vstd::prelude::*;

verus! {

impl Word for u8 {
    open spec fn width() -> nat {
        8
    }

    open spec fn pattern(self) -> nat {
        self as nat
    }

    proof fn lemma_pattern_bound(self) {
        lemma2_to64();
    }

    proof fn lemma_pattern_injective(self, other: Self) {
    }

    #[inline]
    fn zero() -> (r: Self) {
        0
    }

    #[inline]
    fn low(self, amount: u32) -> (r: u8) {
        mask_low(self, amount)
    }

    #[inline]
    fn shift_right(self, amount: u32) -> (r: Self) {
        if amount < 8 {
            proof {
                lemma_u8_shr_is_div(self, amount as u8);
            }
            self >> amount
        } else {
            proof {
                lemma2_to64();
            }
            0
        }
    }

    #[inline]
    fn shift_left_with(self, amount: u32, bits: u8) -> (r: Self) {
        let low: u8 = mask_low(bits, amount);
        if amount < 8 {
            let r: u8 = (self << amount) | low;
            proof {
                lemma2_to64();
                lemma_pow2_is_shift(amount);
                lemma_low_bits_bound(bits as nat, amount as nat);
                let p: u32 = 1u32 << amount;
                assert(r == (self * p + low) % 0x100) by (bit_vector)
                    requires
                        1 <= amount < 8,
                        p == 1u32 << amount,
                        low < p,
                        r == (self << amount) | low,
                ;
            }
            r
        } else {
            proof {
                lemma2_to64();
            }
            low
        }
    }
}

impl Word for u16 {
    open spec fn width() -> nat {
        16
    }

    open spec fn pattern(self) -> nat {
        self as nat
    }

    proof fn lemma_pattern_bound(self) {
        lemma2_to64();
    }

    proof fn lemma_pattern_injective(self, other: Self) {
    }

    #[inline]
    fn zero() -> (r: Self) {
        0
    }

    #[inline]
    fn low(self, amount: u32) -> (r: u8) {
        let byte: u8 = #[verifier::truncate] (self as u8);
        proof {
            lemma2_to64();
            assert(byte == self % 0x100) by (bit_vector)
                requires
                    byte == self as u8,
            ;
            lemma_low_bits_nested(self as nat, amount as nat, 8);
        }
        mask_low(byte, amount)
    }

    #[inline]
    fn shift_right(self, amount: u32) -> (r: Self) {
        proof {
            lemma_u16_shr_is_div(self, amount as u16);
        }
        self >> amount
    }

    #[inline]
    fn shift_left_with(self, amount: u32, bits: u8) -> (r: Self) {
        let low: u8 = mask_low(bits, amount);
        let r: u16 = (self << amount) | (low as u16);
        proof {
            lemma2_to64();
            lemma_pow2_is_shift(amount);
            lemma_low_bits_bound(bits as nat, amount as nat);
            let p: u32 = 1u32 << amount;
            assert(r == (self * p + low) % 0x1_0000) by (bit_vector)
                requires
                    1 <= amount <= 8,
                    p == 1u32 << amount,
                    low < p,
                    r == (self << amount) | (low as u16),
            ;
        }
        r
    }
}

impl Word for u32 {
    open spec fn width() -> nat {
        32
    }

    open spec fn pattern(self) -> nat {
        self as nat
    }

    proof fn lemma_pattern_bound(self) {
        lemma2_to64();
    }

    proof fn lemma_pattern_injective(self, other: Self) {
    }

    #[inline]
    fn zero() -> (r: Self) {
        0
    }

    #[inline]
    fn low(self, amount: u32) -> (r: u8) {
        let byte: u8 = #[verifier::truncate] (self as u8);
        proof {
            lemma2_to64();
            assert(byte == self % 0x100) by (bit_vector)
                requires
                    byte == self as u8,
            ;
            lemma_low_bits_nested(self as nat, amount as nat, 8);
        }
        mask_low(byte, amount)
    }

    #[inline]
    fn shift_right(self, amount: u32) -> (r: Self) {
        proof {
            lemma_u32_shr_is_div(self, amount as u32);
        }
        self >> amount
    }

    #[inline]
    fn shift_left_with(self, amount: u32, bits: u8) -> (r: Self) {
        let low: u8 = mask_low(bits, amount);
        let r: u32 = (self << amount) | (low as u32);
        proof {
            lemma2_to64();
            lemma_pow2_is_shift(amount);
            lemma_low_bits_bound(bits as nat, amount as nat);
            let p: u32 = 1u32 << amount;
            assert(r == (self * p + low) % 0x1_0000_0000) by (bit_vector)
                requires
                    1 <= amount <= 8,
                    p == 1u32 << amount,
                    low < p,
                    r == (self << amount) | (low as u32),
            ;
        }
        r
    }
}

impl Word for u64 {
    open spec fn width() -> nat {
        64
    }

    open spec fn pattern(self) -> nat {
        self as nat
    }

    proof fn lemma_pattern_bound(self) {
        lemma2_to64();
    }

    proof fn lemma_pattern_injective(self, other: Self) {
    }

    #[inline]
    fn zero() -> (r: Self) {
        0
    }

    #[inline]
    fn low(self, amount: u32) -> (r: u8) {
        let byte: u8 = #[verifier::truncate] (self as u8);
        proof {
            lemma2_to64();
            assert(byte == self % 0x100) by (bit_vector)
                requires
                    byte == self as u8,
            ;
            lemma_low_bits_nested(self as nat, amount as nat, 8);
        }
        mask_low(byte, amount)
    }

    #[inline]
    fn shift_right(self, amount: u32) -> (r: Self) {
        proof {
            lemma_u64_shr_is_div(self, amount as u64);
        }
        self >> amount
    }

    #[inline]
    fn shift_left_with(self, amount: u32, bits: u8) -> (r: Self) {
        let low: u8 = mask_low(bits, amount);
        let r: u64 = (self << amount) | (low as u64);
        proof {
            lemma2_to64();
            lemma_pow2_is_shift(amount);
            lemma_low_bits_bound(bits as nat, amount as nat);
            let p: u32 = 1u32 << amount;
            assert(r == (self * p + low) % 0x1_0000_0000_0000_0000) by (bit_vector)
                requires
                    1 <= amount <= 8,
                    p == 1u32 << amount,
                    low < p,
                    r == (self << amount) | (low as u64),
            ;
        }
        r
    }
}

impl Word for u128 {
    open spec fn width() -> nat {
        128
    }

    open spec fn pattern(self) -> nat {
        self as nat
    }

    proof fn lemma_pattern_bound(self) {
        lemma_pow2_128();
    }

    proof fn lemma_pattern_injective(self, other: Self) {
    }

    #[inline]
    fn zero() -> (r: Self) {
        0
    }

    #[inline]
    fn low(self, amount: u32) -> (r: u8) {
        let byte: u8 = #[verifier::truncate] (self as u8);
        proof {
            lemma2_to64();
            assert(byte == self % 0x100) by (bit_vector)
                requires
                    byte == self as u8,
            ;
            lemma_low_bits_nested(self as nat, amount as nat, 8);
        }
        mask_low(byte, amount)
    }

    #[inline]
    fn shift_right(self, amount: u32) -> (r: Self) {
        proof {
            lemma_u128_shr_is_div(self, amount as u128);
        }
        self >> amount
    }

    #[inline]
    fn shift_left_with(self, amount: u32, bits: u8) -> (r: Self) {
        let low: u8 = mask_low(bits, amount);
        let r: u128 = (self << amount) | (low as u128);
        proof {
            lemma_pow2_128();
            lemma_pow2_is_shift(amount);
            lemma_low_bits_bound(bits as nat, amount as nat);
            let p: u32 = 1u32 << amount;
            assert(r == (self * p + low)
                % 0x1_0000_0000_0000_0000_0000_0000_0000_0000int) by (bit_vector)
                requires
                    1 <= amount <= 8,
                    p == 1u32 << amount,
                    low < p,
                    r == (self << amount) | (low as u128),
            ;
        }
        r
    }
}

/// The value of `2^128`.
proof fn lemma_pow2_128()
    ensures
        pow2(128) == 0x1_0000_0000_0000_0000_0000_0000_0000_0000,
{
    lemma2_to64();
    lemma_pow2_adds(64, 64);
}

} // verus!
