//! The buffer that bits are pushed onto.

use crate::model::{
    drop_low,
    lemma_shift_in_fits,
    lemma_shift_in_parts,
    low_bits,
    ones,
    shift_in,
};
use crate::word::Word;
use vstd::arithmetic::power2::pow2;
use vstd::prelude::*;

verus! {

/// A buffer that gathers bits in one integer.
///
/// The bits pushed so far sit right-aligned in the integer, the most recent
/// ones in the lowest places. The buffer does not count them: when more are
/// pushed than the integer has, the oldest are lost.
pub struct PushBuffer<T> {
    bytes: T,
}

impl<T: Word> View for PushBuffer<T> {
    type V = nat;

    /// The bits of the buffer read as a binary number.
    closed spec fn view(&self) -> nat {
        self.bytes.pattern()
    }
}

impl<T: Word> Default for PushBuffer<T> {
    /// An empty buffer: all its bits are zero.
    #[inline]
    fn default() -> (r: Self)
        ensures
            r@ == 0,
    {
        PushBuffer { bytes: T::zero() }
    }
}

impl<T: Word> PushBuffer<T> {
    /// Pushes the `amount` least significant bits of `bits` onto the buffer;
    /// the other bits of `bits` are ignored. What the buffer held moves up
    /// by `amount` places and the bits that pass its top are lost. Where
    /// none of them was set, no set bit is lost or made.
    #[inline]
    pub fn push_bits(&mut self, amount: u32, bits: u8)
        requires
            1 <= amount <= 8,
        ensures
            final(self)@ == shift_in(T::width(), old(self)@, amount as nat, bits as nat),
            low_bits(final(self)@, amount as nat) == low_bits(bits as nat, amount as nat),
            drop_low(final(self)@, amount as nat) == low_bits(
                old(self)@,
                (T::width() - amount) as nat,
            ),
            old(self)@ < pow2((T::width() - amount) as nat) ==> ones(final(self)@) == ones(
                old(self)@,
            ) + ones(low_bits(bits as nat, amount as nat)),
    {
        proof {
            self.bytes.lemma_pattern_bound();
            lemma_shift_in_parts(T::width(), self@, amount as nat, bits as nat);
            if self@ < pow2((T::width() - amount) as nat) {
                lemma_shift_in_fits(T::width(), self@, amount as nat, bits as nat);
            }
        }
        self.bytes = self.bytes.shift_left_with(amount, bits);
    }

    /// Ends the pushing and hands out the integer that holds the bits.
    #[inline]
    pub fn into_bytes(self) -> (r: T)
        ensures
            r.pattern() == self@,
    {
        self.bytes
    }

    /// The content of a buffer fits in the width of its integer.
    pub proof fn lemma_view_bound(self)
        ensures
            self@ < pow2(T::width()),
    {
        self.bytes.lemma_pattern_bound();
    }
}

} // verus!
