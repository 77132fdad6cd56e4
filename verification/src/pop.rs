//! The buffer that bits are popped from.

use crate::model::{drop_low, lemma_drop_low_bound, lemma_ones_split, low_bits, ones};
use crate::word::Word;
use vstd::arithmetic::power2::pow2;
use vstd::prelude::*;

verus! {

/// A buffer that gives out the bits of one integer, lowest bits first.
///
/// The bits still to come sit right-aligned in the integer. The buffer does
/// not count them: once all have been popped it gives out zero bits.
pub struct PopBuffer<T> {
    bytes: T,
}

impl<T: Word> View for PopBuffer<T> {
    type V = nat;

    /// The bits of the buffer read as a binary number.
    closed spec fn view(&self) -> nat {
        self.bytes.pattern()
    }
}

impl<T: Word> PopBuffer<T> {
    /// A buffer that holds the bits of `bytes`.
    #[inline]
    pub fn from_bytes(bytes: T) -> (r: Self)
        ensures
            r@ == bytes.pattern(),
    {
        PopBuffer { bytes }
    }

    /// Takes the `amount` least significant bits out of the buffer and
    /// returns them, zero-extended to a byte. The other bits move down by
    /// `amount` places and zero bits come in at the top, also where the
    /// integer of the buffer is signed. No set bit is lost or made on the
    /// way.
    #[inline]
    pub fn pop_bits(&mut self, amount: u32) -> (r: u8)
        requires
            1 <= amount <= 8,
        ensures
            r == low_bits(old(self)@, amount as nat),
            final(self)@ == drop_low(old(self)@, amount as nat),
            final(self)@ < pow2((T::width() - amount) as nat),
            ones(r as nat) + ones(final(self)@) == ones(old(self)@),
    {
        proof {
            self.bytes.lemma_pattern_bound();
            lemma_drop_low_bound(T::width(), self@, amount as nat);
            lemma_ones_split(self@, amount as nat);
        }
        let r: u8 = self.bytes.low(amount);
        self.bytes = self.bytes.shift_right(amount);
        r
    }

    /// The content of a buffer fits in the width of its integer.
    pub proof fn lemma_view_bound(self)
        ensures
            self@ < pow2(T::width()),
    {
        self.bytes.lemma_pattern_bound();
    }
}

} // verus!
