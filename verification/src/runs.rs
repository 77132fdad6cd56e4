//! Runs of calls on one buffer, in the model.
//!
//! A run of pushes is given by the groups pushed, a run of pops by the
//! amounts asked for. Each function here follows the calls one by one, as a
//! caller makes them.

use crate::model::{drop_low, low_bits, ones, shift_in};
use vstd::arithmetic::power2::pow2;
use vstd::prelude::*;

verus! {

/// A group of bits as one call moves it: the `amount` least significant bits
/// of `bits`.
pub struct Chunk {
    pub amount: nat,
    pub bits: nat,
}

impl Chunk {
    /// The bits of the group read as a binary number.
    pub open spec fn value(self) -> nat {
        low_bits(self.bits, self.amount)
    }
}

/// The number of bits in a run of groups.
pub open spec fn total(chunks: Seq<Chunk>) -> nat
    decreases chunks.len(),
{
    if chunks.len() == 0 {
        0
    } else {
        total(chunks.drop_last()) + chunks.last().amount
    }
}

/// The sum of a run of amounts.
pub open spec fn sum(amounts: Seq<nat>) -> nat
    decreases amounts.len(),
{
    if amounts.len() == 0 {
        0
    } else {
        sum(amounts.drop_last()) + amounts.last()
    }
}

/// The number whose binary digits are the groups written one after the
/// other, the first group in the most significant place.
pub open spec fn msb_first(chunks: Seq<Chunk>) -> nat
    decreases chunks.len(),
{
    if chunks.len() == 0 {
        0
    } else {
        msb_first(chunks.drop_last()) * pow2(chunks.last().amount) + chunks.last().value()
    }
}

/// The number whose binary digits are the groups written one after the
/// other, the first group in the least significant place.
pub open spec fn lsb_first(chunks: Seq<Chunk>) -> nat
    decreases chunks.len(),
{
    if chunks.len() == 0 {
        0
    } else {
        lsb_first(chunks.drop_last()) + pow2(total(chunks.drop_last())) * chunks.last().value()
    }
}

/// The number of set bits in a run of groups.
pub open spec fn set_bits(chunks: Seq<Chunk>) -> nat
    decreases chunks.len(),
{
    if chunks.len() == 0 {
        0
    } else {
        set_bits(chunks.drop_last()) + ones(chunks.last().value())
    }
}

/// The content of a buffer of `width` bits that held `v`, after the groups
/// were pushed onto it one by one, the first group first.
pub open spec fn pushed(width: nat, v: nat, chunks: Seq<Chunk>) -> nat
    decreases chunks.len(),
{
    if chunks.len() == 0 {
        v
    } else {
        shift_in(
            width,
            pushed(width, v, chunks.drop_last()),
            chunks.last().amount,
            chunks.last().bits,
        )
    }
}

/// The content of a buffer that held `v`, after one pop for each of the
/// amounts, in their order.
pub open spec fn remaining(v: nat, amounts: Seq<nat>) -> nat
    decreases amounts.len(),
{
    if amounts.len() == 0 {
        v
    } else {
        drop_low(remaining(v, amounts.drop_last()), amounts.last())
    }
}

/// What the pops return, one group for each of the amounts, when they are
/// made in that order on a buffer that holds `v`.
pub open spec fn popped(v: nat, amounts: Seq<nat>) -> Seq<Chunk>
    decreases amounts.len(),
{
    if amounts.len() == 0 {
        Seq::empty()
    } else {
        popped(v, amounts.drop_last()).push(
            Chunk {
                amount: amounts.last(),
                bits: low_bits(remaining(v, amounts.drop_last()), amounts.last()),
            },
        )
    }
}

} // verus!
