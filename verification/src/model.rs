//! The mathematical model of the buffers.
//!
//! A buffer of width `w` is modelled by the natural number below `2^w` whose
//! binary digits are the buffer's bits, whatever the signedness of the
//! integer that stores them. Bit 0 is the least significant one. One pop and
//! one push are then plain arithmetic on that number.

use vstd::arithmetic::div_mod::{
    lemma_div_denominator,
    lemma_fundamental_div_mod,
    lemma_fundamental_div_mod_converse,
    lemma_mod_breakdown,
    lemma_mod_mod,
    lemma_small_mod,
};
use vstd::arithmetic::mul::{lemma_mul_inequality, lemma_mul_is_commutative};
use vstd::arithmetic::power2::{
    lemma2_to64,
    lemma_pow2_adds,
    lemma_pow2_pos,
    lemma_pow2_strictly_increases,
    lemma_pow2_unfold,
    pow2,
};
use vstd::prelude::*;

verus! {

/// The number formed by the `amount` least significant bits of `v`.
pub open spec fn low_bits(v: nat, amount: nat) -> nat {
    v % pow2(amount)
}

/// What is left of `v` once its `amount` least significant bits are gone and
/// the others have moved down to bit 0.
pub open spec fn drop_low(v: nat, amount: nat) -> nat {
    v / pow2(amount)
}

/// The content of a buffer of `width` bits that held `v`, after the `amount`
/// least significant bits of `bits` were pushed onto it: `v` moves up by
/// `amount` places, what passes the top of the buffer is lost, and the new
/// bits fill the low end.
pub open spec fn shift_in(width: nat, v: nat, amount: nat, bits: nat) -> nat {
    (v * pow2(amount) + low_bits(bits, amount)) % pow2(width)
}

/// Whether bit `i` of `v` is set.
pub open spec fn bit(v: nat, i: nat) -> bool {
    drop_low(v, i) % 2 == 1
}

/// The number of bits of `v` that are set.
pub open spec fn ones(v: nat) -> nat
    decreases v,
{
    if v == 0 {
        0
    } else {
        v % 2 + ones(v / 2)
    }
}

/// The low bits of `v` are below `2^amount`.
pub proof fn lemma_low_bits_bound(v: nat, amount: nat)
    ensures
        low_bits(v, amount) < pow2(amount),
{
    lemma_pow2_pos(amount);
}

/// A number below `2^a` is below `2^b` for every `b` from `a` on.
pub proof fn lemma_fits(n: nat, a: nat, b: nat)
    requires
        n < pow2(a),
        a <= b,
    ensures
        n < pow2(b),
{
    if a < b {
        lemma_pow2_strictly_increases(a, b);
    }
}

/// Taking `a` low bits out of the `b` low bits of `v` is taking them out of
/// `v` itself, as long as `a` is at most `b`.
pub proof fn lemma_low_bits_nested(v: nat, a: nat, b: nat)
    requires
        a <= b,
    ensures
        low_bits(low_bits(v, b), a) == low_bits(v, a),
{
    lemma_pow2_pos(a);
    lemma_pow2_pos((b - a) as nat);
    lemma_pow2_adds(a, (b - a) as nat);
    lemma_mod_mod(v as int, pow2(a) as int, pow2((b - a) as nat) as int);
}

/// The `a + b` low bits of `v` are its `a` low bits with, above them, the `b`
/// low bits of what is left; and dropping `a` bits, then `b`, drops `a + b`.
pub proof fn lemma_split(v: nat, a: nat, b: nat)
    ensures
        low_bits(v, a + b) == low_bits(v, a) + pow2(a) * low_bits(drop_low(v, a), b),
        drop_low(drop_low(v, a), b) == drop_low(v, a + b),
{
    lemma_pow2_pos(a);
    lemma_pow2_pos(b);
    lemma_pow2_adds(a, b);
    lemma_mod_breakdown(v as int, pow2(a) as int, pow2(b) as int);
    lemma_div_denominator(v as int, pow2(a) as int, pow2(b) as int);
}

/// A number made of `high` above `amount` low bits `low` splits back into
/// the two.
pub proof fn lemma_join(high: nat, low: nat, amount: nat)
    requires
        low < pow2(amount),
    ensures
        low_bits(high * pow2(amount) + low, amount) == low,
        drop_low(high * pow2(amount) + low, amount) == high,
{
    lemma_pow2_pos(amount);
    lemma_fundamental_div_mod_converse(
        (high * pow2(amount) + low) as int,
        pow2(amount) as int,
        high as int,
        low as int,
    );
}

/// Dropping `amount` bits from a number of `width` bits leaves a number of
/// `width - amount` bits.
pub proof fn lemma_drop_low_bound(width: nat, v: nat, amount: nat)
    requires
        amount <= width,
        v < pow2(width),
    ensures
        drop_low(v, amount) < pow2((width - amount) as nat),
{
    let p = pow2(amount) as int;
    let q = pow2((width - amount) as nat) as int;
    let d = drop_low(v, amount) as int;
    lemma_pow2_pos(amount);
    lemma_pow2_adds(amount, (width - amount) as nat);
    lemma_fundamental_div_mod(v as int, p);
    if d >= q {
        lemma_mul_inequality(q, d, p);
        lemma_mul_is_commutative(p, q);
        lemma_mul_is_commutative(p, d);
    }
}

/// Every set bit of `v` is either among its `amount` low bits or among the
/// others, and none is in both.
pub proof fn lemma_ones_split(v: nat, amount: nat)
    ensures
        ones(v) == ones(low_bits(v, amount)) + ones(drop_low(v, amount)),
    decreases amount,
{
    if amount == 0 {
        lemma2_to64();
    } else if v == 0 {
        lemma_pow2_pos(amount);
    } else {
        let rest = (amount - 1) as nat;
        lemma_pow2_pos(rest);
        lemma_pow2_unfold(amount);
        lemma_ones_split(v / 2, rest);
        lemma_mod_breakdown(v as int, 2, pow2(rest) as int);
        lemma_div_denominator(v as int, 2, pow2(rest) as int);
    }
}

/// After a push the `amount` low bits of the buffer are the bits pushed, and
/// above them stands the old content without its `amount` top bits.
pub proof fn lemma_shift_in_parts(width: nat, v: nat, amount: nat, bits: nat)
    requires
        amount <= width,
    ensures
        low_bits(shift_in(width, v, amount, bits), amount) == low_bits(bits, amount),
        drop_low(shift_in(width, v, amount, bits), amount) == low_bits(
            v,
            (width - amount) as nat,
        ),
{
    let low = low_bits(bits, amount);
    let kept = low_bits(v, (width - amount) as nat);
    let n = v * pow2(amount) + low;
    let p = pow2(amount) as int;
    let q = pow2((width - amount) as nat) as int;
    lemma_pow2_pos(amount);
    lemma_pow2_pos((width - amount) as nat);
    lemma_pow2_adds(amount, (width - amount) as nat);
    lemma_low_bits_bound(bits, amount);
    lemma_join(v, low, amount);
    lemma_mod_breakdown(n as int, p, q);
    lemma_mul_is_commutative(p, kept as int);
    lemma_join(kept, low, amount);
}

/// A number of `width - amount` bits, written above one of `amount` bits,
/// makes a number of `width` bits.
pub proof fn lemma_join_bound(width: nat, high: nat, low: nat, amount: nat)
    requires
        amount <= width,
        high < pow2((width - amount) as nat),
        low < pow2(amount),
    ensures
        high * pow2(amount) + low < pow2(width),
{
    lemma_pow2_adds((width - amount) as nat, amount);
    assert(high * pow2(amount) + low < pow2(width)) by (nonlinear_arith)
        requires
            low < pow2(amount),
            high < pow2((width - amount) as nat),
            pow2(width) == pow2((width - amount) as nat) * pow2(amount),
    ;
}

/// Pushing onto a buffer whose `amount` top bits are zero loses nothing: the
/// old content stands above the new bits, and no set bit is gained or lost.
pub proof fn lemma_shift_in_fits(width: nat, v: nat, amount: nat, bits: nat)
    requires
        amount <= width,
        v < pow2((width - amount) as nat),
    ensures
        shift_in(width, v, amount, bits) == v * pow2(amount) + low_bits(bits, amount),
        ones(shift_in(width, v, amount, bits)) == ones(v) + ones(low_bits(bits, amount)),
{
    let low = low_bits(bits, amount);
    let n = v * pow2(amount) + low;
    lemma_low_bits_bound(bits, amount);
    lemma_join_bound(width, v, low, amount);
    lemma_small_mod(n, pow2(width));
    lemma_join(v, low, amount);
    lemma_ones_split(n, amount);
}

} // verus!
