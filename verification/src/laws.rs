//! What holds of the buffers, bit by bit and over runs of calls.
//!
//! The laws speak of the model in which `PopBuffer::pop_bits` and
//! `PushBuffer::push_bits` state their effect: one pop on a buffer that
//! holds `v` returns `low_bits(v, amount)` and leaves `drop_low(v, amount)`,
//! one push leaves `shift_in(width, v, amount, bits)`. A run of calls is
//! followed by the functions of `runs`.

use crate::model::{
    bit,
    drop_low,
    lemma_drop_low_bound,
    lemma_fits,
    lemma_join,
    lemma_join_bound,
    lemma_low_bits_bound,
    lemma_low_bits_nested,
    lemma_ones_split,
    lemma_shift_in_fits,
    lemma_shift_in_parts,
    lemma_split,
    low_bits,
    ones,
    shift_in,
};
use crate::runs::{
    lsb_first,
    msb_first,
    popped,
    pushed,
    remaining,
    set_bits,
    sum,
    total,
    Chunk,
};
use crate::pop::PopBuffer;
use crate::word::Word;
use vstd::arithmetic::div_mod::{
    lemma_add_mod_noop,
    lemma_mod_mod,
    lemma_mod_multiples_vanish,
    lemma_mul_mod_noop_left,
    lemma_small_mod,
};
use vstd::arithmetic::mul::lemma_mul_is_commutative;
use vstd::arithmetic::power2::{
    lemma2_to64,
    lemma_pow2_adds,
    lemma_pow2_pos,
    lemma_pow2_strictly_increases,
    lemma_pow2_unfold,
    pow2,
};
use vstd::prelude::*;

verus! {

/// A pop moves the bits that it leaves down by `amount` places: bit `i` of
/// the content left was bit `i + amount` before.
pub proof fn law_pop_moves_bits_down(v: nat, amount: nat, i: nat)
    ensures
        bit(drop_low(v, amount), i) == bit(v, i + amount),
{
    lemma_split(v, amount, i);
}

/// What a pop returns has the bits of the content below place `amount`, in
/// their places, and no bit from there on.
pub proof fn law_pop_returns_bits(v: nat, amount: nat, i: nat)
    ensures
        bit(low_bits(v, amount), i) == (i < amount && bit(v, i)),
{
    let low = low_bits(v, amount);
    lemma_pow2_pos(i);
    lemma_pow2_pos(amount);
    if i < amount {
        let span = (amount - i) as nat;
        let middle = low_bits(drop_low(v, i), span);
        lemma_pow2_pos((span - 1) as nat);
        lemma_pow2_unfold(span);
        lemma_pow2_adds(i, span);
        lemma_split(v, i, span);
        lemma_low_bits_bound(v, i);
        lemma_mul_is_commutative(pow2(i) as int, middle as int);
        lemma_join(middle, low_bits(v, i), i);
        lemma_mod_mod(drop_low(v, i) as int, 2, pow2((span - 1) as nat) as int);
    } else {
        lemma_low_bits_bound(v, amount);
        if amount < i {
            lemma_pow2_strictly_increases(amount, i);
        }
        lemma_join(0, low, i);
    }
}

/// After a push, the bits below place `amount` are those pushed, the bits
/// from there up to the top of the buffer are the old content moved up by
/// `amount` places, and the number has no bit beyond.
pub proof fn law_push_moves_bits_up(width: nat, v: nat, amount: nat, bits: nat, i: nat)
    requires
        amount <= width,
    ensures
        bit(shift_in(width, v, amount, bits), i) == (if i < amount {
            bit(bits, i)
        } else {
            i < width && bit(v, (i - amount) as nat)
        }),
{
    let n = shift_in(width, v, amount, bits);
    lemma_shift_in_parts(width, v, amount, bits);
    if i < amount {
        law_pop_returns_bits(n, amount, i);
        law_pop_returns_bits(bits, amount, i);
    } else {
        law_pop_moves_bits_down(n, amount, (i - amount) as nat);
        law_pop_returns_bits(v, (width - amount) as nat, (i - amount) as nat);
    }
}

/// Successive pops take a buffer apart from its low end. Whatever the
/// amounts, the groups they return, written with the first one in the least
/// significant place, are the low bits of the original content, as many as
/// were popped; the buffer keeps the others.
pub proof fn law_pops_return_low_bits(v: nat, amounts: Seq<nat>)
    ensures
        popped(v, amounts).len() == amounts.len(),
        total(popped(v, amounts)) == sum(amounts),
        lsb_first(popped(v, amounts)) == low_bits(v, sum(amounts)),
        remaining(v, amounts) == drop_low(v, sum(amounts)),
    decreases amounts.len(),
{
    if amounts.len() == 0 {
        lemma2_to64();
    } else {
        let before = amounts.drop_last();
        let amount = amounts.last();
        let group = Chunk { amount, bits: low_bits(remaining(v, before), amount) };
        law_pops_return_low_bits(v, before);
        assert(popped(v, amounts).drop_last() =~= popped(v, before));
        assert(popped(v, amounts).last() == group);
        lemma_low_bits_nested(remaining(v, before), amount, amount);
        lemma_split(v, sum(before), amount);
    }
}

/// Successive pops neither lose nor make a set bit: those of the groups
/// returned and those left in the buffer are, together, as many as the
/// buffer had.
pub proof fn law_pops_conserve_ones(v: nat, amounts: Seq<nat>)
    ensures
        set_bits(popped(v, amounts)) + ones(remaining(v, amounts)) == ones(v),
    decreases amounts.len(),
{
    if amounts.len() > 0 {
        let before = amounts.drop_last();
        let amount = amounts.last();
        let group = Chunk { amount, bits: low_bits(remaining(v, before), amount) };
        law_pops_conserve_ones(v, before);
        assert(popped(v, amounts).drop_last() =~= popped(v, before));
        assert(popped(v, amounts).last() == group);
        lemma_low_bits_nested(remaining(v, before), amount, amount);
        lemma_ones_split(remaining(v, before), amount);
    }
}

/// Pushing a run of groups onto a buffer of `width` bits that holds `v`
/// writes them below `v`, the first group highest, and keeps the `width` low
/// bits of the result.
pub proof fn law_pushes_append(width: nat, v: nat, chunks: Seq<Chunk>)
    requires
        v < pow2(width),
    ensures
        msb_first(chunks) < pow2(total(chunks)),
        pushed(width, v, chunks) == (v * pow2(total(chunks)) + msb_first(chunks)) % pow2(width),
    decreases chunks.len(),
{
    if chunks.len() == 0 {
        lemma2_to64();
        lemma_small_mod(v, pow2(width));
        assert(v * pow2(0) == v) by (nonlinear_arith)
            requires
                pow2(0) == 1,
        ;
    } else {
        let before = chunks.drop_last();
        let amount = chunks.last().amount;
        let low = chunks.last().value();
        let m = pow2(width) as int;
        let p = pow2(amount) as int;
        let q = pow2(total(before)) as int;
        let n = msb_first(before) as int;
        let x = v * q + n;
        law_pushes_append(width, v, before);
        lemma_pow2_pos(width);
        lemma_pow2_pos(amount);
        lemma_pow2_adds(total(before), amount);
        lemma_low_bits_bound(chunks.last().bits, amount);
        assert(n * p + low < q * p) by (nonlinear_arith)
            requires
                0 <= n < q,
                0 <= low < p,
        ;
        assert(((x % m) * p + low) % m == (x * p + low) % m) by {
            lemma_mul_mod_noop_left(x, p, m);
            lemma_add_mod_noop((x % m) * p, low as int, m);
            lemma_add_mod_noop(x * p, low as int, m);
        }
        assert(x * p + low == v * (q * p) + (n * p + low)) by (nonlinear_arith)
            requires
                x == v * q + n,
        ;
    }
}

/// As long as no bit passes the top of the buffer, pushes neither lose nor
/// make a set bit: the buffer has those it had and those of the groups
/// pushed.
pub proof fn law_pushes_conserve_ones(width: nat, v: nat, chunks: Seq<Chunk>)
    requires
        total(chunks) <= width,
        v < pow2((width - total(chunks)) as nat),
    ensures
        pushed(width, v, chunks) == v * pow2(total(chunks)) + msb_first(chunks),
        ones(pushed(width, v, chunks)) == ones(v) + set_bits(chunks),
    decreases chunks.len(),
{
    lemma_fits(v, (width - total(chunks)) as nat, width);
    law_pushes_append(width, v, chunks);
    lemma_join_bound(width, v, msb_first(chunks), total(chunks));
    lemma_small_mod(v * pow2(total(chunks)) + msb_first(chunks), pow2(width));
    if chunks.len() > 0 {
        let before = chunks.drop_last();
        let amount = chunks.last().amount;
        let held = pushed(width, v, before);
        lemma_fits(v, (width - total(chunks)) as nat, (width - total(before)) as nat);
        law_pushes_conserve_ones(width, v, before);
        law_pushes_append(width, v, before);
        lemma_join_bound((width - amount) as nat, v, msb_first(before), total(before));
        lemma_shift_in_fits(width, held, amount, chunks.last().bits);
    }
}

/// Pushing two runs one after the other is pushing the second run onto what
/// the first one left.
pub proof fn law_pushes_compose(width: nat, v: nat, early: Seq<Chunk>, late: Seq<Chunk>)
    ensures
        pushed(width, v, early + late) == pushed(width, pushed(width, v, early), late),
    decreases late.len(),
{
    if late.len() == 0 {
        assert(early + late =~= early);
    } else {
        law_pushes_compose(width, v, early, late.drop_last());
        assert((early + late).drop_last() =~= early + late.drop_last());
        assert((early + late).last() == late.last());
    }
}

/// Bits that are pushed onto an empty buffer and do not overflow it come
/// back when as many bits are popped, however the pushes and the pops cut
/// them into groups: the groups popped, the first one lowest, spell the
/// number that the groups pushed spell, the first one highest. After that the
/// buffer is empty again.
pub proof fn law_round_trip(width: nat, chunks: Seq<Chunk>, amounts: Seq<nat>)
    requires
        total(chunks) <= width,
        sum(amounts) == total(chunks),
    ensures
        pushed(width, 0, chunks) == msb_first(chunks),
        lsb_first(popped(pushed(width, 0, chunks), amounts)) == msb_first(chunks),
        remaining(pushed(width, 0, chunks), amounts) == 0,
{
    let n = msb_first(chunks);
    lemma_pow2_pos(width);
    law_pushes_append(width, 0, chunks);
    lemma_fits(n, total(chunks), width);
    lemma_small_mod(n, pow2(width));
    law_pops_return_low_bits(n, amounts);
    lemma_small_mod(n, pow2(total(chunks)));
    lemma_join(0, n, total(chunks));
}

/// A pop undoes the push before it, if that push lost nothing: it returns
/// the bits that were pushed and leaves the buffer as it was.
pub proof fn law_pop_undoes_push(width: nat, v: nat, amount: nat, bits: nat)
    requires
        amount <= width,
        v < pow2((width - amount) as nat),
    ensures
        low_bits(shift_in(width, v, amount, bits), amount) == low_bits(bits, amount),
        drop_low(shift_in(width, v, amount, bits), amount) == v,
{
    lemma_shift_in_fits(width, v, amount, bits);
    lemma_low_bits_bound(bits, amount);
    lemma_join(v, low_bits(bits, amount), amount);
}

/// Once `width` bits or more were pushed, nothing is left of what came
/// before them: the buffer holds what it would hold had those last pushes
/// been made on an empty buffer, which is the last `width` bits pushed.
pub proof fn law_overflow_discards_oldest(
    width: nat,
    v: nat,
    early: Seq<Chunk>,
    late: Seq<Chunk>,
)
    requires
        v < pow2(width),
        width <= total(late),
    ensures
        pushed(width, v, early + late) == pushed(width, 0, late),
        pushed(width, v, early + late) == low_bits(msb_first(late), width),
{
    let held = pushed(width, v, early);
    let over = (total(late) - width) as nat;
    let m = pow2(width) as int;
    lemma_pow2_pos(width);
    law_pushes_compose(width, v, early, late);
    law_pushes_append(width, v, early);
    law_pushes_append(width, held, late);
    law_pushes_append(width, 0, late);
    lemma_pow2_adds(width, over);
    assert(held * pow2(total(late)) == m * (held * pow2(over))) by (nonlinear_arith)
        requires
            pow2(total(late)) == m * pow2(over),
    ;
    lemma_mod_multiples_vanish((held * pow2(over)) as int, msb_first(late) as int, m);
}

/// A pop fills the top of the buffer with zero bits, whether or not its
/// integer is signed and whatever its sign was: of the content that is left,
/// none of the `amount` highest bits is set, nor any beyond them.
pub proof fn law_pop_fills_with_zeros<T: Word>(buffer: PopBuffer<T>, amount: nat)
    requires
        amount <= T::width(),
    ensures
        drop_low(buffer@, amount) < pow2((T::width() - amount) as nat),
        forall|i: nat| T::width() - amount <= i ==> !#[trigger] bit(drop_low(buffer@, amount), i),
{
    let left = drop_low(buffer@, amount);
    let kept = (T::width() - amount) as nat;
    buffer.lemma_view_bound();
    lemma_drop_low_bound(T::width(), buffer@, amount);
    assert forall|i: nat| kept <= i implies !#[trigger] bit(left, i) by {
        lemma_fits(left, kept, i);
        lemma_join(0, left, i);
    }
}

/// Popping eight bits from a buffer of eight bits returns its whole content
/// and leaves it empty.
pub proof fn law_full_width_pop<T: Word>(buffer: PopBuffer<T>)
    requires
        T::width() == 8,
    ensures
        low_bits(buffer@, 8) == buffer@,
        drop_low(buffer@, 8) == 0,
{
    buffer.lemma_view_bound();
    lemma_join(0, buffer@, 8);
}

/// A push reads only the `amount` least significant bits of its argument:
/// two arguments that agree on them leave the same content.
pub proof fn law_push_ignores_high_bits(width: nat, v: nat, amount: nat, bits: nat, other: nat)
    requires
        low_bits(bits, amount) == low_bits(other, amount),
    ensures
        shift_in(width, v, amount, bits) == shift_in(width, v, amount, other),
        shift_in(width, v, amount, bits) == shift_in(width, v, amount, low_bits(bits, amount)),
{
    lemma_low_bits_nested(bits, amount, amount);
}

} // verus!
