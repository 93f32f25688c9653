//! Index arithmetic on a closed ring of vertices.

use vstd::prelude::*;

verus! {

/// The index that follows `index` on a ring of `count` vertices.
pub open spec fn spec_next_index(index: int, count: int) -> int {
    if index + 1 >= count {
        0
    } else {
        index + 1
    }
}

/// The index that precedes `index` on a ring of `count` vertices.
pub open spec fn spec_prev_index(index: int, count: int) -> int {
    if index <= 0 {
        count - 1
    } else {
        index - 1
    }
}

/// Steps forward along the ring, wrapping from the last index to the first.
pub fn next_index(index: usize, count: usize) -> (next: usize)
    requires
        index < count,
    ensures
        next == spec_next_index(index as int, count as int),
        next < count,
{
    if index == count - 1 {
        0
    } else {
        index + 1
    }
}

/// Steps backward along the ring, wrapping from the first index to the last.
pub fn prev_index(index: usize, count: usize) -> (prev: usize)
    requires
        index < count,
    ensures
        prev == spec_prev_index(index as int, count as int),
        prev < count,
{
    if index == 0 {
        count - 1
    } else {
        index - 1
    }
}

/// `steps` forward steps from `index`.
pub open spec fn spec_advance(index: int, count: int, steps: nat) -> int
    decreases steps,
{
    if steps == 0 {
        index
    } else {
        spec_next_index(spec_advance(index, count, (steps - 1) as nat), count)
    }
}

/// A step forward followed by a step backward returns to the start, and so
/// does a step backward followed by a step forward.
pub proof fn lemma_steps_cancel(index: int, count: int)
    requires
        0 <= index < count,
    ensures
        spec_prev_index(spec_next_index(index, count), count) == index,
        spec_next_index(spec_prev_index(index, count), count) == index,
{
}

/// Forward steps amount to addition modulo the ring's size.
pub proof fn lemma_advance_is_modular(index: int, count: int, steps: nat)
    requires
        0 <= index < count,
    ensures
        spec_advance(index, count, steps) == (index + steps) % count,
    decreases steps,
{
    if steps == 0 {
        vstd::arithmetic::div_mod::lemma_small_mod(index as nat, count as nat);
    } else {
        lemma_advance_is_modular(index, count, (steps - 1) as nat);
        let before = (index + steps - 1) % count;
        vstd::arithmetic::div_mod::lemma_mod_bound(index + steps - 1, count);
        vstd::arithmetic::div_mod::lemma_fundamental_div_mod(index + steps - 1, count);
        let q = (index + steps - 1) / count;
        if before + 1 >= count {
            assert(index + steps == count * (q + 1)) by (nonlinear_arith)
                requires
                    index + steps - 1 == count * q + before,
                    before + 1 == count,
            ;
            vstd::arithmetic::div_mod::lemma_mod_multiples_basic(q + 1, count);
            assert((count * (q + 1)) % count == 0) by {
                vstd::arithmetic::mul::lemma_mul_is_commutative(count, q + 1);
            }
        } else {
            assert(index + steps == q * count + (before + 1)) by (nonlinear_arith)
                requires
                    index + steps - 1 == count * q + before,
            ;
            vstd::arithmetic::div_mod::lemma_fundamental_div_mod_converse(
                index + steps,
                count,
                q,
                before + 1,
            );
        }
    }
}

/// Once around the ring: `count` forward steps return to the start.
pub proof fn lemma_full_turn(index: int, count: int)
    requires
        0 <= index < count,
    ensures
        spec_advance(index, count, count as nat) == index,
{
    lemma_advance_is_modular(index, count, count as nat);
    vstd::arithmetic::div_mod::lemma_mod_add_multiples_vanish(index, count);
    vstd::arithmetic::div_mod::lemma_small_mod(index as nat, count as nat);
}

/// `steps` backward steps from `index`.
pub open spec fn spec_retreat(index: int, count: int, steps: nat) -> int
    decreases steps,
{
    if steps == 0 {
        index
    } else {
        spec_prev_index(spec_retreat(index, count, (steps - 1) as nat), count)
    }
}

/// Forward and backward steps stay on the ring.
pub proof fn lemma_steps_stay_on_ring(index: int, count: int, steps: nat)
    requires
        0 <= index < count,
    ensures
        0 <= spec_advance(index, count, steps) < count,
        0 <= spec_retreat(index, count, steps) < count,
    decreases steps,
{
    if steps > 0 {
        lemma_steps_stay_on_ring(index, count, (steps - 1) as nat);
    }
}

/// As many steps backward as forward lead back to the start.
pub proof fn lemma_retreat_undoes_advance(index: int, count: int, steps: nat)
    requires
        0 <= index < count,
    ensures
        spec_retreat(spec_advance(index, count, steps), count, steps) == index,
    decreases steps,
{
    if steps > 0 {
        let before = spec_advance(index, count, (steps - 1) as nat);
        lemma_steps_stay_on_ring(index, count, (steps - 1) as nat);
        lemma_retreat_shifts(spec_next_index(before, count), count, (steps - 1) as nat);
        lemma_retreat_undoes_advance(index, count, (steps - 1) as nat);
    }
}

/// A step backward may be taken before the others as well as after them.
pub proof fn lemma_retreat_shifts(index: int, count: int, steps: nat)
    requires
        0 <= index < count,
    ensures
        spec_retreat(index, count, steps + 1) == spec_retreat(
            spec_prev_index(index, count),
            count,
            steps,
        ),
    decreases steps,
{
    assert(spec_retreat(index, count, steps + 1) == spec_prev_index(
        spec_retreat(index, count, steps),
        count,
    ));
    if steps > 0 {
        lemma_retreat_shifts(index, count, (steps - 1) as nat);
        assert(spec_retreat(index, count, steps) == spec_retreat(
            spec_prev_index(index, count),
            count,
            (steps - 1) as nat,
        ));
    } else {
        assert(spec_retreat(index, count, 0) == index);
        assert(spec_retreat(spec_prev_index(index, count), count, 0) == spec_prev_index(
            index,
            count,
        ));
    }
}

} // verus!
