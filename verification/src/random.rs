//! The game's source of chance: a small xorshift64* generator.

use vstd::prelude::*;

verus! {

/// The state that the generator starts from.
pub const RANDOM_SEED: u64 = 0x9e3779b97f4a7c15;

/// The multiplier that scrambles a state into the bits handed out.
pub const RANDOM_MULTIPLIER: u64 = 0x2545f4914f6cdd1d;

/// The first shift of a step.
pub open spec fn shift_right_12(x: u64) -> u64 {
    x ^ (x >> 12)
}

/// The second shift of a step.
pub open spec fn shift_left_25(x: u64) -> u64 {
    x ^ (x << 25)
}

/// The third shift of a step.
pub open spec fn shift_right_27(x: u64) -> u64 {
    x ^ (x >> 27)
}

/// The state that follows `x`.
pub open spec fn next_state(x: u64) -> u64 {
    shift_right_27(shift_left_25(shift_right_12(x)))
}

/// The byte that a state stands for: the top eight bits of its product with the multiplier,
/// modulo 2 to the 64.
pub open spec fn state_byte(x: u64) -> u8 {
    (((x * RANDOM_MULTIPLIER) % 0x1_0000_0000_0000_0000) / 0x100_0000_0000_0000) as u8
}

/// Moves the generator one step on and returns the byte of the state reached.
pub fn next_random_byte(state: &mut u64) -> (byte: u8)
    ensures
        *final(state) == next_state(*old(state)),
        byte == state_byte(next_state(*old(state))),
{
    let mut x: u64 = *state;
    x = x ^ (x >> 12);
    x = x ^ (x << 25);
    x = x ^ (x >> 27);
    *state = x;
    let product: u64 = x.wrapping_mul(RANDOM_MULTIPLIER);
    assert(product >> 56 == product / 0x100_0000_0000_0000) by (bit_vector);
    assert(product >> 56 < 256) by (bit_vector);
    (product >> 56) as u8
}

/// No two states lead to the same state: the generator never merges two sequences.
pub proof fn law_step_is_injective(x: u64, y: u64)
    requires
        next_state(x) == next_state(y),
    ensures
        x == y,
{
    let (a, b) = (shift_right_12(x), shift_right_12(y));
    let (c, d) = (shift_left_25(a), shift_left_25(b));
    assert((c ^ (c >> 27) == d ^ (d >> 27)) ==> c == d) by (bit_vector);
    assert((a ^ (a << 25) == b ^ (b << 25)) ==> a == b) by (bit_vector);
    assert((x ^ (x >> 12) == y ^ (y >> 12)) ==> x == y) by (bit_vector);
}

/// The generator never gets stuck at zero: only the zero state leads there.
pub proof fn law_state_stays_nonzero(x: u64)
    ensures
        next_state(x) == 0 <==> x == 0,
{
    assert(next_state(0) == 0) by (bit_vector);
    if next_state(x) == 0 {
        law_step_is_injective(x, 0);
    }
}

/// One step adds up, without carries, eight shifted copies of the state.
pub proof fn law_step_mixes_eight_copies(state: &mut u64, byte: u8)
    requires
        call_ensures(next_random_byte, (state,), byte),
    ensures
        ({
            let x = *old(state);
            *final(state) == x ^ (x >> 12) ^ (x << 25) ^ ((x >> 12) << 25) ^ (x >> 27) ^ (x >> 39)
                ^ ((x << 25) >> 27) ^ (((x >> 12) << 25) >> 27)
        }),
{
    let x = *old(state);
    assert(next_state(x) == x ^ (x >> 12) ^ (x << 25) ^ ((x >> 12) << 25) ^ (x >> 27) ^ (x >> 39)
        ^ ((x << 25) >> 27) ^ (((x >> 12) << 25) >> 27)) by (bit_vector);
}

/// Steps are linear: the step of a carry-free sum is the carry-free sum of the steps.
pub proof fn law_steps_are_linear(x: u64, y: u64)
    ensures
        next_state(x ^ y) == next_state(x) ^ next_state(y),
{
    assert(next_state(x ^ y) == next_state(x) ^ next_state(y)) by (bit_vector);
}

/// The byte handed out is the top one of the new state times the multiplier: it counts how many
/// times 2 to the 56 fits into that product modulo 2 to the 64.
pub proof fn law_byte_is_on_top_of_the_product(state: &mut u64, byte: u8)
    requires
        call_ensures(next_random_byte, (state,), byte),
    ensures
        byte * 0x100_0000_0000_0000 <= (*final(state) * 0x2545f4914f6cdd1d)
            % 0x1_0000_0000_0000_0000 < (byte + 1) * 0x100_0000_0000_0000,
{
}

} // verus!
