//! Whole numbers as single precision holds them: rounded to twenty-four significant bits.
//!
//! The map and the screen are laid out in single-precision coordinates. On whole numbers of map
//! units, and of pixels and halves and quarters of pixels, that is integer arithmetic with one
//! rounding rule, which this module states.

use vstd::arithmetic::div_mod::lemma_div_denominator;
use vstd::arithmetic::div_mod::lemma_div_is_ordered;
use vstd::arithmetic::div_mod::lemma_fundamental_div_mod;
use vstd::arithmetic::div_mod::lemma_fundamental_div_mod_converse;
use vstd::arithmetic::power2::lemma2_to64;
use vstd::arithmetic::power2::lemma_pow2_adds;
use vstd::arithmetic::power2::lemma_pow2_pos;
use vstd::arithmetic::power2::lemma_pow2_unfold;
use vstd::arithmetic::power2::pow2;
use vstd::prelude::*;

verus! {

/// Whole numbers up to this one are held exactly.
pub const SINGLE_EXACT: u128 = 0x100_0000;

/// The distance between neighbouring single-precision numbers at `n`, but never below one.
pub open spec fn single_step(n: nat) -> nat
    decreases n,
{
    if n < SINGLE_EXACT {
        1
    } else {
        2 * single_step(n / 2)
    }
}

/// The single-precision number nearest to `n`; of two equally near, the one that is an even
/// number of steps.
pub open spec fn single(n: nat) -> nat {
    let step = single_step(n);
    let below = n / step;
    let rest = n % step;
    if n <= SINGLE_EXACT {
        n
    } else if 2 * rest < step || (2 * rest == step && below % 2 == 0) {
        below * step
    } else {
        (below + 1) * step
    }
}

/// The single-precision number nearest to `n`, of either sign.
pub open spec fn signed_single(n: int) -> int {
    if n < 0 {
        -(single((-n) as nat) as int)
    } else {
        single(n as nat) as int
    }
}

proof fn lemma_step_bounds(n: nat)
    ensures
        single_step(n) >= 1,
        n < SINGLE_EXACT * single_step(n),
        single_step(n) > 1 ==> 2 * n >= SINGLE_EXACT * single_step(n),
    decreases n,
{
    if n >= SINGLE_EXACT {
        lemma_step_bounds(n / 2);
    }
}

/// Rounds `n` to the nearest single-precision number.
pub fn nearest_single(n: u128) -> (r: u128)
    requires
        n < 0x8000_0000_0000_0000_0000_0000_0000_0000,
    ensures
        r == single(n as nat),
{
    if n <= SINGLE_EXACT {
        return n;
    }
    let mut step: u128 = 1;
    proof {
        lemma_step_bounds(n as nat);
    }
    while n / step >= SINGLE_EXACT
        invariant
            n < 0x8000_0000_0000_0000_0000_0000_0000_0000,
            step >= 1,
            single_step(n as nat) == step * single_step((n / step) as nat),
            single_step(n as nat) >= step,
            n / step < SINGLE_EXACT ==> single_step(n as nat) == step,
            step <= n + 1,
        decreases n / step,
    {
        proof {
            assert(n / step >= SINGLE_EXACT);
            assert(step * SINGLE_EXACT <= n) by (nonlinear_arith)
                requires
                    n / step >= SINGLE_EXACT,
                    step >= 1,
            ;
            lemma_div_denominator(n as int, step as int, 2);
            lemma_step_bounds((n / step / 2) as nat);
            let half = single_step((n / step / 2) as nat);
            assert(step * (2 * half) == (step * 2) * half) by (nonlinear_arith);
            assert((step * 2) * half >= step * 2) by (nonlinear_arith)
                requires
                    half >= 1,
                    step >= 1,
            ;
        }
        step = step * 2;
    }
    let below: u128 = n / step;
    let rest: u128 = n % step;
    proof {
        lemma_fundamental_div_mod(n as int, step as int);
        assert(below * step == step * below) by (nonlinear_arith);
        assert((below + 1) * step == below * step + step) by (nonlinear_arith);
    }
    if 2 * rest < step || (2 * rest == step && below % 2 == 0) {
        below * step
    } else {
        (below + 1) * step
    }
}

/// Rounds `n` to the nearest single-precision number.
pub fn nearest_signed_single(n: i128) -> (r: i128)
    requires
        -0x2000_0000_0000_0000_0000_0000_0000_0000 < n
            < 0x2000_0000_0000_0000_0000_0000_0000_0000,
    ensures
        r == signed_single(n as int),
{
    if n < 0 {
        proof {
            law_single_is_close((-n) as nat);
        }
        -(nearest_single((-n) as u128) as i128)
    } else {
        proof {
            law_single_is_close(n as nat);
        }
        nearest_single(n as u128) as i128
    }
}

/// Whole numbers of up to twenty-four bits are held exactly.
pub proof fn law_single_is_exact(n: nat)
    requires
        n <= SINGLE_EXACT,
    ensures
        single(n) == n,
{
}

/// Rounding moves a number by at most half a step, and so by at most one part in
/// [`SINGLE_EXACT`].
pub proof fn law_single_is_close(n: nat)
    ensures
        2 * (single(n) - n) <= single_step(n),
        2 * (n - single(n)) <= single_step(n),
        SINGLE_EXACT * (single(n) - n) <= n,
        SINGLE_EXACT * (n - single(n)) <= n,
{
    lemma_step_bounds(n);
    let step = single_step(n);
    let below = n / step;
    lemma_fundamental_div_mod(n as int, step as int);
    assert(below * step == step * below) by (nonlinear_arith);
    assert((below + 1) * step == below * step + step) by (nonlinear_arith);
    if step == 1 {
        assert(n % 1 == 0);
    }
}

/// Beyond [`SINGLE_EXACT`] only even numbers are held.
pub proof fn law_single_is_even(n: nat)
    requires
        n >= SINGLE_EXACT,
    ensures
        single(n) % 2 == 0,
{
    let half = single_step(n / 2);
    let below = n / single_step(n);
    assert(below * (2 * half) == 2 * (below * half)) by (nonlinear_arith);
    assert((below + 1) * (2 * half) == 2 * ((below + 1) * half)) by (nonlinear_arith);
}

/// Steps at least double wherever they grow.
proof fn lemma_steps_double(m: nat, n: nat)
    requires
        m <= n,
    ensures
        single_step(m) == single_step(n) || 2 * single_step(m) <= single_step(n),
    decreases n,
{
    lemma_step_bounds(n / 2);
    if m >= SINGLE_EXACT {
        lemma_steps_double(m / 2, n / 2);
    }
}

/// A number between half the largest and the largest multiple of a step has that step.
proof fn lemma_step_at(n: nat, x: nat)
    requires
        single_step(n) > 1,
        2 * x >= SINGLE_EXACT * single_step(n),
        x < SINGLE_EXACT * single_step(n),
    ensures
        single_step(x) == single_step(n),
{
    lemma_step_bounds(x);
    if x <= n {
        lemma_steps_double(x, n);
    } else {
        lemma_steps_double(n, x);
    }
}

/// What [`single`] is beyond [`SINGLE_EXACT`]: a number of steps, between half the largest number
/// of them and the largest.
proof fn lemma_single_in_steps(n: nat) -> (k: nat)
    requires
        n > SINGLE_EXACT,
    ensures
        single(n) == k * single_step(n),
        n / single_step(n) <= k <= n / single_step(n) + 1,
        2 * k >= SINGLE_EXACT,
        k <= SINGLE_EXACT,
        single_step(n) > 1,
{
    lemma_step_bounds(n);
    lemma_step_bounds(n / 2);
    let step = single_step(n);
    let below = n / step;
    lemma_fundamental_div_mod(n as int, step as int);
    assert(2 * below >= SINGLE_EXACT) by (nonlinear_arith)
        requires
            n == step * below + n % step,
            0 <= n % step < step,
            2 * n >= SINGLE_EXACT * step,
            SINGLE_EXACT == 0x100_0000,
            step >= 1,
    ;
    assert(below < SINGLE_EXACT) by (nonlinear_arith)
        requires
            n == step * below + n % step,
            0 <= n % step,
            n < SINGLE_EXACT * step,
            step >= 1,
    ;
    let rest = n % step;
    if 2 * rest < step || (2 * rest == step && below % 2 == 0) {
        below
    } else {
        below + 1
    }
}

/// What single precision holds, it holds exactly.
pub proof fn law_single_is_idempotent(n: nat)
    ensures
        single(single(n)) == single(n),
{
    if n > SINGLE_EXACT {
        let k = lemma_single_in_steps(n);
        let step = single_step(n);
        let x = single(n);
        assert(x >= SINGLE_EXACT) by (nonlinear_arith)
            requires
                x == k * step,
                2 * k >= SINGLE_EXACT,
                step >= 2,
        ;
        if k < SINGLE_EXACT {
            assert(2 * x >= SINGLE_EXACT * step && x < SINGLE_EXACT * step) by (nonlinear_arith)
                requires
                    x == k * step,
                    2 * k >= SINGLE_EXACT,
                    k < SINGLE_EXACT,
                    step >= 2,
            ;
            lemma_step_at(n, x);
            lemma_fundamental_div_mod_converse(x as int, step as int, k as int, 0);
        } else {
            let half_of_x = x / 2;
            assert(k * step == SINGLE_EXACT * step);
            assert(2 * half_of_x == x);
            lemma_step_at(n, half_of_x);
            assert(single_step(x) == 2 * step);
            let j = (SINGLE_EXACT / 2) as nat;
            assert(x == j * (2 * step)) by (nonlinear_arith)
                requires
                    x == k * step,
                    k == 2 * j,
            ;
            lemma_fundamental_div_mod_converse(x as int, (2 * step) as int, j as int, 0);
        }
    }
}

/// Doubling a number doubles what single precision makes of it.
pub proof fn law_single_doubles(n: nat)
    ensures
        single(2 * n) == 2 * single(n),
{
    let m = 2 * n;
    if m > SINGLE_EXACT {
        assert(m / 2 == n);
        let step = single_step(n);
        lemma_step_bounds(n);
        assert(single_step(m) == 2 * step);
        let (below, rest) = (n / step, n % step);
        lemma_fundamental_div_mod(n as int, step as int);
        assert(m == below * (2 * step) + 2 * rest) by (nonlinear_arith)
            requires
                m == 2 * n,
                n == step * below + rest,
        ;
        lemma_fundamental_div_mod_converse(
            m as int,
            (2 * step) as int,
            below as int,
            (2 * rest) as int,
        );
        assert(below * (2 * step) == 2 * (below * step)) by (nonlinear_arith);
        assert((below + 1) * (2 * step) == 2 * ((below + 1) * step)) by (nonlinear_arith);
        assert((below + 1) * step == below * step + step) by (nonlinear_arith);
        assert(step * below == below * step) by (nonlinear_arith);
        if n <= SINGLE_EXACT {
            reveal_with_fuel(single_step, 2);
            assert(rest == 0);
        }
    }
}

/// Rounding keeps the order of numbers.
pub proof fn law_single_is_monotone(m: nat, n: nat)
    requires
        m <= n,
    ensures
        single(m) <= single(n),
{
    if m < n && n > SINGLE_EXACT {
        let k = lemma_single_in_steps(n);
        let step = single_step(n);
        if m <= SINGLE_EXACT {
            assert(k * step >= SINGLE_EXACT) by (nonlinear_arith)
                requires
                    2 * k >= SINGLE_EXACT,
                    step >= 2,
            ;
        } else {
            let j = lemma_single_in_steps(m);
            let low = single_step(m);
            lemma_steps_double(m, n);
            if low == step {
                let (a, b) = (m / step, n / step);
                lemma_fundamental_div_mod(m as int, step as int);
                lemma_fundamental_div_mod(n as int, step as int);
                lemma_div_is_ordered(m as int, n as int, step as int);
                assert((a + 1) * step == a * step + step) by (nonlinear_arith);
                assert((b + 1) * step == b * step + step) by (nonlinear_arith);
                assert(step * a == a * step && step * b == b * step) by (nonlinear_arith);
                if a < b {
                    assert((a + 1) * step <= b * step) by (nonlinear_arith)
                        requires
                            a + 1 <= b,
                    ;
                    assert(a * step <= b * step) by (nonlinear_arith)
                        requires
                            a <= b,
                    ;
                }
            } else {
                assert(j * low <= k * step) by (nonlinear_arith)
                    requires
                        j <= SINGLE_EXACT,
                        2 * k >= SINGLE_EXACT,
                        2 * low <= step,
                ;
            }
        }
    }
}

/// A step is a power of two.
proof fn lemma_step_is_a_power(n: nat) -> (e: nat)
    ensures
        single_step(n) == pow2(e),
    decreases n,
{
    if n < SINGLE_EXACT {
        lemma2_to64();
        0
    } else {
        let half = lemma_step_is_a_power(n / 2);
        lemma_pow2_unfold(half + 1);
        half + 1
    }
}

/// A number of twenty-four bits times a power of two either is a number of the steps at `n` or lies
/// so far below that half the largest number of steps is not less.
proof fn lemma_other_singles(n: nat, k: nat, e: nat) -> (m: nat)
    requires
        k <= SINGLE_EXACT,
    ensures
        k * pow2(e) == m * single_step(n) || 2 * (k * pow2(e)) <= SINGLE_EXACT * single_step(n),
{
    let at = lemma_step_is_a_power(n);
    let step = single_step(n);
    if e >= at {
        let rest = (e - at) as nat;
        lemma_pow2_adds(rest, at);
        assert(k * (pow2(rest) * step) == (k * pow2(rest)) * step) by (nonlinear_arith);
        k * pow2(rest)
    } else {
        let rest = (at - e) as nat;
        lemma_pow2_adds(rest, e);
        lemma_pow2_unfold(rest);
        lemma_pow2_pos((rest - 1) as nat);
        let (p, q) = (pow2(e), pow2((rest - 1) as nat));
        assert(2 * (k * p) <= SINGLE_EXACT * step) by (nonlinear_arith)
            requires
                k <= SINGLE_EXACT,
                step == (2 * q) * p,
                q >= 1,
        ;
        0
    }
}

/// Rounding gives a number that single precision holds, one of twenty-four bits times a power of
/// two, and none that it holds is nearer. Of two equally near the even one is taken: the result is
/// a multiple of twice their distance.
#[verifier::rlimit(50)]
pub proof fn law_single_is_nearest(n: u128, r: u128, k: nat, e: nat)
    requires
        call_ensures(nearest_single, (n,), r),
        k <= 0x100_0000,
    ensures
        exists|j: nat, f: nat| j <= 0x100_0000 && r == #[trigger] (j * pow2(f)),
        ({
            let x = k * pow2(e);
            let apart = |a: int, b: int|
                if a < b {
                    b - a
                } else {
                    a - b
                };
            &&& apart(r as int, n as int) <= apart(x as int, n as int)
            &&& x != r && apart(r as int, n as int) == apart(x as int, n as int) ==> r as int % (2
                * apart(x as int, r as int)) == 0
        }),
{
    let x = k * pow2(e);
    lemma2_to64();
    if n <= SINGLE_EXACT {
        assert(r == (n as nat) * pow2(0)) by (nonlinear_arith)
            requires
                r == n,
                pow2(0) == 1,
        ;
    } else {
        let step = single_step(n as nat);
        let j = lemma_single_in_steps(n as nat);
        let f = lemma_step_is_a_power(n as nat);
        assert(r == j * pow2(f));
        lemma_step_bounds(n as nat);
        let (below, rest) = (n as nat / step, n as nat % step);
        lemma_fundamental_div_mod(n as int, step as int);
        assert(step * below == below * step) by (nonlinear_arith);
        assert((below + 1) * step == below * step + step) by (nonlinear_arith);
        let m = lemma_other_singles(n as nat, k, e);
        assert(2 * (below * step) >= SINGLE_EXACT * step) by (nonlinear_arith)
            requires
                n == below * step + rest,
                rest < step,
                2 * n >= SINGLE_EXACT * step,
                SINGLE_EXACT == 0x100_0000,
        ;
        if x == m * step {
            if m <= below {
                assert(m * step <= below * step) by (nonlinear_arith)
                    requires
                        m <= below,
                ;
            } else {
                assert(m * step >= (below + 1) * step) by (nonlinear_arith)
                    requires
                        m >= below + 1,
                ;
            }
        }
        if below % 2 == 0 {
            lemma_even_steps(below, step);
        } else {
            lemma_even_steps(below + 1, step);
        }
    }
}

proof fn lemma_even_steps(k: nat, step: nat)
    requires
        k % 2 == 0,
        step >= 1,
    ensures
        (k * step) as int % (2 * step as int) == 0,
{
    let half = k / 2;
    assert(k * step == half * (2 * step)) by (nonlinear_arith)
        requires
            k == 2 * half,
    ;
    lemma_fundamental_div_mod_converse((k * step) as int, (2 * step) as int, half as int, 0);
}

/// Rounding treats both signs alike.
pub proof fn law_rounding_is_odd(n: i128, r: i128, size: u128, rounded: u128)
    requires
        call_ensures(nearest_signed_single, (n,), r),
        call_ensures(nearest_single, (size,), rounded),
        size == n || size == -n,
    ensures
        n >= 0 ==> r == rounded,
        n <= 0 ==> r == -rounded,
{
}

} // verus!
