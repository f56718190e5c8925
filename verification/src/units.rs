//! Fixed-point scales and the decibel-to-linear conversion.
//!
//! Control values are kept in milli-decibels (1000 units per dB) so that a
//! 0.1 dB control step is an exact integer. Signal values, gains and
//! ceilings are kept in linear micro-units (1,000,000 units per 1.0).
//! The conversion from decibels to linear gain walks 0.1 dB steps with a
//! fixed-point ratio and linearly interpolates the sub-step remainder.

use vstd::prelude::*;

verus! {

/// Linear-domain scale: this many units stand for a linear value of 1.0.
pub const LIN_ONE: i64 = 1_000_000;

/// Saturation guard of the linear domain (16.0): no conversion result
/// exceeds it, which keeps every later product comfortably inside `i64`.
pub const LIN_CAP: i64 = 16_000_000;

/// One 0.1 dB control step, in milli-decibels.
pub const STEP_MDB: i64 = 100;

/// Linear ratio of one +0.1 dB step, scaled by `LIN_ONE` (10^(1/200)).
pub const RATIO_UP: i64 = 1_011_579;

/// Linear ratio of one -0.1 dB step, scaled by `LIN_ONE` (10^(-1/200)).
pub const RATIO_DOWN: i64 = 988_553;

/// Lowest decibel value any control may take (-60 dB), in milli-decibels.
pub const DB_MIN_MDB: i64 = -60_000;

/// Highest decibel value any control may take (+12 dB), in milli-decibels.
pub const DB_MAX_MDB: i64 = 12_000;

/// Clamps a linear value into `[1, LIN_CAP]`: the lower bound is the tiny
/// positive epsilon that guards the clipping stage against a zero or
/// negative ceiling, the upper bound is the saturation guard.
pub open spec fn cap_lin(x: int) -> int {
    if x > LIN_CAP {
        LIN_CAP as int
    } else if x < 1 {
        1
    } else {
        x
    }
}

/// Linear gain of `k` steps of +0.1 dB, by the fixed-point recurrence.
pub open spec fn lin_up(k: nat) -> int
    decreases k,
{
    if k == 0 {
        LIN_ONE as int
    } else {
        cap_lin(lin_up((k - 1) as nat) * RATIO_UP / (LIN_ONE as int))
    }
}

/// Linear gain of `k` steps of -0.1 dB, by the fixed-point recurrence.
pub open spec fn lin_down(k: nat) -> int
    decreases k,
{
    if k == 0 {
        LIN_ONE as int
    } else {
        cap_lin(lin_down((k - 1) as nat) * RATIO_DOWN / (LIN_ONE as int))
    }
}

/// The linear gain that stands for `mdb` milli-decibels: the value at the
/// whole 0.1 dB step below `mdb`, raised by a linear interpolation of the
/// remainder toward the next step.
pub open spec fn spec_db_to_linear(mdb: int) -> int {
    let k = mdb / (STEP_MDB as int);
    let r = mdb % (STEP_MDB as int);
    let base = if k >= 0 {
        lin_up(k as nat)
    } else {
        lin_down((-k) as nat)
    };
    cap_lin(base + base * ((RATIO_UP - LIN_ONE) as int) * r / ((STEP_MDB * LIN_ONE) as int))
}

/// Rising steps stay at or above unity and within the saturation guard.
pub proof fn lemma_lin_up_bounds(k: nat)
    ensures
        LIN_ONE <= lin_up(k) <= LIN_CAP,
    decreases k,
{
    if k > 0 {
        lemma_lin_up_bounds((k - 1) as nat);
    }
}

/// Falling steps stay positive and at or below unity.
pub proof fn lemma_lin_down_bounds(k: nat)
    ensures
        1 <= lin_down(k) <= LIN_ONE,
    decreases k,
{
    if k > 0 {
        lemma_lin_down_bounds((k - 1) as nat);
        let x = lin_down((k - 1) as nat);
        vstd::arithmetic::mul::lemma_mul_inequality(RATIO_DOWN as int, LIN_ONE as int, x);
        vstd::arithmetic::div_mod::lemma_div_is_ordered(
            x * RATIO_DOWN,
            x * (LIN_ONE as int),
            LIN_ONE as int,
        );
        vstd::arithmetic::div_mod::lemma_div_multiples_vanish(x, LIN_ONE as int);
        assert(x * RATIO_DOWN == RATIO_DOWN * x) by (nonlinear_arith);
        assert(x * (LIN_ONE as int) == (LIN_ONE as int) * x) by (nonlinear_arith);
    }
}

/// One more rising step never lowers the value.
proof fn lemma_lin_up_step(k: nat)
    ensures
        lin_up(k) <= lin_up(k + 1),
{
    lemma_lin_up_bounds(k);
    let x = lin_up(k);
    vstd::arithmetic::mul::lemma_mul_inequality(LIN_ONE as int, RATIO_UP as int, x);
    vstd::arithmetic::div_mod::lemma_div_is_ordered(
        x * (LIN_ONE as int),
        x * RATIO_UP,
        LIN_ONE as int,
    );
    vstd::arithmetic::div_mod::lemma_div_multiples_vanish(x, LIN_ONE as int);
    assert(x * RATIO_UP == RATIO_UP * x) by (nonlinear_arith);
    assert(x * (LIN_ONE as int) == (LIN_ONE as int) * x) by (nonlinear_arith);
}

/// One more falling step never raises the value.
proof fn lemma_lin_down_step(k: nat)
    ensures
        lin_down(k + 1) <= lin_down(k),
{
    lemma_lin_down_bounds(k);
    let x = lin_down(k);
    vstd::arithmetic::mul::lemma_mul_inequality(RATIO_DOWN as int, LIN_ONE as int, x);
    vstd::arithmetic::div_mod::lemma_div_is_ordered(
        x * RATIO_DOWN,
        x * (LIN_ONE as int),
        LIN_ONE as int,
    );
    vstd::arithmetic::div_mod::lemma_div_multiples_vanish(x, LIN_ONE as int);
    assert(x * RATIO_DOWN == RATIO_DOWN * x) by (nonlinear_arith);
    assert(x * (LIN_ONE as int) == (LIN_ONE as int) * x) by (nonlinear_arith);
}

proof fn lemma_lin_up_monotone(k1: nat, k2: nat)
    requires
        k1 <= k2,
    ensures
        lin_up(k1) <= lin_up(k2),
    decreases k2 - k1,
{
    if k1 < k2 {
        lemma_lin_up_step(k1);
        lemma_lin_up_monotone(k1 + 1, k2);
    }
}

proof fn lemma_lin_down_monotone(k1: nat, k2: nat)
    requires
        k1 <= k2,
    ensures
        lin_down(k2) <= lin_down(k1),
    decreases k2 - k1,
{
    if k1 < k2 {
        lemma_lin_down_step(k1);
        lemma_lin_down_monotone(k1 + 1, k2);
    }
}

/// Law: on whole 0.1 dB steps the conversion is monotone — a higher
/// decibel value never yields a smaller linear gain, so a higher
/// threshold never yields a smaller ceiling.
pub proof fn lemma_db_to_linear_monotone_on_steps(k1: int, k2: int)
    requires
        k1 <= k2,
    ensures
        spec_db_to_linear(100 * k1) <= spec_db_to_linear(100 * k2),
{
    lemma_step_decomposition(k1);
    lemma_step_decomposition(k2);
    if k1 >= 0 {
        lemma_lin_up_monotone(k1 as nat, k2 as nat);
        lemma_lin_up_bounds(k1 as nat);
        lemma_lin_up_bounds(k2 as nat);
    } else if k2 < 0 {
        lemma_lin_down_monotone((-k2) as nat, (-k1) as nat);
        lemma_lin_down_bounds((-k1) as nat);
        lemma_lin_down_bounds((-k2) as nat);
    } else {
        lemma_lin_down_bounds((-k1) as nat);
        lemma_lin_up_bounds(k2 as nat);
    }
}

/// On a whole step the interpolation term vanishes and the conversion is
/// the step value itself, capped into its bounds.
proof fn lemma_step_decomposition(k: int)
    ensures
        spec_db_to_linear(100 * k) == cap_lin(
            if k >= 0 {
                lin_up(k as nat)
            } else {
                lin_down((-k) as nat)
            },
        ),
{
    vstd::arithmetic::div_mod::lemma_div_multiples_vanish(k, 100);
    vstd::arithmetic::div_mod::lemma_mod_multiples_basic(k, 100);
    assert(100 * k == k * 100) by (nonlinear_arith);
}

/// Law: the conversion sits on the right side of unity — a value at or
/// below 0 dB never converts above 1.0, and a value at or above 0 dB
/// never converts below 1.0. In particular the ceiling derived from a
/// threshold ranged below 0 dB can never exceed full scale.
pub proof fn lemma_db_to_linear_unity_bounds(mdb: int)
    ensures
        mdb <= 0 ==> spec_db_to_linear(mdb) <= LIN_ONE,
        mdb >= 0 ==> spec_db_to_linear(mdb) >= LIN_ONE,
{
    let k = mdb / (STEP_MDB as int);
    let r = mdb % (STEP_MDB as int);
    vstd::arithmetic::div_mod::lemma_fundamental_div_mod(mdb, 100);
    vstd::arithmetic::div_mod::lemma_mod_division_less_than_divisor(mdb, 100);
    if mdb >= 0 {
        vstd::arithmetic::div_mod::lemma_div_pos_is_pos(mdb, 100);
        let base = lin_up(k as nat);
        lemma_lin_up_bounds(k as nat);
        vstd::arithmetic::mul::lemma_mul_nonnegative(base * 11_579, r);
        vstd::arithmetic::div_mod::lemma_div_pos_is_pos(base * 11_579 * r, 100_000_000);
        if mdb == 0 {
            assert(k == 0 && r == 0);
            assert(lin_up(0) == LIN_ONE as int);
            assert(base * 11_579 * r == 0) by (nonlinear_arith)
                requires
                    r == 0,
            ;
        }
    } else {
        assert(k <= -1) by {
            if k >= 0 {
                vstd::arithmetic::mul::lemma_mul_nonnegative(k, 100);
            }
        }
        let m = (-k) as nat;
        let base = lin_down(m);
        lemma_lin_down_monotone(1, m);
        assert(lin_down(0) == LIN_ONE as int);
        assert(lin_down(1) == 988_553);
        lemma_lin_down_bounds(m);
        assert(base * 11_579 * r <= 988_553 * 11_579 * 99) by (nonlinear_arith)
            requires
                1 <= base <= 988_553,
                0 <= r <= 99,
        ;
        vstd::arithmetic::mul::lemma_mul_nonnegative(base * 11_579, r);
        vstd::arithmetic::div_mod::lemma_div_is_ordered(
            base * 11_579 * r,
            (988_553 * 11_579 * 99) as int,
            100_000_000,
        );
        vstd::arithmetic::div_mod::lemma_div_pos_is_pos(base * 11_579 * r, 100_000_000);
    }
}

/// Law: the conversion never falls below the value of the whole 0.1 dB
/// step beneath it, so on the decibel range the library admits it never
/// falls below the -60 dB bottom value. That bottom value is positive
/// (one quantum at the very least); per-step truncation places it a few
/// percent under the ideal thousandth, which the tests pin numerically.
pub proof fn lemma_db_to_linear_floor(mdb: int)
    requires
        DB_MIN_MDB <= mdb,
    ensures
        spec_db_to_linear(mdb) >= spec_db_to_linear(100 * (mdb / 100)),
        spec_db_to_linear(mdb) >= spec_db_to_linear(DB_MIN_MDB as int),
        spec_db_to_linear(mdb) >= 1,
{
    let k = mdb / (STEP_MDB as int);
    let r = mdb % (STEP_MDB as int);
    vstd::arithmetic::div_mod::lemma_mod_division_less_than_divisor(mdb, 100);
    let base = if k >= 0 {
        lin_up(k as nat)
    } else {
        lin_down((-k) as nat)
    };
    if k >= 0 {
        lemma_lin_up_bounds(k as nat);
    } else {
        lemma_lin_down_bounds((-k) as nat);
    }
    vstd::arithmetic::mul::lemma_mul_nonnegative(base * 11_579, r);
    vstd::arithmetic::div_mod::lemma_div_pos_is_pos(base * 11_579 * r, 100_000_000);
    lemma_step_decomposition(k);
    vstd::arithmetic::div_mod::lemma_div_is_ordered(DB_MIN_MDB as int, mdb, 100);
    lemma_db_to_linear_monotone_on_steps(-600, k);
}

/// The values the fixed-point constants take once cast for unsigned
/// arithmetic; stating them as literals lets the solver treat every
/// product with them as linear.
proof fn lemma_scale_casts()
    ensures
        (LIN_ONE as u64) as int == 1_000_000,
        (LIN_CAP as u64) as int == 16_000_000,
        (RATIO_UP as u64) as int == 1_011_579,
        (RATIO_DOWN as u64) as int == 988_553,
        ((RATIO_UP - LIN_ONE) as u64) as int == 11_579,
        ((STEP_MDB * LIN_ONE) as u64) as int == 100_000_000,
{
}

/// Every conversion result is a positive, bounded linear value, whatever
/// decibel value is asked for: the ceiling derived from a threshold can
/// never be zero, negative or astray.
pub proof fn lemma_db_to_linear_in_bounds(mdb: int)
    ensures
        1 <= spec_db_to_linear(mdb) <= LIN_CAP,
{
}

fn lin_up_exec(k: u64) -> (r: i64)
    ensures
        r == lin_up(k as nat),
        1 <= r <= LIN_CAP,
{
    let mut acc: u64 = LIN_ONE as u64;
    let mut i: u64 = 0;
    while i < k
        invariant
            i <= k,
            acc == lin_up(i as nat),
            1 <= acc <= LIN_CAP as u64,
        decreases k - i,
    {
        proof {
            lemma_scale_casts();
        }
        let m: u64 = acc * (RATIO_UP as u64);
        let d: u64 = m / (LIN_ONE as u64);
        acc = if d > LIN_CAP as u64 {
            LIN_CAP as u64
        } else if d < 1 {
            1
        } else {
            d
        };
        i = i + 1;
    }
    acc as i64
}

fn lin_down_exec(k: u64) -> (r: i64)
    ensures
        r == lin_down(k as nat),
        1 <= r <= LIN_CAP,
{
    let mut acc: u64 = LIN_ONE as u64;
    let mut i: u64 = 0;
    while i < k
        invariant
            i <= k,
            acc == lin_down(i as nat),
            1 <= acc <= LIN_CAP as u64,
        decreases k - i,
    {
        proof {
            lemma_scale_casts();
        }
        let m: u64 = acc * (RATIO_DOWN as u64);
        let d: u64 = m / (LIN_ONE as u64);
        acc = if d > LIN_CAP as u64 {
            LIN_CAP as u64
        } else if d < 1 {
            1
        } else {
            d
        };
        i = i + 1;
    }
    acc as i64
}

/// Converts milli-decibels to a linear gain in micro-units.
pub fn db_to_linear(mdb: i64) -> (r: i64)
    requires
        DB_MIN_MDB <= mdb <= DB_MAX_MDB,
    ensures
        r == spec_db_to_linear(mdb as int),
        1 <= r <= LIN_CAP,
        mdb <= 0 ==> r <= LIN_ONE,
        mdb >= 0 ==> r >= LIN_ONE,
        r >= spec_db_to_linear(DB_MIN_MDB as int),
{
    proof {
        lemma_db_to_linear_unity_bounds(mdb as int);
        lemma_db_to_linear_floor(mdb as int);
    }
    let base: i64;
    let rem: u64;
    if mdb >= 0 {
        let m: u64 = mdb as u64;
        let q: u64 = m / 100;
        let s: u64 = m % 100;
        proof {
            vstd::arithmetic::div_mod::lemma_fundamental_div_mod(m as int, 100);
            vstd::arithmetic::div_mod::lemma_fundamental_div_mod_converse_div(
                mdb as int, 100, q as int, s as int);
            vstd::arithmetic::div_mod::lemma_fundamental_div_mod_converse_mod(
                mdb as int, 100, q as int, s as int);
        }
        base = lin_up_exec(q);
        rem = s;
    } else {
        let m: u64 = (-mdb) as u64;
        let q: u64 = m / 100;
        let s: u64 = m % 100;
        proof {
            vstd::arithmetic::div_mod::lemma_fundamental_div_mod(m as int, 100);
        }
        if s == 0 {
            proof {
                vstd::arithmetic::div_mod::lemma_fundamental_div_mod_converse_div(
                    mdb as int, 100, -(q as int), 0);
                vstd::arithmetic::div_mod::lemma_fundamental_div_mod_converse_mod(
                    mdb as int, 100, -(q as int), 0);
            }
            base = lin_down_exec(q);
            rem = 0;
        } else {
            proof {
                vstd::arithmetic::div_mod::lemma_fundamental_div_mod_converse_div(
                    mdb as int, 100, -(q as int) - 1, 100 - (s as int));
                vstd::arithmetic::div_mod::lemma_fundamental_div_mod_converse_mod(
                    mdb as int, 100, -(q as int) - 1, 100 - (s as int));
            }
            base = lin_down_exec(q + 1);
            rem = 100 - s;
        }
    }
    proof {
        lemma_scale_casts();
        assert((base as u64) * ((RATIO_UP - LIN_ONE) as u64) * rem <= 16_000_000 * 11_579 * 100)
            by (nonlinear_arith)
            requires
                1 <= base as u64 <= 16_000_000,
                rem < 100,
                ((RATIO_UP - LIN_ONE) as u64) as int == 11_579,
        ;
    }
    let lift: u64 = (base as u64) * ((RATIO_UP - LIN_ONE) as u64) * rem
        / ((STEP_MDB * LIN_ONE) as u64);
    proof {
        vstd::arithmetic::div_mod::lemma_div_nonincreasing(
            ((base as u64) * ((RATIO_UP - LIN_ONE) as u64) * rem) as int,
            (STEP_MDB * LIN_ONE) as int,
        );
    }
    let v: i64 = base + (lift as i64);
    if v > LIN_CAP {
        LIN_CAP
    } else if v < 1 {
        1
    } else {
        v
    }
}

} // verus!
