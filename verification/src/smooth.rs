//! Linear parameter smoothing in the decibel domain.
//!
//! A smoother carries a control value from its current position to a new
//! target along a straight line, one step per audio frame, over a step
//! count computed from the configured ramp duration. Retargeting mid-ramp
//! restarts the line from the value reached, never from the old endpoints,
//! so the live value moves without discontinuity.

use vstd::prelude::*;
use crate::units::{DB_MAX_MDB, DB_MIN_MDB};

verus! {

/// Most steps any ramp may take: the configured 50 ms at the highest
/// accepted sample rate.
pub const MAX_STEPS: u32 = 50_000;

/// The value of a linear ramp from `start` to `target` over `total` steps,
/// after `done` steps: the interpolant rounds toward `start`, and once
/// `done` reaches `total` the value is the target exactly. A ramp of zero
/// steps jumps to the target on its first step.
pub open spec fn ramp_value(start: int, target: int, total: int, done: int) -> int {
    if done >= total {
        target
    } else if target >= start {
        start + (target - start) * done / total
    } else {
        start - (start - target) * done / total
    }
}

/// The interpolant never leaves the interval spanned by `start` and
/// `target`.
pub proof fn lemma_ramp_value_bounds(start: int, target: int, total: int, done: int)
    requires
        0 <= done,
    ensures
        target >= start ==> start <= ramp_value(start, target, total, done) <= target,
        target < start ==> target <= ramp_value(start, target, total, done) <= start,
{
    if done < total {
        let d = if target >= start { target - start } else { start - target };
        vstd::arithmetic::mul::lemma_mul_nonnegative(d, done);
        vstd::arithmetic::div_mod::lemma_div_pos_is_pos(d * done, total);
        vstd::arithmetic::mul::lemma_mul_inequality(done, total, d);
        vstd::arithmetic::div_mod::lemma_div_is_ordered(d * done, d * total, total);
        vstd::arithmetic::div_mod::lemma_div_multiples_vanish(d, total);
        assert(d * total == total * d) by (nonlinear_arith);
    }
}

/// Along one ramp the value moves monotonically from start toward target.
pub proof fn lemma_ramp_value_monotone(start: int, target: int, total: int, d1: int, d2: int)
    requires
        0 <= d1 <= d2,
    ensures
        target >= start ==> ramp_value(start, target, total, d1) <= ramp_value(
            start,
            target,
            total,
            d2,
        ),
        target < start ==> ramp_value(start, target, total, d1) >= ramp_value(
            start,
            target,
            total,
            d2,
        ),
{
    lemma_ramp_value_bounds(start, target, total, d1);
    lemma_ramp_value_bounds(start, target, total, d2);
    if d2 < total {
        let d = if target >= start { target - start } else { start - target };
        vstd::arithmetic::mul::lemma_mul_inequality(d1, d2, d);
        vstd::arithmetic::div_mod::lemma_div_is_ordered(d * d1, d * d2, total);
    }
}

/// Before the ramp completes the value stays strictly short of the target;
/// and when the retarget spans at least one fixed-point quantum per step,
/// every step from the first onward is already strictly past the start.
pub proof fn lemma_ramp_value_strict(start: int, target: int, total: int, done: int)
    requires
        1 <= done < total,
    ensures
        target > start ==> ramp_value(start, target, total, done) < target,
        target < start ==> ramp_value(start, target, total, done) > target,
        target - start >= total ==> start < ramp_value(start, target, total, done),
        start - target >= total ==> ramp_value(start, target, total, done) < start,
{
    let d = if target >= start { target - start } else { start - target };
    if d > 0 {
        vstd::arithmetic::mul::lemma_mul_strict_inequality(done, total, d);
        assert(done * d == d * done) by (nonlinear_arith);
        assert(total * d == d * total) by (nonlinear_arith);
        vstd::arithmetic::div_mod::lemma_multiply_divide_lt(d * done, total, d);
        if d >= total {
            vstd::arithmetic::mul::lemma_mul_inequality(1, done, d);
            vstd::arithmetic::mul::lemma_mul_basics(d);
            vstd::arithmetic::div_mod::lemma_div_is_ordered(total, d * done, total);
            vstd::arithmetic::div_mod::lemma_div_by_self(total);
        }
    }
}

/// Smoothing state of one control parameter, held in milli-decibels.
pub struct Smoother {
    /// The live value the current ramp started from.
    pub start_mdb: i64,
    /// The target the current ramp heads for.
    pub target_mdb: i64,
    /// Steps the current ramp takes in all.
    pub total: u32,
    /// Steps of the current ramp already taken.
    pub done: u32,
}

impl Smoother {
    /// Endpoints inside the global decibel range, and the step counters
    /// consistent and bounded.
    pub open spec fn wf(self) -> bool {
        &&& DB_MIN_MDB <= self.start_mdb <= DB_MAX_MDB
        &&& DB_MIN_MDB <= self.target_mdb <= DB_MAX_MDB
        &&& self.done <= self.total
        &&& self.total <= MAX_STEPS
    }

    /// The live value after `k` further steps.
    pub open spec fn value_after(self, k: int) -> int {
        ramp_value(
            self.start_mdb as int,
            self.target_mdb as int,
            self.total as int,
            self.done + k,
        )
    }

    /// The state after `k` further steps.
    pub open spec fn advanced(self, k: int) -> Smoother {
        Smoother {
            done: if self.done + k >= self.total {
                self.total
            } else {
                (self.done + k) as u32
            },
            ..self
        }
    }

    /// A smoother resting at `value` with no pending ramp.
    pub fn at_value(value: i64) -> (s: Smoother)
        requires
            DB_MIN_MDB <= value <= DB_MAX_MDB,
        ensures
            s.wf(),
            s == (Smoother { start_mdb: value, target_mdb: value, total: 0, done: 0 }),
            s.value_after(0) == value,
    {
        Smoother { start_mdb: value, target_mdb: value, total: 0, done: 0 }
    }

    /// The live value at the current step.
    pub fn current(&self) -> (v: i64)
        requires
            self.wf(),
        ensures
            v == self.value_after(0),
            DB_MIN_MDB <= v <= DB_MAX_MDB,
    {
        ramp_value_exec(self.start_mdb, self.target_mdb, self.total, self.done)
    }

    /// Starts a fresh ramp from the live value toward `target_mdb`, taking
    /// `steps` steps; with zero steps the next advance jumps to the target.
    pub fn retarget(&mut self, target_mdb: i64, steps: u32)
        requires
            old(self).wf(),
            DB_MIN_MDB <= target_mdb <= DB_MAX_MDB,
            steps <= MAX_STEPS,
        ensures
            final(self).wf(),
            *final(self) == (Smoother {
                start_mdb: old(self).value_after(0) as i64,
                target_mdb: target_mdb,
                total: steps,
                done: 0,
            }),
    {
        let cur: i64 = self.current();
        self.start_mdb = cur;
        self.target_mdb = target_mdb;
        self.total = steps;
        self.done = 0;
    }

    /// Pulls one smoothing step: moves one step further along the ramp and
    /// returns the new live value. Called once per audio frame.
    pub fn advance_one_step(&mut self) -> (v: i64)
        requires
            old(self).wf(),
        ensures
            final(self).wf(),
            *final(self) == old(self).advanced(1),
            v == old(self).value_after(1),
            DB_MIN_MDB <= v <= DB_MAX_MDB,
    {
        if self.done < self.total {
            self.done = self.done + 1;
        }
        self.current()
    }

    /// Abandons any pending ramp and rests at the target.
    pub fn snap_to_target(&mut self)
        requires
            old(self).wf(),
        ensures
            final(self).wf(),
            *final(self) == (Smoother { done: old(self).total, ..*old(self) }),
            final(self).value_after(0) == old(self).target_mdb,
    {
        self.done = self.total;
    }
}

fn ramp_value_exec(start: i64, target: i64, total: u32, done: u32) -> (v: i64)
    requires
        DB_MIN_MDB <= start <= DB_MAX_MDB,
        DB_MIN_MDB <= target <= DB_MAX_MDB,
        done <= total,
        total <= MAX_STEPS,
    ensures
        v == ramp_value(start as int, target as int, total as int, done as int),
        DB_MIN_MDB <= v <= DB_MAX_MDB,
{
    proof {
        lemma_ramp_value_bounds(start as int, target as int, total as int, done as int);
    }
    if done >= total {
        target
    } else if target >= start {
        let delta: u64 = (target - start) as u64;
        proof {
            assert(delta * (done as u64) <= 72_000 * 50_000) by (nonlinear_arith)
                requires
                    delta <= 72_000,
                    done as u64 <= 50_000,
            ;
        }
        let part: u64 = delta * (done as u64) / (total as u64);
        start + (part as i64)
    } else {
        let delta: u64 = (start - target) as u64;
        proof {
            assert(delta * (done as u64) <= 72_000 * 50_000) by (nonlinear_arith)
                requires
                    delta <= 72_000,
                    done as u64 <= 50_000,
            ;
        }
        let part: u64 = delta * (done as u64) / (total as u64);
        start - (part as i64)
    }
}

/// Law: over a single ramp the smoothed value is monotonic between the old
/// value and the new target, lands exactly on the target when the
/// configured step count has elapsed, stays there afterward, and — when
/// the retarget spans at least one quantum per step — sits strictly
/// between the endpoints at every intermediate step.
pub proof fn lemma_smoother_ramp(s: Smoother, d1: int, d2: int)
    requires
        s.wf(),
        s.done == 0,
        0 <= d1 <= d2,
    ensures
        s.value_after(s.total as int) == s.target_mdb,
        d1 >= s.total ==> s.value_after(d1) == s.target_mdb,
        s.target_mdb >= s.start_mdb ==> s.start_mdb <= s.value_after(d1) <= s.value_after(d2)
            <= s.target_mdb,
        s.target_mdb < s.start_mdb ==> s.target_mdb <= s.value_after(d2) <= s.value_after(d1)
            <= s.start_mdb,
        (1 <= d1 < s.total && s.target_mdb - s.start_mdb >= s.total) ==> s.start_mdb
            < s.value_after(d1) < s.target_mdb,
        (1 <= d1 < s.total && s.start_mdb - s.target_mdb >= s.total) ==> s.target_mdb
            < s.value_after(d1) < s.start_mdb,
{
    let st = s.start_mdb as int;
    let tg = s.target_mdb as int;
    let tot = s.total as int;
    lemma_ramp_value_bounds(st, tg, tot, d1);
    lemma_ramp_value_bounds(st, tg, tot, d2);
    lemma_ramp_value_monotone(st, tg, tot, d1, d2);
    if 1 <= d1 < tot {
        lemma_ramp_value_strict(st, tg, tot, d1);
    }
}

} // verus!
