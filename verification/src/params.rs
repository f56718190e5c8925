//! Control parameters: a decibel range and a smoothing state.
//!
//! A parameter clamps every incoming target into its declared range before
//! handing it to the smoother, so the live (smoothed) value can never
//! leave the range: the ramp only ever interpolates between two clamped
//! endpoints.

use vstd::prelude::*;
use crate::smooth::{Smoother, MAX_STEPS};
use crate::smooth::lemma_ramp_value_bounds;
use crate::units::{DB_MAX_MDB, DB_MIN_MDB};

verus! {

/// An inclusive decibel range, in milli-decibels.
pub struct ParamRange {
    /// Lowest value the parameter accepts.
    pub min_mdb: i64,
    /// Highest value the parameter accepts.
    pub max_mdb: i64,
}

impl ParamRange {
    /// A non-empty range inside the global decibel bounds.
    pub open spec fn wf(self) -> bool {
        DB_MIN_MDB <= self.min_mdb <= self.max_mdb <= DB_MAX_MDB
    }

    /// Where `v` lands once forced into the range.
    pub open spec fn spec_clamp(self, v: int) -> int {
        if v < self.min_mdb {
            self.min_mdb as int
        } else if v > self.max_mdb {
            self.max_mdb as int
        } else {
            v
        }
    }

    /// Forces a value into the range.
    pub fn clamp_mdb(&self, v: i64) -> (r: i64)
        requires
            self.wf(),
        ensures
            r == self.spec_clamp(v as int),
            self.min_mdb <= r <= self.max_mdb,
    {
        if v < self.min_mdb {
            self.min_mdb
        } else if v > self.max_mdb {
            self.max_mdb
        } else {
            v
        }
    }
}

/// One control parameter: its declared range and its smoothing state.
pub struct Param {
    /// The declared decibel range.
    pub range: ParamRange,
    /// The smoothing state, both of whose endpoints sit inside the range.
    pub smoother: Smoother,
}

impl Param {
    /// The range is sound and the smoother's endpoints respect it.
    pub open spec fn wf(self) -> bool {
        &&& self.range.wf()
        &&& self.smoother.wf()
        &&& self.range.min_mdb <= self.smoother.start_mdb <= self.range.max_mdb
        &&& self.range.min_mdb <= self.smoother.target_mdb <= self.range.max_mdb
    }

    /// A parameter resting at `default_mdb`, which must lie in the range.
    pub fn new(range: ParamRange, default_mdb: i64) -> (p: Param)
        requires
            range.wf(),
            range.min_mdb <= default_mdb <= range.max_mdb,
        ensures
            p.wf(),
            p.range == range,
            p.smoother == (Smoother {
                start_mdb: default_mdb,
                target_mdb: default_mdb,
                total: 0,
                done: 0,
            }),
    {
        Param { range, smoother: Smoother::at_value(default_mdb) }
    }

    /// Retargets the parameter: the new target is clamped into the range,
    /// and a fresh ramp of `steps` steps starts from the live value.
    pub fn set_target(&mut self, target_mdb: i64, steps: u32)
        requires
            old(self).wf(),
            steps <= MAX_STEPS,
        ensures
            final(self).wf(),
            final(self).range == old(self).range,
            *final(self) == (Param {
                range: old(self).range,
                smoother: Smoother {
                    start_mdb: old(self).smoother.value_after(0) as i64,
                    target_mdb: old(self).range.spec_clamp(target_mdb as int) as i64,
                    total: steps,
                    done: 0,
                },
            }),
    {
        proof {
            lemma_ramp_value_bounds(
                self.smoother.start_mdb as int,
                self.smoother.target_mdb as int,
                self.smoother.total as int,
                self.smoother.done as int,
            );
        }
        let t: i64 = self.range.clamp_mdb(target_mdb);
        self.smoother.retarget(t, steps);
    }

    /// Law: the live (smoothed) value of a well-formed parameter lies in
    /// the declared range at every step — smoothing only ever interpolates
    /// between endpoints that were clamped when they came in.
    pub proof fn lemma_live_value_in_range(self, k: int)
        requires
            self.wf(),
            0 <= k,
        ensures
            self.range.min_mdb <= self.smoother.value_after(k) <= self.range.max_mdb,
    {
        lemma_ramp_value_bounds(
            self.smoother.start_mdb as int,
            self.smoother.target_mdb as int,
            self.smoother.total as int,
            self.smoother.done + k,
        );
    }
}

} // verus!
