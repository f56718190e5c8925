//! The processor: parameters, mode, and the per-block processing loop.
//!
//! For every frame of a block the engine pulls one smoothing step of gain
//! and one of threshold (shared by all channels of that frame), converts
//! both from decibels to linear, and applies the per-sample transform to
//! every channel's sample of that frame. Samples are interleaved: frame
//! `f` holds the samples at indices `f * channels .. (f + 1) * channels`.

use vstd::prelude::*;
use vstd::pervasive::VecAdditionalExecFns;
use crate::clip::{ClipMode, SAMPLE_MAX};
use crate::clip::{spec_transform, transform};
use crate::clip::{effective_ceiling, lemma_hard_clip_never_exceeds, lemma_soft_clip_strictly_inside};
use crate::params::{Param, ParamRange};
use crate::smooth::Smoother;
use crate::units::{db_to_linear, spec_db_to_linear, LIN_CAP};

verus! {

/// Highest sample rate the engine accepts, in Hz.
pub const MAX_RATE: u32 = 1_000_000;

/// The fixed smoothing ramp duration, in milliseconds.
pub const SMOOTH_MS: u32 = 50;

/// Default gain range: -12 dB to +12 dB, in milli-decibels.
pub const GAIN_MIN_MDB: i64 = -12_000;

/// See `GAIN_MIN_MDB`.
pub const GAIN_MAX_MDB: i64 = 12_000;

/// Default threshold range: -24 dB to 0 dB, in milli-decibels.
pub const THRESHOLD_MIN_MDB: i64 = -24_000;

/// See `THRESHOLD_MIN_MDB`.
pub const THRESHOLD_MAX_MDB: i64 = 0;

/// Sample rate a processor assumes until it is configured, in Hz.
pub const DEFAULT_RATE: u32 = 48_000;

/// Steps of a smoothing ramp at `sample_rate`: the configured duration
/// times the rate, rounded down.
pub open spec fn spec_ramp_steps(sample_rate: int) -> int {
    sample_rate * (SMOOTH_MS as int) / 1000
}

/// Computes the ramp step count for a sample rate; a rate so low that the
/// ramp rounds to zero steps makes every retarget jump immediately.
pub fn ramp_steps(sample_rate: u32) -> (steps: u32)
    requires
        sample_rate <= MAX_RATE,
    ensures
        steps == spec_ramp_steps(sample_rate as int),
        steps <= crate::smooth::MAX_STEPS,
{
    proof {
        vstd::arithmetic::div_mod::lemma_div_is_ordered(
            sample_rate as int * 50,
            50_000_000,
            1000,
        );
        vstd::arithmetic::div_mod::lemma_div_pos_is_pos(sample_rate as int * 50, 1000);
    }
    sample_rate * 50 / 1000
}

/// The whole processor: two smoothed control parameters, the delta flag,
/// the clipping mode, and the configured sample rate.
pub struct Processor {
    /// The gain control, in milli-decibels.
    pub gain: Param,
    /// The threshold control, in milli-decibels; its linear image is the
    /// clipping ceiling.
    pub threshold: Param,
    /// When set, blocks output wet minus dry instead of wet.
    pub delta: bool,
    /// The clipping curve applied after the gain stage.
    pub mode: ClipMode,
    /// The sample rate smoothing ramps are computed for, in Hz.
    pub sample_rate: u32,
}

impl Processor {
    /// Both parameters well-formed and the sample rate accepted.
    pub open spec fn wf(self) -> bool {
        &&& self.gain.wf()
        &&& self.threshold.wf()
        &&& 1 <= self.sample_rate <= MAX_RATE
    }

    /// The gain control's decibel value at frame `f` of the next block.
    pub open spec fn gain_db_at(self, f: int) -> int {
        self.gain.smoother.value_after(f + 1)
    }

    /// The linear gain applied at frame `f` of the next block.
    pub open spec fn gain_at(self, f: int) -> int {
        spec_db_to_linear(self.gain_db_at(f))
    }

    /// The linear ceiling applied at frame `f` of the next block.
    pub open spec fn ceiling_at(self, f: int) -> int {
        spec_db_to_linear(self.threshold.smoother.value_after(f + 1))
    }

    /// What a dry sample in frame `f` of the next block becomes.
    pub open spec fn spec_output(self, dry: int, f: int) -> int {
        spec_transform(dry, self.gain_at(f), self.ceiling_at(f), self.mode, self.delta)
    }

    /// The processor after a block of `n` frames: both smoothers have
    /// advanced `n` steps, everything else is unchanged.
    pub open spec fn after_frames(self, n: int) -> Processor {
        Processor {
            gain: Param { range: self.gain.range, smoother: self.gain.smoother.advanced(n) },
            threshold: Param {
                range: self.threshold.range,
                smoother: self.threshold.smoother.advanced(n),
            },
            ..self
        }
    }

    /// A processor with the documented defaults: gain 0 dB in -12..+12 dB,
    /// threshold 0 dB in -24..0 dB, delta off, hard clipping, and no
    /// pending ramps.
    pub fn new() -> (p: Processor)
        ensures
            p.wf(),
            p.gain.range == (ParamRange { min_mdb: GAIN_MIN_MDB, max_mdb: GAIN_MAX_MDB }),
            p.threshold.range == (ParamRange {
                min_mdb: THRESHOLD_MIN_MDB,
                max_mdb: THRESHOLD_MAX_MDB,
            }),
            p.gain.smoother == (Smoother { start_mdb: 0, target_mdb: 0, total: 0, done: 0 }),
            p.threshold.smoother == (Smoother { start_mdb: 0, target_mdb: 0, total: 0, done: 0 }),
            p.delta == false,
            p.mode == ClipMode::HardClip,
            p.sample_rate == DEFAULT_RATE,
    {
        Processor {
            gain: Param::new(ParamRange { min_mdb: GAIN_MIN_MDB, max_mdb: GAIN_MAX_MDB }, 0),
            threshold: Param::new(
                ParamRange { min_mdb: THRESHOLD_MIN_MDB, max_mdb: THRESHOLD_MAX_MDB },
                0,
            ),
            delta: false,
            mode: ClipMode::HardClip,
            sample_rate: DEFAULT_RATE,
        }
    }

    /// A processor with custom control ranges (a product variant may
    /// narrow or widen them); both ranges must contain the 0 dB default.
    pub fn with_ranges(gain_range: ParamRange, threshold_range: ParamRange) -> (p: Processor)
        requires
            gain_range.wf(),
            threshold_range.wf(),
            gain_range.min_mdb <= 0 <= gain_range.max_mdb,
            threshold_range.min_mdb <= 0 <= threshold_range.max_mdb,
        ensures
            p.wf(),
            p.gain.range == gain_range,
            p.threshold.range == threshold_range,
            p.gain.smoother == (Smoother { start_mdb: 0, target_mdb: 0, total: 0, done: 0 }),
            p.threshold.smoother == (Smoother { start_mdb: 0, target_mdb: 0, total: 0, done: 0 }),
            p.delta == false,
            p.mode == ClipMode::HardClip,
            p.sample_rate == DEFAULT_RATE,
    {
        Processor {
            gain: Param::new(gain_range, 0),
            threshold: Param::new(threshold_range, 0),
            delta: false,
            mode: ClipMode::HardClip,
            sample_rate: DEFAULT_RATE,
        }
    }

    /// Adopts a new audio configuration: stores the sample rate and snaps
    /// both smoothers to their targets, since any pending ramp was
    /// computed for the old configuration.
    pub fn configure(&mut self, sample_rate: u32)
        requires
            old(self).wf(),
            1 <= sample_rate <= MAX_RATE,
        ensures
            final(self).wf(),
            final(self).sample_rate == sample_rate,
            final(self).gain.range == old(self).gain.range,
            final(self).threshold.range == old(self).threshold.range,
            final(self).gain.smoother == (Smoother {
                done: old(self).gain.smoother.total,
                ..old(self).gain.smoother
            }),
            final(self).threshold.smoother == (Smoother {
                done: old(self).threshold.smoother.total,
                ..old(self).threshold.smoother
            }),
            final(self).delta == old(self).delta,
            final(self).mode == old(self).mode,
    {
        self.sample_rate = sample_rate;
        self.gain.smoother.snap_to_target();
        self.threshold.smoother.snap_to_target();
    }

    /// Snaps both smoothers to their targets; meant for transport
    /// discontinuities, where finishing a stale ramp would be audible.
    pub fn reset(&mut self)
        requires
            old(self).wf(),
        ensures
            final(self).wf(),
            *final(self) == (Processor {
                gain: Param {
                    range: old(self).gain.range,
                    smoother: Smoother {
                        done: old(self).gain.smoother.total,
                        ..old(self).gain.smoother
                    },
                },
                threshold: Param {
                    range: old(self).threshold.range,
                    smoother: Smoother {
                        done: old(self).threshold.smoother.total,
                        ..old(self).threshold.smoother
                    },
                },
                ..*old(self)
            }),
            final(self).gain.smoother.value_after(0) == old(self).gain.smoother.target_mdb,
            final(self).threshold.smoother.value_after(0) == old(
                self,
            ).threshold.smoother.target_mdb,
    {
        self.gain.smoother.snap_to_target();
        self.threshold.smoother.snap_to_target();
    }

    /// Retargets the gain control: the target is clamped into the gain
    /// range and a fresh 50 ms ramp starts from the live value.
    pub fn set_gain_db(&mut self, target_mdb: i64)
        requires
            old(self).wf(),
        ensures
            final(self).wf(),
            final(self).gain.range == old(self).gain.range,
            final(self).gain.smoother == (Smoother {
                start_mdb: old(self).gain.smoother.value_after(0) as i64,
                target_mdb: old(self).gain.range.spec_clamp(target_mdb as int) as i64,
                total: spec_ramp_steps(old(self).sample_rate as int) as u32,
                done: 0,
            }),
            final(self).threshold == old(self).threshold,
            final(self).delta == old(self).delta,
            final(self).mode == old(self).mode,
            final(self).sample_rate == old(self).sample_rate,
    {
        let steps: u32 = ramp_steps(self.sample_rate);
        self.gain.set_target(target_mdb, steps);
    }

    /// Retargets the threshold control, as `set_gain_db` does the gain.
    pub fn set_threshold_db(&mut self, target_mdb: i64)
        requires
            old(self).wf(),
        ensures
            final(self).wf(),
            final(self).threshold.range == old(self).threshold.range,
            final(self).threshold.smoother == (Smoother {
                start_mdb: old(self).threshold.smoother.value_after(0) as i64,
                target_mdb: old(self).threshold.range.spec_clamp(target_mdb as int) as i64,
                total: spec_ramp_steps(old(self).sample_rate as int) as u32,
                done: 0,
            }),
            final(self).gain == old(self).gain,
            final(self).delta == old(self).delta,
            final(self).mode == old(self).mode,
            final(self).sample_rate == old(self).sample_rate,
    {
        let steps: u32 = ramp_steps(self.sample_rate);
        self.threshold.set_target(target_mdb, steps);
    }

    /// Selects wet or delta output for the next blocks.
    pub fn set_delta(&mut self, delta: bool)
        requires
            old(self).wf(),
        ensures
            final(self).wf(),
            *final(self) == (Processor { delta, ..*old(self) }),
    {
        self.delta = delta;
    }

    /// Selects the clipping curve for the next blocks.
    pub fn set_mode(&mut self, mode: ClipMode)
        requires
            old(self).wf(),
        ensures
            final(self).wf(),
            *final(self) == (Processor { mode, ..*old(self) }),
    {
        self.mode = mode;
    }

    /// Processes one block of interleaved samples in place: each sample of
    /// frame `f` becomes the transform of its dry value under the gain and
    /// ceiling smoothed to frame `f`, and both smoothers advance one step
    /// per frame. The buffer's length is never changed.
    pub fn process_block(&mut self, samples: &mut Vec<i64>, channels: usize)
        requires
            old(self).wf(),
            1 <= channels,
            old(samples)@.len() as int % (channels as int) == 0,
            forall|i: int|
                0 <= i < old(samples)@.len() ==> -SAMPLE_MAX <= #[trigger] old(samples)@[i]
                    <= SAMPLE_MAX,
        ensures
            final(self).wf(),
            *final(self) == old(self).after_frames(old(samples)@.len() as int / (channels as int)),
            final(samples)@.len() == old(samples)@.len(),
            forall|i: int|
                0 <= i < old(samples)@.len() ==> final(samples)@[i] == old(self).spec_output(
                    old(samples)@[i] as int,
                    i / (channels as int),
                ),
    {
        let ghost p0 = *self;
        let ghost s0 = samples@;
        let block_len: usize = samples.len();
        let nframes: usize = block_len / channels;
        proof {
            vstd::arithmetic::div_mod::lemma_fundamental_div_mod(s0.len() as int, channels as int);
        }
        let mut f: usize = 0;
        let mut idx: usize = 0;
        while f < nframes
            invariant
                p0.wf(),
                1 <= channels,
                s0.len() == nframes * channels,
                s0.len() <= usize::MAX,
                nframes == s0.len() as int / (channels as int),
                forall|i: int| 0 <= i < s0.len() ==> -SAMPLE_MAX <= #[trigger] s0[i] <= SAMPLE_MAX,
                f <= nframes,
                idx == f * channels,
                samples@.len() == s0.len(),
                self.gain == (Param {
                    range: p0.gain.range,
                    smoother: p0.gain.smoother.advanced(f as int),
                }),
                self.threshold == (Param {
                    range: p0.threshold.range,
                    smoother: p0.threshold.smoother.advanced(f as int),
                }),
                self.delta == p0.delta,
                self.mode == p0.mode,
                self.sample_rate == p0.sample_rate,
                forall|i: int|
                    0 <= i < idx ==> samples@[i] == p0.spec_output(
                        s0[i] as int,
                        i / (channels as int),
                    ),
                forall|i: int| idx <= i < s0.len() ==> samples@[i] == s0[i],
            decreases nframes - f,
        {
            let g_mdb: i64 = self.gain.smoother.advance_one_step();
            let t_mdb: i64 = self.threshold.smoother.advance_one_step();
            proof {
                assert(g_mdb == p0.gain.smoother.value_after(f as int + 1));
                assert(t_mdb == p0.threshold.smoother.value_after(f as int + 1));
                assert(self.gain.smoother == p0.gain.smoother.advanced(f as int + 1));
                assert(self.threshold.smoother == p0.threshold.smoother.advanced(f as int + 1));
            }
            let g_lin: i64 = db_to_linear(g_mdb);
            let c_lin: i64 = db_to_linear(t_mdb);
            let mut ch: usize = 0;
            while ch < channels
                invariant
                    p0.wf(),
                    1 <= channels,
                    s0.len() == nframes * channels,
                    s0.len() <= usize::MAX,
                    forall|i: int|
                        0 <= i < s0.len() ==> -SAMPLE_MAX <= #[trigger] s0[i] <= SAMPLE_MAX,
                    f < nframes,
                    ch <= channels,
                    idx == f * channels + ch,
                    samples@.len() == s0.len(),
                    g_lin == p0.gain_at(f as int),
                    c_lin == p0.ceiling_at(f as int),
                    1 <= g_lin <= LIN_CAP,
                    1 <= c_lin <= LIN_CAP,
                    self.delta == p0.delta,
                    self.mode == p0.mode,
                    forall|i: int|
                        0 <= i < idx ==> samples@[i] == p0.spec_output(
                            s0[i] as int,
                            i / (channels as int),
                        ),
                    forall|i: int| idx <= i < s0.len() ==> samples@[i] == s0[i],
                decreases channels - ch,
            {
                proof {
                    vstd::arithmetic::mul::lemma_mul_inequality(
                        f as int + 1,
                        nframes as int,
                        channels as int,
                    );
                    assert((f as int + 1) * (channels as int) == f as int * (channels as int)
                        + channels as int) by (nonlinear_arith);
                    vstd::arithmetic::div_mod::lemma_fundamental_div_mod_converse_div(
                        idx as int,
                        channels as int,
                        f as int,
                        ch as int,
                    );
                    assert(idx < s0.len());
                    assert(samples@[idx as int] == s0[idx as int]);
                    assert(-SAMPLE_MAX <= s0[idx as int] <= SAMPLE_MAX);
                }
                let dry: i64 = samples[idx];
                let w: i64 = transform(dry, g_lin, c_lin, self.mode, self.delta);
                samples.set(idx, w);
                idx = idx + 1;
                ch = ch + 1;
            }
            proof {
                assert((f as int + 1) * (channels as int) == f as int * (channels as int)
                    + channels as int) by (nonlinear_arith);
            }
            f = f + 1;
        }
        proof {
            assert(f * channels == nframes * channels);
            assert(self.gain.wf());
            assert(self.threshold.wf());
        }
    }
}

impl Default for Processor {
    /// The documented default processor, as `Processor::new` builds it.
    fn default() -> (p: Processor)
        ensures
            p.wf(),
            p.gain.range == (ParamRange { min_mdb: GAIN_MIN_MDB, max_mdb: GAIN_MAX_MDB }),
            p.threshold.range == (ParamRange {
                min_mdb: THRESHOLD_MIN_MDB,
                max_mdb: THRESHOLD_MAX_MDB,
            }),
            p.gain.smoother == (Smoother { start_mdb: 0, target_mdb: 0, total: 0, done: 0 }),
            p.threshold.smoother == (Smoother { start_mdb: 0, target_mdb: 0, total: 0, done: 0 }),
            p.delta == false,
            p.mode == ClipMode::HardClip,
            p.sample_rate == DEFAULT_RATE,
    {
        Processor::new()
    }
}

/// Law: with a threshold range that tops out at 0 dB (as both the default
/// and variant tables do), the smoothed threshold never leaves its range,
/// so the per-frame ceiling always lies between the fixed-point epsilon
/// and full scale: positive, and at most 1.0.
pub proof fn lemma_ceiling_within_unity(p: Processor, f: int)
    requires
        p.wf(),
        p.threshold.range.max_mdb <= 0,
        0 <= f,
    ensures
        1 <= p.ceiling_at(f) <= crate::units::LIN_ONE,
{
    p.threshold.lemma_live_value_in_range(f + 1);
    crate::units::lemma_db_to_linear_unity_bounds(p.threshold.smoother.value_after(f + 1));
    crate::units::lemma_db_to_linear_in_bounds(p.threshold.smoother.value_after(f + 1));
}

/// Law: however low the threshold control goes, the ceiling its linear
/// image yields is a positive bounded value, and the (non-delta) output of
/// either clipping curve stays within that ceiling in magnitude — no
/// finite input can drive the transform out of range.
pub proof fn lemma_ceiling_floor_safe(threshold_mdb: int, dry: int, gain: int, mode: ClipMode)
    ensures
        1 <= spec_db_to_linear(threshold_mdb) <= LIN_CAP,
        -spec_db_to_linear(threshold_mdb) <= spec_transform(
            dry,
            gain,
            spec_db_to_linear(threshold_mdb),
            mode,
            false,
        ) <= spec_db_to_linear(threshold_mdb),
{
    crate::units::lemma_db_to_linear_in_bounds(threshold_mdb);
    let c = spec_db_to_linear(threshold_mdb);
    assert(effective_ceiling(c) == c);
    match mode {
        ClipMode::HardClip => lemma_hard_clip_never_exceeds(dry, gain, c),
        ClipMode::SoftClip => lemma_soft_clip_strictly_inside(dry, gain, c),
    }
}

} // verus!
