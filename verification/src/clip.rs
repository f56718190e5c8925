//! The per-sample transform: gain staging, clipping, delta output.
//!
//! The transform is a pure function of its inputs. The signal is the dry
//! sample scaled by the linear gain; the selected clipping curve then
//! bounds it by the ceiling. Hard clipping truncates at the ceiling
//! exactly; soft clipping follows the hyperbolic tangent curve
//! `tanh(signal / ceiling) * ceiling` — approximated in fixed point by a
//! truncation of its continued fraction — approaching the ceiling
//! asymptotically, never reaching it. The ceiling is floored to one positive
//! fixed-point quantum first, so a zero or negative ceiling can never
//! produce a degenerate clamp or a division by zero.

use vstd::prelude::*;
use crate::units::LIN_CAP;
use crate::units::LIN_ONE;

verus! {

/// Largest dry sample magnitude the transform accepts (1000.0 linear);
/// far beyond full scale, and small enough that no product overflows.
pub const SAMPLE_MAX: i64 = 1_000_000_000;

/// Largest gain-staged signal magnitude: `SAMPLE_MAX` times the largest
/// gain, in linear micro-units.
pub const SIGNAL_MAX: i64 = 16_000_000_000;

/// The clipping curve applied after the gain stage.
#[derive(Clone, Copy, PartialEq, Eq, Structural, Debug)]
pub enum ClipMode {
    /// Truncate the signal at the ceiling exactly.
    HardClip,
    /// Saturate the signal smoothly, approaching the ceiling from below.
    SoftClip,
}

/// The ceiling actually used: floored to one positive quantum.
pub open spec fn effective_ceiling(ceiling: int) -> int {
    if ceiling < 1 {
        1
    } else {
        ceiling
    }
}

/// `a` scaled by the fixed-point factor `b`, truncating toward zero.
pub open spec fn scale_by(a: int, b: int) -> int {
    if a >= 0 {
        a * b / (LIN_ONE as int)
    } else {
        -((-a) * b / (LIN_ONE as int))
    }
}

/// Hard clipping: the signal truncated into `[-c, c]`.
pub open spec fn spec_hard_clip(x: int, c: int) -> int {
    if x < -c {
        -c
    } else if x > c {
        c
    } else {
        x
    }
}

/// The smooth saturation stage for a nonnegative signal: the hyperbolic
/// tangent's continued fraction truncated at order five,
/// `tanh(y) ~= y * (945 + 105*y^2 + y^4) / (945 + 420*y^2 + 15*y^4)`,
/// evaluated on the signal-to-ceiling ratio `y` held in milli-units,
/// scaled back by the ceiling, and clamped one quantum below the ceiling
/// (the truncation drifts past one beyond `y ~= 3.8`, where the true
/// curve has long flattened; a ratio of 21 or more flattens outright).
pub open spec fn spec_saturate(x: int, c: int) -> int {
    let y = x * 1000 / c;
    if y >= 21_000 {
        c - 1
    } else {
        let q = c * (y * (945_000_000_000_000 + 105_000_000 * (y * y) + (y * y) * (y * y))) / ((
        945_000_000_000_000 + 420_000_000 * (y * y) + 15 * ((y * y) * (y * y))) * 1000);
        if q >= c - 1 {
            c - 1
        } else {
            q
        }
    }
}

/// Soft clipping: the odd tanh-shaped saturation curve `spec_saturate`,
/// applied to the signal's magnitude and given back its sign. It has unit
/// slope at the origin and approaches `c` from below, never reaching it.
pub open spec fn spec_soft_clip(x: int, c: int) -> int {
    if x >= 0 {
        spec_saturate(x, c)
    } else {
        -spec_saturate(-x, c)
    }
}

/// The clipping curve selected by `mode`, on a floored ceiling.
pub open spec fn spec_clip(x: int, c: int, mode: ClipMode) -> int {
    match mode {
        ClipMode::HardClip => spec_hard_clip(x, c),
        ClipMode::SoftClip => spec_soft_clip(x, c),
    }
}

/// The whole per-sample transform: gain, clip, and — in delta mode — the
/// wet signal minus the dry input.
pub open spec fn spec_transform(dry: int, gain: int, ceiling: int, mode: ClipMode, delta: bool) -> int {
    let c = effective_ceiling(ceiling);
    let wet = spec_clip(scale_by(dry, gain), c, mode);
    if delta {
        wet - dry
    } else {
        wet
    }
}

/// Hard clipping of a signal at a threshold, flooring the threshold to
/// one positive quantum first.
pub fn hard_clip(x: i64, threshold: i64) -> (r: i64)
    ensures
        r == spec_hard_clip(x as int, effective_ceiling(threshold as int)),
        -effective_ceiling(threshold as int) <= r <= effective_ceiling(threshold as int),
{
    let c: i64 = if threshold < 1 {
        1
    } else {
        threshold
    };
    if x < -c {
        -c
    } else if x > c {
        c
    } else {
        x
    }
}

/// Soft clipping of a signal at a threshold, flooring the threshold to
/// one positive quantum first. The result is strictly inside the open
/// interval `(-c, c)`.
pub fn soft_clip(x: i64, threshold: i64) -> (r: i64)
    requires
        -SIGNAL_MAX <= x <= SIGNAL_MAX,
        threshold <= LIN_CAP,
    ensures
        r == spec_soft_clip(x as int, effective_ceiling(threshold as int)),
        -effective_ceiling(threshold as int) < r < effective_ceiling(threshold as int),
{
    let c: i64 = if threshold < 1 {
        1
    } else {
        threshold
    };
    if x >= 0 {
        saturate_exec(x as u64, c)
    } else {
        let mag: i64 = saturate_exec((-x) as u64, c);
        -mag
    }
}

fn saturate_exec(x: u64, c: i64) -> (r: i64)
    requires
        x <= SIGNAL_MAX as u64,
        1 <= c <= LIN_CAP,
    ensures
        r == spec_saturate(x as int, c as int),
        0 <= r <= c - 1,
{
    proof {
        lemma_saturate_in_range(x as int, c as int);
    }
    let y: u64 = x * 1000 / (c as u64);
    if y >= 21_000 {
        c - 1
    } else {
        proof {
            assert(y * y <= 20_999 * 20_999) by (nonlinear_arith)
                requires
                    y <= 20_999,
            ;
        }
        let y2: u64 = y * y;
        proof {
            assert(y2 * y2 <= 440_958_001 * 440_958_001) by (nonlinear_arith)
                requires
                    y2 <= 440_958_001,
            ;
        }
        let y4: u64 = y2 * y2;
        let num_inner: u64 = 945_000_000_000_000 + 105_000_000 * y2 + y4;
        let den: u64 = 945_000_000_000_000 + 420_000_000 * y2 + 15 * y4;
        proof {
            assert((y as u128) * (num_inner as u128) <= 21_000 * 243_000_000_000_000_000)
                by (nonlinear_arith)
                requires
                    (y as u128) <= 21_000,
                    (num_inner as u128) <= 243_000_000_000_000_000,
            ;
        }
        let num: u128 = (y as u128) * (num_inner as u128);
        proof {
            assert((c as u128) * num <= 16_000_000 * 5_103_000_000_000_000_000_000)
                by (nonlinear_arith)
                requires
                    (c as u128) <= 16_000_000,
                    num <= 5_103_000_000_000_000_000_000,
            ;
        }
        let q: u128 = (c as u128) * num / ((den as u128) * 1000);
        if q >= (c - 1) as u128 {
            c - 1
        } else {
            q as i64
        }
    }
}

/// For any nonnegative signal and positive ceiling the saturation stage
/// lands in `[0, c - 1]`: nonnegative and strictly below the ceiling.
proof fn lemma_saturate_in_range(x: int, c: int)
    requires
        0 <= x,
        1 <= c,
    ensures
        0 <= spec_saturate(x, c) <= c - 1,
{
    let y = x * 1000 / c;
    vstd::arithmetic::mul::lemma_mul_nonnegative(x, 1000);
    vstd::arithmetic::div_mod::lemma_div_pos_is_pos(x * 1000, c);
    if y < 21_000 {
        let y2 = y * y;
        let y4 = y2 * y2;
        vstd::arithmetic::mul::lemma_mul_nonnegative(y, y);
        vstd::arithmetic::mul::lemma_mul_nonnegative(y2, y2);
        let num_inner = 945_000_000_000_000 + 105_000_000 * y2 + y4;
        let den = 945_000_000_000_000 + 420_000_000 * y2 + 15 * y4;
        vstd::arithmetic::mul::lemma_mul_nonnegative(y, num_inner);
        vstd::arithmetic::mul::lemma_mul_nonnegative(c, y * num_inner);
        vstd::arithmetic::div_mod::lemma_div_pos_is_pos(c * (y * num_inner), den * 1000);
    }
}

/// Law: at unity gain, hard clipping passes a dry sample that is already
/// within the ceiling through unchanged.
pub proof fn lemma_unity_gain_identity(dry: int, ceiling: int)
    requires
        -effective_ceiling(ceiling) <= dry <= effective_ceiling(ceiling),
    ensures
        spec_transform(dry, LIN_ONE as int, ceiling, ClipMode::HardClip, false) == dry,
{
    if dry >= 0 {
        vstd::arithmetic::div_mod::lemma_div_multiples_vanish(dry, LIN_ONE as int);
    } else {
        vstd::arithmetic::div_mod::lemma_div_multiples_vanish(-dry, LIN_ONE as int);
    }
}

/// Law: a hard-clipped output never exceeds the (floored) ceiling in
/// magnitude, for any input, gain and ceiling.
pub proof fn lemma_hard_clip_never_exceeds(dry: int, gain: int, ceiling: int)
    ensures
        -effective_ceiling(ceiling) <= spec_transform(
            dry,
            gain,
            ceiling,
            ClipMode::HardClip,
            false,
        ) <= effective_ceiling(ceiling),
{
}

/// Law: a soft-clipped output stays strictly inside the open interval
/// bounded by the (floored) ceiling, for any input, gain and ceiling.
pub proof fn lemma_soft_clip_strictly_inside(dry: int, gain: int, ceiling: int)
    ensures
        -effective_ceiling(ceiling) < spec_transform(
            dry,
            gain,
            ceiling,
            ClipMode::SoftClip,
            false,
        ) < effective_ceiling(ceiling),
{
    let x = scale_by(dry, gain);
    let c = effective_ceiling(ceiling);
    if x >= 0 {
        lemma_saturate_in_range(x, c);
    } else {
        lemma_saturate_in_range(-x, c);
    }
}

/// Law: the saturation curve approaches the ceiling asymptotically and
/// flattens onto the top quantum below it: a signal magnitude of 21
/// ceilings or more yields exactly `c - 1` (the true hyperbolic tangent
/// is within a quantum of the ceiling long before that ratio).
pub proof fn lemma_soft_clip_saturates(x: int, c: int)
    requires
        1 <= c,
        x >= 21 * c,
    ensures
        spec_soft_clip(x, c) == c - 1,
        spec_soft_clip(-x, c) == -(c - 1),
{
    assert((21 * c) * 1000 == 21_000 * c) by (nonlinear_arith);
    vstd::arithmetic::mul::lemma_mul_inequality(21 * c, x, 1000);
    vstd::arithmetic::div_mod::lemma_div_is_ordered(21_000 * c, x * 1000, c);
    vstd::arithmetic::div_mod::lemma_div_multiples_vanish(21_000, c);
    assert(21_000 * c == c * 21_000) by (nonlinear_arith);
}

/// Law: delta-mode output is exactly the wet output minus the dry input,
/// for every parameter combination.
pub proof fn lemma_delta_is_wet_minus_dry(dry: int, gain: int, ceiling: int, mode: ClipMode)
    ensures
        spec_transform(dry, gain, ceiling, mode, true) == spec_transform(
            dry,
            gain,
            ceiling,
            mode,
            false,
        ) - dry,
{
}

/// The per-sample transform (see the module description): gain-stage the
/// dry sample, clip it by `mode` at the floored ceiling, and return the
/// wet signal, or wet minus dry when `delta` is set.
pub fn transform(dry: i64, gain: i64, ceiling: i64, mode: ClipMode, delta: bool) -> (out: i64)
    requires
        -SAMPLE_MAX <= dry <= SAMPLE_MAX,
        0 <= gain <= LIN_CAP,
        ceiling <= LIN_CAP,
    ensures
        out == spec_transform(dry as int, gain as int, ceiling as int, mode, delta),
{
    let signal: i64 = if dry >= 0 {
        proof {
            assert((dry as u64) * (gain as u64) <= 1_000_000_000 * 16_000_000)
                by (nonlinear_arith)
                requires
                    dry as u64 <= 1_000_000_000,
                    gain as u64 <= 16_000_000,
            ;
        }
        ((dry as u64) * (gain as u64) / (LIN_ONE as u64)) as i64
    } else {
        let m: u64 = (-dry) as u64;
        proof {
            assert(m * (gain as u64) <= 1_000_000_000 * 16_000_000) by (nonlinear_arith)
                requires
                    m <= 1_000_000_000,
                    gain as u64 <= 16_000_000,
            ;
        }
        -((m * (gain as u64) / (LIN_ONE as u64)) as i64)
    };
    proof {
        assert((LIN_ONE as u64) as int == 1_000_000int);
        vstd::arithmetic::div_mod::lemma_div_is_ordered(
            (if dry >= 0 { dry as int } else { -(dry as int) }) * (gain as int),
            16_000_000_000_000_000,
            1_000_000,
        );
        vstd::arithmetic::mul::lemma_mul_nonnegative(
            if dry >= 0 { dry as int } else { -(dry as int) },
            gain as int,
        );
        vstd::arithmetic::div_mod::lemma_div_pos_is_pos(
            (if dry >= 0 { dry as int } else { -(dry as int) }) * (gain as int),
            1_000_000,
        );
        assert(signal == scale_by(dry as int, gain as int));
        assert(-SIGNAL_MAX <= signal <= SIGNAL_MAX);
    }
    let wet: i64 = match mode {
        ClipMode::HardClip => hard_clip(signal, ceiling),
        ClipMode::SoftClip => soft_clip(signal, ceiling),
    };
    if delta {
        wet - dry
    } else {
        wet
    }
}

} // verus!
