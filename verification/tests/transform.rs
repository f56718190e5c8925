use rclip::clip::{hard_clip, soft_clip, transform, ClipMode, SAMPLE_MAX};
use rclip::units::{db_to_linear, LIN_CAP, LIN_ONE};

#[test]
fn unity_gain_below_ceiling_is_identity() {
    // 0 dB gain, sample within the ceiling: passes through exactly.
    assert_eq!(
        transform(300_000, LIN_ONE, 501_187, ClipMode::HardClip, false),
        300_000
    );
    assert_eq!(
        transform(-450_000, LIN_ONE, 501_187, ClipMode::HardClip, false),
        -450_000
    );
}

#[test]
fn hard_clip_truncates_at_the_ceiling() {
    let c = db_to_linear(-6_000);
    // Full-scale input against a -6 dB ceiling lands exactly on the ceiling.
    assert_eq!(transform(LIN_ONE, LIN_ONE, c, ClipMode::HardClip, false), c);
    assert_eq!(
        transform(-LIN_ONE, LIN_ONE, c, ClipMode::HardClip, false),
        -c
    );
    assert!(500_800 <= c && c <= 501_500, "got {c}");
}

#[test]
fn hard_clip_never_exceeds_ceiling_on_a_sweep() {
    let c = 750_000;
    let mut dry: i64 = -SAMPLE_MAX;
    while dry <= SAMPLE_MAX {
        let out = transform(dry, LIN_CAP, c, ClipMode::HardClip, false);
        assert!(-c <= out && out <= c);
        dry += SAMPLE_MAX / 8;
    }
}

#[test]
fn soft_clip_tracks_the_tanh_curve() {
    // signal 1.0 against ceiling 0.5: tanh(2.0) * 0.5 ~= 0.482014; the
    // fixed-point curve lands within a hundred micro-units of it.
    assert_eq!(
        transform(LIN_ONE, LIN_ONE, 500_000, ClipMode::SoftClip, false),
        482_024
    );
    assert_eq!(
        transform(-LIN_ONE, LIN_ONE, 500_000, ClipMode::SoftClip, false),
        -482_024
    );
    // signal 0.5 against ceiling 1.0: tanh(0.5) ~= 0.462117.
    let out = soft_clip(500_000, 1_000_000);
    assert!(461_800 <= out && out <= 462_400, "got {out}");
}

#[test]
fn soft_clip_stays_strictly_below_ceiling() {
    let c = 1_000_000;
    let out = transform(SAMPLE_MAX, LIN_CAP, c, ClipMode::SoftClip, false);
    assert!(out < c, "got {out}");
    assert_eq!(out, c - 1);
    let out_neg = transform(-SAMPLE_MAX, LIN_CAP, c, ClipMode::SoftClip, false);
    assert!(-c < out_neg, "got {out_neg}");
    assert_eq!(out_neg, -(c - 1));
}

#[test]
fn soft_clip_saturates_one_quantum_below() {
    // From 21 ceilings of signal on, the curve sits on c - 1 exactly.
    assert_eq!(soft_clip(21_000_000, 1_000_000), 999_999);
    assert_eq!(soft_clip(-21_000_000, 1_000_000), -999_999);
    assert_eq!(soft_clip(2_000_000, 1_000), 999);
    assert_eq!(soft_clip(-2_000_000, 1_000), -999);
}

#[test]
fn soft_clip_is_gentle_near_zero() {
    // Unit slope at the origin: tanh(0.01) * 1.0 ~= 0.0099997.
    assert_eq!(soft_clip(10_000, 1_000_000), 9_999);
}

#[test]
fn delta_is_wet_minus_dry() {
    let dry: i64 = 300_000;
    let g = db_to_linear(6_000);
    for mode in [ClipMode::HardClip, ClipMode::SoftClip] {
        let wet = transform(dry, g, LIN_ONE, mode, false);
        let delta = transform(dry, g, LIN_ONE, mode, true);
        assert_eq!(delta, wet - dry);
    }
}

#[test]
fn delta_scenario_plus_six_db() {
    // +6 dB gain on 0.3 stays under a 0 dB ceiling; delta reports the
    // gain-staging artifact, about 0.2986.
    let g = db_to_linear(6_000);
    let out = transform(300_000, g, LIN_ONE, ClipMode::HardClip, true);
    assert!(298_000 <= out && out <= 299_200, "got {out}");
}

#[test]
fn zero_or_negative_ceiling_is_floored() {
    // The epsilon floor turns a degenerate ceiling into one quantum.
    assert_eq!(transform(LIN_ONE, LIN_ONE, 0, ClipMode::HardClip, false), 1);
    assert_eq!(
        transform(-LIN_ONE, LIN_ONE, -5, ClipMode::HardClip, false),
        -1
    );
    assert_eq!(transform(LIN_ONE, LIN_ONE, 0, ClipMode::SoftClip, false), 0);
}

#[test]
fn hard_clip_floors_its_threshold() {
    assert_eq!(hard_clip(123, 0), 1);
    assert_eq!(hard_clip(-123, -44), -1);
    assert_eq!(hard_clip(0, 0), 0);
}
