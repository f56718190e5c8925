use rclip::clip::ClipMode;
use rclip::engine::{ramp_steps, Processor};
use rclip::params::ParamRange;
use rclip::units::db_to_linear;

#[test]
fn defaults_match_the_documented_table() {
    let p = Processor::new();
    assert_eq!(p.gain.range.min_mdb, -12_000);
    assert_eq!(p.gain.range.max_mdb, 12_000);
    assert_eq!(p.threshold.range.min_mdb, -24_000);
    assert_eq!(p.threshold.range.max_mdb, 0);
    assert_eq!(p.gain.smoother.target_mdb, 0);
    assert_eq!(p.threshold.smoother.target_mdb, 0);
    assert!(!p.delta);
    assert!(matches!(p.mode, ClipMode::HardClip));
}

#[test]
fn default_is_the_documented_processor() {
    let p: Processor = Default::default();
    assert_eq!(p.gain.range.min_mdb, -12_000);
    assert_eq!(p.threshold.range.min_mdb, -24_000);
    assert!(!p.delta);
    assert!(matches!(p.mode, ClipMode::HardClip));
}

#[test]
fn ramp_steps_cover_fifty_milliseconds() {
    assert_eq!(ramp_steps(48_000), 2_400);
    assert_eq!(ramp_steps(44_100), 2_205);
    // A rate too low for one step makes retargets jump immediately.
    assert_eq!(ramp_steps(19), 0);
    // The highest accepted rate fills the step budget exactly.
    assert_eq!(ramp_steps(1_000_000), 50_000);
}

#[test]
fn a_ramp_continues_across_blocks() {
    let mut p = Processor::new();
    p.configure(100);
    p.set_gain_db(-6_000);
    let mut first: Vec<i64> = vec![1_000_000; 2];
    p.process_block(&mut first, 1);
    let mut second: Vec<i64> = vec![1_000_000; 3];
    p.process_block(&mut second, 1);
    // The five-step ramp runs on where the first block left it.
    assert_eq!(first[0], db_to_linear(-1_200));
    assert_eq!(first[1], db_to_linear(-2_400));
    assert_eq!(second[0], db_to_linear(-3_600));
    assert_eq!(second[1], db_to_linear(-4_800));
    assert_eq!(second[2], db_to_linear(-6_000));
}

#[test]
fn end_to_end_hard_clip_at_minus_six() {
    let mut p = Processor::new();
    p.configure(48_000);
    p.set_threshold_db(-6_000);
    p.reset();
    let mut buf: Vec<i64> = vec![1_000_000];
    p.process_block(&mut buf, 1);
    let c = db_to_linear(-6_000);
    assert_eq!(buf[0], c);
    assert!(500_800 <= buf[0] && buf[0] <= 501_500, "got {}", buf[0]);
}

#[test]
fn end_to_end_soft_clip_at_minus_six() {
    let mut p = Processor::new();
    p.configure(48_000);
    p.set_threshold_db(-6_000);
    p.set_mode(ClipMode::SoftClip);
    p.reset();
    let mut buf: Vec<i64> = vec![1_000_000];
    p.process_block(&mut buf, 1);
    let c = db_to_linear(-6_000);
    // tanh(1.0 / 0.5012) * 0.5012 ~= 0.48297: strictly below the ceiling.
    assert!(482_000 <= buf[0] && buf[0] <= 484_000, "got {}", buf[0]);
    assert!(buf[0] < c, "got {} against {}", buf[0], c);
}

#[test]
fn end_to_end_delta_at_plus_six() {
    let mut p = Processor::new();
    p.configure(48_000);
    p.set_gain_db(6_000);
    p.set_delta(true);
    p.reset();
    let mut buf: Vec<i64> = vec![300_000];
    p.process_block(&mut buf, 1);
    // 0.3 at +6 dB stays under the 0 dB ceiling; wet minus dry is ~0.2986.
    assert!(298_000 <= buf[0] && buf[0] <= 299_200, "got {}", buf[0]);
}

#[test]
fn stereo_block_clips_each_channel_in_place() {
    let mut p = Processor::new();
    p.configure(48_000);
    let mut buf: Vec<i64> = vec![500_000, -2_000_000, 1_500_000, 250_000];
    p.process_block(&mut buf, 2);
    assert_eq!(buf, vec![500_000, -1_000_000, 1_000_000, 250_000]);
}

#[test]
fn smoothing_walks_the_gain_down_across_a_block() {
    let mut p = Processor::new();
    // Five smoothing steps at this rate: the ramp crosses the block.
    p.configure(100);
    p.set_gain_db(-6_000);
    let mut buf: Vec<i64> = vec![1_000_000; 5];
    p.process_block(&mut buf, 1);
    for f in 0..5i64 {
        // Gain at frame f is -6 dB scaled by (f + 1) / 5.
        assert_eq!(buf[f as usize], db_to_linear(-6_000 * (f + 1) / 5));
    }
    // A further block rests on the target.
    let mut more: Vec<i64> = vec![1_000_000; 2];
    p.process_block(&mut more, 1);
    assert_eq!(more, vec![db_to_linear(-6_000); 2]);
}

#[test]
fn configure_snaps_pending_ramps() {
    let mut p = Processor::new();
    p.configure(48_000);
    p.set_gain_db(-12_000);
    p.configure(44_100);
    let mut buf: Vec<i64> = vec![1_000_000];
    p.process_block(&mut buf, 1);
    assert_eq!(buf[0], db_to_linear(-12_000));
}

#[test]
fn targets_are_clamped_into_their_ranges() {
    let mut p = Processor::new();
    p.set_gain_db(99_000);
    assert_eq!(p.gain.smoother.target_mdb, 12_000);
    p.set_threshold_db(7_000);
    assert_eq!(p.threshold.smoother.target_mdb, 0);
    p.set_threshold_db(-99_000);
    assert_eq!(p.threshold.smoother.target_mdb, -24_000);
}

#[test]
fn variant_ranges_and_the_lowest_threshold_stay_safe() {
    // The hard-clip-only product variant: gain +-10 dB, threshold down to -60 dB.
    let mut p = Processor::with_ranges(
        ParamRange { min_mdb: -10_000, max_mdb: 10_000 },
        ParamRange { min_mdb: -60_000, max_mdb: 0 },
    );
    p.configure(48_000);
    p.set_threshold_db(-60_000);
    p.reset();
    let mut buf: Vec<i64> = vec![1_000_000_000, -1_000_000_000];
    p.process_block(&mut buf, 2);
    let c = db_to_linear(-60_000);
    assert_eq!(buf[0], c);
    assert_eq!(buf[1], -c);
    assert!(c >= 1, "ceiling must stay positive");
}

#[test]
fn block_length_and_layout_are_preserved() {
    let mut p = Processor::new();
    p.configure(48_000);
    let mut buf: Vec<i64> = vec![1; 24];
    p.process_block(&mut buf, 2);
    assert_eq!(buf.len(), 24);
}
