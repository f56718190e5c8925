use rclip::smooth::Smoother;

#[test]
fn ramp_interpolates_linearly_and_converges() {
    let mut s = Smoother::at_value(0);
    s.retarget(1_000, 10);
    for k in 1..=10i64 {
        let v = s.advance_one_step();
        assert_eq!(v, 100 * k);
    }
    // After the ramp the value rests on the target.
    assert_eq!(s.advance_one_step(), 1_000);
    assert_eq!(s.current(), 1_000);
}

#[test]
fn ramp_descends_monotonically() {
    let mut s = Smoother::at_value(0);
    s.retarget(-2_000, 4);
    let mut previous: i64 = 0;
    for _ in 0..4 {
        let v = s.advance_one_step();
        assert!(v < previous);
        previous = v;
    }
    assert_eq!(previous, -2_000);
}

#[test]
fn zero_step_ramp_jumps_immediately() {
    let mut s = Smoother::at_value(-3_000);
    s.retarget(500, 0);
    assert_eq!(s.advance_one_step(), 500);
}

#[test]
fn retarget_mid_ramp_starts_from_the_value_reached() {
    let mut s = Smoother::at_value(0);
    s.retarget(1_000, 10);
    for _ in 0..5 {
        s.advance_one_step();
    }
    assert_eq!(s.current(), 500);
    // Turn around half way: the new ramp starts at 500, not at 0 or 1000.
    s.retarget(0, 10);
    assert_eq!(s.advance_one_step(), 450);
    assert_eq!(s.advance_one_step(), 400);
}

#[test]
fn snap_lands_on_the_target() {
    let mut s = Smoother::at_value(0);
    s.retarget(7_500, 2_400);
    s.advance_one_step();
    s.snap_to_target();
    assert_eq!(s.current(), 7_500);
}
