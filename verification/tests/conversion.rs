use rclip::units::{db_to_linear, DB_MIN_MDB, LIN_CAP, LIN_ONE};

#[test]
fn db_zero_is_unity() {
    assert_eq!(db_to_linear(0), LIN_ONE);
}

#[test]
fn db_one_step_up_is_the_ratio() {
    assert_eq!(db_to_linear(100), 1_011_579);
}

#[test]
fn db_one_step_down_is_the_ratio() {
    assert_eq!(db_to_linear(-100), 988_553);
}

#[test]
fn db_half_step_interpolates() {
    // base 1.0, lifted by half of one step's rise: 1_000_000 * 11_579 * 50 / 100_000_000
    assert_eq!(db_to_linear(50), 1_005_789);
}

#[test]
fn db_minus_six_is_about_half() {
    let c = db_to_linear(-6_000);
    assert!(500_800 <= c && c <= 501_500, "got {c}");
}

#[test]
fn db_plus_six_is_about_double() {
    let g = db_to_linear(6_000);
    assert!(1_993_900 <= g && g <= 1_996_500, "got {g}");
}

#[test]
fn db_minus_sixty_is_about_a_thousandth() {
    // Per-step floor rounding accumulates downward over the 600 steps, so
    // the value sits a few percent under the ideal 1000.
    let c = db_to_linear(-60_000);
    assert!(930 <= c && c <= 1_010, "got {c}");
}

#[test]
fn db_floor_never_underflows() {
    let floor = db_to_linear(DB_MIN_MDB);
    assert!(floor >= 1);
    assert!(floor <= LIN_CAP);
    // Every admitted value converts to at least the bottom value, whole
    // step or not.
    assert!(db_to_linear(-59_950) >= floor);
    assert!(db_to_linear(-59_901) >= floor);
}

#[test]
fn db_conversion_is_monotone_on_a_sweep() {
    let mut previous = db_to_linear(-60_000);
    let mut mdb: i64 = -59_900;
    while mdb <= 12_000 {
        let here = db_to_linear(mdb);
        assert!(here >= previous, "not monotone at {mdb}");
        previous = here;
        mdb += 100;
    }
}
