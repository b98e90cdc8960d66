use frog_dream::clock::{AnimationClock, Fraction};

#[test]
fn a_clock_starts_at_zero() {
    let clock = AnimationClock::start(1000);
    assert_eq!(clock.progress(), Fraction { num: 0, den: 1000 });
    assert!(!clock.is_done());
    assert!(!clock.progress().is_one());
}

#[test]
fn a_clock_advances_by_the_time_that_passes() {
    let mut clock = AnimationClock::start(1000);
    clock.advance(400);
    assert_eq!(clock.progress(), Fraction { num: 400, den: 1000 });
    assert!(!clock.is_done());
    clock.advance(599);
    assert_eq!(clock.progress(), Fraction { num: 999, den: 1000 });
    assert!(!clock.is_done());
    clock.advance(1);
    assert_eq!(clock.progress(), Fraction { num: 1000, den: 1000 });
    assert!(clock.is_done());
    assert!(clock.progress().is_one());
}

#[test]
fn a_clock_stops_at_its_duration() {
    let mut clock = AnimationClock::start(1000);
    clock.advance(u64::MAX);
    assert_eq!(clock.progress(), Fraction { num: 1000, den: 1000 });
    clock.advance(u64::MAX);
    assert_eq!(clock.progress(), Fraction { num: 1000, den: 1000 });
    assert!(clock.is_done());
}

#[test]
fn a_clock_of_zero_ticks_advanced_does_not_move() {
    let mut clock = AnimationClock::start(7);
    clock.advance(3);
    clock.advance(0);
    assert_eq!(clock.progress(), Fraction { num: 3, den: 7 });
}

#[test]
fn lerp_starts_and_ends_exactly() {
    let zero = Fraction { num: 0, den: 3 };
    let one = Fraction { num: 3, den: 3 };
    assert_eq!(zero.lerp(17, 1000), 17);
    assert_eq!(one.lerp(17, 1000), 1000);
    assert_eq!(zero.lerp(1000, -17), 1000);
    assert_eq!(one.lerp(1000, -17), -17);
}

#[test]
fn lerp_rounds_down() {
    let third = Fraction { num: 1, den: 3 };
    assert_eq!(third.lerp(0, 100), 33);
    assert_eq!(third.lerp(0, -100), -34);
    assert_eq!(third.lerp(10, 20), 13);
    let two_fifths = Fraction { num: 400, den: 1000 };
    assert_eq!(two_fifths.lerp(160, 430), 268);
}

#[test]
fn lerp_spans_the_whole_range_of_coordinates() {
    let half = Fraction { num: 1, den: 2 };
    assert_eq!(half.lerp(i64::MIN, i64::MAX), -1);
    assert_eq!(half.lerp(i64::MAX, i64::MIN), -1);
    let one = Fraction { num: u32::MAX, den: u32::MAX };
    assert_eq!(one.lerp(i64::MIN, i64::MAX), i64::MAX);
}
