use frog_dream::clock::Fraction;
use frog_dream::reflow::{Row, Transition};

fn row() -> Row {
    Row { center: 0, width: 200, gap: 20 }
}

fn static_x(len: usize, index: usize) -> i64 {
    -((220 * len as i64).div_euclid(2)) + 220 * index as i64 + 10
}

#[test]
fn a_row_at_rest_is_centred() {
    assert_eq!(row().member_x(3, 0, Transition::Rest), -320);
    assert_eq!(row().member_x(3, 1, Transition::Rest), -100);
    assert_eq!(row().member_x(3, 2, Transition::Rest), 120);
    assert_eq!(row().member_x(4, 0, Transition::Rest), -430);
    assert_eq!(row().member_x(1, 0, Transition::Rest), -100);
    assert_eq!(row().member_x(0, 0, Transition::Rest), 10);
}

#[test]
fn a_row_is_laid_out_around_its_centre() {
    let row = Row { center: 600, width: 100, gap: 11 };
    assert_eq!(row.member_x(3, 0, Transition::Rest), 600 - 166 + 5);
    assert_eq!(row.member_x(3, 2, Transition::Rest), 600 - 166 + 222 + 5);
    assert_eq!(Row { center: 600, width: 200, gap: 20 }.member_x(1, 0, Transition::Rest), 500);
}

#[test]
fn an_insertion_half_way() {
    let t = Transition::Insert { at: 1, progress: Fraction { num: 1, den: 2 } };
    assert_eq!(row().member_x(3, 0, t), -375);
    assert_eq!(row().member_x(3, 1, t), -45);
    assert_eq!(row().member_x(3, 2, t), 175);
}

#[test]
fn a_removal_a_quarter_of_the_way() {
    let t = Transition::Remove { at: 1, progress: Fraction { num: 1, den: 4 } };
    assert_eq!(row().member_x(2, 0, t), -292);
    assert_eq!(row().member_x(2, 1, t), 93);
}

#[test]
fn an_insertion_is_continuous_at_both_ends() {
    for len in 0..6usize {
        for at in 0..=len {
            for index in 0..len {
                let start = Transition::Insert { at, progress: Fraction { num: 0, den: 7 } };
                let end = Transition::Insert { at, progress: Fraction { num: 7, den: 7 } };
                assert_eq!(row().member_x(len, index, start), static_x(len, index));
                let after = if index >= at { index + 1 } else { index };
                assert_eq!(row().member_x(len, index, end), static_x(len + 1, after));
            }
        }
    }
}

#[test]
fn a_removal_is_continuous_at_both_ends() {
    for len in 0..6usize {
        for at in 0..=len {
            for index in 0..len {
                let start = Transition::Remove { at, progress: Fraction { num: 0, den: 7 } };
                let end = Transition::Remove { at, progress: Fraction { num: 7, den: 7 } };
                let before = if index >= at { index + 1 } else { index };
                assert_eq!(row().member_x(len, index, start), static_x(len + 1, before));
                assert_eq!(row().member_x(len, index, end), static_x(len, index));
            }
        }
    }
}

#[test]
fn members_move_one_way_during_an_insertion() {
    let mut last_left = i64::MAX;
    let mut last_right = i64::MIN;
    for num in 0..=10u32 {
        let t = Transition::Insert { at: 1, progress: Fraction { num, den: 10 } };
        let left = row().member_x(2, 0, t);
        let right = row().member_x(2, 1, t);
        assert!(left <= last_left);
        assert!(right >= last_right);
        last_left = left;
        last_right = right;
    }
}

#[test]
fn a_row_at_rest_is_centred_on_its_centre() {
    for len in 1..7usize {
        let mut sum = 0;
        for index in 0..len {
            let middle = row().member_x(len, index, Transition::Rest) + 100;
            assert_eq!(middle, 220 * index as i64 - 110 * (len as i64 - 1));
            sum += middle;
        }
        assert_eq!(sum, 0);
    }
}
