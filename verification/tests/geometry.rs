use frog_dream::arith::{div_floor, scale};
use frog_dream::geometry::{Rect, Vec2};
use frog_dream::pin_point::{along, PinPoint};

#[test]
fn division_rounds_toward_negative_infinity() {
    assert_eq!(div_floor(7, 2), 3);
    assert_eq!(div_floor(-7, 2), -4);
    assert_eq!(div_floor(-8, 2), -4);
    assert_eq!(div_floor(-1, 1000), -1);
    assert_eq!(div_floor(0, 5), 0);
    assert_eq!(div_floor(i128::MIN, 1), i128::MIN);
}

#[test]
fn scale_multiplies_before_it_divides() {
    assert_eq!(scale(201, 500, 1000), 100);
    assert_eq!(scale(-201, 500, 1000), -101);
    assert_eq!(scale(220, 7, 4), 385);
    assert_eq!(scale(220, 11, 8), 302);
}

#[test]
fn rect_contains_its_edges() {
    let rect = Rect::new(10, 20, 30, 40);
    assert!(rect.contains(Vec2::new(10, 20)));
    assert!(rect.contains(Vec2::new(40, 60)));
    assert!(rect.contains(Vec2::new(25, 30)));
    assert!(!rect.contains(Vec2::new(9, 30)));
    assert!(!rect.contains(Vec2::new(41, 30)));
    assert!(!rect.contains(Vec2::new(25, 19)));
    assert!(!rect.contains(Vec2::new(25, 61)));
}

#[test]
fn rect_contains_does_not_overflow_at_the_far_end() {
    let rect = Rect::new(i64::MAX - 1, i64::MAX - 1, 10, 10);
    assert!(rect.contains(Vec2::new(i64::MAX, i64::MAX)));
    assert!(!rect.contains(Vec2::new(0, 0)));
}

#[test]
fn rect_center_and_point() {
    let rect = Rect::new(10, 20, 30, 41);
    assert_eq!(rect.center(), Vec2::new(25, 40));
    assert_eq!(rect.point(), Vec2::new(10, 20));
}

#[test]
fn the_nine_pin_points() {
    assert_eq!(PinPoint::top_left(), PinPoint::new(0, 0));
    assert_eq!(PinPoint::top_center(), PinPoint::new(500, 0));
    assert_eq!(PinPoint::top_right(), PinPoint::new(1000, 0));
    assert_eq!(PinPoint::center_left(), PinPoint::new(0, 500));
    assert_eq!(PinPoint::center_center(), PinPoint::new(500, 500));
    assert_eq!(PinPoint::center_right(), PinPoint::new(1000, 500));
    assert_eq!(PinPoint::bottom_left(), PinPoint::new(0, 1000));
    assert_eq!(PinPoint::bottom_center(), PinPoint::new(500, 1000));
    assert_eq!(PinPoint::bottom_right(), PinPoint::new(1000, 1000));
}

#[test]
fn along_takes_the_fraction_of_the_extent() {
    assert_eq!(along(500, 200), 100);
    assert_eq!(along(1000, 300), 300);
    assert_eq!(along(0, 300), 0);
    assert_eq!(along(250, 10), 2);
    assert_eq!(along(-500, 201), -101);
    assert_eq!(along(1500, 200), 300);
}

#[test]
fn actual_top_left_coords_moves_against_the_pin_point() {
    let dims = Vec2::new(200, 300);
    let dst = Vec2::new(1000, 1000);
    assert_eq!(PinPoint::top_left().actual_top_left_coords(dst, dims), Vec2::new(1000, 1000));
    assert_eq!(PinPoint::center_center().actual_top_left_coords(dst, dims), Vec2::new(900, 850));
    assert_eq!(PinPoint::bottom_right().actual_top_left_coords(dst, dims), Vec2::new(800, 700));
    assert_eq!(PinPoint::center_left().actual_top_left_coords(dst, dims), Vec2::new(1000, 850));
}

#[test]
fn where_in_rect_finds_the_point_of_the_rectangle() {
    let rect = Rect::new(100, 50, 200, 300);
    assert_eq!(PinPoint::top_left().where_in_rect(rect), Vec2::new(100, 50));
    assert_eq!(PinPoint::center_center().where_in_rect(rect), Vec2::new(200, 200));
    assert_eq!(PinPoint::bottom_right().where_in_rect(rect), Vec2::new(300, 350));
    assert_eq!(PinPoint::top_center().where_in_rect(rect), Vec2::new(200, 50));
    assert_eq!(PinPoint::new(2000, -1000).where_in_rect(rect), Vec2::new(500, -250));
}
