use minigolf::grid::{cell_center, pixel_to_cell, Point, CELL_SIZE, HALF_CELL};

#[test]
fn point_new_sets_both_coordinates() {
    let p = Point::new(3, -7);
    assert_eq!(p.x, 3);
    assert_eq!(p.y, -7);
    assert_eq!(p, Point { x: 3, y: -7 });
}

#[test]
fn default_point_is_the_origin() {
    assert_eq!(Point::default(), Point::new(0, 0));
}

#[test]
fn only_minus_one_minus_one_is_pending() {
    assert!(Point::new(-1, -1).is_pending());
    assert!(!Point::new(-1, 0).is_pending());
    assert!(!Point::new(0, -1).is_pending());
    assert!(!Point::new(0, 0).is_pending());
}

#[test]
fn pixels_map_to_cells_by_floor() {
    assert_eq!(pixel_to_cell(0), 0);
    assert_eq!(pixel_to_cell(19), 0);
    assert_eq!(pixel_to_cell(20), 1);
    assert_eq!(pixel_to_cell(399), 19);
    assert_eq!(pixel_to_cell(400), 20);
    assert_eq!(pixel_to_cell(-1), -1);
    assert_eq!(pixel_to_cell(-20), -1);
    assert_eq!(pixel_to_cell(-21), -2);
    assert_eq!(pixel_to_cell(i32::MAX as i64), 107374182);
    assert_eq!(pixel_to_cell(i32::MIN as i64), -107374183);
    assert_eq!(pixel_to_cell(i64::MAX), 461168601842738790);
    assert_eq!(pixel_to_cell(i64::MIN), -461168601842738791);
}

#[test]
fn cell_centre_is_twenty_times_cell_plus_ten() {
    assert_eq!(CELL_SIZE, 20);
    assert_eq!(HALF_CELL, 10);
    assert_eq!(cell_center(0), 10);
    assert_eq!(cell_center(1), 30);
    assert_eq!(cell_center(19), 390);
    assert_eq!(cell_center(-1), -10);
    assert_eq!(cell_center(i32::MAX), 42949672950);
    assert_eq!(cell_center(i32::MIN), -42949672950);
}

#[test]
fn centre_of_a_cell_lies_in_the_cell() {
    for c in -5..25 {
        assert_eq!(pixel_to_cell(cell_center(c)), c as i64);
    }
}

#[test]
fn keys_tell_cells_apart() {
    let cells = [
        Point::new(0, 0),
        Point::new(0, 1),
        Point::new(1, 0),
        Point::new(-1, -1),
        Point::new(-1, 0),
        Point::new(0, -1),
        Point::new(i32::MAX, i32::MAX),
        Point::new(i32::MIN, i32::MIN),
        Point::new(i32::MAX, i32::MIN),
        Point::new(i32::MIN, i32::MAX),
    ];
    for (i, p) in cells.iter().enumerate() {
        for (j, q) in cells.iter().enumerate() {
            assert_eq!(p.key() == q.key(), i == j);
        }
    }
    assert_eq!(Point::new(i32::MIN, i32::MIN).key(), 0);
    assert_eq!(Point::new(i32::MAX, i32::MAX).key(), u64::MAX);
    assert_eq!(Point::new(0, 0).key(), 0x8000_0000_8000_0000);
}
