use homology::Interval;
use std::cmp::Ordering::{Equal, Greater, Less};

#[test]
fn test_interval_printing() {
    let finite_left_open_interval: Interval<i32> = Interval::finite_left_open_interval(2, 5);
    let finite_right_open_interval: Interval<i32> = Interval::finite_right_open_interval(3, 6);
    let finite_closed_interval: Interval<i32> = Interval::finite_closed_interval(-2, 3);
    let finite_open_interval: Interval<i32> = Interval::finite_open_interval(-10, 10);

    let left_infinite_open_interval: Interval<i32> = Interval::left_infinite_open_interval(10);
    let right_infinite_open_interval: Interval<i32> = Interval::right_infinite_open_interval(10);
    let left_infinite_closed_interval: Interval<i32> = Interval::left_infinite_closed_interval(10);
    let right_infinite_closed_interval: Interval<i32> =
        Interval::right_infinite_closed_interval(10);

    assert_eq!(finite_left_open_interval.to_string(), String::from("(2, 5]"));
    assert_eq!(finite_right_open_interval.to_string(), String::from("[3, 6)"));
    assert_eq!(finite_closed_interval.to_string(), String::from("[-2, 3]"));
    assert_eq!(finite_open_interval.to_string(), String::from("(-10, 10)"));

    assert_eq!(left_infinite_open_interval.to_string(), String::from("(-infinity, 10)"));
    assert_eq!(right_infinite_open_interval.to_string(), String::from("(10, infinity)"));
    assert_eq!(left_infinite_closed_interval.to_string(), String::from("[-infinity, 10]"));
    assert_eq!(right_infinite_closed_interval.to_string(), String::from("[10, infinity]"));
}

#[test]
fn test_finite_partial_order() {
    let small_finite_interval: Interval<i16> = Interval::finite_open_interval(1, 3);
    let large_finite_interval: Interval<i16> = Interval::finite_open_interval(-100, 100);

    assert_eq!(small_finite_interval.partial_cmp(&large_finite_interval), Some(Less));
    assert_eq!(large_finite_interval.partial_cmp(&small_finite_interval), Some(Greater));
}

#[test]
fn test_infinite_partial_order() {
    let small_infinite_interval: Interval<i8> = Interval::left_infinite_open_interval(1);
    let large_infinite_interval: Interval<i8> = Interval::right_infinite_closed_interval(100);

    assert_eq!(small_infinite_interval.partial_cmp(&large_infinite_interval), Some(Equal));
    assert_eq!(large_infinite_interval.partial_cmp(&small_infinite_interval), Some(Equal));
}

#[test]
fn test_mixed_partial_order() {
    let finite_interval: Interval<i8> = Interval::finite_open_interval(1, 3);
    let infinite_interval: Interval<i8> = Interval::left_infinite_open_interval(1);

    assert_eq!(infinite_interval.partial_cmp(&finite_interval), Some(Greater));
    assert_eq!(finite_interval.partial_cmp(&infinite_interval), Some(Less));
}

#[test]
fn equal_lengths_compare_equal_wherever_they_lie() {
    let a: Interval<i32> = Interval::finite_closed_interval(0, 4);
    let b: Interval<i32> = Interval::finite_open_interval(100, 104);
    assert_eq!(a.partial_cmp(&b), Some(Equal));
    assert_eq!(b.partial_cmp(&a), Some(Equal));
    assert!(a <= b && b <= a);
}

#[test]
fn finite_interval_without_endpoint_is_incomparable() {
    let a: Interval<i32> = Interval::new(Some(1), None, true, true, false, false);
    let b: Interval<i32> = Interval::finite_closed_interval(0, 4);
    assert_eq!(a.partial_cmp(&b), None);
    let c: Interval<i32> = Interval::right_infinite_closed_interval(3);
    assert_eq!(a.partial_cmp(&c), Some(Less));
}

#[test]
fn wide_lengths_do_not_overflow() {
    let a: Interval<i64> = Interval::finite_closed_interval(i64::MIN, i64::MAX);
    let b: Interval<i64> = Interval::finite_closed_interval(0, 1);
    assert_eq!(a.partial_cmp(&b), Some(Greater));
    let c: Interval<u64> = Interval::finite_closed_interval(0, u64::MAX);
    let d: Interval<u64> = Interval::finite_closed_interval(5, 5);
    assert_eq!(d.partial_cmp(&c), Some(Less));
}

#[test]
fn boundary_points_follow_closure() {
    let closed: Interval<i32> = Interval::finite_closed_interval(2, 5);
    assert!(closed.contains_point(2));
    assert!(closed.contains_point(5));
    let open: Interval<i32> = Interval::finite_open_interval(2, 5);
    assert!(!open.contains_point(2));
    assert!(!open.contains_point(5));
    assert!(open.contains_point(3));
    let half: Interval<i32> = Interval::finite_right_open_interval(2, 5);
    assert!(half.contains_point(2));
    assert!(!half.contains_point(5));
    assert!(!half.contains_point(1));
    assert!(!half.contains_point(6));
}

#[test]
fn infinite_sides_never_exclude() {
    let right: Interval<i32> = Interval::right_infinite_open_interval(10);
    assert!(!right.contains_point(10));
    assert!(right.contains_point(11));
    assert!(right.contains_point(i32::MAX));
    let left: Interval<i32> = Interval::left_infinite_closed_interval(10);
    assert!(left.contains_point(10));
    assert!(left.contains_point(i32::MIN));
    assert!(!left.contains_point(11));
    // An infinite flag on an open side with its endpoint present still does not exclude.
    let flagged: Interval<i32> = Interval::new(Some(3), Some(7), false, false, true, true);
    assert!(flagged.contains_point(3));
    assert!(flagged.contains_point(100));
}

#[test]
fn absent_endpoint_on_finite_side_compares_point_with_itself() {
    let closed: Interval<i32> = Interval::new(None, Some(7), true, true, false, false);
    assert!(closed.contains_point(-1000));
    assert!(!closed.contains_point(8));
    let open: Interval<i32> = Interval::new(None, Some(7), false, false, false, false);
    assert!(!open.contains_point(0));
}

#[test]
fn rendering_covers_every_named_constructor() {
    assert_eq!(Interval::right_infinite_right_open_interval(1i64).to_string(), "[1, infinity)");
    assert_eq!(Interval::right_infinite_left_open_interval(1i64).to_string(), "(1, infinity]");
    assert_eq!(Interval::left_infinite_right_open_interval(-7i16).to_string(), "[-infinity, -7)");
    assert_eq!(Interval::left_infinite_left_open_interval(0u8).to_string(), "(-infinity, 0)");
    assert_eq!(
        Interval::finite_closed_interval(i64::MIN, u8::MAX as i64).to_string(),
        "[-9223372036854775808, 255]"
    );
    assert_eq!(Interval::finite_closed_interval(0u64, u64::MAX).to_string(), "[0, 18446744073709551615]");
}

#[test]
fn accessors_and_equality() {
    let a: Interval<i32> = Interval::finite_closed_interval(1, 2);
    assert_eq!(a.get_start(), Some(1));
    assert_eq!(a.get_end(), Some(2));
    assert!(!a.is_infinite());
    let b: Interval<i32> = Interval::left_infinite_open_interval(2);
    assert_eq!(b.get_start(), None);
    assert!(b.is_infinite());
    assert!(a == Interval::new(Some(1), Some(2), true, true, false, false));
    assert!(a != Interval::finite_open_interval(1, 2));
    assert!(b == Interval::left_infinite_left_open_interval(2));
}
