use seify::{Range, RangeItem};

fn mixed() -> Range {
    Range::new(vec![
        RangeItem::Value(123),
        RangeItem::Interval(23, 42),
        RangeItem::Step(100, 110, 1),
    ])
}

#[test]
fn contains_empty() {
    let r = Range::new(Vec::new());
    assert!(!r.contains(123));
    assert_eq!(r.clamp(123), None);
}

#[test]
fn contains_each_shape() {
    let r = mixed();
    assert!(r.contains(123));
    assert!(r.contains(23));
    assert!(r.contains(42));
    assert!(r.contains(40));
    assert!(r.contains(100));
    assert!(r.contains(107));
    assert!(r.contains(110));
    assert!(!r.contains(19));
    assert!(!r.contains(22));
    assert!(!r.contains(43));
    assert!(!r.contains(99));
    assert!(!r.contains(111));
    assert!(!r.contains(122));
    assert!(!r.contains(124));
}

#[test]
fn step_holds_its_bounds_and_nothing_outside() {
    let r = Range::new(vec![RangeItem::Step(0, 30, 3)]);
    assert!(r.contains(0));
    assert!(r.contains(3));
    assert!(r.contains(27));
    assert!(r.contains(30));
    assert!(!r.contains(1));
    assert!(!r.contains(29));
    assert!(!r.contains(-3));
    assert!(!r.contains(33));
    assert!(!r.contains(i64::MIN));
    assert!(!r.contains(i64::MAX));
}

#[test]
fn step_upper_bound_off_the_grid_is_not_held() {
    let r = Range::new(vec![RangeItem::Step(5, 31, 3)]);
    assert!(r.contains(5));
    assert!(r.contains(29));
    assert!(!r.contains(31));
    assert!(!r.contains(32));
    assert_eq!(r.clamp(31), Some(29));
    assert_eq!(r.clamp(1000), Some(29));
}

#[test]
fn step_with_negative_bounds() {
    let r = Range::new(vec![RangeItem::Step(-35, -4, 1)]);
    assert!(r.contains(-35));
    assert!(r.contains(-4));
    assert!(r.contains(-20));
    assert!(!r.contains(-36));
    assert!(!r.contains(-3));
    let r = Range::new(vec![RangeItem::Step(-10, 10, 4)]);
    assert!(r.contains(-10));
    assert!(r.contains(-6));
    assert!(r.contains(2));
    assert!(r.contains(10));
    assert!(!r.contains(0));
    assert_eq!(r.clamp(0), Some(-2));
    assert_eq!(r.clamp(1), Some(2));
    assert_eq!(r.clamp(-9), Some(-10));
    assert_eq!(r.clamp(-8), Some(-10));
    assert_eq!(r.clamp(-7), Some(-6));
}

#[test]
fn items_that_are_not_well_formed_hold_nothing() {
    let r = Range::new(vec![
        RangeItem::Step(0, 10, 0),
        RangeItem::Step(0, 10, -1),
        RangeItem::Step(10, 0, 1),
        RangeItem::Interval(5, 4),
    ]);
    assert!(!r.contains(0));
    assert!(!r.contains(5));
    assert!(!r.contains(10));
    assert_eq!(r.clamp(5), None);
}

#[test]
fn clamp_picks_the_nearest_legal_value() {
    let r = mixed();
    assert_eq!(r.clamp(122), Some(123));
    assert_eq!(r.clamp(1000), Some(123));
    assert_eq!(r.clamp(30), Some(30));
    assert_eq!(r.clamp(20), Some(23));
    assert_eq!(r.clamp(50), Some(42));
    assert_eq!(r.clamp(99), Some(100));
    assert_eq!(r.clamp(105), Some(105));
    assert_eq!(r.clamp(113), Some(110));
    assert_eq!(r.clamp(116), Some(110));
    assert_eq!(r.clamp(117), Some(123));
    assert_eq!(r.clamp(i64::MIN), Some(23));
    assert_eq!(r.clamp(i64::MAX), Some(123));
}

#[test]
fn clamp_of_two_equally_near_takes_the_smaller() {
    let r = mixed();
    assert_eq!(r.clamp(71), Some(42));
    let r = Range::new(vec![RangeItem::Step(0, 30, 2)]);
    assert_eq!(r.clamp(1), Some(0));
    assert_eq!(r.clamp(29), Some(28));
    let r = Range::new(vec![RangeItem::Value(10), RangeItem::Value(0)]);
    assert_eq!(r.clamp(5), Some(0));
    assert_eq!(r.clamp(6), Some(10));
    assert_eq!(r.clamp(4), Some(0));
}

#[test]
fn clamp_on_a_step_rounds_to_the_grid() {
    let r = Range::new(vec![RangeItem::Step(0, 30, 3)]);
    assert_eq!(r.clamp(4), Some(3));
    assert_eq!(r.clamp(5), Some(6));
    assert_eq!(r.clamp(-7), Some(0));
    assert_eq!(r.clamp(29), Some(30));
    assert_eq!(r.clamp(28), Some(27));
    assert_eq!(r.clamp(31), Some(30));
}

#[test]
fn extreme_bounds_do_not_overflow() {
    let r = Range::new(vec![RangeItem::Step(i64::MIN, i64::MAX, 1)]);
    assert!(r.contains(i64::MIN));
    assert!(r.contains(i64::MAX));
    assert!(r.contains(0));
    assert_eq!(r.clamp(5), Some(5));
    assert_eq!(r.clamp(i64::MAX), Some(i64::MAX));
    let r = Range::new(vec![RangeItem::Step(i64::MIN, i64::MAX, i64::MAX)]);
    assert!(r.contains(i64::MIN));
    assert!(r.contains(-1));
    assert!(r.contains(i64::MAX - 1));
    assert!(!r.contains(i64::MAX));
    assert!(!r.contains(0));
    assert_eq!(r.clamp(i64::MAX), Some(i64::MAX - 1));
    assert_eq!(r.clamp(0), Some(-1));
    let r = Range::new(vec![RangeItem::Interval(i64::MIN, i64::MAX)]);
    assert_eq!(r.clamp(i64::MIN), Some(i64::MIN));
    let r = Range::new(vec![RangeItem::Value(i64::MIN), RangeItem::Value(i64::MAX)]);
    assert_eq!(r.clamp(0), Some(i64::MAX));
    assert_eq!(r.clamp(-1), Some(i64::MIN));
}

#[test]
fn item_contains_and_clamp() {
    assert!(RangeItem::Value(7).contains(7));
    assert!(!RangeItem::Value(7).contains(8));
    assert_eq!(RangeItem::Value(7).clamp(100), Some(7));
    assert_eq!(RangeItem::Interval(1, 3).clamp(0), Some(1));
    assert_eq!(RangeItem::Interval(1, 3).clamp(2), Some(2));
    assert_eq!(RangeItem::Interval(1, 3).clamp(9), Some(3));
    assert_eq!(RangeItem::Interval(3, 1).clamp(2), None);
    assert_eq!(RangeItem::Step(1, 3, 0).clamp(2), None);
}
