use oxban::config::OrderingSection;
use oxban::positions::{between, gap_ok, renormalize};

fn ordering(step: i64, min_gap: i64) -> OrderingSection {
    OrderingSection { step, min_gap }
}

#[test]
fn between_without_neighbours_is_zero() {
    assert_eq!(between(&ordering(1000, 4), None, None), 0);
}

#[test]
fn between_after_left_adds_step() {
    assert_eq!(between(&ordering(1000, 4), Some(10), None), 1010);
}

#[test]
fn between_before_right_subtracts_step() {
    assert_eq!(between(&ordering(1000, 4), None, Some(10)), -990);
}

#[test]
fn between_two_neighbours_is_midpoint() {
    assert_eq!(between(&ordering(1000, 4), Some(0), Some(10)), 5);
    assert_eq!(between(&ordering(1000, 4), Some(-7), Some(2)), -3);
}

#[test]
fn between_out_of_order_neighbours_goes_after_left() {
    assert_eq!(between(&ordering(1000, 4), Some(10), Some(0)), 1010);
    assert_eq!(between(&ordering(1000, 4), Some(5), Some(5)), 1005);
}

#[test]
fn between_saturates() {
    assert_eq!(between(&ordering(1000, 4), Some(i64::MAX - 1), None), i64::MAX);
    assert_eq!(between(&ordering(1000, 4), None, Some(i64::MIN + 1)), i64::MIN);
}

#[test]
fn between_lands_strictly_inside_a_gap() {
    let o = ordering(1000, 1);
    let p = between(&o, Some(0), Some(2));
    assert!(gap_ok(&o, 0, 2));
    assert!(0 < p && p < 2);
}

#[test]
fn append_goes_after_the_last() {
    let o = ordering(1_000_000, 4);
    assert!(between(&o, Some(42), None) > 42);
}

#[test]
fn gap_ok_compares_distance_with_min_gap() {
    let o = ordering(1000, 4);
    assert!(gap_ok(&o, 0, 10));
    assert!(!gap_ok(&o, 0, 4));
    assert!(gap_ok(&o, 10, 0));
    assert!(!gap_ok(&o, 3, 3));
}

#[test]
fn renormalize_spaces_by_step() {
    let out = renormalize(&ordering(1000, 4), &[7u32, 8, 9]);
    assert_eq!(out, vec![(7, 0), (8, 1000), (9, 2000)]);
}

#[test]
fn renormalize_empty() {
    let out = renormalize::<u8>(&ordering(1000, 4), &[]);
    assert!(out.is_empty());
}

#[test]
fn renormalize_saturates() {
    let step = i64::MAX / 2 + 1;
    let out = renormalize(&ordering(step, 4), &['a', 'b', 'c', 'd']);
    assert_eq!(out, vec![('a', 0), ('b', step), ('c', i64::MAX), ('d', i64::MAX)]);
}

#[test]
fn renormalized_neighbours_have_room() {
    let o = ordering(1_000_000, 4);
    let out = renormalize(&o, &[1u8, 2, 3]);
    for pair in out.windows(2) {
        assert_eq!(pair[1].1 - pair[0].1, o.step);
        assert!(gap_ok(&o, pair[0].1, pair[1].1));
    }
}

#[test]
fn between_far_apart_neighbours_is_exact_midpoint() {
    let o = OrderingSection { step: 1_000_000, min_gap: 4 };
    let p = between(&o, Some(-2), Some(i64::MAX));
    assert_eq!(p, 4_611_686_018_427_387_902);
    assert!(gap_ok(&o, -2, i64::MAX));
    assert!(gap_ok(&o, i64::MIN, i64::MAX));
    assert_eq!(between(&o, Some(i64::MIN), Some(i64::MAX)), -1);
    assert_eq!(between(&o, Some(0), Some(1)), 0);
}
