use product_swarm::fixed::{Fixed, SCALE};

#[test]
fn one_whole_is_a_million_raw_units() {
    assert_eq!(SCALE, 1_000_000);
    assert_eq!(Fixed::from_int(1).raw, 1_000_000);
    assert_eq!(Fixed::from_int(-7).raw, -7_000_000);
    assert_eq!(Fixed::from_int(i32::MAX).raw, 2_147_483_647_000_000);
    assert_eq!(Fixed::from_int(i32::MIN).raw, -2_147_483_648_000_000);
    assert_eq!(Fixed::from_raw(42).raw, 42);
    assert_eq!(Fixed::zero().raw, 0);
    assert_eq!(Fixed::lowest().raw, i64::MIN);
}

#[test]
fn product_of_decimals_is_exact_where_it_fits() {
    let a = Fixed::from_int(20).times(Fixed::from_raw(1_200_000));
    assert_eq!(a, Fixed::from_int(24));
    let b = a.times(Fixed::from_raw(400_000));
    assert_eq!(b, Fixed::from_raw(9_600_000));
    assert_eq!(b.times(Fixed::from_int(5)), Fixed::from_int(48));
}

#[test]
fn product_is_rounded_toward_zero() {
    // 0.000001 * 0.5 and -0.000001 * 0.5 both lose their only digit.
    assert_eq!(Fixed::from_raw(1).times(Fixed::from_raw(500_000)), Fixed::zero());
    assert_eq!(Fixed::from_raw(-1).times(Fixed::from_raw(500_000)), Fixed::zero());
    // 0.000003 * 0.5 = 0.0000015
    assert_eq!(Fixed::from_raw(3).times(Fixed::from_raw(500_000)), Fixed::from_raw(1));
    assert_eq!(Fixed::from_raw(-3).times(Fixed::from_raw(500_000)), Fixed::from_raw(-1));
    assert_eq!(Fixed::from_raw(3).times(Fixed::from_raw(-500_000)), Fixed::from_raw(-1));
    assert_eq!(Fixed::from_raw(-3).times(Fixed::from_raw(-500_000)), Fixed::from_raw(1));
}

#[test]
fn sums_and_differences_saturate() {
    let top = Fixed::from_raw(i64::MAX);
    let bottom = Fixed::lowest();
    assert_eq!(Fixed::from_int(2).plus(Fixed::from_int(3)), Fixed::from_int(5));
    assert_eq!(Fixed::from_int(2).minus(Fixed::from_int(3)), Fixed::from_int(-1));
    assert_eq!(top.plus(Fixed::from_raw(1)), top);
    assert_eq!(top.plus(top), top);
    assert_eq!(bottom.minus(Fixed::from_raw(1)), bottom);
    assert_eq!(bottom.plus(bottom), bottom);
    assert_eq!(Fixed::zero().minus(bottom), top);
    assert_eq!(top.plus(bottom), Fixed::from_raw(-1));
}

#[test]
fn products_saturate() {
    let top = Fixed::from_raw(i64::MAX);
    let bottom = Fixed::lowest();
    assert_eq!(top.times(Fixed::from_int(2)), top);
    assert_eq!(bottom.times(Fixed::from_int(2)), bottom);
    assert_eq!(top.times(Fixed::from_int(-2)), bottom);
    assert_eq!(bottom.times(bottom), top);
    assert_eq!(bottom.times(Fixed::from_raw(500_000)), Fixed::from_raw(i64::MIN / 2));
    assert_eq!(top.times(Fixed::from_int(1)), top);
    assert_eq!(bottom.times(Fixed::zero()), Fixed::zero());
}

#[test]
fn distance_is_symmetric_and_saturates() {
    assert_eq!(Fixed::from_int(3).distance(Fixed::from_int(5)), Fixed::from_int(2));
    assert_eq!(Fixed::from_int(5).distance(Fixed::from_int(3)), Fixed::from_int(2));
    assert_eq!(Fixed::from_int(-5).distance(Fixed::from_int(3)), Fixed::from_int(8));
    assert_eq!(Fixed::from_int(4).distance(Fixed::from_int(4)), Fixed::zero());
    assert_eq!(Fixed::lowest().distance(Fixed::from_int(48)), Fixed::from_raw(i64::MAX));
    assert_eq!(Fixed::from_int(48).distance(Fixed::lowest()), Fixed::from_raw(i64::MAX));
}

#[test]
fn whole_part_is_cut_toward_zero_and_kept_in_range() {
    assert_eq!(Fixed::from_raw(5_600_000).whole(), 5);
    assert_eq!(Fixed::from_raw(-5_600_000).whole(), -5);
    assert_eq!(Fixed::from_raw(999_999).whole(), 0);
    assert_eq!(Fixed::from_raw(-999_999).whole(), 0);
    assert_eq!(Fixed::from_int(-3).whole(), -3);
    assert_eq!(Fixed::from_raw(i64::MAX).whole(), i32::MAX);
    assert_eq!(Fixed::lowest().whole(), i32::MIN);
    assert_eq!(Fixed::from_int(i32::MAX).whole(), i32::MAX);
    assert_eq!(Fixed::from_int(i32::MIN).whole(), i32::MIN);
}
