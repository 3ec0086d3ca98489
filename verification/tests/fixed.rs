use lightwalk::fixed::{FIX_SCALE, Fix, dot_slice, norm_slice};

#[test]
fn constants_and_constructors() {
    assert_eq!(Fix::one(), Fix::from_int(1));
    assert_eq!(Fix::one().raw(), FIX_SCALE);
    assert_eq!(Fix::from_ratio(1, 2).raw(), FIX_SCALE / 2);
    assert_eq!(Fix::from_ratio(-1, 2).raw(), -FIX_SCALE / 2);
    assert_eq!(Fix::from_raw(65536), Fix::one());
}

#[test]
fn arithmetic_saturates() {
    let top = Fix::from_raw(i64::MAX);
    let bottom = Fix::from_raw(i64::MIN);
    assert_eq!(top.add(Fix::one()), top);
    assert_eq!(bottom.sub(Fix::one()), bottom);
    assert_eq!(bottom.neg(), top);
    assert_eq!(bottom.abs(), top);
    assert_eq!(top.mul(Fix::from_int(2)), top);
}

#[test]
fn multiplication_truncates_toward_zero() {
    // 1/3 is not representable; multiplying the truncated third by
    // three falls one raw unit short of one.
    let third = Fix::from_ratio(1, 3);
    assert_eq!(third.raw(), FIX_SCALE / 3);
    assert_eq!(third.mul(Fix::from_int(3)), Fix::from_raw(FIX_SCALE - 1));
    let negative_third = Fix::from_ratio(-1, 3);
    assert_eq!(negative_third.raw(), -(FIX_SCALE / 3));
}

#[test]
fn division_truncates_toward_zero() {
    assert_eq!(Fix::from_int(7).div(Fix::from_int(2)), Fix::from_ratio(7, 2));
    assert_eq!(
        Fix::from_int(-7).div(Fix::from_int(2)),
        Fix::from_ratio(-7, 2),
    );
    assert_eq!(
        Fix::from_int(1).div(Fix::from_int(-3)),
        Fix::from_ratio(-1, 3),
    );
}

#[test]
fn comparisons_and_extrema() {
    let a = Fix::from_int(-2);
    let b = Fix::from_int(5);
    assert!(a.lt(b) && a.le(b) && b.gt(a) && b.ge(a));
    assert_eq!(a.min(b), a);
    assert_eq!(a.max(b), b);
    assert!(Fix::zero().is_zero());
    assert!(!Fix::one().is_zero());
}

#[test]
fn norm_of_a_pythagorean_triple() {
    let v = [Fix::from_int(3), Fix::from_int(4)];
    assert_eq!(norm_slice(&v), Fix::from_int(5));
    assert_eq!(norm_slice(&[]), Fix::zero());
    assert_eq!(norm_slice(&[Fix::from_int(-9)]), Fix::from_int(9));
}

#[test]
fn dot_product() {
    let a = [Fix::from_int(1), Fix::from_int(2), Fix::from_int(3)];
    let b = [Fix::from_int(4), Fix::from_int(-5), Fix::from_int(6)];
    assert_eq!(dot_slice(&a, &b), Fix::from_int(12));
}
