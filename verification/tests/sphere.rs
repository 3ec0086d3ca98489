use lightwalk::Sdf;
use lightwalk::fixed::Fix;
use lightwalk::primitives::{Plane, Sphere, cube, sphere};

#[test]
fn sphere_distance_2d() {
    let s = Sphere;

    assert_eq!(s.distance(&vec![Fix::zero(), Fix::zero()]), Fix::from_int(-1));
    assert_eq!(s.distance(&vec![Fix::one(), Fix::zero()]), Fix::zero());
    assert_eq!(s.distance(&vec![Fix::from_int(2), Fix::zero()]), Fix::from_int(1));
}

#[test]
fn sphere_distance_1d() {
    // The one-dimensional fast path agrees with the general formula.
    let s = Sphere;

    assert_eq!(s.distance(&vec![Fix::from_int(-3)]), Fix::from_int(2));
    assert_eq!(s.distance(&vec![Fix::one()]), Fix::zero());
    assert_eq!(s.distance(&vec![Fix::zero()]), Fix::from_int(-1));
}

#[test]
fn sphere_distance_3d() {
    // A Pythagorean quadruple: |(2, 3, 6)| = 7.
    let s = Sphere;
    assert_eq!(
        s.distance(&vec![Fix::from_int(2), Fix::from_int(3), Fix::from_int(6)]),
        Fix::from_int(6),
    );
}

#[test]
fn free_constructors() {
    assert_eq!(sphere().distance(&vec![Fix::from_int(2)]), Fix::from_int(1));
    assert_eq!(cube().distance(&vec![Fix::from_int(1)]), Fix::from_ratio(1, 2));
}

#[test]
fn plane_distance() {
    // The plane with normal x: distance is the x coordinate.
    let p = Plane::new(&[Fix::from_int(3), Fix::zero()]).unwrap();
    assert_eq!(
        p.distance(&vec![Fix::from_int(2), Fix::from_int(9)]),
        Fix::from_int(2),
    );
    assert_eq!(
        p.distance(&vec![Fix::from_int(-2), Fix::from_int(1)]),
        Fix::from_int(-2),
    );
}

#[test]
fn plane_rejects_zero_normal() {
    assert!(Plane::new(&[Fix::zero(), Fix::zero(), Fix::zero()]).is_none());
    assert!(Plane::new(&[Fix::zero(), Fix::from_int(5)]).is_some());
}
