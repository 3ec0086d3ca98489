use lightwalk::Sdf;
use lightwalk::fixed::Fix;
use lightwalk::primitives::{Cube, Sphere};
use lightwalk::transformers::{
    Quat, SdfRotation2dOperations, SdfRotation3dOperations, SdfTransformOperations,
};

fn fix(n: i64, d: i64) -> Fix {
    Fix::from_ratio(n, d)
}

#[test]
fn translate_matches_shifted_evaluation() {
    // translate(F, v) evaluated at p equals F evaluated at p - v.
    let f = Cube.translate(&[Fix::from_int(3)]);
    assert_eq!(f.distance(&vec![fix(7, 2)]), Cube.distance(&vec![fix(1, 2)]));
    assert_eq!(f.distance(&vec![Fix::from_int(3)]), fix(-1, 2));
}

#[test]
fn scale_matches_scaled_evaluation() {
    // scale(F, s) evaluated at p equals F evaluated at p / s, times s.
    let f = Cube.scale(Fix::from_int(2));
    assert_eq!(f.distance(&vec![Fix::from_int(1)]), Fix::zero());
    assert_eq!(f.distance(&vec![Fix::from_int(2)]), Fix::from_int(1));
    assert_eq!(f.distance(&vec![Fix::zero()]), Fix::from_int(-1));
}

#[test]
fn invert_twice_restores_distance() {
    let p = vec![Fix::from_int(2), Fix::zero()];
    let f = Sphere.invert().invert();
    assert_eq!(f.distance(&p), Sphere.distance(&p));
    assert_eq!(Sphere.invert().distance(&p), Fix::from_int(-1));
}

#[test]
fn round_lowers_distance() {
    // round(F, r) evaluated at p equals F's distance minus r.
    let f = Cube.round(fix(1, 4));
    assert_eq!(f.distance(&vec![Fix::from_int(1), Fix::zero()]), fix(1, 4));
    assert_eq!(f.distance(&vec![Fix::zero(), Fix::zero()]), fix(-3, 4));
}

#[test]
fn thicken_makes_a_shell() {
    let f = Cube.thickness(fix(1, 4));
    // At the centre the cube's distance is -1/2; the shell reports
    // |-1/2| - 1/4 = 1/4.
    assert_eq!(f.distance(&vec![Fix::zero(), Fix::zero()]), fix(1, 4));
    // On the original surface the shell is 1/4 deep inside.
    assert_eq!(f.distance(&vec![fix(1, 2), Fix::zero()]), fix(-1, 4));
}

#[test]
fn repeat_tiles_the_field() {
    let f = Cube.repeat(vec![Fix::from_int(4), Fix::from_int(4)]);
    // The cell around (4, 0) wraps back onto the origin cube.
    assert_eq!(
        f.distance(&vec![Fix::from_int(4), Fix::zero()]),
        fix(-1, 2),
    );
    assert_eq!(
        f.distance(&vec![Fix::from_int(5), Fix::zero()]),
        fix(1, 2),
    );
    assert_eq!(
        f.distance(&vec![Fix::from_int(-4), Fix::from_int(4)]),
        fix(-1, 2),
    );
}

#[test]
fn rotate_2d_quarter_turn() {
    // A quarter turn: sine 1, cosine 0.  The query point is rotated
    // by the inverse angle before the cube sees it.
    let f = Cube.rotate_2d(Fix::one(), Fix::zero());
    assert_eq!(
        f.distance(&vec![fix(1, 4), Fix::zero()]),
        Cube.distance(&vec![Fix::zero(), fix(-1, 4)]),
    );
    assert_eq!(f.distance(&vec![fix(1, 4), Fix::zero()]), fix(-1, 4));
}

#[test]
fn rotate_3d_half_turn() {
    // A half turn about the z axis: the unit quaternion (w 0, z 1).
    let q = Quat::new(Fix::zero(), Fix::zero(), Fix::zero(), Fix::one());
    let f = Cube.rotate(q);
    assert_eq!(
        f.distance(&vec![fix(1, 4), Fix::zero(), Fix::zero()]),
        fix(-1, 4),
    );
    assert_eq!(
        f.distance(&vec![Fix::from_int(1), Fix::zero(), Fix::zero()]),
        fix(1, 2),
    );
}

#[test]
fn boxed_and_shared_fields_evaluate_alike() {
    let p = vec![Fix::from_int(2), Fix::zero()];
    assert_eq!(Sphere.in_box().distance(&p), Fix::from_int(1));
    assert_eq!(Sphere.in_rc().distance(&p), Fix::from_int(1));
    assert_eq!(Sphere.in_arc().distance(&p), Fix::from_int(1));
}

#[test]
fn scaled_translated_sphere_scenario() {
    // A sphere of radius 4 (via scale) centred at (1, 2) (via
    // translate), evaluated at (-2, -2): |(-3, -4)| - 4 = 1.
    let f = Sphere.scale(Fix::from_int(4)).translate(&[Fix::from_int(1), Fix::from_int(2)]);
    assert_eq!(
        f.distance(&vec![Fix::from_int(-2), Fix::from_int(-2)]),
        Fix::from_int(1),
    );
}
