use lightwalk::{Sdf, gradient, normal};
use lightwalk::combinators::{Difference, SdfCombinationOperations, SdfIterCombinationOperations};
use lightwalk::fixed::Fix;
use lightwalk::primitives::{Cube, Line, Plane, Sphere};
use lightwalk::state::{ConstantMap, SdfBindStateOperation, SdfMapStateOperation};
use lightwalk::transformers::{
    Quat, SdfRotation2dOperations, SdfRotation3dOperations, SdfTransformOperations,
};

#[test]
fn bind_attaches_a_payload_without_moving_surfaces() {
    let p = vec![Fix::from_int(2), Fix::zero()];
    let bound = Sphere.bind(7u32);
    assert_eq!(bound.distance(&p), Sphere.distance(&p));
    assert_eq!(bound.state(&p), 7);
    let (d, s) = bound.distance_and_state(&p);
    assert_eq!(d, Fix::from_int(1));
    assert_eq!(s, 7);
}

#[test]
fn bind_propagates_through_transformers() {
    // A payload bound deep in a composed scene still flows out.
    let p = vec![Fix::from_int(4), Fix::zero()];
    let f = Sphere.translate(&[Fix::from_int(4), Fix::zero()]).round(Fix::from_ratio(1, 2));
    let bound = f.bind(9u8);
    assert_eq!(bound.state(&p), 9);
    assert_eq!(bound.distance(&p), Fix::from_ratio(-3, 2));
}

#[test]
fn bind_propagates_through_combinators() {
    let a = Sphere;
    let b = Cube.translate(&[Fix::from_int(5), Fix::zero()]);
    let u = a.add(b).bind(3u16);
    let p = vec![Fix::from_int(5), Fix::zero()];
    assert_eq!(u.state(&p), 3);
    assert_eq!(u.distance(&p), Fix::from_ratio(-1, 2));
}

#[test]
fn map_state_transforms_the_payload() {
    let p = vec![Fix::from_int(2), Fix::zero()];
    let bound = Sphere.bind(21u32).round(Fix::one());
    let mapped = bound.map_state(&ConstantMap(42u64));
    assert_eq!(mapped.state(&p), 42);
    assert_eq!(mapped.distance(&p), Fix::zero());
}

#[test]
fn bind_propagates_through_scale_thicken_and_rotation() {
    let p2 = vec![Fix::from_int(4), Fix::zero()];
    let p3 = vec![Fix::from_int(4), Fix::zero(), Fix::zero()];
    let scaled = Sphere.scale(Fix::from_int(2)).bind(7u32);
    assert_eq!(scaled.distance(&p2), Fix::from_int(2));
    assert_eq!(scaled.state(&p2), 7);

    let shell = Sphere.thickness(Fix::from_ratio(1, 4)).bind(8u32);
    let centre = vec![Fix::zero(), Fix::zero()];
    assert_eq!(shell.distance(&centre), Fix::from_ratio(3, 4));
    assert_eq!(shell.state(&centre), 8);

    let turned = Cube.rotate_2d(Fix::one(), Fix::zero()).bind(9u32);
    let q = vec![Fix::from_ratio(1, 4), Fix::zero()];
    assert_eq!(turned.distance(&q), Fix::from_ratio(-1, 4));
    assert_eq!(turned.state(&q), 9);

    let rotation = Quat::new(Fix::zero(), Fix::zero(), Fix::zero(), Fix::one());
    let spun = Cube.rotate(rotation).bind(10u32);
    assert_eq!(spun.distance(&p3), Fix::from_ratio(7, 2));
    assert_eq!(spun.state(&p3), 10);
}

#[test]
fn bind_propagates_through_iter_combinators() {
    let items = vec![
        Sphere.translate(&[Fix::zero()]),
        Sphere.translate(&[Fix::from_int(3)]),
    ];
    let u = items.union().bind(4u8);
    let p = vec![Fix::from_int(1)];
    let (d, s) = u.distance_and_state(&p);
    assert_eq!(d, Fix::zero());
    assert_eq!(s, 4);

    let items = vec![
        Sphere.translate(&[Fix::zero()]),
        Sphere.translate(&[Fix::from_int(3)]),
    ];
    let x = items.intersection().bind(5u8);
    let (d, s) = x.distance_and_state(&p);
    assert_eq!(d, Fix::from_int(1));
    assert_eq!(s, 5);
}

#[test]
fn bind_a_composed_scene() {
    // A union of a translated sphere and a rotated cube, intersected
    // with a thickened line, bound as one scene.
    let u = Sphere.translate(&[Fix::zero(), Fix::one()])
        .add(Cube.rotate_2d(Fix::one(), Fix::zero()));
    let l = Line::new(&[Fix::one(), Fix::zero()])
        .unwrap()
        .thickness(Fix::from_ratio(1, 4))
        .translate(&[Fix::zero(), Fix::zero()]);
    let scene = u.mul(l).bind(5u32);

    // At the origin: the union gives min(0, -1/2) = -1/2, the
    // thickened line gives -1/4, and the intersection keeps -1/4.
    let p = vec![Fix::zero(), Fix::zero()];
    let (d, s) = scene.distance_and_state(&p);
    assert_eq!(d, Fix::from_ratio(-1, 4));
    assert_eq!(s, 5);
}

#[test]
fn map_state_propagates_through_combinators() {
    let p = vec![Fix::from_int(1), Fix::zero()];

    let u = Sphere.bind(1u32).add(
        Sphere.bind(2u32).translate(&[Fix::from_int(10), Fix::zero()]),
    );
    let mapped = u.map_state(&ConstantMap(9u64));
    let (d, s) = mapped.distance_and_state(&p);
    assert_eq!(d, Fix::zero());
    assert_eq!(s, 9);

    let diff = Difference::new(
        Sphere.bind(1u32),
        Sphere.bind(2u32).translate(&[Fix::from_int(10), Fix::zero()]),
    );
    let mapped = diff.map_state(&ConstantMap(3u64));
    assert_eq!(mapped.state(&p), 3);
}

#[test]
fn map_state_propagates_through_iter_combinators() {
    let items = vec![
        Sphere.bind(1u32).translate(&[Fix::zero()]),
        Sphere.bind(2u32).translate(&[Fix::from_int(3)]),
    ];
    let u = items.union().map_state(&ConstantMap(8u16));
    let p = vec![Fix::from_int(1)];
    let (d, s) = u.distance_and_state(&p);
    assert_eq!(d, Fix::zero());
    assert_eq!(s, 8);
}

#[test]
fn gradient_of_a_plane_points_along_its_normal() {
    let plane = Plane::new(&[Fix::from_int(1), Fix::zero()]).unwrap();
    let p = [Fix::from_int(2), Fix::from_int(5)];
    let g = gradient(&plane, &p, Fix::one());
    assert_eq!(g, vec![Fix::one(), Fix::zero()]);
    let n = normal(&plane, &p, Fix::one()).unwrap();
    assert_eq!(n, vec![Fix::one(), Fix::zero()]);
}

#[test]
fn normal_is_degenerate_where_the_gradient_vanishes() {
    // A shell of zero thickness around a plane: nudging either axis
    // from this point changes nothing, so the gradient is zero and
    // there is no normal to report.
    let plane = Plane::new(&[Fix::from_int(1), Fix::zero()]).unwrap();
    let shell = plane.thickness(Fix::zero());
    let p = [Fix::from_ratio(-1, 8), Fix::zero()];
    assert!(normal(&shell, &p, Fix::from_ratio(1, 4)).is_none());
}

#[test]
fn gradient_of_the_sphere() {
    // At (2, 0) with a unit step: d((3,0)) - d((2,0)) = 1, and the
    // other axis moves the surface by less.
    let g = gradient(&Sphere, &[Fix::from_int(2), Fix::zero()], Fix::one());
    assert_eq!(g[0], Fix::one());
    // d((2,1)) - d((2,0)) = sqrt(5) - 2, about 0.23607.
    let expected = Fix::from_raw(Fix::from_raw(146542).raw() - 2 * 65536);
    assert_eq!(g[1], expected);
}
