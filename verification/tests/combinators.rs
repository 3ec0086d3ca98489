use lightwalk::Sdf;
use lightwalk::combinators::{
    Difference, Intersection, IterIntersection, IterUnion, NearestWins, SdfCombinationOperations,
    SdfIterCombinationOperations, Union,
};
use lightwalk::fixed::Fix;
use lightwalk::primitives::Sphere;
use lightwalk::state::SdfBindStateOperation;
use lightwalk::transformers::SdfTransformOperations;

#[test]
fn union_takes_the_minimum() {
    // union(A, B).distance(p) == min(A.distance(p), B.distance(p))
    let a = Sphere;
    let b = Sphere.translate(&[Fix::from_int(3), Fix::zero()]);
    let u = a.add(b);
    let p = vec![Fix::from_int(1), Fix::zero()];
    assert_eq!(u.distance(&p), Fix::zero());
    let p = vec![Fix::from_int(-2), Fix::zero()];
    assert_eq!(u.distance(&p), Fix::from_int(1));
}

#[test]
fn intersection_takes_the_maximum() {
    // intersection(A, B).distance(p) == max(A.distance(p), B.distance(p))
    let a = Sphere;
    let b = Sphere.translate(&[Fix::from_int(3), Fix::zero()]);
    let x = a.mul(b);
    let p = vec![Fix::from_int(1), Fix::zero()];
    assert_eq!(x.distance(&p), Fix::from_int(1));
}

#[test]
fn difference_negates_the_right_side() {
    // difference(A, B).distance(p) == max(A.distance(p), -B.distance(p))
    let a = Sphere;
    let b = Sphere.translate(&[Fix::from_int(3), Fix::zero()]);
    let d = a.sub(b);
    // At (5/2, 0): A gives 3/2, B gives 1/2, so -B gives -1/2.
    let p = vec![Fix::from_ratio(5, 2), Fix::zero()];
    assert_eq!(d.distance(&p), Fix::from_ratio(3, 2));
    // At (2, 0): A gives 1, B gives 0, and the maximum is 1.
    let p = vec![Fix::from_int(2), Fix::zero()];
    assert_eq!(d.distance(&p), Fix::from_int(1));
    // Inside B near its centre, -B dominates: at (3, 0), A gives 2,
    // B gives -1, -B gives 1, and the maximum is 2.
    let p = vec![Fix::from_int(3), Fix::zero()];
    assert_eq!(d.distance(&p), Fix::from_int(2));
}

#[test]
fn union_state_follows_the_nearest_child() {
    let a = Sphere.bind(1u32);
    let b = Sphere.bind(2u32).translate(&[Fix::from_int(10), Fix::zero()]);
    let u = a.add(b);
    let near_a = vec![Fix::from_int(1), Fix::zero()];
    assert_eq!(u.state(&near_a), 1);
    let near_b = vec![Fix::from_int(9), Fix::zero()];
    assert_eq!(u.state(&near_b), 2);
    let (d, s) = u.distance_and_state(&near_b);
    assert_eq!(d, Fix::zero());
    assert_eq!(s, 2);
}

#[test]
fn intersection_state_follows_the_farthest_child() {
    let a = Sphere.bind(1u32);
    let b = Sphere.bind(2u32).translate(&[Fix::from_int(3), Fix::zero()]);
    let x = a.mul(b);
    // At (1, 0): A gives 0, B gives 1; the farther child B wins.
    let p = vec![Fix::from_int(1), Fix::zero()];
    let (d, s) = x.distance_and_state(&p);
    assert_eq!(d, Fix::from_int(1));
    assert_eq!(s, 2);
}

#[test]
fn difference_state_follows_the_winning_branch() {
    let a = Sphere.bind(1u32);
    let b = Sphere.bind(2u32).translate(&[Fix::from_int(3), Fix::zero()]);
    let d = Difference::new(a, b);
    // At (5/2, 0): A gives 3/2, -B gives -1/2: A wins.
    let p = vec![Fix::from_ratio(5, 2), Fix::zero()];
    assert_eq!(d.state(&p), 1);
    // With overlapping spheres the cut-away side belongs to B: at
    // (1/2, 0), A gives -1/2 and -B gives 1/2, so B's payload wins.
    let a2 = Sphere.bind(1u32);
    let b2 = Sphere.bind(2u32).translate(&[Fix::from_int(1), Fix::zero()]);
    let d2 = Difference::new(a2, b2);
    let p = vec![Fix::from_ratio(1, 2), Fix::zero()];
    let (dist, s) = d2.distance_and_state(&p);
    assert_eq!(dist, Fix::from_ratio(1, 2));
    assert_eq!(s, 2);
}

#[test]
fn iter_union_takes_the_minimum_over_all() {
    let items = vec![
        Sphere.bind(0u8).translate(&[Fix::zero()]),
        Sphere.bind(1u8).translate(&[Fix::from_int(3)]),
        Sphere.bind(2u8).translate(&[Fix::from_int(10)]),
    ];
    let u = items.union();
    let p = vec![Fix::from_int(4)];
    // Distances: |4| - 1 = 3, |1| - 1 = 0, |-6| - 1 = 5.
    assert_eq!(u.distance(&p), Fix::zero());
    let (d, s) = u.distance_and_state(&p);
    assert_eq!(d, Fix::zero());
    assert_eq!(s, 1);
}

#[test]
fn iter_intersection_takes_the_maximum_over_all() {
    let items = vec![
        Sphere.bind(0u8).translate(&[Fix::zero()]),
        Sphere.bind(1u8).translate(&[Fix::from_int(3)]),
        Sphere.bind(2u8).translate(&[Fix::from_int(10)]),
    ];
    let x = items.intersection();
    let p = vec![Fix::from_int(4)];
    // Distances: 3, 0, 5; the farthest child is the third.
    let (d, s) = x.distance_and_state(&p);
    assert_eq!(d, Fix::from_int(5));
    assert_eq!(s, 2);
}

#[test]
fn empty_iter_combinators_report_no_shape() {
    // An empty sequence falls back to each reduction's identity,
    // standing in for infinity per operator: the largest
    // representable distance for a union (+inf, "no shape"), the
    // smallest for an intersection (-inf).
    let u: IterUnion<Sphere> = IterUnion::new(vec![]);
    assert_eq!(u.distance(&vec![Fix::zero()]), Fix::from_raw(i64::MAX));
    let x: IterIntersection<Sphere> = IterIntersection::new(vec![]);
    assert_eq!(x.distance(&vec![Fix::zero()]), Fix::from_raw(i64::MIN));
}

#[test]
fn union_ties_prefer_the_left_child() {
    let a = Sphere.bind(1u32);
    let b = Sphere.bind(2u32);
    let u = Union::new(a, b, NearestWins);
    let p = vec![Fix::from_int(1), Fix::zero()];
    assert_eq!(u.state(&p), 1);
}

#[test]
fn explicit_constructors_match_builders() {
    let p = vec![Fix::from_int(1), Fix::zero()];
    let via_new = Intersection::new(
        Sphere,
        Sphere.translate(&[Fix::from_int(3), Fix::zero()]),
        lightwalk::combinators::FarthestWins,
    );
    let via_builder = Sphere.mul(Sphere.translate(&[Fix::from_int(3), Fix::zero()]));
    assert_eq!(via_new.distance(&p), via_builder.distance(&p));
}
