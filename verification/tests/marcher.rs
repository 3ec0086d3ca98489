use lightwalk::fixed::Fix;
use lightwalk::marcher::{Marcher, Ray, iter_pairs};
use lightwalk::primitives::Sphere;

#[test]
fn march_hits_a_sphere_ahead() {
    // A ray starting outside the unit sphere's surface threshold,
    // aimed straight at it: the march must conclude with a collision
    // whose accumulated distance is the true intersection distance
    // (2), well within the configured surface threshold.
    let marcher = Marcher {
        max_ray_distance: Fix::from_int(100),
        surface_distance: Fix::from_ratio(1, 100),
        max_iter_count: 100,
        surface: Sphere,
    };
    let ray = Ray {
        origin: vec![Fix::from_int(-3), Fix::zero()],
        direction: vec![Fix::one(), Fix::zero()],
    };
    let collision = marcher.march(&ray).expect("the ray points at the sphere");
    assert_eq!(collision.distance, Fix::from_int(2));
}

#[test]
fn march_misses_a_sphere_behind() {
    // Walking away from the sphere exceeds the ray bound: no
    // collision.
    let marcher = Marcher {
        max_ray_distance: Fix::from_int(20),
        surface_distance: Fix::from_ratio(1, 100),
        max_iter_count: 100,
        surface: Sphere,
    };
    let ray = Ray {
        origin: vec![Fix::from_int(3), Fix::zero()],
        direction: vec![Fix::one(), Fix::zero()],
    };
    assert!(marcher.march(&ray).is_none());
}

#[test]
fn march_stops_at_iteration_budget() {
    // A zero direction never advances; the iteration budget must end
    // the march without a collision.
    let marcher = Marcher {
        max_ray_distance: Fix::from_int(100),
        surface_distance: Fix::from_ratio(1, 100),
        max_iter_count: 10,
        surface: Sphere,
    };
    let ray = Ray {
        origin: vec![Fix::from_int(3), Fix::zero()],
        direction: vec![Fix::zero(), Fix::zero()],
    };
    assert!(marcher.march(&ray).is_none());
}

#[test]
fn march_starting_on_the_surface() {
    // Starting within the surface threshold collides immediately
    // with zero accumulated distance.
    let marcher = Marcher {
        max_ray_distance: Fix::from_int(100),
        surface_distance: Fix::from_ratio(1, 100),
        max_iter_count: 100,
        surface: Sphere,
    };
    let ray = Ray {
        origin: vec![Fix::one(), Fix::zero()],
        direction: vec![Fix::one(), Fix::zero()],
    };
    let collision = marcher.march(&ray).expect("already on the surface");
    assert_eq!(collision.distance, Fix::zero());
}

#[test]
fn iter_pairs_walks_the_grid_row_by_row() {
    let pairs = iter_pairs(&[0..2, 0..3]);
    assert_eq!(
        pairs,
        vec![[0, 0], [0, 1], [1, 0], [1, 1], [2, 0], [2, 1]],
    );
}

#[test]
fn iter_pairs_of_an_empty_range() {
    let pairs = iter_pairs(&[0..0, 0..3]);
    assert!(pairs.is_empty());
    let pairs = iter_pairs(&[0..4, 2..2]);
    assert!(pairs.is_empty());
}
