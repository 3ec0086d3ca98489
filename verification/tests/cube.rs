use lightwalk::Sdf;
use lightwalk::fixed::Fix;
use lightwalk::primitives::Cube;

fn fix(n: i64, d: i64) -> Fix {
    Fix::from_ratio(n, d)
}

#[test]
fn cube_distance_1d() {
    let cube = Cube;

    assert_eq!(cube.distance(&vec![fix(0, 1)]), fix(-1, 2));
    assert_eq!(cube.distance(&vec![fix(1, 2)]), fix(0, 1));
    assert_eq!(cube.distance(&vec![fix(-1, 2)]), fix(0, 1));
    assert_eq!(cube.distance(&vec![fix(1, 1)]), fix(1, 2));
    assert_eq!(cube.distance(&vec![fix(-1, 1)]), fix(1, 2));
}

#[test]
fn distance_2d() {
    let cube = Cube;

    assert_eq!(cube.distance(&vec![fix(0, 1), fix(0, 1)]), fix(-1, 2));

    assert_eq!(cube.distance(&vec![fix(1, 2), fix(0, 1)]), fix(0, 1));
    assert_eq!(cube.distance(&vec![fix(0, 1), fix(1, 2)]), fix(0, 1));

    assert_eq!(cube.distance(&vec![fix(-1, 2), fix(0, 1)]), fix(0, 1));
    assert_eq!(cube.distance(&vec![fix(0, 1), fix(-1, 2)]), fix(0, 1));

    assert_eq!(cube.distance(&vec![fix(1, 1), fix(0, 1)]), fix(1, 2));
    assert_eq!(cube.distance(&vec![fix(0, 1), fix(1, 1)]), fix(1, 2));

    assert_eq!(cube.distance(&vec![fix(-1, 1), fix(0, 1)]), fix(1, 2));
    assert_eq!(cube.distance(&vec![fix(0, 1), fix(-1, 1)]), fix(1, 2));
}

#[test]
fn distance_0d() {
    // With no axis to reduce over, the cube's distance degenerates
    // to zero.
    let cube = Cube;
    assert_eq!(cube.distance(&vec![]), Fix::zero());
}
