use lightwalk::Sdf;
use lightwalk::fixed::Fix;
use lightwalk::primitives::Line;

#[test]
#[should_panic]
fn illegal_line_1d() {
    let _line = Line::new(&[Fix::zero()]).unwrap();
}

#[test]
#[should_panic]
fn illegal_line_2d() {
    let _line = Line::new(&[Fix::zero(), Fix::zero()]).unwrap();
}

#[test]
#[should_panic]
fn illegal_line_3d() {
    let _line = Line::new(&[Fix::zero(), Fix::zero(), Fix::zero()]).unwrap();
}

#[test]
fn line_distance_1d() {
    for j in -100..100 {
        if j == 0 {
            continue;
        }

        let line = Line::new(&[Fix::from_int(j)]).unwrap();

        for i in -100..100 {
            let f = Fix::from_int(i);
            assert_eq!(line.distance(&vec![f]), Fix::zero());
        }
    }
}

#[test]
fn line_free_function_rejects_zero() {
    assert!(lightwalk::primitives::line(&[Fix::zero(), Fix::zero()]).is_none());
    assert!(lightwalk::primitives::line(&[Fix::one(), Fix::zero()]).is_some());
}

#[test]
fn line_distance_2d() {
    // The distance to the x axis is the absolute y coordinate.
    let line = Line::new(&[Fix::from_int(2), Fix::zero()]).unwrap();
    assert_eq!(
        line.distance(&vec![Fix::from_int(7), Fix::from_int(3)]),
        Fix::from_int(3),
    );
    assert_eq!(
        line.distance(&vec![Fix::from_int(-5), Fix::from_int(-4)]),
        Fix::from_int(4),
    );
    assert_eq!(line.distance(&vec![Fix::from_int(9), Fix::zero()]), Fix::zero());
}
