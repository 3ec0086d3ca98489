//! The line through the origin.

use vstd::prelude::*;

use crate::Sdf;
use crate::fixed::{Fix, fmul, fnorm, fsub, norm_slice, normalize_slice, spec_dot, spec_normalized};

verus! {

/// The component of `p` perpendicular to the direction `d`: each axis
/// of the point minus its projection onto the direction.
pub open spec fn spec_perp(p: Seq<int>, d: Seq<int>) -> Seq<int> {
    let dot = spec_dot(p, d, d.len() as int);
    Seq::new(p.len(), |i: int| fsub(p[i], fmul(d[i], dot)))
}

/// A line through the origin with a given unit direction.  The
/// distance of a point is the Euclidean length of its component
/// perpendicular to the direction; every axis is treated alike.
#[derive(Debug, Clone, PartialEq, Eq, Hash)]
pub struct Line {
    pub direction: Vec<Fix>,
}

impl Sdf for Line {
    type State = ();

    open spec fn wf(&self) -> bool {
        true
    }

    open spec fn accepts_dim(&self, dim: nat) -> bool {
        dim == self.direction@.len()
    }

    open spec fn state_defined(&self) -> bool {
        true
    }

    /// Distance of the line: the norm of the point's component
    /// perpendicular to the stored direction.
    open spec fn spec_distance(&self, p: Seq<int>) -> int {
        fnorm(spec_perp(p, self.direction.deep_view()))
    }

    open spec fn spec_state(&self, p: Seq<int>) -> () {
        ()
    }

    fn distance_from_slice(&self, point: &[Fix]) -> (d: Fix) {
        let ghost pv = point.deep_view();
        let ghost dv = self.direction.deep_view();
        let dot = crate::fixed::dot_slice(point, self.direction.as_slice());
        let mut perp: Vec<Fix> = Vec::new();
        let mut i: usize = 0;
        while i < point.len()
            invariant
                0 <= i <= point.len(),
                pv.len() == point@.len(),
                dv.len() == self.direction@.len(),
                pv.len() == dv.len(),
                forall|j: int| 0 <= j < pv.len() ==> pv[j] == point@[j]@,
                forall|j: int| 0 <= j < dv.len() ==> dv[j] == self.direction@[j]@,
                dot@ == spec_dot(pv, dv, dv.len() as int),
                perp.len() == i,
                forall|j: int| 0 <= j < i ==> perp@[j]@ == spec_perp(pv, dv)[j],
            decreases point.len() - i,
        {
            perp.push(point[i].sub(self.direction[i].mul(dot)));
            i = i + 1;
        }
        proof {
            assert(perp.deep_view() =~= spec_perp(pv, dv));
        }
        norm_slice(perp.as_slice())
    }

    fn state(&self, point: &[Fix]) -> (s: ()) {
        ()
    }
}

impl Line {
    /// Store a direction as given, without normalising it.  The
    /// caller is responsible for handing in a unit direction.
    pub fn new_unchecked(direction: Vec<Fix>) -> (r: Line)
        ensures
            r.direction == direction,
            r.wf(),
            r.accepts_dim(direction@.len()),
    {
        Line { direction }
    }

    /// A line with the given direction, normalised on construction.
    /// Fails (with `None`) exactly when the direction has zero
    /// length; a degenerate line is never built silently.
    pub fn new(direction: &[Fix]) -> (r: Option<Line>)
        ensures
            r is None <==> (forall|i: int| 0 <= i < direction@.len() ==> direction@[i]@ == 0),
            r matches Some(v) ==> v.direction.deep_view() == spec_normalized(direction.deep_view())
                && v.wf() && v.accepts_dim(direction@.len()),
    {
        match normalize_slice(direction) {
            Some(d) => {
                proof {
                    assert(d.deep_view().len() == d@.len());
                    assert(d.deep_view().len() == direction@.len());
                }
                Some(Line::new_unchecked(d))
            },
            None => None,
        }
    }
}

} // verus!
