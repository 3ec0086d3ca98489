//! The hyperplane through the origin.

use vstd::prelude::*;

use crate::Sdf;
use crate::fixed::{Fix, normalize_slice, spec_dot, spec_normalized};

verus! {

/// A hyperplane through the origin with a given unit normal.  Points
/// whose dot product with the normal is positive are outside, the
/// others inside.
#[derive(Debug, Clone, PartialEq, Eq, Hash)]
pub struct Plane {
    pub normal: Vec<Fix>,
}

impl Sdf for Plane {
    type State = ();

    open spec fn wf(&self) -> bool {
        true
    }

    open spec fn accepts_dim(&self, dim: nat) -> bool {
        dim == self.normal@.len()
    }

    open spec fn state_defined(&self) -> bool {
        true
    }

    /// Distance of the hyperplane: the dot product of the point with
    /// the stored normal.
    open spec fn spec_distance(&self, p: Seq<int>) -> int {
        spec_dot(p, self.normal.deep_view(), self.normal@.len() as int)
    }

    open spec fn spec_state(&self, p: Seq<int>) -> () {
        ()
    }

    fn distance_from_slice(&self, point: &[Fix]) -> (d: Fix) {
        crate::fixed::dot_slice(point, self.normal.as_slice())
    }

    fn state(&self, point: &[Fix]) -> (s: ()) {
        ()
    }
}

impl Plane {
    /// Store a normal as given, without normalising it.  The caller
    /// is responsible for handing in a unit normal.
    pub fn new_unchecked(normal: Vec<Fix>) -> (r: Plane)
        ensures
            r.normal == normal,
            r.wf(),
            r.accepts_dim(normal@.len()),
    {
        Plane { normal }
    }

    /// A hyperplane with the given normal, normalised on
    /// construction.  Fails (with `None`) exactly when the normal has
    /// zero length; a degenerate plane is never built silently.
    pub fn new(normal: &[Fix]) -> (r: Option<Plane>)
        ensures
            r is None <==> (forall|i: int| 0 <= i < normal@.len() ==> normal@[i]@ == 0),
            r matches Some(v) ==> v.normal.deep_view() == spec_normalized(normal.deep_view())
                && v.wf() && v.accepts_dim(normal@.len()),
    {
        match normalize_slice(normal) {
            Some(n) => {
                proof {
                    assert(n.deep_view().len() == n@.len());
                    assert(n.deep_view().len() == normal@.len());
                }
                Some(Plane::new_unchecked(n))
            },
            None => None,
        }
    }
}

} // verus!
