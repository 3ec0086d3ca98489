//! Builder-style combination operations, and the payload blenders.

use vstd::prelude::*;

use crate::Sdf;
use crate::fixed::{Fix, fmax, fmin, fneg};
use crate::combinators::{Difference, Intersection, IterIntersection, IterUnion, Union};

verus! {

/// How two children's (distance, payload) pairs combine into one
/// payload.  A blender generalises strict winner-takes-state, for
/// example to blend materials near a seam; its spec function says
/// exactly which payload comes out.
pub trait StateBlender<S>: Sized {
    /// The payload chosen for the given child distances and payloads.
    spec fn spec_blend(&self, lhs_distance: int, lhs_state: S, rhs_distance: int, rhs_state: S) -> S;

    /// Combine the two children's evaluations.
    fn blend(&self, lhs: (Fix, S), rhs: (Fix, S)) -> (r: S)
        ensures
            r == self.spec_blend(lhs.0@, lhs.1, rhs.0@, rhs.1),
    ;
}

/// The payload of the child with the smaller distance; the left
/// child wins ties.  The default blender for unions.
#[derive(Debug, Default, Clone, Copy, PartialEq, Eq, Structural, Hash)]
pub struct NearestWins;

impl<S> StateBlender<S> for NearestWins {
    open spec fn spec_blend(&self, lhs_distance: int, lhs_state: S, rhs_distance: int, rhs_state: S) -> S {
        if lhs_distance <= rhs_distance {
            lhs_state
        } else {
            rhs_state
        }
    }

    fn blend(&self, lhs: (Fix, S), rhs: (Fix, S)) -> (r: S) {
        if lhs.0.le(rhs.0) {
            lhs.1
        } else {
            rhs.1
        }
    }
}

/// The payload of the child with the larger distance; the left child
/// wins ties.  The default blender for intersections.
#[derive(Debug, Default, Clone, Copy, PartialEq, Eq, Structural, Hash)]
pub struct FarthestWins;

impl<S> StateBlender<S> for FarthestWins {
    open spec fn spec_blend(&self, lhs_distance: int, lhs_state: S, rhs_distance: int, rhs_state: S) -> S {
        if lhs_distance >= rhs_distance {
            lhs_state
        } else {
            rhs_state
        }
    }

    fn blend(&self, lhs: (Fix, S), rhs: (Fix, S)) -> (r: S) {
        if lhs.0.ge(rhs.0) {
            lhs.1
        } else {
            rhs.1
        }
    }
}

/// Builder methods combining two fields, consuming both by value.
pub trait SdfCombinationOperations<Rhs: Sdf<State = Self::State>>: Sdf {
    /// The union of this field and `rhs`: the nearest of the two
    /// surfaces, with nearest-wins payload.
    fn add(self, rhs: Rhs) -> (r: Union<Self, Rhs, NearestWins>)
        ensures
            r.lhs == self,
            r.rhs == rhs,
            r.state_blender == NearestWins,
            forall|p: Seq<int>| #[trigger] r.spec_distance(p)
                == fmin(self.spec_distance(p), rhs.spec_distance(p)),
    {
        Union::new(self, rhs, NearestWins)
    }

    /// The intersection of this field and `rhs`: the farthest of the
    /// two surfaces, with farthest-wins payload.
    fn mul(self, rhs: Rhs) -> (r: Intersection<Self, Rhs, FarthestWins>)
        ensures
            r.lhs == self,
            r.rhs == rhs,
            r.state_blender == FarthestWins,
            forall|p: Seq<int>| #[trigger] r.spec_distance(p)
                == fmax(self.spec_distance(p), rhs.spec_distance(p)),
    {
        Intersection::new(self, rhs, FarthestWins)
    }

    /// This field minus `rhs`: the intersection of this field with
    /// the inversion of `rhs`.
    fn sub(self, rhs: Rhs) -> (r: Difference<Self, Rhs>)
        ensures
            r.lhs == self,
            r.rhs == rhs,
            forall|p: Seq<int>| #[trigger] r.spec_distance(p)
                == fmax(self.spec_distance(p), fneg(rhs.spec_distance(p))),
    {
        Difference::new(self, rhs)
    }
}

impl<Lhs: Sdf, Rhs: Sdf<State = Lhs::State>> SdfCombinationOperations<Rhs> for Lhs {

}

/// Builder methods combining an ordered sequence of fields.
pub trait SdfIterCombinationOperations<T: Sdf>: Sized {
    /// The n-ary union of the sequence.
    fn union(self) -> IterUnion<T>;

    /// The n-ary intersection of the sequence.
    fn intersection(self) -> IterIntersection<T>;
}

impl<T: Sdf> SdfIterCombinationOperations<T> for Vec<T> {
    fn union(self) -> (r: IterUnion<T>)
        ensures
            r.items == self,
    {
        IterUnion::new(self)
    }

    fn intersection(self) -> (r: IterIntersection<T>)
        ensures
            r.items == self,
    {
        IterIntersection::new(self)
    }
}

} // verus!
