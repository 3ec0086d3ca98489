//! Difference: one shape minus another.

use vstd::prelude::*;

use crate::Sdf;
use crate::fixed::{Fix, fmax, fneg};

verus! {

/// The left field minus the right one, defined exactly as the
/// intersection of the left field with the inversion of the right:
/// at every point the larger of the left distance and the negated
/// right distance.
#[derive(Debug, Clone, Copy, PartialEq, Hash)]
pub struct Difference<Lhs, Rhs> {
    pub lhs: Lhs,
    pub rhs: Rhs,
}

impl<S, Lhs, Rhs> Sdf for Difference<Lhs, Rhs> where
    Lhs: Sdf<State = S>,
    Rhs: Sdf<State = S>,
 {
    type State = S;

    open spec fn wf(&self) -> bool {
        self.lhs.wf() && self.rhs.wf()
    }

    open spec fn accepts_dim(&self, dim: nat) -> bool {
        self.lhs.accepts_dim(dim) && self.rhs.accepts_dim(dim)
    }

    open spec fn state_defined(&self) -> bool {
        self.lhs.state_defined() && self.rhs.state_defined()
    }

    /// The maximum of the left distance and the negated right
    /// distance.
    open spec fn spec_distance(&self, p: Seq<int>) -> int {
        fmax(self.lhs.spec_distance(p), fneg(self.rhs.spec_distance(p)))
    }

    /// The payload of the branch whose distance wins: the left child
    /// when its distance is strictly larger than the negated right
    /// distance, else the right child.
    open spec fn spec_state(&self, p: Seq<int>) -> S {
        if self.lhs.spec_distance(p) > fneg(self.rhs.spec_distance(p)) {
            self.lhs.spec_state(p)
        } else {
            self.rhs.spec_state(p)
        }
    }

    fn distance_from_slice(&self, point: &[Fix]) -> (d: Fix) {
        self.lhs.distance_from_slice(point).max(self.rhs.distance_from_slice(point).neg())
    }

    fn state(&self, point: &[Fix]) -> (s: S) {
        let lhs_distance = self.lhs.distance_from_slice(point);
        let rhs_distance = self.rhs.distance_from_slice(point);
        if lhs_distance.gt(rhs_distance.neg()) {
            self.lhs.state(point)
        } else {
            self.rhs.state(point)
        }
    }

    /// Evaluates each child's distance once and only the winning
    /// child's payload, so both parts describe the same branch.
    fn distance_and_state(&self, point: &[Fix]) -> (r: (Fix, S)) {
        let lhs_distance = self.lhs.distance_from_slice(point);
        let rhs_distance = self.rhs.distance_from_slice(point);
        let inverted = rhs_distance.neg();
        let distance = lhs_distance.max(inverted);
        if lhs_distance.gt(inverted) {
            (distance, self.lhs.state(point))
        } else {
            (distance, self.rhs.state(point))
        }
    }
}

impl<S, Lhs, Rhs> Difference<Lhs, Rhs> where
    Lhs: Sdf<State = S>,
    Rhs: Sdf<State = S>,
 {
    /// `lhs` minus `rhs`: at every point the new distance is
    /// `max(lhs distance, -(rhs distance))`.
    pub fn new(lhs: Lhs, rhs: Rhs) -> (r: Difference<Lhs, Rhs>)
        ensures
            r.lhs == lhs,
            r.rhs == rhs,
            forall|p: Seq<int>| #[trigger] r.spec_distance(p)
                == fmax(lhs.spec_distance(p), fneg(rhs.spec_distance(p))),
    {
        Difference { lhs, rhs }
    }
}

/// The distance of a difference equals the distance of the
/// intersection of the left child with the inverted right child.
pub proof fn lemma_difference_distance<S, Lhs, Rhs>(d: Difference<Lhs, Rhs>, p: Seq<int>) where
    Lhs: Sdf<State = S>,
    Rhs: Sdf<State = S>,

    ensures
        d.spec_distance(p) == fmax(d.lhs.spec_distance(p), fneg(d.rhs.spec_distance(p))),
        d.spec_distance(p) == (crate::combinators::Intersection {
            lhs: d.lhs,
            rhs: crate::transformers::Inverted(d.rhs),
            state_blender: crate::combinators::FarthestWins,
        }).spec_distance(p),
{
}

} // verus!
