//! Inversion: swapping inside and outside.

use vstd::prelude::*;

use crate::Sdf;
use crate::fixed::{Fix, fneg};

verus! {

/// A field whose distance is negated: what was inside is now
/// outside, and vice versa.
#[derive(Debug, Clone, Copy, PartialEq, Hash)]
pub struct Inverted<T>(pub T);

impl<T: Sdf> Sdf for Inverted<T> {
    type State = T::State;

    open spec fn wf(&self) -> bool {
        self.0.wf()
    }

    open spec fn accepts_dim(&self, dim: nat) -> bool {
        self.0.accepts_dim(dim)
    }

    open spec fn state_defined(&self) -> bool {
        self.0.state_defined()
    }

    /// The child's distance, negated.
    open spec fn spec_distance(&self, p: Seq<int>) -> int {
        fneg(self.0.spec_distance(p))
    }

    open spec fn spec_state(&self, p: Seq<int>) -> T::State {
        self.0.spec_state(p)
    }

    fn distance_from_slice(&self, point: &[Fix]) -> (d: Fix) {
        self.0.distance_from_slice(point).neg()
    }

    fn state(&self, point: &[Fix]) -> (s: T::State) {
        self.0.state(point)
    }
}

impl<T: Sdf> Inverted<T> {
    /// Invert `inner`: at every point the new distance is the
    /// negation of the child's distance.
    pub fn new(inner: T) -> (r: Inverted<T>)
        ensures
            r.0 == inner,
            forall|p: Seq<int>| #[trigger] r.spec_distance(p) == fneg(inner.spec_distance(p)),
            forall|p: Seq<int>| #[trigger] r.spec_state(p) == inner.spec_state(p),
    {
        Inverted(inner)
    }
}

/// Inverting twice gives back the original distance, at every point
/// where the child's distance is not the most negative raw value (at
/// that one value the saturating negation is not its own inverse).
pub proof fn lemma_invert_involution<T: Sdf>(f: Inverted<Inverted<T>>, p: Seq<int>)
    requires
        f.0.0.spec_distance(p) != i64::MIN,
        i64::MIN <= f.0.0.spec_distance(p) <= i64::MAX,
    ensures
        f.spec_distance(p) == f.0.0.spec_distance(p),
{
}

} // verus!
