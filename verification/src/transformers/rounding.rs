//! Rounding: growing a shape outward by a constant offset.

use vstd::prelude::*;

use crate::Sdf;
use crate::fixed::{Fix, fsub};

verus! {

/// A field whose distance is lowered by a constant factor: the shape
/// grows outward by `factor` (or shrinks, if `factor` is negative).
#[derive(Debug, Clone, Copy, PartialEq, Hash)]
pub struct Rounded<T> {
    pub inner: T,
    pub factor: Fix,
}

impl<T: Sdf> Sdf for Rounded<T> {
    type State = T::State;

    open spec fn wf(&self) -> bool {
        self.inner.wf()
    }

    open spec fn accepts_dim(&self, dim: nat) -> bool {
        self.inner.accepts_dim(dim)
    }

    open spec fn state_defined(&self) -> bool {
        self.inner.state_defined()
    }

    /// The child's distance, minus the rounding factor.
    open spec fn spec_distance(&self, p: Seq<int>) -> int {
        fsub(self.inner.spec_distance(p), self.factor@)
    }

    open spec fn spec_state(&self, p: Seq<int>) -> T::State {
        self.inner.spec_state(p)
    }

    fn distance_from_slice(&self, point: &[Fix]) -> (d: Fix) {
        self.inner.distance_from_slice(point).sub(self.factor)
    }

    fn state(&self, point: &[Fix]) -> (s: T::State) {
        self.inner.state(point)
    }
}

impl<T: Sdf> Rounded<T> {
    /// Round `inner` by `factor`: at every point the new distance is
    /// the child's distance minus `factor`.
    pub fn new(inner: T, factor: Fix) -> (r: Rounded<T>)
        ensures
            r.inner == inner,
            r.factor == factor,
            forall|p: Seq<int>| #[trigger] r.spec_distance(p)
                == fsub(inner.spec_distance(p), factor@),
            forall|p: Seq<int>| #[trigger] r.spec_state(p) == inner.spec_state(p),
    {
        Rounded { inner, factor }
    }
}

} // verus!
