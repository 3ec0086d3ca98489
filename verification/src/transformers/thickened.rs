//! Thickening: turning a surface into a shell.

use vstd::prelude::*;

use crate::Sdf;
use crate::fixed::{Fix, fabs, fsub};

verus! {

/// A field whose surface becomes a shell of half-width `thickness`:
/// points whose absolute distance to the child's surface is below the
/// thickness are inside, all others outside.
#[derive(Debug, Clone, Copy, PartialEq, Hash)]
pub struct Thickened<T> {
    pub inner: T,
    pub thickness: Fix,
}

impl<T: Sdf> Sdf for Thickened<T> {
    type State = T::State;

    open spec fn wf(&self) -> bool {
        self.inner.wf()
    }

    open spec fn accepts_dim(&self, dim: nat) -> bool {
        self.inner.accepts_dim(dim)
    }

    open spec fn state_defined(&self) -> bool {
        self.inner.state_defined()
    }

    /// The absolute value of the child's distance, minus the
    /// thickness.
    open spec fn spec_distance(&self, p: Seq<int>) -> int {
        fsub(fabs(self.inner.spec_distance(p)), self.thickness@)
    }

    open spec fn spec_state(&self, p: Seq<int>) -> T::State {
        self.inner.spec_state(p)
    }

    fn distance_from_slice(&self, point: &[Fix]) -> (d: Fix) {
        self.inner.distance_from_slice(point).abs().sub(self.thickness)
    }

    fn state(&self, point: &[Fix]) -> (s: T::State) {
        self.inner.state(point)
    }
}

impl<T: Sdf> Thickened<T> {
    /// Thicken `inner` by `thickness`: at every point the new
    /// distance is `|child distance| - thickness`.
    pub fn new(inner: T, thickness: Fix) -> (r: Thickened<T>)
        ensures
            r.inner == inner,
            r.thickness == thickness,
            forall|p: Seq<int>| #[trigger] r.spec_distance(p)
                == fsub(fabs(inner.spec_distance(p)), thickness@),
            forall|p: Seq<int>| #[trigger] r.spec_state(p) == inner.spec_state(p),
    {
        Thickened { inner, thickness }
    }
}

} // verus!
