//! Uniform scaling of a field.

use vstd::prelude::*;

use crate::Sdf;
use crate::fixed::{Fix, fdiv, fmul};

verus! {

/// A raw-value vector divided componentwise by a scalar.
pub open spec fn seq_div_scalar(p: Seq<int>, s: int) -> Seq<int> {
    Seq::new(p.len(), |i: int| fdiv(p[i], s))
}

/// A field scaled uniformly by a factor.  The query point is divided
/// by the factor before delegating, and the child's distance is
/// multiplied by it afterwards, so distances stay true to the scaled
/// geometry.  There is no support for non-homogeneous scaling.
#[derive(Debug, Clone, Copy, PartialEq, Hash)]
pub struct Scaled<T> {
    pub inner: T,
    pub scale: Fix,
}

impl<T: Sdf> Sdf for Scaled<T> {
    type State = T::State;

    /// A zero scale factor never evaluates: it is rejected at
    /// construction and excluded here.
    open spec fn wf(&self) -> bool {
        self.inner.wf() && self.scale@ != 0
    }

    open spec fn accepts_dim(&self, dim: nat) -> bool {
        self.inner.accepts_dim(dim)
    }

    open spec fn state_defined(&self) -> bool {
        self.inner.state_defined()
    }

    /// The child's distance at the point divided by the factor,
    /// multiplied back by the factor.
    open spec fn spec_distance(&self, p: Seq<int>) -> int {
        fmul(self.inner.spec_distance(seq_div_scalar(p, self.scale@)), self.scale@)
    }

    open spec fn spec_state(&self, p: Seq<int>) -> T::State {
        self.inner.spec_state(seq_div_scalar(p, self.scale@))
    }

    fn distance_from_slice(&self, point: &[Fix]) -> (d: Fix) {
        let scaled = self.shrink(point);
        self.inner.distance_from_slice(scaled.as_slice()).mul(self.scale)
    }

    fn state(&self, point: &[Fix]) -> (s: T::State) {
        let scaled = self.shrink(point);
        self.inner.state(scaled.as_slice())
    }
}

impl<T: Sdf> Scaled<T> {
    /// The query point divided componentwise by the scale factor.
    fn shrink(&self, point: &[Fix]) -> (r: Vec<Fix>)
        requires
            self.scale@ != 0,
        ensures
            r@.len() == point@.len(),
            r.deep_view() == seq_div_scalar(point.deep_view(), self.scale@),
    {
        let ghost pv = point.deep_view();
        let mut out: Vec<Fix> = Vec::new();
        let mut i: usize = 0;
        while i < point.len()
            invariant
                0 <= i <= point.len(),
                pv.len() == point@.len(),
                forall|j: int| 0 <= j < pv.len() ==> pv[j] == point@[j]@,
                self.scale@ != 0,
                out.len() == i,
                forall|j: int| 0 <= j < i ==> out@[j]@ == seq_div_scalar(pv, self.scale@)[j],
            decreases point.len() - i,
        {
            out.push(point[i].div(self.scale));
            i = i + 1;
        }
        proof {
            assert(out.deep_view() =~= seq_div_scalar(pv, self.scale@));
        }
        out
    }

    /// Scale `inner` by `scale`, which must not be zero: at every
    /// point the new distance is the child's distance at `point /
    /// scale`, multiplied by `scale`.
    pub fn new(inner: T, scale: Fix) -> (r: Scaled<T>)
        requires
            scale@ != 0,
        ensures
            r.inner == inner,
            r.scale == scale,
            forall|p: Seq<int>| #[trigger] r.spec_distance(p)
                == fmul(inner.spec_distance(seq_div_scalar(p, scale@)), scale@),
            forall|p: Seq<int>| #[trigger] r.spec_state(p)
                == inner.spec_state(seq_div_scalar(p, scale@)),
    {
        Scaled { inner, scale }
    }
}

} // verus!
