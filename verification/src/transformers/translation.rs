//! Translation of a field by a vector.

use vstd::prelude::*;

use crate::Sdf;
use crate::fixed::{Fix, fadd, fneg, fsub};

verus! {

/// Pointwise saturating sum of two raw-value vectors.
pub open spec fn seq_add(p: Seq<int>, q: Seq<int>) -> Seq<int> {
    Seq::new(p.len(), |i: int| fadd(p[i], q[i]))
}

/// Pointwise saturating difference of two raw-value vectors.
pub open spec fn seq_sub(p: Seq<int>, q: Seq<int>) -> Seq<int> {
    Seq::new(p.len(), |i: int| fsub(p[i], q[i]))
}

/// A field translated by a vector.  The negated translation is
/// precomputed at construction; evaluation shifts the query point and
/// delegates.
#[derive(Debug, Clone, PartialEq, Eq, Hash)]
pub struct Translated<T> {
    pub inner: T,
    pub inverse_translation: Vec<Fix>,
}

impl<T: Sdf> Sdf for Translated<T> {
    type State = T::State;

    open spec fn wf(&self) -> bool {
        self.inner.wf()
    }

    open spec fn accepts_dim(&self, dim: nat) -> bool {
        dim == self.inverse_translation@.len() && self.inner.accepts_dim(dim)
    }

    open spec fn state_defined(&self) -> bool {
        self.inner.state_defined()
    }

    /// The child's distance at the shifted point.
    open spec fn spec_distance(&self, p: Seq<int>) -> int {
        self.inner.spec_distance(seq_add(p, self.inverse_translation.deep_view()))
    }

    /// The child's payload at the shifted point, so that the payload
    /// always matches the branch whose distance is reported.
    open spec fn spec_state(&self, p: Seq<int>) -> T::State {
        self.inner.spec_state(seq_add(p, self.inverse_translation.deep_view()))
    }

    fn distance_from_slice(&self, point: &[Fix]) -> (d: Fix) {
        let shifted = self.shift(point);
        self.inner.distance_from_slice(shifted.as_slice())
    }

    fn state(&self, point: &[Fix]) -> (s: T::State) {
        let shifted = self.shift(point);
        self.inner.state(shifted.as_slice())
    }
}

impl<T: Sdf> Translated<T> {
    /// The query point shifted by the stored negated translation.
    fn shift(&self, point: &[Fix]) -> (r: Vec<Fix>)
        requires
            point@.len() == self.inverse_translation@.len(),
        ensures
            r@.len() == point@.len(),
            r.deep_view() == seq_add(point.deep_view(), self.inverse_translation.deep_view()),
    {
        let ghost pv = point.deep_view();
        let ghost qv = self.inverse_translation.deep_view();
        let mut out: Vec<Fix> = Vec::new();
        let mut i: usize = 0;
        while i < point.len()
            invariant
                0 <= i <= point.len(),
                pv.len() == point@.len(),
                qv.len() == self.inverse_translation@.len(),
                pv.len() == qv.len(),
                forall|j: int| 0 <= j < pv.len() ==> pv[j] == point@[j]@,
                forall|j: int| 0 <= j < qv.len() ==> qv[j] == self.inverse_translation@[j]@,
                out.len() == i,
                forall|j: int| 0 <= j < i ==> out@[j]@ == seq_add(pv, qv)[j],
            decreases point.len() - i,
        {
            out.push(point[i].add(self.inverse_translation[i]));
            i = i + 1;
        }
        proof {
            assert(out.deep_view() =~= seq_add(pv, qv));
        }
        out
    }

    /// Translate `inner` by `translation`.
    ///
    /// The most negative raw value is excluded so that the stored
    /// negation is exact and the translated field agrees with the
    /// child evaluated at `point - translation` everywhere.
    pub fn new(inner: T, translation: &[Fix]) -> (r: Translated<T>)
        requires
            forall|i: int| 0 <= i < translation@.len() ==> translation@[i]@ != i64::MIN,
        ensures
            r.inner == inner,
            r.inverse_translation@.len() == translation@.len(),
            forall|i: int|
                0 <= i < translation@.len()
                    ==> #[trigger] r.inverse_translation.deep_view()[i]
                        == fneg(translation.deep_view()[i]),
            forall|p: Seq<int>|
                p.len() == translation@.len() ==> #[trigger] r.spec_distance(p)
                    == inner.spec_distance(seq_sub(p, translation.deep_view())),
            forall|p: Seq<int>|
                p.len() == translation@.len() ==> #[trigger] r.spec_state(p)
                    == inner.spec_state(seq_sub(p, translation.deep_view())),
    {
        let ghost tv = translation.deep_view();
        let mut neg: Vec<Fix> = Vec::new();
        let mut i: usize = 0;
        while i < translation.len()
            invariant
                0 <= i <= translation.len(),
                tv.len() == translation@.len(),
                forall|j: int| 0 <= j < tv.len() ==> tv[j] == translation@[j]@,
                forall|j: int| 0 <= j < tv.len() ==> tv[j] != i64::MIN,
                neg.len() == i,
                forall|j: int| 0 <= j < i ==> neg@[j]@ == fneg(tv[j]),
            decreases translation.len() - i,
        {
            neg.push(translation[i].neg());
            i = i + 1;
        }
        let r = Translated { inner, inverse_translation: neg };
        proof {
            let nv = r.inverse_translation.deep_view();
            assert(nv.len() == tv.len());
            assert forall|j: int| 0 <= j < tv.len() implies #[trigger] nv[j] == fneg(tv[j]) by {
                assert(nv[j] == r.inverse_translation@[j]@);
            }
            assert forall|p: Seq<int>| p.len() == tv.len() implies #[trigger] r.spec_distance(p)
                == r.inner.spec_distance(seq_sub(p, tv)) by {
                assert forall|j: int| 0 <= j < p.len() implies #[trigger] seq_add(p, nv)[j]
                    == seq_sub(p, tv)[j] by {
                    assert(nv[j] == fneg(tv[j]));
                }
                assert(seq_add(p, nv) =~= seq_sub(p, tv));
            }
            assert forall|p: Seq<int>| p.len() == tv.len() implies #[trigger] r.spec_state(p)
                == r.inner.spec_state(seq_sub(p, tv)) by {
                assert forall|j: int| 0 <= j < p.len() implies #[trigger] seq_add(p, nv)[j]
                    == seq_sub(p, tv)[j] by {
                    assert(nv[j] == fneg(tv[j]));
                }
                assert(seq_add(p, nv) =~= seq_sub(p, tv));
            }
        }
        r
    }
}

} // verus!
