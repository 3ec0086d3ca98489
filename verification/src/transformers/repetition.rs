//! Infinite repetition of a field on a grid.

use vstd::prelude::*;

use crate::Sdf;
use crate::fixed::{Fix, clip, iabs};

verus! {

/// The integer nearest to `p / s`, ties rounded away from zero.
/// Unspecified for `s == 0`.
pub open spec fn round_div(p: int, s: int) -> int {
    let q = (2 * iabs(p) + iabs(s)) / (2 * iabs(s));
    if (p < 0) != (s < 0) {
        -q
    } else {
        q
    }
}

/// One axis value wrapped into its repetition cell:
/// `p - s * round(p / s)`, which lies in `[-s/2, s/2]`.
pub open spec fn fwrap(p: int, s: int) -> int {
    clip(p - s * round_div(p, s))
}

/// A raw-value vector wrapped componentwise into its cell.
pub open spec fn seq_wrap(p: Seq<int>, s: Seq<int>) -> Seq<int> {
    Seq::new(p.len(), |i: int| fwrap(p[i], s[i]))
}

/// A wrapped axis value lies within half a spacing of the origin:
/// the tiling is exact within a single cell.
pub proof fn lemma_fwrap_in_cell(p: int, s: int)
    requires
        s != 0,
        i64::MIN <= s <= i64::MAX,
    ensures
        2 * iabs(fwrap(p, s)) <= iabs(s),
{
    let pa = iabs(p);
    let sa = iabs(s);
    let q = (2 * pa + sa) / (2 * sa);
    let n = round_div(p, s);
    vstd::arithmetic::div_mod::lemma_fundamental_div_mod(2 * pa + sa, 2 * sa);
    vstd::arithmetic::div_mod::lemma_mod_bound(2 * pa + sa, 2 * sa);
    let rem = (2 * pa + sa) % (2 * sa);
    assert(2 * (sa * q - pa) == sa - rem) by (nonlinear_arith)
        requires
            2 * pa + sa == 2 * sa * q + rem,
    ;
    assert(2 * iabs(pa - sa * q) <= sa) by {
        assert(0 <= rem < 2 * sa);
    }
    assert(q >= 0) by (nonlinear_arith)
        requires
            q == (2 * pa + sa) / (2 * sa),
            pa >= 0,
            sa > 0,
    ;
    assert(iabs(p - s * n) == iabs(pa - sa * q)) by (nonlinear_arith)
        requires
            pa == iabs(p),
            sa == iabs(s),
            q >= 0,
            n == (if (p < 0) != (s < 0) { -q } else { q }),
            s != 0,
    ;
    assert(iabs(p - s * n) <= sa);
    assert(fwrap(p, s) == clip(p - s * n));
    assert(clip(p - s * n) == p - s * n);
}

/// Wrap one axis value into the cell of width `spacing` around the
/// origin.
fn wrap_axis(p: Fix, s: Fix) -> (r: Fix)
    requires
        s@ != 0,
    ensures
        r@ == fwrap(p@, s@),
{
    let praw = p.raw();
    let sraw = s.raw();
    let pm: u128 = if praw < 0 {
        if praw == i64::MIN {
            9223372036854775808u128
        } else {
            (-praw) as u128
        }
    } else {
        praw as u128
    };
    let sm: u128 = if sraw < 0 {
        if sraw == i64::MIN {
            9223372036854775808u128
        } else {
            (-sraw) as u128
        }
    } else {
        sraw as u128
    };
    proof {
        assert(pm == iabs(praw as int));
        assert(sm == iabs(sraw as int));
    }
    let num: u128 = 2 * pm + sm;
    let den: u128 = 2 * sm;
    let q: u128 = num / den;
    proof {
        assert(q == (2 * iabs(praw as int) + iabs(sraw as int)) / (2 * iabs(sraw as int)));
        // The quotient times the divisor does not exceed the dividend,
        // which bounds the product `sm * q`.
        assert((den * q) as int <= num as int) by (nonlinear_arith)
            requires
                den != 0,
                q == num / den,
        ;
        assert(sm as int * q as int <= pm as int + sm as int) by (nonlinear_arith)
            requires
                (2 * (sm as int)) * (q as int) <= 2 * (pm as int) + (sm as int),
                sm >= 1,
                q >= 0,
        ;
    }
    let neg_n: bool = (praw < 0) != (sraw < 0);
    let n_i: i128 = if neg_n {
        -(q as i128)
    } else {
        q as i128
    };
    proof {
        assert(n_i as int == round_div(p@, s@));
        assert(iabs((sraw as int) * (n_i as int)) == sm as int * q as int) by (nonlinear_arith)
            requires
                sm == iabs(sraw as int),
                q == iabs(n_i as int),
        ;
    }
    let prod: i128 = (sraw as i128) * n_i;
    let res: i128 = (praw as i128) - prod;
    crate::fixed::clamp_to_fix(res)
}

/// A field repeated to infinity with a given spacing on each axis.
/// Each axis of the query point is wrapped into the cell around the
/// origin before delegating; the distance is exact within a single
/// cell of the tiling.
#[derive(Debug, Clone, PartialEq, Hash)]
pub struct Repeated<T> {
    pub inner: T,
    pub repeat_spacing: Vec<Fix>,
}

impl<T: Sdf> Sdf for Repeated<T> {
    type State = T::State;

    /// Zero spacing never evaluates: it is rejected at construction
    /// and excluded here.
    open spec fn wf(&self) -> bool {
        self.inner.wf() && (forall|i: int|
            0 <= i < self.repeat_spacing@.len() ==> #[trigger] self.repeat_spacing@[i]@ != 0)
    }

    open spec fn accepts_dim(&self, dim: nat) -> bool {
        dim == self.repeat_spacing@.len() && self.inner.accepts_dim(dim)
    }

    open spec fn state_defined(&self) -> bool {
        self.inner.state_defined()
    }

    /// The child's distance at the point wrapped into its cell.
    open spec fn spec_distance(&self, p: Seq<int>) -> int {
        self.inner.spec_distance(seq_wrap(p, self.repeat_spacing.deep_view()))
    }

    open spec fn spec_state(&self, p: Seq<int>) -> T::State {
        self.inner.spec_state(seq_wrap(p, self.repeat_spacing.deep_view()))
    }

    fn distance_from_slice(&self, point: &[Fix]) -> (d: Fix) {
        let wrapped = self.wrap(point);
        self.inner.distance_from_slice(wrapped.as_slice())
    }

    fn state(&self, point: &[Fix]) -> (s: T::State) {
        let wrapped = self.wrap(point);
        self.inner.state(wrapped.as_slice())
    }
}

impl<T: Sdf> Repeated<T> {
    /// The query point wrapped componentwise into its cell.
    fn wrap(&self, point: &[Fix]) -> (r: Vec<Fix>)
        requires
            point@.len() == self.repeat_spacing@.len(),
            forall|i: int|
                0 <= i < self.repeat_spacing@.len() ==> #[trigger] self.repeat_spacing@[i]@ != 0,
        ensures
            r@.len() == point@.len(),
            r.deep_view() == seq_wrap(point.deep_view(), self.repeat_spacing.deep_view()),
    {
        let ghost pv = point.deep_view();
        let ghost sv = self.repeat_spacing.deep_view();
        proof {
            assert forall|j: int| 0 <= j < sv.len() implies sv[j] != 0 by {
                assert(sv[j] == self.repeat_spacing@[j]@);
            }
        }
        let mut out: Vec<Fix> = Vec::new();
        let mut i: usize = 0;
        while i < point.len()
            invariant
                0 <= i <= point.len(),
                pv.len() == point@.len(),
                sv.len() == self.repeat_spacing@.len(),
                pv.len() == sv.len(),
                forall|j: int| 0 <= j < pv.len() ==> pv[j] == point@[j]@,
                forall|j: int| 0 <= j < sv.len() ==> sv[j] == self.repeat_spacing@[j]@,
                forall|j: int| 0 <= j < sv.len() ==> sv[j] != 0,
                out.len() == i,
                forall|j: int| 0 <= j < i ==> out@[j]@ == seq_wrap(pv, sv)[j],
            decreases point.len() - i,
        {
            proof {
                assert(sv[i as int] != 0);
                assert(self.repeat_spacing@[i as int]@ == sv[i as int]);
            }
            out.push(wrap_axis(point[i], self.repeat_spacing[i]));
            i = i + 1;
        }
        proof {
            assert(out.deep_view() =~= seq_wrap(pv, sv));
        }
        out
    }

    /// Repeat `inner` with the given per-axis spacing, every
    /// component of which must be nonzero: at every point the new
    /// distance is the child's distance at the wrapped point.
    pub fn new(inner: T, repeat_spacing: Vec<Fix>) -> (r: Repeated<T>)
        requires
            forall|i: int|
                0 <= i < repeat_spacing@.len() ==> #[trigger] repeat_spacing@[i]@ != 0,
        ensures
            r.inner == inner,
            r.repeat_spacing == repeat_spacing,
            forall|p: Seq<int>| #[trigger] r.spec_distance(p)
                == inner.spec_distance(seq_wrap(p, repeat_spacing.deep_view())),
            forall|p: Seq<int>| #[trigger] r.spec_state(p)
                == inner.spec_state(seq_wrap(p, repeat_spacing.deep_view())),
    {
        Repeated { inner, repeat_spacing }
    }
}

} // verus!
