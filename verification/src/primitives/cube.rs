//! The unit cube.

use vstd::prelude::*;

use crate::Sdf;
use crate::fixed::{Fix, FIX_SCALE, fabs, fmax, fsub};

verus! {

/// The Chebyshev-style distance of the unit cube over the first `n`
/// axes of `p`: the maximum over those axes of `|axis| - 1/2`, and 0
/// when there is no axis to reduce over.
pub open spec fn cube_distance_prefix(p: Seq<int>, n: int) -> int
    decreases n,
{
    if n <= 0 {
        0
    } else if n == 1 {
        fsub(fabs(p[0]), (FIX_SCALE as int) / 2)
    } else {
        fmax(cube_distance_prefix(p, n - 1), fsub(fabs(p[n - 1]), (FIX_SCALE as int) / 2))
    }
}

/// A cube with half-extent 1/2 on every axis (edge length 1), centred
/// at the origin, in any dimension.
#[derive(Debug, Default, Clone, Copy, PartialEq, Eq, Structural, Hash)]
pub struct Cube;

impl Sdf for Cube {
    type State = ();

    open spec fn wf(&self) -> bool {
        true
    }

    open spec fn accepts_dim(&self, dim: nat) -> bool {
        true
    }

    open spec fn state_defined(&self) -> bool {
        true
    }

    /// Distance of the unit cube: the maximum over the axes of
    /// `|axis| - 1/2`, degenerating to 0 in dimension zero.
    open spec fn spec_distance(&self, p: Seq<int>) -> int {
        cube_distance_prefix(p, p.len() as int)
    }

    open spec fn spec_state(&self, p: Seq<int>) -> () {
        ()
    }

    fn distance_from_slice(&self, point: &[Fix]) -> (d: Fix) {
        let ghost pv = point.deep_view();
        if point.len() == 0 {
            return Fix::zero();
        }
        let half = Fix::from_raw(FIX_SCALE / 2);
        let mut acc = point[0].abs().sub(half);
        let mut i: usize = 1;
        while i < point.len()
            invariant
                1 <= i <= point.len(),
                pv.len() == point@.len(),
                forall|j: int| 0 <= j < pv.len() ==> pv[j] == point@[j]@,
                half@ == (FIX_SCALE as int) / 2,
                acc@ == cube_distance_prefix(pv, i as int),
            decreases point.len() - i,
        {
            acc = acc.max(point[i].abs().sub(half));
            i = i + 1;
        }
        acc
    }

    fn state(&self, point: &[Fix]) -> (s: ()) {
        ()
    }
}

} // verus!
