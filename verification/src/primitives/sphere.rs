//! The unit sphere.

use vstd::prelude::*;

use crate::Sdf;
use crate::fixed::{Fix, FIX_SCALE, fnorm, fsub, lemma_fnorm_single, norm_slice};

verus! {

/// A sphere of radius 1 centred at the origin, in any dimension.
/// Radius and centre are changed by scaling and translating the
/// field, never by parameterising the primitive.
#[derive(Debug, Default, Clone, Copy, PartialEq, Eq, Structural, Hash)]
pub struct Sphere;

impl Sdf for Sphere {
    type State = ();

    open spec fn wf(&self) -> bool {
        true
    }

    open spec fn accepts_dim(&self, dim: nat) -> bool {
        true
    }

    open spec fn state_defined(&self) -> bool {
        true
    }

    /// Distance of the unit sphere: the Euclidean norm of the point,
    /// minus one.
    open spec fn spec_distance(&self, p: Seq<int>) -> int {
        fsub(fnorm(p), FIX_SCALE as int)
    }

    open spec fn spec_state(&self, p: Seq<int>) -> () {
        ()
    }

    fn distance_from_slice(&self, point: &[Fix]) -> (d: Fix) {
        let value: Fix = if point.len() == 1 {
            // In one dimension the norm is just the absolute value;
            // skip the square-and-root round trip.
            proof {
                lemma_fnorm_single(point.deep_view());
            }
            point[0].abs()
        } else {
            norm_slice(point)
        };
        value.sub(Fix::one())
    }

    fn state(&self, point: &[Fix]) -> (s: ()) {
        ()
    }
}

} // verus!
