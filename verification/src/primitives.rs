//! Leaf fields: canonical, origin-centred shapes.
//!
//! Primitives are deliberately unit-sized and unparameterised; all
//! size and position variation is obtained through the transformers.

use vstd::prelude::*;

mod cube;
mod line;
mod plane;
mod sphere;

pub use cube::{Cube, cube_distance_prefix};
pub use line::{Line, spec_perp};
pub use plane::Plane;
pub use sphere::Sphere;

use crate::Sdf;
use crate::fixed::Fix;

verus! {

/// A unit sphere centred at the origin.
pub fn sphere() -> (s: Sphere)
    ensures
        s.wf(),
        forall|d: nat| s.accepts_dim(d),
{
    Sphere
}

/// A unit cube centred at the origin.
pub fn cube() -> (c: Cube)
    ensures
        c.wf(),
        forall|d: nat| c.accepts_dim(d),
{
    Cube
}

/// A line through the origin with the given direction, which is
/// normalised on construction.  Fails (with `None`) exactly when the
/// direction has zero length.
pub fn line(direction: &[Fix]) -> (l: Option<Line>)
    ensures
        l is None <==> (forall|i: int| 0 <= i < direction@.len() ==> direction@[i]@ == 0),
        l matches Some(v) ==> v.wf() && v.accepts_dim(direction@.len()),
{
    Line::new(direction)
}

} // verus!
