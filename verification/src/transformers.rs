//! Fields wrapping exactly one child field.
//!
//! A transformer applies a point-space mapping before delegating to
//! its child, a distance-space correction after it, or both.  It
//! stores only the transform parameters, never a copy of the child's
//! data, and it does not alter which payload value is reported: only
//! the distance and the query point change.

use vstd::prelude::*;

mod boxed;
mod inverted;
mod operations;
mod repetition;
mod rotation;
mod rounding;
mod scale;
mod thickened;
mod translation;

pub use boxed::Boxed;
pub use inverted::{Inverted, lemma_invert_involution};
pub use operations::SdfTransformOperations;
pub use repetition::{Repeated, fwrap, lemma_fwrap_in_cell, round_div, seq_wrap};
pub use rotation::{
    Quat, Rotated2d, Rotated3d, SdfRotation2dOperations, SdfRotation3dOperations, spec_cross,
    spec_quat_apply, spec_rotate2,
};
pub use rounding::Rounded;
pub use scale::{Scaled, seq_div_scalar};
pub use thickened::Thickened;
pub use translation::{Translated, seq_add, seq_sub};
