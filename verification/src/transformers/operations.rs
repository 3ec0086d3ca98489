//! Builder-style transform operations, available on every field.

use vstd::prelude::*;

use crate::Sdf;
use crate::fixed::{Fix, fabs, fdiv, fmul, fsub};
use crate::transformers::{Boxed, Inverted, Repeated, Rounded, Scaled, Thickened};
use crate::transformers::translation::{Translated, seq_sub};
use crate::transformers::scale::seq_div_scalar;
use crate::transformers::repetition::seq_wrap;

verus! {

/// Builder methods that wrap a field in a transformer, consuming it
/// by value and returning the new owning node.
pub trait SdfTransformOperations: Sdf {
    /// Translate this field by a vector (whose components must not
    /// be the most negative raw value, so the stored negation is
    /// exact).
    fn translate(self, translation: &[Fix]) -> (r: Translated<Self>)
        requires
            forall|i: int| 0 <= i < translation@.len() ==> translation@[i]@ != i64::MIN,
        ensures
            r.inner == self,
            r.inverse_translation@.len() == translation@.len(),
            forall|p: Seq<int>|
                p.len() == translation@.len() ==> #[trigger] r.spec_distance(p)
                    == self.spec_distance(seq_sub(p, translation.deep_view())),
            forall|p: Seq<int>|
                p.len() == translation@.len() ==> #[trigger] r.spec_state(p)
                    == self.spec_state(seq_sub(p, translation.deep_view())),
    {
        Translated::new(self, translation)
    }

    /// Scale this field uniformly by a nonzero factor.
    fn scale(self, scale: Fix) -> (r: Scaled<Self>)
        requires
            scale@ != 0,
        ensures
            r.inner == self,
            r.scale == scale,
            forall|p: Seq<int>| #[trigger] r.spec_distance(p)
                == fmul(self.spec_distance(seq_div_scalar(p, scale@)), scale@),
            forall|p: Seq<int>| #[trigger] r.spec_state(p)
                == self.spec_state(seq_div_scalar(p, scale@)),
    {
        Scaled::new(self, scale)
    }

    /// Round the corners of this field by a factor.
    fn round(self, factor: Fix) -> (r: Rounded<Self>)
        ensures
            r.inner == self,
            r.factor == factor,
            forall|p: Seq<int>| #[trigger] r.spec_distance(p)
                == fsub(self.spec_distance(p), factor@),
            forall|p: Seq<int>| #[trigger] r.spec_state(p) == self.spec_state(p),
    {
        Rounded::new(self, factor)
    }

    /// Repeat this field to infinity with the given nonzero per-axis
    /// spacing.
    fn repeat(self, repeat_spacing: Vec<Fix>) -> (r: Repeated<Self>)
        requires
            forall|i: int|
                0 <= i < repeat_spacing@.len() ==> #[trigger] repeat_spacing@[i]@ != 0,
        ensures
            r.inner == self,
            r.repeat_spacing == repeat_spacing,
            forall|p: Seq<int>| #[trigger] r.spec_distance(p)
                == self.spec_distance(seq_wrap(p, repeat_spacing.deep_view())),
            forall|p: Seq<int>| #[trigger] r.spec_state(p)
                == self.spec_state(seq_wrap(p, repeat_spacing.deep_view())),
    {
        Repeated::new(self, repeat_spacing)
    }

    /// Turn this field's surface into a shell of the given half-width.
    fn thickness(self, thickness: Fix) -> (r: Thickened<Self>)
        ensures
            r.inner == self,
            r.thickness == thickness,
            forall|p: Seq<int>| #[trigger] r.spec_distance(p)
                == fsub(fabs(self.spec_distance(p)), thickness@),
            forall|p: Seq<int>| #[trigger] r.spec_state(p) == self.spec_state(p),
    {
        Thickened::new(self, thickness)
    }

    /// Invert this field: inside becomes outside and vice versa.
    fn invert(self) -> (r: Inverted<Self>)
        ensures
            r.0 == self,
    {
        Inverted::new(self)
    }

    /// Move this field's data to the heap.
    fn in_box(self) -> (r: Box<Self>)
        ensures
            *r == self,
    {
        Box::new(self)
    }

    /// Move this field's data to the heap behind a shared pointer.
    fn in_rc(self) -> (r: std::rc::Rc<Self>)
        ensures
            *r == self,
    {
        std::rc::Rc::new(self)
    }

    /// Move this field's data to the heap behind a thread-safe
    /// shared pointer.
    fn in_arc(self) -> (r: std::sync::Arc<Self>)
        ensures
            *r == self,
    {
        std::sync::Arc::new(self)
    }
}

impl<T: Sdf> SdfTransformOperations for T {

}

} // verus!
