//! Heap indirection for fields.

use vstd::prelude::*;

use crate::Sdf;
use crate::fixed::Fix;

verus! {

/// A field whose data lives on the heap.  An identity pass-through:
/// it exists purely to break up type sizes and to allow recursive or
/// dynamically composed scenes.
#[derive(Debug, Clone, PartialEq, Hash)]
pub struct Boxed<T>(pub Box<T>);

impl<T: Sdf> Sdf for Boxed<T> {
    type State = T::State;

    open spec fn wf(&self) -> bool {
        (*self.0).wf()
    }

    open spec fn accepts_dim(&self, dim: nat) -> bool {
        (*self.0).accepts_dim(dim)
    }

    open spec fn state_defined(&self) -> bool {
        (*self.0).state_defined()
    }

    /// Exactly the child's distance.
    open spec fn spec_distance(&self, p: Seq<int>) -> int {
        (*self.0).spec_distance(p)
    }

    open spec fn spec_state(&self, p: Seq<int>) -> T::State {
        (*self.0).spec_state(p)
    }

    fn distance_from_slice(&self, point: &[Fix]) -> (d: Fix) {
        (*self.0).distance_from_slice(point)
    }

    fn state(&self, point: &[Fix]) -> (s: T::State) {
        (*self.0).state(point)
    }
}

impl<T: Sdf> Boxed<T> {
    /// Move `inner` to the heap.
    pub fn new(inner: T) -> (r: Boxed<T>)
        ensures
            *r.0 == inner,
    {
        Boxed(Box::new(inner))
    }
}

/// A boxed field is itself a field.
impl<T: Sdf> Sdf for Box<T> {
    type State = T::State;

    open spec fn wf(&self) -> bool {
        (**self).wf()
    }

    open spec fn accepts_dim(&self, dim: nat) -> bool {
        (**self).accepts_dim(dim)
    }

    open spec fn state_defined(&self) -> bool {
        (**self).state_defined()
    }

    open spec fn spec_distance(&self, p: Seq<int>) -> int {
        (**self).spec_distance(p)
    }

    open spec fn spec_state(&self, p: Seq<int>) -> T::State {
        (**self).spec_state(p)
    }

    fn distance_from_slice(&self, point: &[Fix]) -> (d: Fix) {
        (**self).distance_from_slice(point)
    }

    fn state(&self, point: &[Fix]) -> (s: T::State) {
        (**self).state(point)
    }
}

/// A shared field is itself a field (single-threaded sharing).
impl<T: Sdf> Sdf for std::rc::Rc<T> {
    type State = T::State;

    open spec fn wf(&self) -> bool {
        (**self).wf()
    }

    open spec fn accepts_dim(&self, dim: nat) -> bool {
        (**self).accepts_dim(dim)
    }

    open spec fn state_defined(&self) -> bool {
        (**self).state_defined()
    }

    open spec fn spec_distance(&self, p: Seq<int>) -> int {
        (**self).spec_distance(p)
    }

    open spec fn spec_state(&self, p: Seq<int>) -> T::State {
        (**self).spec_state(p)
    }

    fn distance_from_slice(&self, point: &[Fix]) -> (d: Fix) {
        (**self).distance_from_slice(point)
    }

    fn state(&self, point: &[Fix]) -> (s: T::State) {
        (**self).state(point)
    }
}

/// A thread-safely shared field is itself a field; sharing across
/// threads is an explicit opt-in distinct from `Rc`.
impl<T: Sdf> Sdf for std::sync::Arc<T> {
    type State = T::State;

    open spec fn wf(&self) -> bool {
        (**self).wf()
    }

    open spec fn accepts_dim(&self, dim: nat) -> bool {
        (**self).accepts_dim(dim)
    }

    open spec fn state_defined(&self) -> bool {
        (**self).state_defined()
    }

    open spec fn spec_distance(&self, p: Seq<int>) -> int {
        (**self).spec_distance(p)
    }

    open spec fn spec_state(&self, p: Seq<int>) -> T::State {
        (**self).spec_state(p)
    }

    fn distance_from_slice(&self, point: &[Fix]) -> (d: Fix) {
        (**self).distance_from_slice(point)
    }

    fn state(&self, point: &[Fix]) -> (s: T::State) {
        (**self).state(point)
    }
}

} // verus!
