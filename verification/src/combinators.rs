//! Fields combining two or more child fields.
//!
//! Combinators merge their children's distances through a
//! boolean-like operator: union keeps the nearest surface,
//! intersection the farthest, difference subtracts one shape from
//! another.  The payload reported always corresponds to the branch
//! whose distance is reported.

use vstd::prelude::*;

mod difference;
mod intersection;
mod operations;
mod union;

pub use difference::{Difference, lemma_difference_distance};
pub use intersection::{
    Intersection, IterIntersection, iter_argmax_prefix, iter_max_prefix,
    lemma_intersection_distance, lemma_intersection_state_consistent,
    lemma_iter_intersection_distance, lemma_iter_intersection_state, lemma_iter_max_argmax,
    lemma_iter_max_congruent,
};
pub use operations::{
    FarthestWins, NearestWins, SdfCombinationOperations, SdfIterCombinationOperations, StateBlender,
};
pub use union::{
    IterUnion, Union, iter_argmin_prefix, iter_min_prefix, lemma_iter_min_argmin,
    lemma_iter_min_congruent,
    lemma_iter_union_distance, lemma_iter_union_state, lemma_union_distance,
    lemma_union_state_consistent,
};
