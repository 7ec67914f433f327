use crate::algebra::ring::Ring;
use vstd::prelude::*;

verus! {

/// A ring that is the sum of parts `R_i`, each of them a subgroup. The
/// elements of `R_i` are homogeneous of degree `i`.
pub trait GradedRing: Ring {
    /// The degree of this element, if it lies in one of the parts.
    spec fn degree_value(&self) -> Option<usize>;

    /// Whether this element lies in one of the parts.
    fn is_homogeneous(&self) -> (res: bool)
        ensures
            res == self.degree_value().is_some(),
    ;

    /// The degree of this element, if it lies in one of the parts.
    fn degree(&self) -> (res: Option<usize>)
        ensures
            res == self.degree_value(),
    ;
}

} // verus!
