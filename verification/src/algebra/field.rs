use crate::algebra::ring::Ring;
use std::ops::Div;
use vstd::prelude::*;
use vstd::std_specs::ops::DivSpec;

verus! {

/// A field: a ring in which one can divide. Its neutral element of
/// multiplication is that of the ring.
pub trait Field: Ring + Div<Output = Self> {
    /// The inverse of an element with respect to multiplication.
    spec fn inverse_value(self) -> Self;

    /// The inverse of an element with respect to multiplication.
    fn inverse(self) -> (res: Self)
        ensures
            res == self.inverse_value(),
    ;

    /// The quotient is defined for all elements and is what `div_spec`
    /// says.
    proof fn lemma_field_operations(a: Self, b: Self)
        ensures
            Self::obeys_div_spec(),
            a.div_req(b),
    ;
}

} // verus!
