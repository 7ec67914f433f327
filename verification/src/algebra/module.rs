use crate::algebra::function::BinOp;
use crate::algebra::monoid::Monoid;
use crate::algebra::set::ElementSet;
use vstd::prelude::*;

verus! {

/// A monoid on which the elements of the set `R` act from the left.
pub trait LeftModule<R: ElementSet, Sum: BinOp<Self>>: Monoid<Sum> {
    /// The product of the scalar `r` and the element `x`.
    spec fn scaled(r: R::Element, x: Self::Element) -> Self::Element;

    /// The product of the scalar `r` and the element `x`.
    fn module_prod(r: R::Element, x: Self::Element) -> (res: Self::Element)
        ensures
            res == Self::scaled(r, x),
    ;
}

} // verus!
