use crate::algebra::function::BinOp;
use crate::algebra::set::ElementSet;
use vstd::prelude::*;

verus! {

/// A set with an operation `Op` that has a neutral element.
pub trait Monoid<Op: BinOp<Self>>: ElementSet {
    /// The product of `a` and `b`.
    spec fn product(a: Self::Element, b: Self::Element) -> Self::Element;

    /// The neutral element.
    spec fn neutral() -> Self::Element;

    /// The product of `a` and `b`.
    fn prod(a: Self::Element, b: Self::Element) -> (res: Self::Element)
        ensures
            res == Self::product(a, b),
    ;

    /// The neutral element.
    fn identity() -> (res: Self::Element)
        ensures
            res == Self::neutral(),
    ;
}

} // verus!
