use crate::algebra::set::{ElementSet, Subset};
use vstd::prelude::*;

verus! {

/// A function from `Domain` to `Codomain`.
pub trait Function<Domain: ElementSet, Codomain: ElementSet> {
    /// The value at `x`.
    spec fn value(&self, x: Domain::Element) -> Codomain::Element;

    /// The value at `x`.
    fn apply(&self, x: Domain::Element) -> (res: Codomain::Element)
        ensures
            res == self.value(x),
    ;
}

/// An operation that makes one element of `Domain` of two.
pub trait BinOp<Domain: ElementSet> {
    /// The result for `x` and `y`.
    spec fn value(&self, x: Domain::Element, y: Domain::Element) -> Domain::Element;

    /// The result for `x` and `y`.
    fn apply(&self, x: Domain::Element, y: Domain::Element) -> (res: Domain::Element)
        ensures
            res == self.value(x, y),
    ;
}

/// A function that is taken on a subset of its domain only.
pub struct Restriction<F> {
    fun: F,
}

impl<F> View for Restriction<F> {
    type V = F;

    closed spec fn view(&self) -> F {
        self.fun
    }
}

/// The function `fun`, to be taken on a subset of its domain.
pub fn restrict<F>(fun: F) -> (res: Restriction<F>)
    ensures
        res@ == fun,
{
    Restriction { fun }
}

impl<F> Restriction<F> {
    /// The value of the function at the element `x` of the subset
    /// `Subdomain`.
    pub fn apply<Domain: ElementSet, Codomain: ElementSet, Subdomain: Subset<Domain>>(
        &self,
        x: Subdomain::Element,
    ) -> (res: Codomain::Element) where F: Function<Domain, Codomain>
        ensures
            res == self@.value(Subdomain::embedded(x)),
    {
        self.fun.apply(Subdomain::embed(x))
    }
}

} // verus!
