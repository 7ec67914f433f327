use vstd::prelude::*;

verus! {

/// A set, given by the type of its elements.
pub trait ElementSet: Sized {
    type Element;
}

impl<T: ElementSet, U: ElementSet> ElementSet for (T, U) {
    type Element = (T::Element, U::Element);
}

/// A set whose elements are elements of `Super` too.
pub trait Subset<Super: ElementSet>: ElementSet {
    /// The element `x` as an element of `Super`.
    spec fn embedded(x: Self::Element) -> <Super as ElementSet>::Element;

    /// The element `x` as an element of `Super`.
    fn embed(x: Self::Element) -> (res: <Super as ElementSet>::Element)
        ensures
            res == Self::embedded(x),
    ;
}

impl<T: ElementSet> Subset<T> for T {
    open spec fn embedded(x: T::Element) -> T::Element {
        x
    }

    fn embed(x: T::Element) -> (res: T::Element) {
        x
    }
}

} // verus!
