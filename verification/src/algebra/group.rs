use std::ops::{Add, Mul, Neg};
use vstd::prelude::*;
use vstd::std_specs::cmp::PartialEqSpec;
use vstd::std_specs::ops::{AddSpec, MulSpec, NegSpec};

verus! {

/// A group that is written with `+`: its elements can be added, negated and
/// compared, and addition has a neutral element.
pub trait AbelianGroup: Add<Output = Self> + Neg<Output = Self> + PartialEq + Sized {
    /// The neutral element of addition.
    spec fn zero_value() -> Self;

    /// The neutral element of addition.
    fn zero() -> (res: Self)
        ensures
            res == Self::zero_value(),
    ;

    /// The sum, the negative and the comparison are defined for all elements
    /// and are what `add_spec`, `neg_spec` and `eq_spec` say.
    proof fn lemma_group_operations(a: Self, b: Self)
        ensures
            Self::obeys_add_spec(),
            Self::obeys_neg_spec(),
            Self::obeys_eq_spec(),
            a.add_req(b),
            a.neg_req(),
    ;
}

/// A group that is written with `*`: its elements can be multiplied and
/// compared, multiplication has a neutral element, and every element has an
/// inverse.
pub trait Group: Mul<Output = Self> + PartialEq + Sized {
    /// The neutral element of multiplication.
    spec fn one_value() -> Self;

    /// The inverse of an element.
    spec fn inverse_value(self) -> Self;

    /// The neutral element of multiplication.
    fn one() -> (res: Self)
        ensures
            res == Self::one_value(),
    ;

    /// The inverse of an element.
    fn inverse(self) -> (res: Self)
        ensures
            res == self.inverse_value(),
    ;
}

/// An element of an abelian group, taken as an element of a group that is
/// written with `*`.
pub struct AsMultGroup<G: AbelianGroup> {
    elem: G,
}

impl<G: AbelianGroup> View for AsMultGroup<G> {
    type V = G;

    closed spec fn view(&self) -> G {
        self.elem
    }
}

impl<G: AbelianGroup> AsMultGroup<G> {
    /// The element with the view `g`.
    pub closed spec fn wrap(g: G) -> AsMultGroup<G> {
        AsMultGroup { elem: g }
    }

    /// An element is determined by its view.
    pub proof fn lemma_wrap(self)
        ensures
            AsMultGroup::wrap(self@) == self,
            forall|g: G| (#[trigger] AsMultGroup::wrap(g))@ == g,
    {
    }

    /// The element of the abelian group.
    pub fn into_inner(self) -> (res: G)
        ensures
            res == self@,
    {
        self.elem
    }
}

impl<G: AbelianGroup> From<G> for AsMultGroup<G> {
    fn from(g: G) -> (res: AsMultGroup<G>) {
        AsMultGroup { elem: g }
    }
}

impl<G: AbelianGroup> vstd::std_specs::convert::FromSpecImpl<G> for AsMultGroup<G> {
    open spec fn obeys_from_spec() -> bool {
        true
    }

    open spec fn from_spec(g: G) -> AsMultGroup<G> {
        AsMultGroup::wrap(g)
    }
}

impl<G: AbelianGroup> PartialEq for AsMultGroup<G> {
    fn eq(&self, other: &AsMultGroup<G>) -> (res: bool) {
        proof {
            G::lemma_group_operations(self.elem, other.elem);
        }
        self.elem == other.elem
    }
}

impl<G: AbelianGroup> vstd::std_specs::cmp::PartialEqSpecImpl for AsMultGroup<G> {
    open spec fn obeys_eq_spec() -> bool {
        true
    }

    open spec fn eq_spec(&self, other: &AsMultGroup<G>) -> bool {
        self@.eq_spec(&other@)
    }
}

impl<G: AbelianGroup> Mul for AsMultGroup<G> {
    type Output = AsMultGroup<G>;

    fn mul(self, other: AsMultGroup<G>) -> (res: AsMultGroup<G>) {
        proof {
            G::lemma_group_operations(self.elem, other.elem);
        }
        AsMultGroup { elem: self.elem + other.elem }
    }
}

impl<G: AbelianGroup> vstd::std_specs::ops::MulSpecImpl for AsMultGroup<G> {
    open spec fn obeys_mul_spec() -> bool {
        true
    }

    open spec fn mul_req(self, other: AsMultGroup<G>) -> bool {
        true
    }

    open spec fn mul_spec(self, other: AsMultGroup<G>) -> AsMultGroup<G> {
        AsMultGroup::wrap(self@.add_spec(other@))
    }
}

impl<G: AbelianGroup> Group for AsMultGroup<G> {
    open spec fn one_value() -> AsMultGroup<G> {
        AsMultGroup::wrap(G::zero_value())
    }

    open spec fn inverse_value(self) -> AsMultGroup<G> {
        AsMultGroup::wrap(self@.neg_spec())
    }

    fn one() -> (res: AsMultGroup<G>) {
        AsMultGroup { elem: G::zero() }
    }

    fn inverse(self) -> (res: AsMultGroup<G>) {
        proof {
            G::lemma_group_operations(self.elem, self.elem);
        }
        AsMultGroup { elem: self.elem.neg() }
    }
}

} // verus!
