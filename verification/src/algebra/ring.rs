use crate::algebra::group::AbelianGroup;
use std::ops::Mul;
use vstd::prelude::*;
use vstd::std_specs::ops::MulSpec;

verus! {

/// Whether a clone of a value of `T` is always equal to the value.
pub open spec fn clone_is_exact<T: Clone>() -> bool {
    forall|a: T, b: T| #[trigger] cloned::<T>(a, b) ==> a == b
}

/// The product of `n` factors `x`, and the neutral element for no factor.
pub open spec fn power<R: Ring>(x: R, n: nat) -> R
    decreases n,
{
    if n == 0 {
        R::one_value()
    } else {
        x.mul_spec(power(x, (n - 1) as nat))
    }
}

/// A ring: an abelian group with a multiplication that has a neutral
/// element.
pub trait Ring: AbelianGroup + Mul<Output = Self> {
    /// The neutral element of multiplication.
    spec fn one_value() -> Self;

    /// The neutral element of multiplication.
    fn one() -> (res: Self)
        ensures
            res == Self::one_value(),
    ;

    /// The product is defined for all elements and is what `mul_spec` says.
    proof fn lemma_ring_operations(a: Self, b: Self)
        ensures
            Self::obeys_mul_spec(),
            a.mul_req(b),
    ;
}

/// The power of an element: the product of `n` factors.
pub fn pow<R: Ring + Clone>(x: R, n: usize) -> (res: R)
    requires
        clone_is_exact::<R>(),
    ensures
        res == power(x, n as nat),
{
    let mut res = R::one();
    let mut i: usize = 0;
    while i < n
        invariant
            i <= n,
            clone_is_exact::<R>(),
            res == power(x, i as nat),
        decreases n - i,
    {
        let copy = x.clone();
        proof {
            assert(cloned::<R>(x, copy));
            R::lemma_ring_operations(copy, res);
        }
        res = copy * res;
        i += 1;
    }
    res
}

} // verus!
