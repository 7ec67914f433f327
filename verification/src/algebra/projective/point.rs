use crate::algebra::errors::Error;
use crate::algebra::field::Field;
use crate::algebra::group::AbelianGroup;
use crate::algebra::polynomials::polynomial::clone_values;
use crate::algebra::ring::clone_is_exact;
use vstd::prelude::*;
use vstd::std_specs::cmp::PartialEqSpec;
use vstd::std_specs::ops::DivSpec;

verus! {

/// A point of a projective space: coordinates that are not all zero.
pub struct ProjectivePoint<K: Field> {
    dim: usize,
    coordinates: Vec<K>,
}

/// Whether every coordinate is equal to zero.
pub open spec fn all_zero<K: Field>(xs: Seq<K>) -> bool {
    forall|i: int| 0 <= i < xs.len() ==> (#[trigger] xs[i]).eq_spec(&K::zero_value())
}

impl<K: Field> View for ProjectivePoint<K> {
    type V = Seq<K>;

    closed spec fn view(&self) -> Seq<K> {
        self.coordinates@
    }
}

impl<K: Field + Clone> Clone for ProjectivePoint<K> {
    fn clone(&self) -> (res: ProjectivePoint<K>)
        ensures
            clone_is_exact::<K>() ==> res@ == self@,
            res@.len() == self@.len(),
    {
        proof {
            use_type_invariant(self);
        }
        ProjectivePoint { dim: self.dim, coordinates: clone_values(&self.coordinates) }
    }
}

/// Whether the quotients of the coordinates of `a` by those of `b`, one
/// for each of the first `n` coordinates, are all equal.
pub open spec fn same_ratio<K: Field>(a: Seq<K>, b: Seq<K>, n: nat) -> bool
    decreases n,
{
    if n <= 1 {
        true
    } else {
        &&& same_ratio(a, b, (n - 1) as nat)
        &&& a[n - 2].div_spec(b[n - 2]).eq_spec(&a[n - 1].div_spec(b[n - 1]))
    }
}

/// Whether `a` and `b` are coordinates of one point: they are equally many,
/// and the quotient of a coordinate of `a` by the same coordinate of `b` is
/// the same for every coordinate.
pub open spec fn same_point<K: Field>(a: Seq<K>, b: Seq<K>) -> bool {
    a.len() == b.len() && same_ratio(a, b, a.len())
}

impl<K: Field + Clone> PartialEq for ProjectivePoint<K> {
    fn eq(&self, other: &ProjectivePoint<K>) -> (res: bool) {
        proof {
            use_type_invariant(self);
            use_type_invariant(other);
        }
        if self.dim != other.dim {
            return false;
        }
        if self.dim == 0 {
            return true;
        }
        let mut same = true;
        let mut previous = {
            let x = self.coordinates[0].clone();
            let y = other.coordinates[0].clone();
            proof {
                K::lemma_field_operations(x, y);
                assert(cloned::<K>(self.coordinates@[0], x));
                assert(cloned::<K>(other.coordinates@[0], y));
            }
            x / y
        };
        let mut i: usize = 1;
        while i < self.coordinates.len()
            invariant
                1 <= i <= self.coordinates.len(),
                self.coordinates.len() == other.coordinates.len(),
                clone_is_exact::<K>() ==> previous == self@[i - 1].div_spec(other@[i - 1]),
                clone_is_exact::<K>() ==> same == same_ratio(self@, other@, i as nat),
            decreases self.coordinates.len() - i,
        {
            let x = self.coordinates[i].clone();
            let y = other.coordinates[i].clone();
            proof {
                K::lemma_field_operations(x, y);
                assert(cloned::<K>(self.coordinates@[i as int], x));
                assert(cloned::<K>(other.coordinates@[i as int], y));
            }
            let next = x / y;
            proof {
                K::lemma_group_operations(previous, next);
            }
            if !(previous == next) {
                same = false;
            }
            previous = next;
            i += 1;
        }
        same
    }
}

impl<K: Field + Clone> vstd::std_specs::cmp::PartialEqSpecImpl for ProjectivePoint<K> {
    open spec fn obeys_eq_spec() -> bool {
        clone_is_exact::<K>()
    }

    open spec fn eq_spec(&self, other: &ProjectivePoint<K>) -> bool {
        same_point(self@, other@)
    }
}

impl<K: Field> ProjectivePoint<K> {
    #[verifier::type_invariant]
    spec fn inv(self) -> bool {
        self.dim == self.coordinates@.len()
    }

    /// The point with the given coordinates, which must not all be zero.
    pub fn new(coordinates: Vec<K>) -> (res: Result<ProjectivePoint<K>, Error>)
        ensures
            match res {
                Ok(p) => !all_zero(coordinates@) && p@ == coordinates@,
                Err(e) => all_zero(coordinates@) && e == Error::ProjectiveAllZero,
            },
    {
        let zero = K::zero();
        let mut i: usize = 0;
        while i < coordinates.len()
            invariant
                i <= coordinates.len(),
                zero == K::zero_value(),
                forall|j: int| 0 <= j < i ==> (#[trigger] coordinates@[j]).eq_spec(&K::zero_value()),
            decreases coordinates.len() - i,
        {
            proof {
                K::lemma_group_operations(coordinates@[i as int], zero);
            }
            if !(coordinates[i] == zero) {
                return Ok(ProjectivePoint { dim: coordinates.len(), coordinates });
            }
            i += 1;
        }
        Err(Error::ProjectiveAllZero)
    }

    /// The number of coordinates.
    pub fn dim(&self) -> (res: usize)
        ensures
            res == self@.len(),
    {
        proof {
            use_type_invariant(self);
        }
        self.dim
    }

    /// The coordinates.
    pub fn as_arr(self) -> (res: Vec<K>)
        ensures
            res@ == self@,
    {
        self.coordinates
    }
}

} // verus!
