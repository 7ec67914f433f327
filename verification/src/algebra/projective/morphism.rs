use crate::algebra::errors::Error;
use crate::algebra::field::Field;
use crate::algebra::polynomials::homogeneous_polynomial::{
    eval_homogeneous, other_degree, other_dim, polynomials_view, HomogeneousPolynomial,
    HomogeneousView,
};
use crate::algebra::projective::point::{all_zero, ProjectivePoint};
use crate::algebra::ring::clone_is_exact;
use crate::common::sequences::first_index;
use vstd::prelude::*;

verus! {

/// A map between projective spaces, given by one homogeneous polynomial
/// for each coordinate of its values.
pub struct ProjectiveMorphism<K: Field> {
    dim_domain: usize,
    dim_codomain: usize,
    coordinate_functions: Vec<HomogeneousPolynomial<K>>,
}

/// The mathematical content of a [`ProjectiveMorphism`].
pub struct MorphismView<K: Field> {
    pub dim_domain: nat,
    pub dim_codomain: nat,
    pub coordinate_functions: Seq<HomogeneousView<K>>,
}

/// What checking a row of polynomials for one degree and one number of
/// variables gives: that number, or the error of the check that fails first.
pub open spec fn check_all<K: Field>(ps: Seq<HomogeneousView<K>>) -> Result<nat, Error> {
    if ps.len() == 0 {
        Ok(0)
    } else {
        match first_index(ps, other_degree(ps[0].deg)) {
            Some(i) => Err(
                Error::WrongDegree { expected: ps[0].deg as usize, found: ps[i].deg as usize },
            ),
            None => match first_index(ps, other_dim(ps[0].dim)) {
                Some(i) => Err(
                    Error::DimensionMismatch {
                        found: ps[i].dim as usize,
                        expected: ps[0].dim as usize,
                    },
                ),
                None => Ok(ps[0].dim),
            },
        }
    }
}

/// The values of the first `n` polynomials at `x`, or the error of the
/// first polynomial that has no value at `x`.
pub open spec fn values_upto<K: Field>(ps: Seq<HomogeneousView<K>>, x: Seq<K>, n: nat) -> Result<
    Seq<K>,
    Error,
>
    decreases n,
{
    if n == 0 {
        Ok(Seq::empty())
    } else {
        match values_upto(ps, x, (n - 1) as nat) {
            Err(e) => Err(e),
            Ok(values) => match eval_homogeneous(ps[n - 1], x) {
                Err(e) => Err(e),
                Ok(value) => Ok(values.push(value)),
            },
        }
    }
}

/// The value of the morphism `m` at the point with the coordinates `x`.
pub open spec fn eval_morphism<K: Field>(m: MorphismView<K>, x: Seq<K>) -> Result<Seq<K>, Error> {
    if x.len() != m.dim_domain {
        Err(Error::DimensionMismatch { found: x.len() as usize, expected: m.dim_domain as usize })
    } else {
        match values_upto(m.coordinate_functions, x, m.coordinate_functions.len()) {
            Err(e) => Err(e),
            Ok(values) => if all_zero(values) {
                Err(Error::ProjectiveAllZero)
            } else {
                Ok(values)
            },
        }
    }
}

impl<K: Field> View for ProjectiveMorphism<K> {
    type V = MorphismView<K>;

    closed spec fn view(&self) -> MorphismView<K> {
        MorphismView {
            dim_domain: self.dim_domain as nat,
            dim_codomain: self.dim_codomain as nat,
            coordinate_functions: polynomials_view(self.coordinate_functions@),
        }
    }
}

impl<K: Field + Clone> Clone for ProjectiveMorphism<K> {
    fn clone(&self) -> (res: ProjectiveMorphism<K>)
        ensures
            clone_is_exact::<K>() ==> res@ == self@,
    {
        let mut coordinate_functions: Vec<HomogeneousPolynomial<K>> = Vec::new();
        let mut i: usize = 0;
        while i < self.coordinate_functions.len()
            invariant
                i <= self.coordinate_functions.len(),
                coordinate_functions.len() == i,
                clone_is_exact::<K>() ==> forall|j: int|
                    0 <= j < i ==> (#[trigger] coordinate_functions@[j])@
                        == self.coordinate_functions@[j]@,
            decreases self.coordinate_functions.len() - i,
        {
            coordinate_functions.push(self.coordinate_functions[i].clone());
            i += 1;
        }
        let res = ProjectiveMorphism {
            dim_domain: self.dim_domain,
            dim_codomain: self.dim_codomain,
            coordinate_functions,
        };
        proof {
            if clone_is_exact::<K>() {
                assert(res@.coordinate_functions =~= self@.coordinate_functions);
            }
        }
        res
    }
}

/// Once a polynomial has no value at `x`, the row of values has none
/// either.
pub proof fn lemma_values_error<K: Field>(ps: Seq<HomogeneousView<K>>, x: Seq<K>, i: nat, n: nat)
    requires
        i <= n,
        values_upto(ps, x, i) is Err,
    ensures
        values_upto(ps, x, n) == values_upto(ps, x, i),
    decreases n,
{
    if i < n {
        lemma_values_error(ps, x, i, (n - 1) as nat);
    }
}

impl<K: Field> ProjectiveMorphism<K> {
    /// The morphism with the given polynomials, which have to be of one
    /// degree and of one number of variables.
    pub fn new(coordinate_functions: Vec<HomogeneousPolynomial<K>>) -> (res: Result<
        ProjectiveMorphism<K>,
        Error,
    >)
        ensures
            match res {
                Ok(m) => {
                    &&& check_all(polynomials_view(coordinate_functions@)) matches Ok(dim)
                    &&& m@ == (MorphismView {
                        dim_domain: dim,
                        dim_codomain: coordinate_functions@.len(),
                        coordinate_functions: polynomials_view(coordinate_functions@),
                    })
                },
                Err(e) => check_all(polynomials_view(coordinate_functions@)) == Err::<nat, Error>(
                    e,
                ),
            },
    {
        match HomogeneousPolynomial::check_deg(coordinate_functions.as_slice()) {
            Ok(_) => {},
            Err(e) => {
                return Err(e);
            },
        }
        let dim_domain = match HomogeneousPolynomial::check_dim(coordinate_functions.as_slice()) {
            Ok(dim) => dim,
            Err(e) => {
                return Err(e);
            },
        };
        Ok(
            ProjectiveMorphism {
                dim_domain,
                dim_codomain: coordinate_functions.len(),
                coordinate_functions,
            },
        )
    }

    /// The value of the morphism at `pt`.
    pub fn eval(&self, pt: ProjectivePoint<K>) -> (res: Result<ProjectivePoint<K>, Error>) where
        K: Clone,

        requires
            clone_is_exact::<K>(),
        ensures
            match res {
                Ok(value) => eval_morphism(self@, pt@) == Ok::<Seq<K>, Error>(value@),
                Err(e) => eval_morphism(self@, pt@) == Err::<Seq<K>, Error>(e),
            },
    {
        if pt.dim() != self.dim_domain {
            return Err(Error::DimensionMismatch { found: pt.dim(), expected: self.dim_domain });
        }
        let ghost funs = self@.coordinate_functions;
        let mut new_coordinates: Vec<K> = Vec::new();
        let mut i: usize = 0;
        while i < self.coordinate_functions.len()
            invariant
                i <= self.coordinate_functions.len(),
                pt@.len() == self@.dim_domain,
                funs == self@.coordinate_functions,
                funs == polynomials_view(self.coordinate_functions@),
                clone_is_exact::<K>(),
                values_upto(funs, pt@, i as nat) == Ok::<Seq<K>, Error>(new_coordinates@),
            decreases self.coordinate_functions.len() - i,
        {
            assert(funs[i as int] == self.coordinate_functions@[i as int]@);
            let x = pt.clone().as_arr();
            let value = match self.coordinate_functions[i].eval(x) {
                Ok(v) => v,
                Err(e) => {
                    proof {
                        assert(values_upto(funs, pt@, (i + 1) as nat) == Err::<Seq<K>, Error>(e));
                        lemma_values_error(funs, pt@, (i + 1) as nat, funs.len());
                    }
                    return Err(e);
                },
            };
            new_coordinates.push(value);
            i += 1;
        }
        ProjectivePoint::new(new_coordinates)
    }

    /// The polynomial for the coordinate `n` of the values.
    pub fn nth_coordinate(&self, n: usize) -> (res: Result<HomogeneousPolynomial<K>, Error>) where
        K: Clone,

        ensures
            match res {
                Ok(p) => {
                    &&& n < self@.coordinate_functions.len()
                    &&& clone_is_exact::<K>() ==> p@ == self@.coordinate_functions[n as int]
                },
                Err(e) => {
                    &&& n >= self@.coordinate_functions.len()
                    &&& e == (Error::DimensionMismatch {
                        expected: self@.dim_domain as usize,
                        found: n,
                    })
                },
            },
    {
        if n < self.coordinate_functions.len() {
            assert(self@.coordinate_functions[n as int] == self.coordinate_functions@[n as int]@);
            Ok(self.coordinate_functions[n].clone())
        } else {
            Err(Error::DimensionMismatch { expected: self.dim_domain, found: n })
        }
    }
}

} // verus!
