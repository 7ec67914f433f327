use crate::algebra::errors::Error;
use crate::algebra::group::AbelianGroup;
use crate::algebra::field::Field;
use crate::algebra::polynomials::monomial::{
    can_compose_all, compose_upto, degrees_fit, first_off_degree, monomials_view, Monomial,
    MonomialView,
};
use crate::algebra::polynomials::polynomial::{
    add_upto, can_multiply, clone_monomials, clone_values, eval_sum, lemma_eval_sum_error,
    products, Polynomial,
};
use crate::algebra::projective::morphism::{MorphismView, ProjectiveMorphism};
use crate::algebra::ring::{clone_is_exact, Ring};
use crate::common::sequences::{first_index, lemma_first_index_is, lemma_first_index_none};
use std::ops::Mul;
use vstd::prelude::*;
use vstd::std_specs::ops::{AddSpec, MulSpec};

verus! {

/// A polynomial whose monomials all have the same degree.
pub struct HomogeneousPolynomial<R: Ring> {
    dim: usize,
    deg: usize,
    monomials: Vec<Monomial<R>>,
}

/// The mathematical content of a [`HomogeneousPolynomial`].
pub struct HomogeneousView<R: Ring> {
    pub dim: nat,
    pub deg: nat,
    pub monomials: Seq<MonomialView<R>>,
}

/// The greatest number of variables of a monomial among the first `n`, and
/// 0 for none.
pub open spec fn max_dim<R: Ring>(ms: Seq<MonomialView<R>>, n: nat) -> nat
    decreases n,
{
    if n == 0 {
        0
    } else if max_dim(ms, (n - 1) as nat) >= ms[n - 1].powers.len() {
        max_dim(ms, (n - 1) as nat)
    } else {
        ms[n - 1].powers.len()
    }
}

/// The homogeneous polynomial with the monomials `ms`, which have to be of
/// one degree: its degree is that of its first monomial, and it has as many
/// variables as the monomial with the most variables.
pub open spec fn homogeneous<R: Ring>(ms: Seq<MonomialView<R>>) -> HomogeneousView<R> {
    HomogeneousView {
        dim: max_dim(ms, ms.len()),
        deg: if ms.len() == 0 {
            0
        } else {
            ms[0].deg()
        },
        monomials: ms,
    }
}

/// The mathematical content of a row of homogeneous polynomials.
pub open spec fn polynomials_view<R: Ring>(ps: Seq<HomogeneousPolynomial<R>>) -> Seq<
    HomogeneousView<R>,
> {
    ps.map_values(|p: HomogeneousPolynomial<R>| p@)
}

/// The polynomials whose degree is not `deg`.
pub open spec fn other_degree<R: Ring>(deg: nat) -> spec_fn(HomogeneousView<R>) -> bool {
    |p: HomogeneousView<R>| p.deg != deg
}

/// The polynomials whose number of variables is not `dim`.
pub open spec fn other_dim<R: Ring>(dim: nat) -> spec_fn(HomogeneousView<R>) -> bool {
    |p: HomogeneousView<R>| p.dim != dim
}

/// The value of `p` at `x`, which has to have as many coordinates as `p`
/// has variables: the sum of the values of the monomials.
pub open spec fn eval_homogeneous<R: Ring>(p: HomogeneousView<R>, x: Seq<R>) -> Result<R, Error> {
    if p.dim != x.len() {
        Err(Error::DimensionMismatch { found: x.len() as usize, expected: p.dim as usize })
    } else {
        eval_sum(p.monomials, x, p.monomials.len())
    }
}

/// The morphism `m` put into the first `n` of the monomials `ms`, and the
/// results added up; the first monomial that `m` cannot be put into ends this
/// with its error.
pub open spec fn compose_sum<R: Field>(ms: Seq<MonomialView<R>>, m: MorphismView<R>, n: nat)
    -> Result<Seq<MonomialView<R>>, Error>
    decreases n,
{
    if n == 0 {
        Ok(Seq::empty())
    } else {
        match compose_sum(ms, m, (n - 1) as nat) {
            Err(e) => Err(e),
            Ok(so_far) => match compose_upto(ms[n - 1], m, ms[n - 1].dim()) {
                Err(e) => Err(e),
                Ok(p) => Ok(add_upto(so_far, p, p.len())),
            },
        }
    }
}

/// The homogeneous polynomial with the monomials `ms`, or the error of the
/// first monomial that has another degree than the first.
pub open spec fn checked<R: Ring>(ms: Seq<MonomialView<R>>) -> Result<HomogeneousView<R>, Error> {
    match first_off_degree(ms) {
        Some(i) => Err(
            Error::WrongDegree { expected: ms[0].deg() as usize, found: ms[i].deg() as usize },
        ),
        None => Ok(homogeneous(ms)),
    }
}

/// The morphism `m` put into the polynomial `p`.
pub open spec fn compose_morphism_spec<R: Field>(p: HomogeneousView<R>, m: MorphismView<R>)
    -> Result<HomogeneousView<R>, Error> {
    match compose_sum(p.monomials, m, p.monomials.len()) {
        Err(e) => Err(e),
        Ok(ms) => checked(ms),
    }
}

/// Whether `m` can be put into `p` on this machine: no power times a degree
/// is too great, and the degrees of the monomials that result fit.
pub open spec fn can_compose_morphism<R: Field>(p: HomogeneousView<R>, m: MorphismView<R>) -> bool {
    &&& forall|k: int|
        0 <= k < p.monomials.len() ==> can_compose_all(
            #[trigger] p.monomials[k],
            m.coordinate_functions,
        )
    &&& compose_sum(p.monomials, m, p.monomials.len()) matches Ok(ms) ==> degrees_fit(ms)
}

/// Once the morphism cannot be put into a monomial, the sum has failed.
pub proof fn lemma_compose_sum_error<R: Field>(
    ms: Seq<MonomialView<R>>,
    m: MorphismView<R>,
    i: nat,
    n: nat,
)
    requires
        i <= n,
        compose_sum(ms, m, i) is Err,
    ensures
        compose_sum(ms, m, n) == compose_sum(ms, m, i),
    decreases n,
{
    if i < n {
        lemma_compose_sum_error(ms, m, i, (n - 1) as nat);
    }
}

impl<R: Ring> View for HomogeneousPolynomial<R> {
    type V = HomogeneousView<R>;

    closed spec fn view(&self) -> HomogeneousView<R> {
        HomogeneousView {
            dim: self.dim as nat,
            deg: self.deg as nat,
            monomials: monomials_view(self.monomials@),
        }
    }
}

impl<R: Ring + Clone> Clone for HomogeneousPolynomial<R> {
    fn clone(&self) -> (res: HomogeneousPolynomial<R>)
        ensures
            clone_is_exact::<R>() ==> res@ == self@,
    {
        HomogeneousPolynomial {
            dim: self.dim,
            deg: self.deg,
            monomials: clone_monomials(&self.monomials),
        }
    }
}

impl<R: Ring> HomogeneousPolynomial<R> {
    /// The homogeneous polynomial with the given monomials, which have to be
    /// of one degree.
    pub fn new(monomials: Vec<Monomial<R>>) -> (res: Result<HomogeneousPolynomial<R>, Error>)
        requires
            degrees_fit(monomials_view(monomials@)),
        ensures
            match res {
                Ok(p) => {
                    &&& first_off_degree(monomials_view(monomials@)) is None
                    &&& p@ == homogeneous(monomials_view(monomials@))
                },
                Err(e) => {
                    &&& first_off_degree(monomials_view(monomials@)) matches Some(i)
                    &&& e == (Error::WrongDegree {
                        expected: monomials_view(monomials@)[0].deg() as usize,
                        found: monomials_view(monomials@)[i].deg() as usize,
                    })
                },
            },
    {
        match Monomial::check_deg(monomials.as_slice()) {
            Ok(()) => Ok(HomogeneousPolynomial::assemble(monomials)),
            Err(e) => Err(e),
        }
    }

    /// The homogeneous polynomial with the given monomials, which are taken
    /// to be of one degree.
    fn assemble(monomials: Vec<Monomial<R>>) -> (res: HomogeneousPolynomial<R>)
        requires
            degrees_fit(monomials_view(monomials@)),
        ensures
            res@ == homogeneous(monomials_view(monomials@)),
    {
        let ghost all = monomials_view(monomials@);
        if monomials.len() == 0 {
            return HomogeneousPolynomial { dim: 0, deg: 0, monomials };
        }
        assert(all[0] == monomials@[0]@);
        let deg = monomials[0].deg();
        let mut dim: usize = 0;
        let mut i: usize = 0;
        while i < monomials.len()
            invariant
                i <= monomials.len(),
                all == monomials_view(monomials@),
                dim == max_dim(all, i as nat),
            decreases monomials.len() - i,
        {
            assert(all[i as int] == monomials@[i as int]@);
            let next = monomials[i].dim();
            if next > dim {
                dim = next;
            }
            i += 1;
        }
        HomogeneousPolynomial { dim, deg, monomials }
    }

    /// The degree of the monomials.
    pub fn deg(&self) -> (res: usize)
        ensures
            res == self@.deg,
    {
        self.deg
    }

    /// The number of variables.
    pub fn dim(&self) -> (res: usize)
        ensures
            res == self@.dim,
    {
        self.dim
    }

    /// The monomials of the polynomial.
    pub fn monomials(&self) -> (res: Vec<Monomial<R>>) where R: Clone
        ensures
            clone_is_exact::<R>() ==> monomials_view(res@) == self@.monomials,
            res.len() == self@.monomials.len(),
    {
        clone_monomials(&self.monomials)
    }

    /// The value at `x`: the sum of the values of the monomials.
    pub fn eval(&self, x: Vec<R>) -> (res: Result<R, Error>) where R: Clone
        requires
            clone_is_exact::<R>(),
        ensures
            res == eval_homogeneous(self@, x@),
    {
        if self.dim != x.len() {
            return Err(Error::DimensionMismatch { found: x.len(), expected: self.dim });
        }
        let ghost all = self@.monomials;
        let mut res = R::zero();
        let mut i: usize = 0;
        while i < self.monomials.len()
            invariant
                i <= self.monomials.len(),
                self@.dim == x@.len(),
                all == self@.monomials,
                all == monomials_view(self.monomials@),
                clone_is_exact::<R>(),
                eval_sum(all, x@, i as nat) == Ok::<R, Error>(res),
            decreases self.monomials.len() - i,
        {
            assert(all[i as int] == self.monomials@[i as int]@);
            let point = clone_values(&x);
            let eval_res = match self.monomials[i].eval(point) {
                Ok(value) => value,
                Err(e) => {
                    proof {
                        assert(eval_sum(all, x@, (i + 1) as nat) == Err::<R, Error>(e));
                        lemma_eval_sum_error(all, x@, (i + 1) as nat, all.len());
                    }
                    return Err(e);
                },
            };
            proof {
                R::lemma_group_operations(res, eval_res);
            }
            res = res + eval_res;
            i += 1;
        }
        Ok(res)
    }

    /// Puts the morphism `morphism` into this polynomial: it is put into
    /// each monomial, and the results are added up.
    pub fn compose_morphism(self, morphism: &ProjectiveMorphism<R>) -> (res: Result<
        HomogeneousPolynomial<R>,
        Error,
    >) where R: Field + Clone
        requires
            clone_is_exact::<R>(),
            can_compose_morphism(self@, morphism@),
        ensures
            match res {
                Ok(p) => compose_morphism_spec(self@, morphism@) == Ok::<HomogeneousView<R>, Error>(
                    p@,
                ),
                Err(e) => compose_morphism_spec(self@, morphism@) == Err::<
                    HomogeneousView<R>,
                    Error,
                >(e),
            },
    {
        let ghost all = self@.monomials;
        let empty: Vec<Monomial<R>> = Vec::new();
        let mut res = Polynomial::new(empty);
        assert(res@ =~= Seq::empty());
        for mono in it: self.monomials
            invariant
                monomials_view(it.seq()) == all,
                all == self@.monomials,
                clone_is_exact::<R>(),
                can_compose_morphism(self@, morphism@),
                compose_sum(all, morphism@, it.index() as nat) == Ok::<
                    Seq<MonomialView<R>>,
                    Error,
                >(res@),
        {
            assert(all[it.index() as int] == mono@);
            let new_poly = match mono.compose_morphism(morphism.clone()) {
                Ok(p) => p,
                Err(e) => {
                    proof {
                        let next = (it.index() + 1) as nat;
                        assert(compose_sum(all, morphism@, next) == Err::<
                            Seq<MonomialView<R>>,
                            Error,
                        >(e));
                        lemma_compose_sum_error(all, morphism@, next, all.len());
                    }
                    return Err(e);
                },
            };
            res = res + new_poly;
        }
        HomogeneousPolynomial::new(res.into_monomials())
    }

    /// Checks that all the polynomials have the degree of the first, and
    /// gives that degree, or 0 for no polynomials.
    pub fn check_deg(polys: &[HomogeneousPolynomial<R>]) -> (res: Result<usize, Error>)
        ensures
            match res {
                Ok(deg) => if polys@.len() == 0 {
                    deg == 0
                } else {
                    &&& deg == polynomials_view(polys@)[0].deg
                    &&& first_index(polynomials_view(polys@), other_degree(deg as nat)) is None
                },
                Err(e) => {
                    &&& polys@.len() > 0
                    &&& first_index(
                        polynomials_view(polys@),
                        other_degree(polynomials_view(polys@)[0].deg),
                    ) matches Some(i)
                    &&& e == (Error::WrongDegree {
                        expected: polynomials_view(polys@)[0].deg as usize,
                        found: polynomials_view(polys@)[i].deg as usize,
                    })
                },
            },
    {
        if polys.len() == 0 {
            return Ok(0);
        }
        let ghost all = polynomials_view(polys@);
        assert(all[0] == polys@[0]@);
        let deg = polys[0].deg();
        let ghost p = other_degree::<R>(deg as nat);
        let mut i: usize = 0;
        while i < polys.len()
            invariant
                i <= polys.len(),
                all == polynomials_view(polys@),
                deg == all[0].deg,
                p == other_degree::<R>(deg as nat),
                forall|j: int| 0 <= j < i ==> !p(all[j]),
            decreases polys.len() - i,
        {
            assert(all[i as int] == polys@[i as int]@);
            if polys[i].deg != deg {
                proof {
                    lemma_first_index_is(all, p, i as int);
                }
                return Err(Error::WrongDegree { expected: deg, found: polys[i].deg() });
            }
            i += 1;
        }
        proof {
            lemma_first_index_none(all, p);
        }
        Ok(deg)
    }

    /// Checks that all the polynomials have the number of variables of the
    /// first, and gives that number, or 0 for no polynomials.
    pub fn check_dim(polys: &[HomogeneousPolynomial<R>]) -> (res: Result<usize, Error>)
        ensures
            match res {
                Ok(dim) => if polys@.len() == 0 {
                    dim == 0
                } else {
                    &&& dim == polynomials_view(polys@)[0].dim
                    &&& first_index(polynomials_view(polys@), other_dim(dim as nat)) is None
                },
                Err(e) => {
                    &&& polys@.len() > 0
                    &&& first_index(
                        polynomials_view(polys@),
                        other_dim(polynomials_view(polys@)[0].dim),
                    ) matches Some(i)
                    &&& e == (Error::DimensionMismatch {
                        found: polynomials_view(polys@)[i].dim as usize,
                        expected: polynomials_view(polys@)[0].dim as usize,
                    })
                },
            },
    {
        if polys.len() == 0 {
            return Ok(0);
        }
        let ghost all = polynomials_view(polys@);
        assert(all[0] == polys@[0]@);
        let dim = polys[0].dim();
        let ghost p = other_dim::<R>(dim as nat);
        let mut i: usize = 0;
        while i < polys.len()
            invariant
                i <= polys.len(),
                all == polynomials_view(polys@),
                dim == all[0].dim,
                p == other_dim::<R>(dim as nat),
                forall|j: int| 0 <= j < i ==> !p(all[j]),
            decreases polys.len() - i,
        {
            assert(all[i as int] == polys@[i as int]@);
            if polys[i].dim() != dim {
                proof {
                    lemma_first_index_is(all, p, i as int);
                }
                return Err(Error::DimensionMismatch { found: polys[i].dim(), expected: dim });
            }
            i += 1;
        }
        proof {
            lemma_first_index_none(all, p);
        }
        Ok(dim)
    }
}

/// Whether `a` and `b` can be multiplied on this machine to a homogeneous
/// polynomial: every monomial of `a` can be multiplied with every monomial of
/// `b`, and the products are of one degree, which fits the machine.
pub open spec fn can_multiply_homogeneous<R: Ring>(a: HomogeneousView<R>, b: HomogeneousView<R>)
    -> bool {
    let all = products(a.monomials, b.monomials, a.monomials.len());
    &&& can_multiply(a.monomials, b.monomials)
    &&& degrees_fit(all)
    &&& first_off_degree(all) is None
}

impl<R: Ring + Clone> Mul for HomogeneousPolynomial<R> {
    type Output = HomogeneousPolynomial<R>;

    fn mul(self, other: HomogeneousPolynomial<R>) -> (res: HomogeneousPolynomial<R>)
        ensures
            res@ == homogeneous(
                products(self@.monomials, other@.monomials, self@.monomials.len()),
            ),
    {
        let left = Polynomial::new(self.monomials);
        let right = Polynomial::new(other.monomials);
        let product = left * right;
        HomogeneousPolynomial::assemble(product.into_monomials())
    }
}

impl<R: Ring + Clone> vstd::std_specs::ops::MulSpecImpl for HomogeneousPolynomial<R> {
    open spec fn obeys_mul_spec() -> bool {
        false
    }

    open spec fn mul_req(self, other: HomogeneousPolynomial<R>) -> bool {
        clone_is_exact::<R>() && can_multiply_homogeneous(self@, other@)
    }

    open spec fn mul_spec(self, other: HomogeneousPolynomial<R>) -> HomogeneousPolynomial<R> {
        arbitrary()
    }
}

impl<R: Ring> From<HomogeneousPolynomial<R>> for Polynomial<R> {
    fn from(homo: HomogeneousPolynomial<R>) -> (res: Polynomial<R>)
        ensures
            res@ == homo@.monomials,
    {
        Polynomial::new(homo.monomials)
    }
}

impl<R: Ring> vstd::std_specs::convert::FromSpecImpl<HomogeneousPolynomial<R>> for Polynomial<R> {
    open spec fn obeys_from_spec() -> bool {
        false
    }

    open spec fn from_spec(homo: HomogeneousPolynomial<R>) -> Polynomial<R> {
        arbitrary()
    }
}

} // verus!
