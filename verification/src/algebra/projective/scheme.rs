use crate::algebra::errors::Error;
use crate::algebra::field::Field;
use crate::algebra::group::AbelianGroup;
use crate::algebra::polynomials::homogeneous_polynomial::{
    can_compose_morphism, can_multiply_homogeneous, compose_morphism_spec, eval_homogeneous,
    homogeneous, polynomials_view, HomogeneousPolynomial, HomogeneousView,
};
use crate::algebra::polynomials::polynomial::products;
use crate::algebra::projective::morphism::{check_all, MorphismView, ProjectiveMorphism};
use crate::algebra::projective::point::ProjectivePoint;
use crate::algebra::ring::clone_is_exact;
use vstd::prelude::*;
use vstd::std_specs::cmp::PartialEqSpec;

verus! {

/// A projective scheme: the common zeros of homogeneous polynomials.
pub struct ProjectiveScheme<K: Field> {
    dim: usize,
    ideal_generators: Vec<HomogeneousPolynomial<K>>,
}

/// The mathematical content of a [`ProjectiveScheme`].
pub struct SchemeView<K: Field> {
    pub dim: nat,
    pub ideal_generators: Seq<HomogeneousView<K>>,
}

/// Whether the first `n` polynomials are zero at `x`, or the error of the
/// first polynomial that has no value at `x`; a polynomial that is not zero at
/// `x` ends the search.
pub open spec fn zero_upto<K: Field>(ps: Seq<HomogeneousView<K>>, x: Seq<K>, n: nat) -> Result<
    bool,
    Error,
>
    decreases n,
{
    if n == 0 {
        Ok(true)
    } else {
        match zero_upto(ps, x, (n - 1) as nat) {
            Err(e) => Err(e),
            Ok(false) => Ok(false),
            Ok(true) => match eval_homogeneous(ps[n - 1], x) {
                Err(e) => Err(e),
                Ok(value) => Ok(value.eq_spec(&K::zero_value())),
            },
        }
    }
}

/// Whether the point with the coordinates `x` lies on the scheme `s`.
pub open spec fn contains_spec<K: Field>(s: SchemeView<K>, x: Seq<K>) -> Result<bool, Error> {
    if x.len() != s.dim {
        Err(Error::DimensionMismatch { expected: s.dim as usize, found: x.len() as usize })
    } else {
        zero_upto(s.ideal_generators, x, s.ideal_generators.len())
    }
}

/// The morphism `m` put into the first `n` of the polynomials `ps`, or the
/// error of the first polynomial that `m` cannot be put into.
pub open spec fn compose_each<K: Field>(ps: Seq<HomogeneousView<K>>, m: MorphismView<K>, n: nat)
    -> Result<Seq<HomogeneousView<K>>, Error>
    decreases n,
{
    if n == 0 {
        Ok(Seq::empty())
    } else {
        match compose_each(ps, m, (n - 1) as nat) {
            Err(e) => Err(e),
            Ok(so_far) => match compose_morphism_spec(ps[n - 1], m) {
                Err(e) => Err(e),
                Ok(p) => Ok(so_far.push(p)),
            },
        }
    }
}

/// The scheme of the given polynomials, or the error of the check that
/// fails first.
pub open spec fn scheme_of<K: Field>(ps: Seq<HomogeneousView<K>>) -> Result<SchemeView<K>, Error> {
    match check_all(ps) {
        Err(e) => Err(e),
        Ok(dim) => Ok(SchemeView { dim, ideal_generators: ps }),
    }
}

/// The scheme `s` with the morphism `m` put into each of its polynomials.
pub open spec fn apply_morphism_spec<K: Field>(s: SchemeView<K>, m: MorphismView<K>) -> Result<
    SchemeView<K>,
    Error,
> {
    match compose_each(s.ideal_generators, m, s.ideal_generators.len()) {
        Err(e) => Err(e),
        Ok(ps) => scheme_of(ps),
    }
}

/// The product of two homogeneous polynomials.
pub open spec fn product_of<K: Field>(a: HomogeneousView<K>, b: HomogeneousView<K>)
    -> HomogeneousView<K> {
    homogeneous(products(a.monomials, b.monomials, a.monomials.len()))
}

/// The polynomials `so_far` with the products of `a` and the first `n` of
/// the polynomials `bs` at their end.
pub open spec fn product_row<K: Field>(
    so_far: Seq<HomogeneousView<K>>,
    a: HomogeneousView<K>,
    bs: Seq<HomogeneousView<K>>,
    n: nat,
) -> Seq<HomogeneousView<K>>
    decreases n,
{
    if n == 0 {
        so_far
    } else {
        product_row(so_far, a, bs, (n - 1) as nat).push(product_of(a, bs[n - 1]))
    }
}

/// The products of the first `n` of the polynomials `a_s` with all the
/// polynomials `bs`.
pub open spec fn all_products<K: Field>(
    a_s: Seq<HomogeneousView<K>>,
    bs: Seq<HomogeneousView<K>>,
    n: nat,
) -> Seq<HomogeneousView<K>>
    decreases n,
{
    if n == 0 {
        Seq::empty()
    } else {
        product_row(all_products(a_s, bs, (n - 1) as nat), a_s[n - 1], bs, bs.len())
    }
}

/// Whether the union of the schemes `a` and `b` can be taken on this
/// machine: each polynomial of `a` can be multiplied with each polynomial of
/// `b`, and the products are of one degree and of one number of variables.
pub open spec fn can_unite<K: Field>(a: SchemeView<K>, b: SchemeView<K>) -> bool {
    &&& forall|i: int, j: int|
        0 <= i < a.ideal_generators.len() && 0 <= j < b.ideal_generators.len()
            ==> can_multiply_homogeneous(
            #[trigger] a.ideal_generators[i],
            #[trigger] b.ideal_generators[j],
        )
    &&& scheme_of(
        all_products(a.ideal_generators, b.ideal_generators, a.ideal_generators.len()),
    ) is Ok
}

/// Once the morphism cannot be put into a polynomial, the row has failed.
pub proof fn lemma_compose_each_error<K: Field>(
    ps: Seq<HomogeneousView<K>>,
    m: MorphismView<K>,
    i: nat,
    n: nat,
)
    requires
        i <= n,
        compose_each(ps, m, i) is Err,
    ensures
        compose_each(ps, m, n) == compose_each(ps, m, i),
    decreases n,
{
    if i < n {
        lemma_compose_each_error(ps, m, i, (n - 1) as nat);
    }
}

/// Once the search for a polynomial that is not zero has ended, it stays
/// ended.
pub proof fn lemma_zero_upto_stops<K: Field>(ps: Seq<HomogeneousView<K>>, x: Seq<K>, i: nat, n: nat)
    requires
        i <= n,
        zero_upto(ps, x, i) != Ok::<bool, Error>(true),
    ensures
        zero_upto(ps, x, n) == zero_upto(ps, x, i),
    decreases n,
{
    if i < n {
        lemma_zero_upto_stops(ps, x, i, (n - 1) as nat);
    }
}

impl<K: Field> View for ProjectiveScheme<K> {
    type V = SchemeView<K>;

    closed spec fn view(&self) -> SchemeView<K> {
        SchemeView {
            dim: self.dim as nat,
            ideal_generators: polynomials_view(self.ideal_generators@),
        }
    }
}

impl<K: Field> ProjectiveScheme<K> {
    /// The scheme of the given polynomials, which have to be of one degree
    /// and of one number of variables.
    pub fn new(ideal_generators: Vec<HomogeneousPolynomial<K>>) -> (res: Result<
        ProjectiveScheme<K>,
        Error,
    >)
        ensures
            match res {
                Ok(s) => scheme_of(polynomials_view(ideal_generators@)) == Ok::<
                    SchemeView<K>,
                    Error,
                >(s@),
                Err(e) => scheme_of(polynomials_view(ideal_generators@)) == Err::<
                    SchemeView<K>,
                    Error,
                >(e),
            },
    {
        match HomogeneousPolynomial::check_deg(ideal_generators.as_slice()) {
            Ok(_) => {},
            Err(e) => {
                return Err(e);
            },
        }
        let dim = match HomogeneousPolynomial::check_dim(ideal_generators.as_slice()) {
            Ok(dim) => dim,
            Err(e) => {
                return Err(e);
            },
        };
        Ok(ProjectiveScheme { dim, ideal_generators })
    }

    /// The polynomials of the scheme.
    pub fn ideal_generators(&self) -> (res: Vec<HomogeneousPolynomial<K>>) where K: Clone
        ensures
            res.len() == self@.ideal_generators.len(),
            clone_is_exact::<K>() ==> polynomials_view(res@) == self@.ideal_generators,
    {
        let mut out: Vec<HomogeneousPolynomial<K>> = Vec::new();
        let mut i: usize = 0;
        while i < self.ideal_generators.len()
            invariant
                i <= self.ideal_generators.len(),
                out.len() == i,
                clone_is_exact::<K>() ==> forall|j: int|
                    0 <= j < i ==> (#[trigger] out@[j])@ == self.ideal_generators@[j]@,
            decreases self.ideal_generators.len() - i,
        {
            out.push(self.ideal_generators[i].clone());
            i += 1;
        }
        proof {
            if clone_is_exact::<K>() {
                assert(polynomials_view(out@) =~= self@.ideal_generators);
            }
        }
        out
    }

    /// The number of variables of the polynomials.
    pub fn dim(&self) -> (res: usize)
        ensures
            res == self@.dim,
    {
        self.dim
    }

    /// The scheme with `morphism` put into each of its polynomials.
    pub fn apply_morphism(self, morphism: ProjectiveMorphism<K>) -> (res: Result<
        ProjectiveScheme<K>,
        Error,
    >) where K: Clone
        requires
            clone_is_exact::<K>(),
            forall|i: int|
                0 <= i < self@.ideal_generators.len() ==> can_compose_morphism(
                    #[trigger] self@.ideal_generators[i],
                    morphism@,
                ),
        ensures
            match res {
                Ok(s) => apply_morphism_spec(self@, morphism@) == Ok::<SchemeView<K>, Error>(s@),
                Err(e) => apply_morphism_spec(self@, morphism@) == Err::<SchemeView<K>, Error>(e),
            },
    {
        let ghost all = self@.ideal_generators;
        let mut new_generators: Vec<HomogeneousPolynomial<K>> = Vec::new();
        assert(polynomials_view(new_generators@) =~= Seq::empty());
        for generator in it: self.ideal_generators
            invariant
                polynomials_view(it.seq()) == all,
                all == self@.ideal_generators,
                clone_is_exact::<K>(),
                forall|i: int|
                    0 <= i < all.len() ==> can_compose_morphism(#[trigger] all[i], morphism@),
                compose_each(all, morphism@, it.index() as nat) == Ok::<
                    Seq<HomogeneousView<K>>,
                    Error,
                >(polynomials_view(new_generators@)),
        {
            assert(all[it.index() as int] == generator@);
            let ghost before = polynomials_view(new_generators@);
            let composed = match generator.compose_morphism(&morphism) {
                Ok(p) => p,
                Err(e) => {
                    proof {
                        let next = (it.index() + 1) as nat;
                        assert(compose_each(all, morphism@, next) == Err::<
                            Seq<HomogeneousView<K>>,
                            Error,
                        >(e));
                        lemma_compose_each_error(all, morphism@, next, all.len());
                    }
                    return Err(e);
                },
            };
            new_generators.push(composed);
            assert(polynomials_view(new_generators@) =~= before.push(composed@));
        }
        ProjectiveScheme::new(new_generators)
    }

    /// The union of the two schemes: the scheme of the products of a
    /// polynomial of this scheme and a polynomial of `other`.
    pub fn disjoint_union(self, other: ProjectiveScheme<K>) -> (res: ProjectiveScheme<K>) where
        K: Clone,

        requires
            clone_is_exact::<K>(),
            can_unite(self@, other@),
        ensures
            scheme_of(
                all_products(
                    self@.ideal_generators,
                    other@.ideal_generators,
                    self@.ideal_generators.len(),
                ),
            ) == Ok::<SchemeView<K>, Error>(res@),
    {
        let ghost mine = self@.ideal_generators;
        let ghost theirs = other@.ideal_generators;
        let mut new_polys: Vec<HomogeneousPolynomial<K>> = Vec::new();
        assert(polynomials_view(new_polys@) =~= Seq::empty());
        let mut i: usize = 0;
        while i < self.ideal_generators.len()
            invariant
                i <= self.ideal_generators.len(),
                mine == self@.ideal_generators,
                theirs == other@.ideal_generators,
                mine == polynomials_view(self.ideal_generators@),
                theirs == polynomials_view(other.ideal_generators@),
                clone_is_exact::<K>(),
                can_unite(self@, other@),
                polynomials_view(new_polys@) == all_products(mine, theirs, i as nat),
            decreases self.ideal_generators.len() - i,
        {
            let ghost row_start = polynomials_view(new_polys@);
            let mut j: usize = 0;
            while j < other.ideal_generators.len()
                invariant
                    i < self.ideal_generators.len(),
                    j <= other.ideal_generators.len(),
                    mine == self@.ideal_generators,
                    theirs == other@.ideal_generators,
                    mine == polynomials_view(self.ideal_generators@),
                    theirs == polynomials_view(other.ideal_generators@),
                    clone_is_exact::<K>(),
                    can_unite(self@, other@),
                    row_start == all_products(mine, theirs, i as nat),
                    polynomials_view(new_polys@) == product_row(
                        row_start,
                        mine[i as int],
                        theirs,
                        j as nat,
                    ),
                decreases other.ideal_generators.len() - j,
            {
                assert(mine[i as int] == self.ideal_generators@[i as int]@);
                assert(theirs[j as int] == other.ideal_generators@[j as int]@);
                assert(can_multiply_homogeneous(mine[i as int], theirs[j as int]));
                let f = self.ideal_generators[i].clone();
                let g = other.ideal_generators[j].clone();
                let ghost before = polynomials_view(new_polys@);
                let new_poly = f * g;
                new_polys.push(new_poly);
                assert(polynomials_view(new_polys@) =~= before.push(new_poly@));
                j += 1;
            }
            i += 1;
        }
        let dim = if new_polys.len() == 0 {
            0
        } else {
            assert(polynomials_view(new_polys@)[0] == new_polys@[0]@);
            new_polys[0].dim()
        };
        ProjectiveScheme { dim, ideal_generators: new_polys }
    }

    /// Whether `pt` lies on the scheme: every polynomial is zero at `pt`.
    pub fn contains(&self, pt: &ProjectivePoint<K>) -> (res: Result<bool, Error>) where K: Clone
        requires
            clone_is_exact::<K>(),
        ensures
            res == contains_spec(self@, pt@),
    {
        if pt.dim() != self.dim {
            return Err(Error::DimensionMismatch { expected: self.dim, found: pt.dim() });
        }
        let ghost polys = self@.ideal_generators;
        let zero = K::zero();
        let mut i: usize = 0;
        while i < self.ideal_generators.len()
            invariant
                i <= self.ideal_generators.len(),
                pt@.len() == self@.dim,
                polys == self@.ideal_generators,
                polys == polynomials_view(self.ideal_generators@),
                zero == K::zero_value(),
                clone_is_exact::<K>(),
                zero_upto(polys, pt@, i as nat) == Ok::<bool, Error>(true),
            decreases self.ideal_generators.len() - i,
        {
            assert(polys[i as int] == self.ideal_generators@[i as int]@);
            let x = pt.clone().as_arr();
            let eval_res = match self.ideal_generators[i].eval(x) {
                Ok(v) => v,
                Err(e) => {
                    proof {
                        assert(zero_upto(polys, pt@, (i + 1) as nat) == Err::<bool, Error>(e));
                        lemma_zero_upto_stops(polys, pt@, (i + 1) as nat, polys.len());
                    }
                    return Err(e);
                },
            };
            proof {
                K::lemma_group_operations(eval_res, zero);
            }
            if !(eval_res == zero) {
                proof {
                    assert(zero_upto(polys, pt@, (i + 1) as nat) == Ok::<bool, Error>(false));
                    lemma_zero_upto_stops(polys, pt@, (i + 1) as nat, polys.len());
                }
                return Ok(false);
            }
            i += 1;
        }
        Ok(true)
    }
}

} // verus!
