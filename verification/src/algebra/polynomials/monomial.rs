use crate::algebra::errors::Error;
use crate::algebra::group::AbelianGroup;
use crate::algebra::field::Field;
use crate::algebra::polynomials::homogeneous_polynomial::HomogeneousView;
use crate::algebra::polynomials::polynomial::{add_monomial, lemma_add_one, Polynomial};
use crate::algebra::projective::morphism::{MorphismView, ProjectiveMorphism};
use crate::algebra::ring::{clone_is_exact, pow, power, Ring};
use crate::common::sequences::{first_index, lemma_first_index_is, lemma_first_index_none};
use std::ops::{Add, Mul, Neg};
use vstd::prelude::*;
use vstd::std_specs::ops::{AddSpec, MulSpec, NegSpec};

verus! {

/// A coefficient with a power for each variable.
pub struct Monomial<R: Ring> {
    pub coefficient: R,
    powers: Vec<usize>,
}

/// The mathematical content of a [`Monomial`]: its coefficient and the power
/// of each variable.
pub struct MonomialView<R> {
    pub coefficient: R,
    pub powers: Seq<usize>,
}

/// The sum of the numbers in `s`.
pub open spec fn sum(s: Seq<usize>) -> nat
    decreases s.len(),
{
    if s.len() == 0 {
        0
    } else {
        sum(s.drop_last()) + s.last() as nat
    }
}

/// The value of the first `n` variables of a monomial at `x`: the
/// coefficient, and added to it the power of each of the first `n`
/// coordinates of `x`.
pub open spec fn eval_upto<R: Ring>(m: MonomialView<R>, x: Seq<R>, n: nat) -> R
    decreases n,
{
    if n == 0 {
        m.coefficient
    } else {
        eval_upto(m, x, (n - 1) as nat).add_spec(power(x[n - 1], m.powers[n - 1] as nat))
    }
}

impl<R: Ring> MonomialView<R> {
    /// The degree: the sum of the powers.
    pub open spec fn deg(self) -> nat {
        sum(self.powers)
    }

    /// The number of variables.
    pub open spec fn dim(self) -> nat {
        self.powers.len()
    }

    /// The value at `x`.
    pub open spec fn eval(self, x: Seq<R>) -> R {
        eval_upto(self, x, self.powers.len())
    }

    /// The monomial with the negative coefficient.
    pub open spec fn negative(self) -> MonomialView<R> {
        MonomialView { coefficient: self.coefficient.neg_spec(), powers: self.powers }
    }

    /// The product with `other`: the product of the coefficients, and for
    /// each variable the sum of its powers.
    pub open spec fn times(self, other: MonomialView<R>) -> MonomialView<R> {
        MonomialView {
            coefficient: self.coefficient.mul_spec(other.coefficient),
            powers: Seq::new(
                self.powers.len(),
                |i: int| (self.powers[i] + other.powers[i]) as usize,
            ),
        }
    }

    /// `other` put into this monomial: every power of `other` is multiplied
    /// by the degree of this monomial, and the coefficient of `other` is
    /// raised to the number of variables of this monomial.
    pub open spec fn compose(self, other: MonomialView<R>) -> MonomialView<R> {
        MonomialView {
            coefficient: self.coefficient.mul_spec(power(other.coefficient, self.dim())),
            powers: Seq::new(other.powers.len(), |i: int| (other.powers[i] * self.deg()) as usize),
        }
    }
}

/// The monomials with the powers `powers`.
pub open spec fn with_powers<R: Ring>(powers: Seq<usize>) -> spec_fn(MonomialView<R>) -> bool {
    |m: MonomialView<R>| m.powers == powers
}

/// The monomial with the powers of `a` and the sum of the coefficients of
/// `a` and `b`.
pub open spec fn sum_of<R: Ring>(a: MonomialView<R>, b: MonomialView<R>) -> MonomialView<R> {
    MonomialView { coefficient: a.coefficient.add_spec(b.coefficient), powers: a.powers }
}

/// Whether `inner` can be put into `outer`: no power of `inner` times the
/// degree of `outer` is too great for the machine.
pub open spec fn can_compose<R: Ring>(outer: MonomialView<R>, inner: MonomialView<R>) -> bool {
    forall|i: int|
        0 <= i < inner.powers.len() ==> (#[trigger] inner.powers[i]) * outer.deg() <= usize::MAX
}

/// Whether every monomial of the first `outer.dim()` polynomials of `funs`
/// can be put into `outer`.
pub open spec fn can_compose_all<R: Ring>(outer: MonomialView<R>, funs: Seq<HomogeneousView<R>>)
    -> bool {
    &&& outer.deg() <= usize::MAX
    &&& forall|j: int, k: int|
        0 <= j < funs.len() && 0 <= k < funs[j].monomials.len() ==> can_compose(
            outer,
            #[trigger] funs[j].monomials[k],
        )
}

/// The monomials `so_far` with the first `n` monomials of `ms`, each put
/// into `outer`, added one after the other.
pub open spec fn compose_row<R: Ring>(
    so_far: Seq<MonomialView<R>>,
    outer: MonomialView<R>,
    ms: Seq<MonomialView<R>>,
    n: nat,
) -> Seq<MonomialView<R>>
    decreases n,
{
    if n == 0 {
        so_far
    } else {
        add_monomial(compose_row(so_far, outer, ms, (n - 1) as nat), outer.compose(ms[n - 1]))
    }
}

/// The morphism `m` put into `outer`, as far as the first `n` variables of
/// `outer` go: for each of them the monomials of the polynomial for that
/// coordinate are put into `outer` and added up. A variable without a
/// polynomial ends this with an error.
pub open spec fn compose_upto<R: Field>(outer: MonomialView<R>, m: MorphismView<R>, n: nat) -> Result<
    Seq<MonomialView<R>>,
    Error,
>
    decreases n,
{
    if n == 0 {
        Ok(Seq::empty())
    } else {
        match compose_upto(outer, m, (n - 1) as nat) {
            Err(e) => Err(e),
            Ok(so_far) => if n - 1 >= m.coordinate_functions.len() {
                Err(
                    Error::DimensionMismatch {
                        expected: m.dim_domain as usize,
                        found: (n - 1) as usize,
                    },
                )
            } else {
                Ok(
                    compose_row(
                        so_far,
                        outer,
                        m.coordinate_functions[n - 1].monomials,
                        m.coordinate_functions[n - 1].monomials.len(),
                    ),
                )
            },
        }
    }
}

/// Once a variable has no polynomial, the composition has failed.
pub proof fn lemma_compose_error<R: Field>(outer: MonomialView<R>, m: MorphismView<R>, i: nat, n: nat)
    requires
        i <= n,
        compose_upto(outer, m, i) is Err,
    ensures
        compose_upto(outer, m, n) == compose_upto(outer, m, i),
    decreases n,
{
    if i < n {
        lemma_compose_error(outer, m, i, (n - 1) as nat);
    }
}

/// The monomials whose degree is not `deg`.
pub open spec fn off_degree<R: Ring>(deg: nat) -> spec_fn(MonomialView<R>) -> bool {
    |m: MonomialView<R>| m.deg() != deg
}

/// The mathematical content of a row of monomials.
pub open spec fn monomials_view<R: Ring>(ms: Seq<Monomial<R>>) -> Seq<MonomialView<R>> {
    ms.map_values(|m: Monomial<R>| m@)
}

/// The first monomial whose degree differs from the degree of the first
/// monomial, if there is one.
pub open spec fn first_off_degree<R: Ring>(ms: Seq<MonomialView<R>>) -> Option<int> {
    if ms.len() == 0 {
        None
    } else {
        first_index(ms, off_degree(ms[0].deg()))
    }
}

/// Whether the degree of each monomial fits the machine.
pub open spec fn degrees_fit<R: Ring>(ms: Seq<MonomialView<R>>) -> bool {
    forall|i: int| 0 <= i < ms.len() ==> (#[trigger] ms[i]).deg() <= usize::MAX
}

impl<R: Ring> View for Monomial<R> {
    type V = MonomialView<R>;

    closed spec fn view(&self) -> MonomialView<R> {
        MonomialView { coefficient: self.coefficient, powers: self.powers@ }
    }
}

impl<R: Ring + Clone> Clone for Monomial<R> {
    fn clone(&self) -> (res: Monomial<R>)
        ensures
            clone_is_exact::<R>() ==> res@ == self@,
    {
        let coefficient = self.coefficient.clone();
        assert(cloned::<R>(self.coefficient, coefficient));
        Monomial { coefficient, powers: self.powers.clone() }
    }
}

impl<R: Ring> Monomial<R> {
    /// The monomial with the given coefficient and powers.
    pub fn new(coefficient: R, powers: Vec<usize>) -> (res: Monomial<R>)
        ensures
            res@ == (MonomialView { coefficient, powers: powers@ }),
    {
        Monomial { coefficient, powers }
    }

    /// The power of each variable.
    pub fn powers(&self) -> (res: Vec<usize>)
        ensures
            res@ == self@.powers,
    {
        self.powers.clone()
    }

    /// The number of variables.
    pub fn dim(&self) -> (res: usize)
        ensures
            res == self@.dim(),
    {
        self.powers.len()
    }

    /// The value at `x`: the coefficient, and added to it the power of each
    /// coordinate of `x`.
    pub fn eval(&self, x: Vec<R>) -> (res: Result<R, Error>) where R: Clone
        requires
            clone_is_exact::<R>(),
        ensures
            match res {
                Ok(value) => x.len() == self@.dim() && value == self@.eval(x@),
                Err(e) => x.len() != self@.dim() && e == (Error::DimensionMismatch {
                    found: x.len(),
                    expected: self@.dim() as usize,
                }),
            },
    {
        if self.powers.len() != x.len() {
            return Err(Error::DimensionMismatch { found: x.len(), expected: self.powers.len() });
        }
        let mut res = self.coefficient.clone();
        assert(cloned::<R>(self.coefficient, res));
        let mut i: usize = 0;
        while i < self.powers.len()
            invariant
                i <= self.powers.len(),
                self.powers.len() == x.len(),
                clone_is_exact::<R>(),
                res == eval_upto(self@, x@, i as nat),
            decreases self.powers.len() - i,
        {
            let next_x = x[i].clone();
            assert(cloned::<R>(x@[i as int], next_x));
            let x_pow = pow(next_x, self.powers[i]);
            proof {
                R::lemma_group_operations(res, x_pow);
            }
            res = res + x_pow;
            i += 1;
        }
        Ok(res)
    }

    /// Whether the two monomials have the same powers.
    pub fn same_powers(&self, other: &Monomial<R>) -> (res: bool)
        ensures
            res == (self@.powers == other@.powers),
    {
        if self.powers.len() != other.powers.len() {
            return false;
        }
        let mut i: usize = 0;
        while i < self.powers.len()
            invariant
                i <= self.powers.len(),
                self.powers.len() == other.powers.len(),
                forall|j: int| 0 <= j < i ==> self.powers@[j] == other.powers@[j],
            decreases self.powers.len() - i,
        {
            if self.powers[i] != other.powers[i] {
                return false;
            }
            i += 1;
        }
        assert(self.powers@ =~= other.powers@);
        true
    }

    /// This monomial with the coefficient of `other` added to its own.
    pub fn plus_coefficient(self, other: &Monomial<R>) -> (res: Monomial<R>) where R: Clone
        requires
            clone_is_exact::<R>(),
        ensures
            res@ == sum_of(self@, other@),
    {
        let seen = other.coefficient.clone();
        assert(cloned::<R>(other.coefficient, seen));
        proof {
            R::lemma_group_operations(self.coefficient, seen);
        }
        Monomial { coefficient: self.coefficient + seen, powers: self.powers }
    }

    /// The degree: the sum of the powers.
    pub fn deg(&self) -> (res: usize)
        requires
            self@.deg() <= usize::MAX,
        ensures
            res == self@.deg(),
    {
        let mut total: usize = 0;
        let mut i: usize = 0;
        while i < self.powers.len()
            invariant
                i <= self.powers.len(),
                total == sum(self.powers@.take(i as int)),
                sum(self.powers@) <= usize::MAX,
            decreases self.powers.len() - i,
        {
            proof {
                assert(self.powers@.take(i as int + 1).drop_last() =~= self.powers@.take(i as int));
                lemma_sum_prefix(self.powers@, i as int + 1);
            }
            total = total + self.powers[i];
            i += 1;
        }
        assert(self.powers@.take(i as int) =~= self.powers@);
        total
    }

    /// Puts `other` into this monomial.
    pub fn compose_monomial(self, other: Monomial<R>) -> (res: Monomial<R>) where R: Clone
        requires
            clone_is_exact::<R>(),
            self@.deg() <= usize::MAX,
            forall|i: int|
                0 <= i < other@.powers.len() ==> (#[trigger] other@.powers[i]) * self@.deg()
                    <= usize::MAX,
        ensures
            res@ == self@.compose(other@),
    {
        let deg = self.deg();
        let mut new_powers: Vec<usize> = Vec::new();
        let mut i: usize = 0;
        while i < other.powers.len()
            invariant
                i <= other.powers.len(),
                deg == self@.deg(),
                forall|j: int|
                    0 <= j < other@.powers.len() ==> (#[trigger] other@.powers[j]) * self@.deg()
                        <= usize::MAX,
                new_powers@.len() == i,
                forall|j: int| 0 <= j < i ==> new_powers@[j] == other@.powers[j] * deg,
            decreases other.powers.len() - i,
        {
            assert(other@.powers[i as int] * self@.deg() <= usize::MAX);
            new_powers.push(other.powers[i] * deg);
            i += 1;
        }
        let raised = pow(other.coefficient, self.powers.len());
        proof {
            R::lemma_ring_operations(self.coefficient, raised);
            assert(new_powers@ =~= self@.compose(other@).powers);
        }
        Monomial::new(self.coefficient * raised, new_powers)
    }

    /// Puts the morphism `morphism` into this monomial: for each variable of
    /// this monomial, the monomials of the polynomial for that coordinate are
    /// put into this monomial and added up.
    pub fn compose_morphism(self, morphism: ProjectiveMorphism<R>) -> (res: Result<
        Polynomial<R>,
        Error,
    >) where R: Field + Clone
        requires
            clone_is_exact::<R>(),
            can_compose_all(self@, morphism@.coordinate_functions),
        ensures
            match res {
                Ok(p) => compose_upto(self@, morphism@, self@.dim()) == Ok::<
                    Seq<MonomialView<R>>,
                    Error,
                >(p@),
                Err(e) => compose_upto(self@, morphism@, self@.dim()) == Err::<
                    Seq<MonomialView<R>>,
                    Error,
                >(e),
            },
    {
        let empty: Vec<Monomial<R>> = Vec::new();
        let mut res = Polynomial::new(empty);
        assert(res@ =~= Seq::empty());
        let dim = self.dim();
        let mut j: usize = 0;
        while j < dim
            invariant
                j <= dim,
                dim == self@.dim(),
                clone_is_exact::<R>(),
                can_compose_all(self@, morphism@.coordinate_functions),
                compose_upto(self@, morphism@, j as nat) == Ok::<Seq<MonomialView<R>>, Error>(
                    res@,
                ),
            decreases dim - j,
        {
            let nth_coordinate = match morphism.nth_coordinate(j) {
                Ok(p) => p,
                Err(e) => {
                    proof {
                        assert(compose_upto(self@, morphism@, (j + 1) as nat) == Err::<
                            Seq<MonomialView<R>>,
                            Error,
                        >(e));
                        lemma_compose_error(self@, morphism@, (j + 1) as nat, self@.dim());
                    }
                    return Err(e);
                },
            };
            let monos = nth_coordinate.monomials();
            let ghost row = morphism@.coordinate_functions[j as int].monomials;
            let ghost start = res@;
            let mut k: usize = 0;
            while k < monos.len()
                invariant
                    k <= monos.len(),
                    j < morphism@.coordinate_functions.len(),
                    row == morphism@.coordinate_functions[j as int].monomials,
                    row == monomials_view(monos@),
                    clone_is_exact::<R>(),
                    can_compose_all(self@, morphism@.coordinate_functions),
                    res@ == compose_row(start, self@, row, k as nat),
                decreases monos.len() - k,
            {
                assert(row[k as int] == monos@[k as int]@);
                assert(can_compose(self@, row[k as int]));
                let inner = monos[k].clone();
                let composed = self.clone().compose_monomial(inner);
                proof {
                    lemma_add_one(res@, composed@);
                }
                res = res + Polynomial::from(composed);
                k += 1;
            }
            j += 1;
        }
        Ok(res)
    }

    /// Checks that all the monomials have the degree of the first.
    pub fn check_deg(monos: &[Monomial<R>]) -> (res: Result<(), Error>)
        requires
            degrees_fit(monomials_view(monos@)),
        ensures
            match res {
                Ok(()) => first_off_degree(monomials_view(monos@)) is None,
                Err(e) => {
                    &&& first_off_degree(monomials_view(monos@)) matches Some(i)
                    &&& e == (Error::WrongDegree {
                        expected: monomials_view(monos@)[0].deg() as usize,
                        found: monomials_view(monos@)[i].deg() as usize,
                    })
                },
            },
    {
        if monos.len() == 0 {
            return Ok(());
        }
        let ghost all = monomials_view(monos@);
        assert(all[0] == monos@[0]@);
        let deg = monos[0].deg();
        let ghost p = off_degree::<R>(deg as nat);
        let mut i: usize = 0;
        while i < monos.len()
            invariant
                i <= monos.len(),
                all == monomials_view(monos@),
                p == off_degree::<R>(deg as nat),
                deg == all[0].deg(),
                degrees_fit(all),
                forall|j: int| 0 <= j < i ==> !p(all[j]),
            decreases monos.len() - i,
        {
            assert(all[i as int] == monos@[i as int]@);
            let found = monos[i].deg();
            if found != deg {
                proof {
                    lemma_first_index_is(all, p, i as int);
                }
                return Err(Error::WrongDegree { expected: deg, found });
            }
            i += 1;
        }
        proof {
            lemma_first_index_none(all, p);
        }
        Ok(())
    }
}

impl<R: Ring> Neg for Monomial<R> {
    type Output = Monomial<R>;

    fn neg(self) -> (res: Monomial<R>)
        ensures
            res@ == self@.negative(),
    {
        proof {
            R::lemma_group_operations(self.coefficient, self.coefficient);
        }
        Monomial::new(self.coefficient.neg(), self.powers)
    }
}

impl<R: Ring> vstd::std_specs::ops::NegSpecImpl for Monomial<R> {
    open spec fn obeys_neg_spec() -> bool {
        false
    }

    open spec fn neg_req(self) -> bool {
        true
    }

    open spec fn neg_spec(self) -> Monomial<R> {
        self
    }
}

impl<R: Ring> Add for Monomial<R> {
    type Output = Polynomial<R>;

    fn add(self, other: Monomial<R>) -> (res: Polynomial<R>)
        ensures
            res@ == if self@.powers == other@.powers {
                seq![sum_of(self@, other@)]
            } else {
                seq![self@, other@]
            },
    {
        proof {
            R::lemma_group_operations(self.coefficient, other.coefficient);
        }
        let mut monomials: Vec<Monomial<R>> = Vec::new();
        if self.same_powers(&other) {
            let ghost expected = sum_of(self@, other@);
            monomials.push(
                Monomial { coefficient: self.coefficient + other.coefficient, powers: self.powers },
            );
            assert(monomials_view(monomials@) =~= seq![expected]);
        } else {
            let ghost a = self@;
            let ghost b = other@;
            monomials.push(self);
            monomials.push(other);
            assert(monomials_view(monomials@) =~= seq![a, b]);
        }
        Polynomial::new(monomials)
    }
}

impl<R: Ring> vstd::std_specs::ops::AddSpecImpl for Monomial<R> {
    open spec fn obeys_add_spec() -> bool {
        false
    }

    open spec fn add_req(self, other: Monomial<R>) -> bool {
        true
    }

    open spec fn add_spec(self, other: Monomial<R>) -> Polynomial<R> {
        arbitrary()
    }
}

impl<R: Ring> Mul for Monomial<R> {
    type Output = Monomial<R>;

    fn mul(self, other: Monomial<R>) -> (res: Monomial<R>)
        ensures
            res@ == self@.times(other@),
    {
        proof {
            R::lemma_ring_operations(self.coefficient, other.coefficient);
        }
        let mut new_powers: Vec<usize> = Vec::new();
        let mut i: usize = 0;
        while i < self.powers.len()
            invariant
                i <= self.powers.len(),
                self.powers@.len() <= other.powers@.len(),
                forall|j: int|
                    0 <= j < self.powers@.len() ==> (#[trigger] self.powers@[j]) + other.powers@[j]
                        <= usize::MAX,
                new_powers@.len() == i,
                forall|j: int| 0 <= j < i ==> new_powers@[j] == self.powers@[j] + other.powers@[j],
            decreases self.powers.len() - i,
        {
            assert(self.powers@[i as int] + other.powers@[i as int] <= usize::MAX);
            new_powers.push(self.powers[i] + other.powers[i]);
            i += 1;
        }
        assert(new_powers@ =~= self@.times(other@).powers);
        Monomial::new(self.coefficient * other.coefficient, new_powers)
    }
}

impl<R: Ring> vstd::std_specs::ops::MulSpecImpl for Monomial<R> {
    open spec fn obeys_mul_spec() -> bool {
        false
    }

    open spec fn mul_req(self, other: Monomial<R>) -> bool {
        &&& self@.powers.len() <= other@.powers.len()
        &&& forall|j: int|
            0 <= j < self@.powers.len() ==> (#[trigger] self@.powers[j]) + other@.powers[j]
                <= usize::MAX
    }

    open spec fn mul_spec(self, other: Monomial<R>) -> Monomial<R> {
        self
    }
}

/// The sum of a prefix is at most the sum of the whole.
pub proof fn lemma_sum_prefix(s: Seq<usize>, n: int)
    requires
        0 <= n <= s.len(),
    ensures
        sum(s.take(n)) <= sum(s),
    decreases s.len() - n,
{
    if n < s.len() {
        lemma_sum_prefix(s, n + 1);
        assert(s.take(n + 1).drop_last() =~= s.take(n));
    } else {
        assert(s.take(n) =~= s);
    }
}

} // verus!
