use crate::algebra::errors::Error;
use crate::algebra::group::AbelianGroup;
use crate::algebra::polynomials::monomial::{
    degrees_fit, first_off_degree, monomials_view, sum_of, with_powers, Monomial, MonomialView,
};
use crate::algebra::ring::{clone_is_exact, Ring};
use crate::common::sequences::{first_index, lemma_first_index, lemma_first_index_is, lemma_first_index_none};
use std::ops::{Add, Mul, Neg};
use vstd::prelude::*;
use vstd::std_specs::ops::{AddSpec, MulSpec, NegSpec};

verus! {

/// A sum of monomials.
pub struct Polynomial<C: Ring> {
    monomials: Vec<Monomial<C>>,
}

/// The monomials `ms` with `m` added: where a monomial of `ms` has the
/// powers of `m`, the first such monomial leaves its place, and its sum with
/// `m` stands at the end; else `m` stands at the end.
pub open spec fn add_monomial<C: Ring>(ms: Seq<MonomialView<C>>, m: MonomialView<C>) -> Seq<
    MonomialView<C>,
> {
    match first_index(ms, with_powers(m.powers)) {
        None => ms.push(m),
        Some(i) => ms.remove(i).push(sum_of(ms[i], m)),
    }
}

/// The monomials `ms` with the first `n` monomials of `other` added, one
/// after the other.
pub open spec fn add_upto<C: Ring>(
    ms: Seq<MonomialView<C>>,
    other: Seq<MonomialView<C>>,
    n: nat,
) -> Seq<MonomialView<C>>
    decreases n,
{
    if n == 0 {
        ms
    } else {
        add_monomial(add_upto(ms, other, (n - 1) as nat), other[n - 1])
    }
}

/// The products so far with the product of `a` and `b` put at their end;
/// where one of the products so far has the powers of the new product, the
/// coefficient of the first such product is added to the new one.
pub open spec fn put_product<C: Ring>(
    so_far: Seq<MonomialView<C>>,
    a: MonomialView<C>,
    b: MonomialView<C>,
) -> Seq<MonomialView<C>> {
    let m = a.times(b);
    match first_index(so_far, with_powers(m.powers)) {
        None => so_far.push(m),
        Some(i) => so_far.push(
            MonomialView {
                coefficient: m.coefficient.add_spec(so_far[i].coefficient),
                powers: m.powers,
            },
        ),
    }
}

/// The products so far with the products of `a` and the first `n` monomials
/// of `bs` put at their end.
pub open spec fn put_row<C: Ring>(
    so_far: Seq<MonomialView<C>>,
    a: MonomialView<C>,
    bs: Seq<MonomialView<C>>,
    n: nat,
) -> Seq<MonomialView<C>>
    decreases n,
{
    if n == 0 {
        so_far
    } else {
        put_product(put_row(so_far, a, bs, (n - 1) as nat), a, bs[n - 1])
    }
}

/// The products of the first `n` monomials of `a_s` with all monomials of
/// `bs`.
pub open spec fn products<C: Ring>(
    a_s: Seq<MonomialView<C>>,
    bs: Seq<MonomialView<C>>,
    n: nat,
) -> Seq<MonomialView<C>>
    decreases n,
{
    if n == 0 {
        Seq::empty()
    } else {
        put_row(products(a_s, bs, (n - 1) as nat), a_s[n - 1], bs, bs.len())
    }
}

/// Whether every monomial of `a_s` can be multiplied with every monomial of
/// `bs`: it has no more variables, and no sum of two powers is too great for
/// the machine.
pub open spec fn can_multiply<C: Ring>(a_s: Seq<MonomialView<C>>, bs: Seq<MonomialView<C>>) -> bool {
    forall|i: int, j: int|
        0 <= i < a_s.len() && 0 <= j < bs.len() ==> {
            &&& (#[trigger] a_s[i]).powers.len() <= (#[trigger] bs[j]).powers.len()
            &&& forall|k: int|
                0 <= k < a_s[i].powers.len() ==> (#[trigger] a_s[i].powers[k]) + bs[j].powers[k]
                    <= usize::MAX
        }
}

/// The sum of the values of the first `n` monomials at `x`, or the error of
/// the first monomial that has no value at `x`.
pub open spec fn eval_sum<C: Ring>(ms: Seq<MonomialView<C>>, x: Seq<C>, n: nat) -> Result<C, Error>
    decreases n,
{
    if n == 0 {
        Ok(C::zero_value())
    } else {
        match eval_sum(ms, x, (n - 1) as nat) {
            Err(e) => Err(e),
            Ok(sum) => if ms[n - 1].powers.len() != x.len() {
                Err(
                    Error::DimensionMismatch {
                        found: x.len() as usize,
                        expected: ms[n - 1].powers.len() as usize,
                    },
                )
            } else {
                Ok(sum.add_spec(ms[n - 1].eval(x)))
            },
        }
    }
}

/// The value of the polynomial with the monomials `ms` at `x`, which has
/// to have as many coordinates as the polynomial has monomials.
pub open spec fn eval_polynomial<C: Ring>(ms: Seq<MonomialView<C>>, x: Seq<C>) -> Result<C, Error> {
    if ms.len() != x.len() {
        Err(Error::DimensionMismatch { found: x.len() as usize, expected: ms.len() as usize })
    } else {
        eval_sum(ms, x, ms.len())
    }
}

impl<C: Ring> View for Polynomial<C> {
    type V = Seq<MonomialView<C>>;

    closed spec fn view(&self) -> Seq<MonomialView<C>> {
        monomials_view(self.monomials@)
    }
}

/// A copy of a row of monomials.
pub fn clone_monomials<C: Ring + Clone>(ms: &Vec<Monomial<C>>) -> (res: Vec<Monomial<C>>)
    ensures
        clone_is_exact::<C>() ==> monomials_view(res@) == monomials_view(ms@),
        res.len() == ms.len(),
{
    let mut out: Vec<Monomial<C>> = Vec::new();
    let mut i: usize = 0;
    while i < ms.len()
        invariant
            i <= ms.len(),
            out.len() == i,
            clone_is_exact::<C>() ==> monomials_view(out@) == monomials_view(ms@).take(i as int),
        decreases ms.len() - i,
    {
        out.push(ms[i].clone());
        proof {
            if clone_is_exact::<C>() {
                assert(monomials_view(out@) =~= monomials_view(ms@).take(i as int).push(
                    ms@[i as int]@,
                ));
                assert(monomials_view(ms@).take(i as int + 1) =~= monomials_view(ms@).take(
                    i as int,
                ).push(ms@[i as int]@));
            }
        }
        i += 1;
    }
    assert(monomials_view(ms@).take(i as int) =~= monomials_view(ms@));
    out
}

/// The position of the first monomial of `ms` that has the powers of `m`.
fn find_powers<C: Ring>(ms: &Vec<Monomial<C>>, m: &Monomial<C>) -> (res: Option<usize>)
    ensures
        match res {
            Some(i) => i < ms.len() && first_index(
                monomials_view(ms@),
                with_powers(m@.powers),
            ) == Some(i as int),
            None => first_index(monomials_view(ms@), with_powers(m@.powers)) is None,
        },
{
    let ghost all = monomials_view(ms@);
    let ghost p = with_powers::<C>(m@.powers);
    let mut i: usize = 0;
    while i < ms.len()
        invariant
            i <= ms.len(),
            all == monomials_view(ms@),
            p == with_powers::<C>(m@.powers),
            forall|j: int| 0 <= j < i ==> !p(all[j]),
        decreases ms.len() - i,
    {
        assert(all[i as int] == ms@[i as int]@);
        if ms[i].same_powers(m) {
            proof {
                lemma_first_index_is(all, p, i as int);
            }
            return Some(i);
        }
        i += 1;
    }
    proof {
        lemma_first_index_none(all, p);
    }
    None
}

impl<C: Ring> Polynomial<C> {
    /// The polynomial with the given monomials.
    pub fn new(monomials: Vec<Monomial<C>>) -> (res: Polynomial<C>)
        ensures
            res@ == monomials_view(monomials@),
    {
        Polynomial { monomials }
    }

    /// The monomials of the polynomial.
    pub fn monomials(&self) -> (res: Vec<Monomial<C>>) where C: Clone
        ensures
            clone_is_exact::<C>() ==> monomials_view(res@) == self@,
            res.len() == self@.len(),
    {
        clone_monomials(&self.monomials)
    }

    /// The monomials of the polynomial.
    pub fn into_monomials(self) -> (res: Vec<Monomial<C>>)
        ensures
            monomials_view(res@) == self@,
    {
        self.monomials
    }

    /// The polynomial that consists of the monomial with the coefficient
    /// zero and no variables.
    pub fn zero() -> (res: Polynomial<C>)
        ensures
            res@ == seq![MonomialView { coefficient: C::zero_value(), powers: Seq::empty() }],
    {
        let mut monomials: Vec<Monomial<C>> = Vec::new();
        monomials.push(Monomial::new(C::zero(), Vec::new()));
        let res = Polynomial { monomials };
        assert(res@ =~= seq![MonomialView { coefficient: C::zero_value(), powers: Seq::empty() }]);
        res
    }

    /// The polynomial that consists of the monomial with the coefficient
    /// one and no variables.
    pub fn one() -> (res: Polynomial<C>)
        ensures
            res@ == seq![MonomialView { coefficient: C::one_value(), powers: Seq::empty() }],
    {
        let mut monomials: Vec<Monomial<C>> = Vec::new();
        monomials.push(Monomial::new(C::one(), Vec::new()));
        let res = Polynomial { monomials };
        assert(res@ =~= seq![MonomialView { coefficient: C::one_value(), powers: Seq::empty() }]);
        res
    }

    /// Whether all the monomials have the degree of the first.
    pub fn is_homogeneous(&self) -> (res: bool)
        requires
            degrees_fit(self@),
        ensures
            res == (first_off_degree(self@) is None),
    {
        Monomial::check_deg(self.monomials.as_slice()).is_ok()
    }

    /// The degree of the monomials, if they have one degree; it is 0 for no
    /// monomials.
    pub fn degree(&self) -> (res: Option<usize>)
        requires
            degrees_fit(self@),
        ensures
            match res {
                Some(deg) => {
                    &&& first_off_degree(self@) is None
                    &&& deg == if self@.len() == 0 {
                        0
                    } else {
                        self@[0].deg()
                    }
                },
                None => first_off_degree(self@) is Some,
            },
    {
        match Monomial::check_deg(self.monomials.as_slice()) {
            Ok(()) => if self.monomials.len() == 0 {
                Some(0)
            } else {
                assert(self@[0] == self.monomials@[0]@);
                Some(self.monomials[0].deg())
            },
            Err(_) => None,
        }
    }

    /// The value at `x`: the sum of the values of the monomials.
    pub fn eval(&self, x: Vec<C>) -> (res: Result<C, Error>) where C: Clone
        requires
            clone_is_exact::<C>(),
        ensures
            res == eval_polynomial(self@, x@),
    {
        if self.monomials.len() != x.len() {
            return Err(
                Error::DimensionMismatch { found: x.len(), expected: self.monomials.len() },
            );
        }
        let mut res = C::zero();
        let mut i: usize = 0;
        while i < self.monomials.len()
            invariant
                i <= self.monomials.len(),
                self.monomials.len() == x.len(),
                clone_is_exact::<C>(),
                eval_sum(self@, x@, i as nat) == Ok::<C, Error>(res),
            decreases self.monomials.len() - i,
        {
            assert(self@[i as int] == self.monomials@[i as int]@);
            let point = clone_values(&x);
            let eval_res = match self.monomials[i].eval(point) {
                Ok(value) => value,
                Err(e) => {
                    proof {
                        assert(eval_sum(self@, x@, (i + 1) as nat) == Err::<C, Error>(e));
                        lemma_eval_sum_error(self@, x@, (i + 1) as nat, self@.len());
                    }
                    return Err(e);
                },
            };
            proof {
                C::lemma_group_operations(res, eval_res);
            }
            res = res + eval_res;
            i += 1;
        }
        Ok(res)
    }
}

/// A copy of a row of values.
pub fn clone_values<C: Clone>(x: &Vec<C>) -> (res: Vec<C>)
    ensures
        clone_is_exact::<C>() ==> res@ == x@,
        res.len() == x.len(),
{
    let mut out: Vec<C> = Vec::new();
    let mut i: usize = 0;
    while i < x.len()
        invariant
            i <= x.len(),
            out.len() == i,
            clone_is_exact::<C>() ==> out@ == x@.take(i as int),
        decreases x.len() - i,
    {
        let item = x[i].clone();
        assert(cloned::<C>(x@[i as int], item));
        out.push(item);
        proof {
            if clone_is_exact::<C>() {
                assert(out@ =~= x@.take(i as int + 1));
            }
        }
        i += 1;
    }
    assert(x@.take(i as int) =~= x@);
    out
}

impl<C: Ring> From<Monomial<C>> for Polynomial<C> {
    fn from(mono: Monomial<C>) -> (res: Polynomial<C>)
        ensures
            res@ == seq![mono@],
    {
        let mut monomials: Vec<Monomial<C>> = Vec::new();
        monomials.push(mono);
        let res = Polynomial { monomials };
        assert(res@ =~= seq![mono@]);
        res
    }
}

impl<C: Ring> vstd::std_specs::convert::FromSpecImpl<Monomial<C>> for Polynomial<C> {
    open spec fn obeys_from_spec() -> bool {
        false
    }

    open spec fn from_spec(mono: Monomial<C>) -> Polynomial<C> {
        arbitrary()
    }
}

impl<C: Ring> Neg for Polynomial<C> {
    type Output = Polynomial<C>;

    fn neg(self) -> (res: Polynomial<C>)
        ensures
            res@ == self@.map_values(|m: MonomialView<C>| m.negative()),
    {
        let ghost all = self@;
        let mut monomials: Vec<Monomial<C>> = Vec::new();
        for mono in it: self.monomials
            invariant
                monomials_view(it.seq()) == all,
                monomials@.len() == it.index(),
                forall|k: int|
                    0 <= k < it.index() ==> (#[trigger] monomials@[k])@ == all[k].negative(),
        {
            assert(all[it.index() as int] == mono@);
            monomials.push(mono.neg());
        }
        let res = Polynomial { monomials };
        assert(res@ =~= all.map_values(|m: MonomialView<C>| m.negative()));
        res
    }
}

impl<C: Ring> vstd::std_specs::ops::NegSpecImpl for Polynomial<C> {
    open spec fn obeys_neg_spec() -> bool {
        false
    }

    open spec fn neg_req(self) -> bool {
        true
    }

    open spec fn neg_spec(self) -> Polynomial<C> {
        arbitrary()
    }
}

impl<C: Ring> Add for Polynomial<C> {
    type Output = Polynomial<C>;

    fn add(self, other: Polynomial<C>) -> (res: Polynomial<C>)
        ensures
            res@ == add_upto(self@, other@, other@.len()),
    {
        let ghost mine = self@;
        let ghost theirs = other@;
        let mut new_monomials = self.monomials;
        for other_mono in it: other.monomials
            invariant
                monomials_view(it.seq()) == theirs,
                monomials_view(new_monomials@) == add_upto(mine, theirs, it.index() as nat),
        {
            assert(theirs[it.index() as int] == other_mono@);
            let ghost before = monomials_view(new_monomials@);
            match find_powers(&new_monomials, &other_mono) {
                None => {
                    new_monomials.push(other_mono);
                    assert(monomials_view(new_monomials@) =~= before.push(other_mono@));
                },
                Some(ind) => {
                    let old_mono = new_monomials.remove(ind);
                    assert(before[ind as int] == old_mono@);
                    assert(monomials_view(new_monomials@) =~= before.remove(ind as int));
                    proof {
                        lemma_first_index(before, with_powers::<C>(other_mono@.powers));
                    }
                    let new_poly = old_mono + other_mono;
                    let mut summed = new_poly.monomials;
                    assert(monomials_view(summed@).len() == 1);
                    let only = summed.remove(0);
                    assert(only@ == monomials_view(new_poly.monomials@)[0]);
                    new_monomials.push(only);
                    assert(monomials_view(new_monomials@) =~= add_monomial(before, other_mono@));
                },
            }
        }
        Polynomial { monomials: new_monomials }
    }
}

impl<C: Ring> vstd::std_specs::ops::AddSpecImpl for Polynomial<C> {
    open spec fn obeys_add_spec() -> bool {
        false
    }

    open spec fn add_req(self, other: Polynomial<C>) -> bool {
        true
    }

    open spec fn add_spec(self, other: Polynomial<C>) -> Polynomial<C> {
        arbitrary()
    }
}

impl<C: Ring + Clone> Mul for Polynomial<C> {
    type Output = Polynomial<C>;

    fn mul(self, other: Polynomial<C>) -> (res: Polynomial<C>)
        ensures
            res@ == products(self@, other@, self@.len()),
    {
        let mut new_monomials: Vec<Monomial<C>> = Vec::new();
        let mut i: usize = 0;
        assert(monomials_view(new_monomials@) =~= Seq::empty());
        while i < self.monomials.len()
            invariant
                i <= self.monomials.len(),
                can_multiply(self@, other@),
                clone_is_exact::<C>(),
                monomials_view(new_monomials@) == products(self@, other@, i as nat),
            decreases self.monomials.len() - i,
        {
            let ghost row_start = monomials_view(new_monomials@);
            let mut j: usize = 0;
            while j < other.monomials.len()
                invariant
                    i < self.monomials.len(),
                    j <= other.monomials.len(),
                    can_multiply(self@, other@),
                    clone_is_exact::<C>(),
                    row_start == products(self@, other@, i as nat),
                    monomials_view(new_monomials@) == put_row(
                        row_start,
                        self@[i as int],
                        other@,
                        j as nat,
                    ),
                decreases other.monomials.len() - j,
            {
                let left = self.monomials[i].clone();
                let right = other.monomials[j].clone();
                proof {
                    assert(self@[i as int] == self.monomials@[i as int]@);
                    assert(other@[j as int] == other.monomials@[j as int]@);
                    assert(self@[i as int].powers.len() <= other@[j as int].powers.len());
                }
                let ghost before = monomials_view(new_monomials@);
                let mut new_mono = left * right;
                match find_powers(&new_monomials, &new_mono) {
                    Some(ind) => {
                        assert(before[ind as int] == new_monomials@[ind as int]@);
                        new_mono = new_mono.plus_coefficient(&new_monomials[ind]);
                    },
                    None => {},
                }
                new_monomials.push(new_mono);
                assert(monomials_view(new_monomials@) =~= before.push(new_mono@));
                j += 1;
            }
            i += 1;
        }
        Polynomial { monomials: new_monomials }
    }
}

impl<C: Ring + Clone> vstd::std_specs::ops::MulSpecImpl for Polynomial<C> {
    open spec fn obeys_mul_spec() -> bool {
        false
    }

    open spec fn mul_req(self, other: Polynomial<C>) -> bool {
        clone_is_exact::<C>() && can_multiply(self@, other@)
    }

    open spec fn mul_spec(self, other: Polynomial<C>) -> Polynomial<C> {
        arbitrary()
    }
}

/// Once a monomial has no value at `x`, the sum has none either, and its
/// error is the error of that monomial.
pub proof fn lemma_eval_sum_error<C: Ring>(ms: Seq<MonomialView<C>>, x: Seq<C>, i: nat, n: nat)
    requires
        i <= n,
        eval_sum(ms, x, i) is Err,
    ensures
        eval_sum(ms, x, n) == eval_sum(ms, x, i),
    decreases n,
{
    if i < n {
        lemma_eval_sum_error(ms, x, i, (n - 1) as nat);
    }
}

/// Adding a polynomial of one monomial adds that monomial.
pub proof fn lemma_add_one<C: Ring>(ms: Seq<MonomialView<C>>, m: MonomialView<C>)
    ensures
        add_upto(ms, seq![m], 1) == add_monomial(ms, m),
{
    reveal_with_fuel(add_upto, 2);
    assert(seq![m][0] == m);
}

} // verus!
