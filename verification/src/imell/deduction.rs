use crate::common::sequences::{
    first_index, lemma_filter_members, lemma_filter_take_step, lemma_first_index,
};
use crate::imell::errors::Error;
use crate::imell::formula::{
    clone_formulas, differs, equals, extend_formulas, formulas_view, split_at, split_seq, Formula,
    FormulaView, Sequent, SequentView,
};
use std::rc::Rc;
use vstd::prelude::*;

verus! {

/// The rules of the intuitionistic sequent calculus.
#[derive(Debug, Clone, Copy, PartialEq, Eq, Structural)]
pub enum Rule {
    Ax,
    Cut,
    LTensor,
    RTensor,
    LImpl,
    RImpl,
    Ex,
    Der,
    Prom,
    Weak,
    Ctr,
}

/// One step of a derivation: the sequents it starts from, the rule, and the
/// sequent it arrives at.
pub struct Proof {
    premises: Vec<Sequent>,
    rule: Rule,
    conclusion: Sequent,
}

/// The mathematical content of a [`Proof`].
pub struct ProofView {
    pub premises: Seq<SequentView>,
    pub rule: Rule,
    pub conclusion: SequentView,
}

/// The mathematical content of a row of sequents.
pub open spec fn sequents_view(s: Seq<Sequent>) -> Seq<SequentView> {
    s.map_values(|q: Sequent| q@)
}

impl View for Proof {
    type V = ProofView;

    closed spec fn view(&self) -> ProofView {
        ProofView {
            premises: sequents_view(self.premises@),
            rule: self.rule,
            conclusion: self.conclusion@,
        }
    }
}

impl Proof {
    /// The rule of this step.
    pub fn rule(&self) -> (res: Rule)
        ensures
            res == self@.rule,
    {
        self.rule
    }

    /// The sequent that this step arrives at.
    pub fn conclusion(&self) -> (res: Sequent)
        ensures
            res@ == self@.conclusion,
    {
        self.conclusion.clone()
    }

    /// The sequents that this step starts from.
    pub fn premises(&self) -> (res: Vec<Sequent>)
        ensures
            sequents_view(res@) == self@.premises,
    {
        let mut out: Vec<Sequent> = Vec::new();
        let mut i: usize = 0;
        while i < self.premises.len()
            invariant
                i <= self.premises.len(),
                sequents_view(out@) == self@.premises.take(i as int),
            decreases self.premises.len() - i,
        {
            out.push(self.premises[i].clone());
            assert(sequents_view(out@) =~= self@.premises.take(i as int).push(
                self@.premises[i as int],
            ));
            assert(self@.premises.take(i as int + 1) =~= self@.premises.take(i as int).push(
                self@.premises[i as int],
            ));
            i += 1;
        }
        assert(self@.premises.take(i as int) =~= self@.premises);
        out
    }

    /// The step that `rule` makes from one premise.
    fn unary(prem: Sequent, rule: Rule, conclusion: Sequent) -> (res: Proof)
        ensures
            res@ == (ProofView { premises: seq![prem@], rule, conclusion: conclusion@ }),
    {
        let mut premises: Vec<Sequent> = Vec::new();
        premises.push(prem);
        let res = Proof { premises, rule, conclusion };
        assert(res@.premises =~= seq![prem@]);
        res
    }

    /// The step that `rule` makes from two premises.
    fn binary(left: Sequent, right: Sequent, rule: Rule, conclusion: Sequent) -> (res: Proof)
        ensures
            res@ == (ProofView { premises: seq![left@, right@], rule, conclusion: conclusion@ }),
    {
        let mut premises: Vec<Sequent> = Vec::new();
        premises.push(left);
        premises.push(right);
        let res = Proof { premises, rule, conclusion };
        assert(res@.premises =~= seq![left@, right@]);
        res
    }
}

/// The sequent with `antecent` on the left and `succedent` on the right.
pub open spec fn sequent(antecent: Seq<FormulaView>, succedent: FormulaView) -> SequentView {
    SequentView { antecent, succedent }
}

/// The tensor of `a` and `b`.
pub open spec fn tensor_of(a: FormulaView, b: FormulaView) -> FormulaView {
    FormulaView::Tensor(Box::new(a), Box::new(b))
}

/// The implication from `a` to `b`.
pub open spec fn impl_of(a: FormulaView, b: FormulaView) -> FormulaView {
    FormulaView::Impl(Box::new(a), Box::new(b))
}

/// The formula `a` under a bang.
pub open spec fn bang_of(a: FormulaView) -> FormulaView {
    FormulaView::Bang(Box::new(a))
}

/// The formulas that stand under a bang.
pub open spec fn banged() -> spec_fn(FormulaView) -> bool {
    |x: FormulaView| x is Bang
}

/// `s` cut at the first `a` and, what follows `a`, at the first `b`: the
/// formulas before `a`, those between `a` and `b`, and those after `b`.
pub open spec fn split_after(s: Seq<FormulaView>, a: FormulaView, b: FormulaView) -> Option<
    (Seq<FormulaView>, Seq<FormulaView>, Seq<FormulaView>),
> {
    match split_at(s, a) {
        Some((before, after)) => match split_at(after, b) {
            Some((between, rest)) => Some((before, between, rest)),
            None => None,
        },
        None => None,
    }
}

/// The sequent in which the search fails where the left side of `s`
/// cannot be cut at `a` and then at `b`: `s` itself where `a` does not occur
/// on its left side, and else `s` with what follows the first `a`, without
/// further occurrences of `a`, as its left side.
pub open spec fn searched_in(s: SequentView, a: FormulaView) -> SequentView {
    match split_at(s.antecent, a) {
        None => s,
        Some((before, after)) => sequent(after, s.succedent),
    }
}

/// Cuts the left side of `prem` at the first `a` and what follows at the
/// first `b`.
fn split_twice(prem: &Sequent, a: &Formula, b: &Formula) -> (res: Result<
    (Vec<Formula>, Formula, Vec<Formula>, Formula, Vec<Formula>, Formula),
    Error,
>)
    ensures
        match res {
            Ok((before, first, between, second, rest, succedent)) => {
                &&& split_after(prem@.antecent, a@, b@) == Some(
                    (formulas_view(before@), formulas_view(between@), formulas_view(rest@)),
                )
                &&& first@ == a@
                &&& second@ == b@
                &&& succedent@ == prem@.succedent
            },
            Err(Error::ActiveNotFound(g, t)) => {
                &&& split_after(prem@.antecent, a@, b@) is None
                &&& match split_at(prem@.antecent, a@) {
                    None => g@ == a@ && t@ == prem@,
                    Some((before, after)) => g@ == b@ && t@ == sequent(after, prem@.succedent),
                }
            },
            Err(_) => false,
        },
{
    let split_a = match split_seq(a, prem.clone()) {
        Ok(s) => s,
        Err(e) => {
            return Err(e);
        },
    };
    let rest = Sequent { antecent: split_a.right_ante, succedent: split_a.succedent };
    let split_b = match split_seq(b, rest) {
        Ok(s) => s,
        Err(e) => {
            return Err(e);
        },
    };
    Ok(
        (
            split_a.left_ante,
            split_a.active,
            split_b.left_ante,
            split_b.active,
            split_b.right_ante,
            split_b.succedent,
        ),
    )
}

/// The axiom: `f` on the left and on the right.
pub fn ax(f: &Formula) -> (res: Proof)
    ensures
        res@ == (ProofView {
            premises: Seq::empty(),
            rule: Rule::Ax,
            conclusion: sequent(seq![f@], f@),
        }),
{
    let mut antecent: Vec<Formula> = Vec::new();
    antecent.push(f.clone());
    let res = Proof {
        premises: Vec::new(),
        rule: Rule::Ax,
        conclusion: Sequent { antecent, succedent: f.clone() },
    };
    assert(res@.premises =~= Seq::empty());
    assert(res@.conclusion.antecent =~= seq![f@]);
    res
}

/// The cut: the right side of `left` has to be the last formula on the left
/// side of `right`; both leave.
pub fn cut(left: Sequent, right: Sequent) -> (res: Result<Proof, Error>)
    ensures
        match res {
            Ok(p) => {
                &&& right@.antecent.len() > 0
                &&& right@.antecent.last() == left@.succedent
                &&& p@ == (ProofView {
                    premises: seq![left@, right@],
                    rule: Rule::Cut,
                    conclusion: sequent(
                        left@.antecent + right@.antecent.drop_last(),
                        right@.succedent,
                    ),
                })
            },
            Err(Error::ActiveNotFound(g, t)) => {
                &&& right@.antecent.len() == 0 || right@.antecent.last() != left@.succedent
                &&& g@ == left@.succedent
                &&& t@ == right@
            },
            Err(_) => false,
        },
{
    let a = left.succedent.clone();
    let b = right.succedent.clone();
    let mut new_right = clone_formulas(&right.antecent);
    let a2 = match new_right.pop() {
        Some(f) => f,
        None => {
            return Err(Error::ActiveNotFound(a, right));
        },
    };
    assert(formulas_view(right.antecent@).last() == a2@);
    if a == a2 {
        let mut new_ante = clone_formulas(&left.antecent);
        extend_formulas(&mut new_ante, &new_right);
        let conclusion = Sequent { antecent: new_ante, succedent: b };
        assert(conclusion@.antecent =~= left@.antecent + right@.antecent.drop_last());
        Ok(Proof::binary(left, right, Rule::Cut, conclusion))
    } else {
        Err(Error::ActiveNotFound(a, right))
    }
}

/// The left tensor rule: `active_a` and, after it, `active_b` leave the left
/// side.
pub fn left_tensor(prem: Sequent, active_a: &Formula, active_b: &Formula) -> (res: Result<
    Proof,
    Error,
>)
    ensures
        match res {
            Ok(p) => {
                &&& split_after(prem@.antecent, active_a@, active_b@) matches Some(
                    (before, between, rest),
                )
                &&& p@ == (ProofView {
                    premises: seq![prem@],
                    rule: Rule::LTensor,
                    conclusion: sequent(before + between + rest, prem@.succedent),
                })
            },
            Err(Error::ActiveNotFound(g, t)) => {
                &&& split_after(prem@.antecent, active_a@, active_b@) is None
                &&& if split_at(prem@.antecent, active_a@) is None {
                    g@ == active_a@
                } else {
                    g@ == active_b@
                }
                &&& t@ == searched_in(prem@, active_a@)
            },
            Err(_) => false,
        },
{
    let (before, first, between, second, rest, succedent) = match split_twice(
        &prem,
        active_a,
        active_b,
    ) {
        Ok(parts) => parts,
        Err(e) => {
            return Err(e);
        },
    };
    let mut new_ante = before;
    extend_formulas(&mut new_ante, &between);
    extend_formulas(&mut new_ante, &rest);
    let conclusion = Sequent { antecent: new_ante, succedent };
    proof {
        let (x, y, z) = split_after(prem@.antecent, active_a@, active_b@)->0;
        assert(conclusion@.antecent =~= x + y + z);
    }
    Ok(Proof::unary(prem, Rule::LTensor, conclusion))
}

/// The right tensor rule: the left sides are put in a row, and the right
/// sides are joined by a tensor.
pub fn right_tensor(left: Sequent, right: Sequent) -> (res: Proof)
    ensures
        res@ == (ProofView {
            premises: seq![left@, right@],
            rule: Rule::RTensor,
            conclusion: sequent(
                left@.antecent + right@.antecent,
                tensor_of(left@.succedent, right@.succedent),
            ),
        }),
{
    let mut antecent = clone_formulas(&left.antecent);
    extend_formulas(&mut antecent, &right.antecent);
    let succedent = Formula::Tensor(
        Rc::new(left.succedent.clone()),
        Rc::new(right.succedent.clone()),
    );
    let conclusion = Sequent { antecent, succedent };
    assert(conclusion@.antecent =~= left@.antecent + right@.antecent);
    Proof::binary(left, right, Rule::RTensor, conclusion)
}

/// The left implication rule: `active_b` leaves the left side of `right`,
/// and the implication from the right side of `left` to `active_b` enters.
pub fn left_impl(left: Sequent, right: Sequent, active_b: &Formula) -> (res: Result<Proof, Error>)
    ensures
        match res {
            Ok(p) => {
                &&& split_at(right@.antecent, active_b@) matches Some((before, after))
                &&& p@ == (ProofView {
                    premises: seq![left@, right@],
                    rule: Rule::LImpl,
                    conclusion: sequent(
                        left@.antecent.push(impl_of(left@.succedent, active_b@)) + before + after,
                        right@.succedent,
                    ),
                })
            },
            Err(Error::ActiveNotFound(g, t)) => {
                &&& split_at(right@.antecent, active_b@) is None
                &&& g@ == active_b@
                &&& t@ == right@
            },
            Err(_) => false,
        },
{
    let split = match split_seq(active_b, right.clone()) {
        Ok(s) => s,
        Err(e) => {
            return Err(e);
        },
    };
    let mut antecent = clone_formulas(&left.antecent);
    antecent.push(Formula::Impl(Rc::new(left.succedent.clone()), Rc::new(split.active)));
    extend_formulas(&mut antecent, &split.left_ante);
    extend_formulas(&mut antecent, &split.right_ante);
    let succedent = right.succedent.clone();
    let conclusion = Sequent { antecent, succedent };
    proof {
        let (x, y) = split_at(right@.antecent, active_b@)->0;
        assert(conclusion@.antecent =~= left@.antecent.push(
            impl_of(left@.succedent, active_b@),
        ) + x + y);
    }
    Ok(Proof::binary(left, right, Rule::LImpl, conclusion))
}

/// The right implication rule: `active_a` leaves the left side, and the
/// right side becomes the implication from `active_a` to it.
pub fn right_impl(prem: Sequent, active_a: &Formula) -> (res: Result<Proof, Error>)
    ensures
        match res {
            Ok(p) => {
                &&& split_at(prem@.antecent, active_a@) matches Some((before, after))
                &&& p@ == (ProofView {
                    premises: seq![prem@],
                    rule: Rule::RImpl,
                    conclusion: sequent(before + after, impl_of(active_a@, prem@.succedent)),
                })
            },
            Err(Error::ActiveNotFound(g, t)) => {
                &&& split_at(prem@.antecent, active_a@) is None
                &&& g@ == active_a@
                &&& t@ == prem@
            },
            Err(_) => false,
        },
{
    let split = match split_seq(active_a, prem.clone()) {
        Ok(s) => s,
        Err(e) => {
            return Err(e);
        },
    };
    let mut antecent = split.left_ante;
    extend_formulas(&mut antecent, &split.right_ante);
    let succedent = Formula::Impl(Rc::new(split.active), Rc::new(prem.succedent.clone()));
    let conclusion = Sequent { antecent, succedent };
    proof {
        let (x, y) = split_at(prem@.antecent, active_a@)->0;
        assert(conclusion@.antecent =~= x + y);
    }
    Ok(Proof::unary(prem, Rule::RImpl, conclusion))
}

/// The exchange rule: `active_a` and, after it, `active_b` leave the left
/// side, and `active_b` followed by `active_a` stands where `active_a` stood.
pub fn ex(prem: Sequent, active_a: &Formula, active_b: &Formula) -> (res: Result<Proof, Error>)
    ensures
        match res {
            Ok(p) => {
                &&& split_after(prem@.antecent, active_a@, active_b@) matches Some(
                    (before, between, rest),
                )
                &&& p@ == (ProofView {
                    premises: seq![prem@],
                    rule: Rule::Ex,
                    conclusion: sequent(
                        before.push(active_b@).push(active_a@) + between + rest,
                        prem@.succedent,
                    ),
                })
            },
            Err(Error::ActiveNotFound(g, t)) => {
                &&& split_after(prem@.antecent, active_a@, active_b@) is None
                &&& if split_at(prem@.antecent, active_a@) is None {
                    g@ == active_a@
                } else {
                    g@ == active_b@
                }
                &&& t@ == searched_in(prem@, active_a@)
            },
            Err(_) => false,
        },
{
    let (before, first, between, second, rest, succedent) = match split_twice(
        &prem,
        active_a,
        active_b,
    ) {
        Ok(parts) => parts,
        Err(e) => {
            return Err(e);
        },
    };
    let mut antecent = before;
    antecent.push(second);
    antecent.push(first);
    extend_formulas(&mut antecent, &between);
    extend_formulas(&mut antecent, &rest);
    let conclusion = Sequent { antecent, succedent };
    proof {
        let (x, y, z) = split_after(prem@.antecent, active_a@, active_b@)->0;
        assert(conclusion@.antecent =~= x.push(active_b@).push(active_a@) + y + z);
    }
    Ok(Proof::unary(prem, Rule::Ex, conclusion))
}

/// Dereliction: the first occurrence of `active` on the left is put under a
/// bang.
pub fn der(prem: Sequent, active: &Formula) -> (res: Result<Proof, Error>)
    ensures
        match res {
            Ok(p) => {
                &&& split_at(prem@.antecent, active@) matches Some((before, after))
                &&& p@ == (ProofView {
                    premises: seq![prem@],
                    rule: Rule::Der,
                    conclusion: sequent(before.push(bang_of(active@)) + after, prem@.succedent),
                })
            },
            Err(Error::ActiveNotFound(g, t)) => {
                &&& split_at(prem@.antecent, active@) is None
                &&& g@ == active@
                &&& t@ == prem@
            },
            Err(_) => false,
        },
{
    let split = match split_seq(active, prem.clone()) {
        Ok(s) => s,
        Err(e) => {
            return Err(e);
        },
    };
    let mut antecent = split.left_ante;
    antecent.push(Formula::Bang(Rc::new(split.active)));
    extend_formulas(&mut antecent, &split.right_ante);
    let conclusion = Sequent { antecent, succedent: split.succedent };
    proof {
        let (x, y) = split_at(prem@.antecent, active@)->0;
        assert(conclusion@.antecent =~= x.push(bang_of(active@)) + y);
    }
    Ok(Proof::unary(prem, Rule::Der, conclusion))
}

/// Whether no formula of `s` stands under a bang.
pub fn no_bang(s: &Vec<Formula>) -> (res: bool)
    ensures
        res == (formulas_view(s@).filter(banged()).len() == 0),
{
    let ghost all = formulas_view(s@);
    let mut i: usize = 0;
    while i < s.len()
        invariant
            i <= s.len(),
            all == formulas_view(s@),
            all.take(i as int).filter(banged()).len() == 0,
        decreases s.len() - i,
    {
        proof {
            lemma_filter_take_step(all, i as int, banged());
        }
        match &s[i] {
            Formula::Bang(_) => {
                proof {
                    lemma_filter_members(all, banged());
                    assert(all[i as int] is Bang);
                    assert(all.contains(all[i as int]));
                    assert(all.filter(banged()).contains(all[i as int]));
                }
                return false;
            },
            _ => {},
        }
        i += 1;
    }
    assert(all.take(i as int) =~= all);
    true
}

/// Promotion: where no formula on the left stands under a bang, the right
/// side is put under a bang.
pub fn prom(prem: Sequent) -> (res: Result<Proof, Error>)
    ensures
        match res {
            Ok(p) => {
                &&& prem@.antecent.filter(banged()).len() == 0
                &&& p@ == (ProofView {
                    premises: seq![prem@],
                    rule: Rule::Prom,
                    conclusion: sequent(prem@.antecent, bang_of(prem@.succedent)),
                })
            },
            Err(Error::CannotApply(rule)) => {
                &&& prem@.antecent.filter(banged()).len() != 0
                &&& rule == Rule::Prom
            },
            Err(_) => false,
        },
{
    if no_bang(&prem.antecent) {
        let conclusion = Sequent {
            antecent: clone_formulas(&prem.antecent),
            succedent: Formula::Bang(Rc::new(prem.succedent.clone())),
        };
        Ok(Proof::unary(prem, Rule::Prom, conclusion))
    } else {
        Err(Error::CannotApply(Rule::Prom))
    }
}

/// Weakening: `active` under a bang is added at the end of the left side.
pub fn weak(prem: Sequent, active: &Formula) -> (res: Proof)
    ensures
        res@ == (ProofView {
            premises: seq![prem@],
            rule: Rule::Weak,
            conclusion: sequent(prem@.antecent.push(bang_of(active@)), prem@.succedent),
        }),
{
    let mut antecent = clone_formulas(&prem.antecent);
    antecent.push(Formula::Bang(Rc::new(active.clone())));
    let succedent = prem.succedent.clone();
    let conclusion = Sequent { antecent, succedent };
    assert(conclusion@.antecent =~= prem@.antecent.push(bang_of(active@)));
    Proof::unary(prem, Rule::Weak, conclusion)
}

/// What follows the first `f` in a sequent that is cut at `f` holds no `f`.
pub proof fn lemma_no_second(s: Seq<FormulaView>, f: FormulaView)
    ensures
        split_after(s, f, f) is None,
{
    match split_at(s, f) {
        Some((before, after)) => {
            lemma_first_index(s, equals(f));
            let i = first_index(s, equals(f))->0;
            lemma_filter_members(s.skip(i + 1), differs(f));
            lemma_first_index(after, equals(f));
            if first_index(after, equals(f)) is Some {
                let j = first_index(after, equals(f))->0;
                assert(after.contains(after[j]));
            }
        },
        None => {},
    }
}

/// Contraction: `active_a` has to stand under a bang and to occur twice on
/// the left. As cutting a sequent at a formula leaves out every later
/// occurrence of it, the second occurrence is never found.
pub fn ctr(prem: Sequent, active_a: &Formula) -> (res: Result<Proof, Error>)
    ensures
        match res {
            Ok(_) => false,
            Err(Error::CannotApply(rule)) => !(active_a@ is Bang) && rule == Rule::Ctr,
            Err(Error::ActiveNotFound(g, t)) => {
                &&& active_a@ is Bang
                &&& g@ == active_a@
                &&& t@ == searched_in(prem@, active_a@)
            },
        },
{
    match active_a {
        Formula::Bang(_) => {},
        _ => {
            return Err(Error::CannotApply(Rule::Ctr));
        },
    }
    proof {
        lemma_no_second(prem@.antecent, active_a@);
    }
    let (before, first, between, second, rest, succedent) = match split_twice(
        &prem,
        active_a,
        active_a,
    ) {
        Ok(parts) => parts,
        Err(e) => {
            return Err(e);
        },
    };
    let mut antecent = before;
    antecent.push(first);
    extend_formulas(&mut antecent, &between);
    extend_formulas(&mut antecent, &rest);
    Ok(Proof::unary(prem, Rule::Ctr, Sequent { antecent, succedent }))
}

} // verus!
