use crate::mell::errors::Error;
use crate::mell::formula::{Formula, FormulaView};
use crate::mell::sequent::{
    clone_sequent, extend_sequent, formulas_view, split_at, split_seq, without_first, Sequent,
};
use std::rc::Rc;
use vstd::prelude::*;

verus! {

/// The rules of the sequent calculus with exponentials.
#[derive(Debug, Clone, Copy, PartialEq, Eq, Structural)]
pub enum Rule {
    Ax,
    Cut,
    Tensor,
    Par,
    Ex,
    Der,
    Prom,
    Weak,
    Ctr,
}

/// A derivation: the derivations of the premises, the last rule, and the
/// sequent that it arrives at.
pub struct Proof {
    pub premises: Vec<Proof>,
    pub rule: Rule,
    pub conclusion: Sequent,
}

impl Proof {
    /// The formulas of the sequent that the derivation arrives at.
    pub open spec fn sequent(&self) -> Seq<FormulaView> {
        formulas_view(self.conclusion@)
    }
}

/// The tensor of `a` and `b`.
pub open spec fn tensor_of(a: FormulaView, b: FormulaView) -> FormulaView {
    FormulaView::Tensor(Box::new(a), Box::new(b))
}

/// The par of `a` and `b`.
pub open spec fn par_of(a: FormulaView, b: FormulaView) -> FormulaView {
    FormulaView::Par(Box::new(a), Box::new(b))
}

/// The formula `a` under a quest.
pub open spec fn quest_of(a: FormulaView) -> FormulaView {
    FormulaView::Quest(Box::new(a))
}

/// The formula `a` under a bang.
pub open spec fn bang_of(a: FormulaView) -> FormulaView {
    FormulaView::Bang(Box::new(a))
}

/// Whether every formula of `s` stands under a quest.
pub open spec fn all_quest(s: Seq<FormulaView>) -> bool {
    forall|i: int| 0 <= i < s.len() ==> (#[trigger] s[i]) is Quest
}

/// The derivation that `rule` makes from one premise.
fn unary(prem: Proof, rule: Rule, conclusion: Sequent) -> (res: Proof)
    ensures
        res.premises@ == seq![prem],
        res.rule == rule,
        res.conclusion == conclusion,
{
    let mut premises: Vec<Proof> = Vec::new();
    premises.push(prem);
    Proof { premises, rule, conclusion }
}

/// The derivation that `rule` makes from two premises.
fn binary(left: Proof, right: Proof, rule: Rule, conclusion: Sequent) -> (res: Proof)
    ensures
        res.premises@ == seq![left, right],
        res.rule == rule,
        res.conclusion == conclusion,
{
    let mut premises: Vec<Proof> = Vec::new();
    premises.push(left);
    premises.push(right);
    Proof { premises, rule, conclusion }
}

/// The axiom: the dual of `f` beside `f`.
pub fn ax(f: Formula) -> (res: Proof)
    ensures
        res.premises@.len() == 0,
        res.rule == Rule::Ax,
        res.sequent() == seq![f@.negate(), f@],
{
    let mut conclusion: Vec<Formula> = Vec::new();
    conclusion.push(f.dual());
    conclusion.push(f);
    assert(formulas_view(conclusion@) =~= seq![f@.negate(), f@]);
    Proof { premises: Vec::new(), rule: Rule::Ax, conclusion }
}

/// The cut of `active` in `left` against its dual in `right`: both leave,
/// and what is left of the two sequents is put in a row.
pub fn cut(left: Proof, right: Proof, active: &Formula) -> (res: Result<Proof, Error>)
    ensures
        match res {
            Ok(p) => {
                &&& without_first(left.sequent(), active@) matches Some(l)
                &&& without_first(right.sequent(), active@.negate()) matches Some(r)
                &&& p.sequent() == l + r
                &&& p.rule == Rule::Cut
                &&& p.premises@ == seq![left, right]
            },
            Err(Error::ActiveNotFound(g, t)) => if split_at(left.sequent(), active@) is None {
                g@ == active@ && formulas_view(t@) == left.sequent()
            } else {
                &&& split_at(right.sequent(), active@.negate()) is None
                &&& g@ == active@.negate()
                &&& formulas_view(t@) == right.sequent()
            },
            Err(_) => false,
        },
{
    let active_neg = active.dual();
    let split_left = match split_seq(clone_sequent(&left.conclusion), active) {
        Ok(s) => s,
        Err(e) => {
            return Err(e);
        },
    };
    let split_right = match split_seq(clone_sequent(&right.conclusion), &active_neg) {
        Ok(s) => s,
        Err(e) => {
            return Err(e);
        },
    };
    let mut conclusion = split_left.left;
    extend_sequent(&mut conclusion, &split_left.right);
    extend_sequent(&mut conclusion, &split_right.left);
    extend_sequent(&mut conclusion, &split_right.right);
    proof {
        let l = without_first(left.sequent(), active@)->0;
        let r = without_first(right.sequent(), active@.negate())->0;
        assert(formulas_view(conclusion@) =~= l + r);
    }
    Ok(binary(left, right, Rule::Cut, conclusion))
}

/// The tensor of `active_a` in `left` and `active_b` in `right`: the two
/// leave their sequents, and their tensor stands between what is left of the
/// two.
pub fn tensor(left: Proof, right: Proof, active_a: &Formula, active_b: &Formula) -> (res: Result<
    Proof,
    Error,
>)
    ensures
        match res {
            Ok(p) => {
                &&& without_first(left.sequent(), active_a@) matches Some(l)
                &&& without_first(right.sequent(), active_b@) matches Some(r)
                &&& p.sequent() == l.push(tensor_of(active_a@, active_b@)) + r
                &&& p.rule == Rule::Tensor
                &&& p.premises@ == seq![left, right]
            },
            Err(Error::ActiveNotFound(g, t)) => if split_at(left.sequent(), active_a@) is None {
                g@ == active_a@ && formulas_view(t@) == left.sequent()
            } else {
                &&& split_at(right.sequent(), active_b@) is None
                &&& g@ == active_b@
                &&& formulas_view(t@) == right.sequent()
            },
            Err(_) => false,
        },
{
    let split_left = match split_seq(clone_sequent(&left.conclusion), active_a) {
        Ok(s) => s,
        Err(e) => {
            return Err(e);
        },
    };
    let split_right = match split_seq(clone_sequent(&right.conclusion), active_b) {
        Ok(s) => s,
        Err(e) => {
            return Err(e);
        },
    };
    let mut conclusion = split_left.left;
    extend_sequent(&mut conclusion, &split_left.right);
    conclusion.push(Formula::Tensor(Rc::new(split_left.active), Rc::new(split_right.active)));
    extend_sequent(&mut conclusion, &split_right.left);
    extend_sequent(&mut conclusion, &split_right.right);
    proof {
        let l = without_first(left.sequent(), active_a@)->0;
        let r = without_first(right.sequent(), active_b@)->0;
        assert(formulas_view(conclusion@) =~= l.push(tensor_of(active_a@, active_b@)) + r);
    }
    Ok(binary(left, right, Rule::Tensor, conclusion))
}

/// The sequent `s` cut at the first `a` and, what is left, at the first
/// `b`: the formulas before `b`, and those after it.
pub open spec fn split_two(s: Seq<FormulaView>, a: FormulaView, b: FormulaView) -> Option<
    (Seq<FormulaView>, Seq<FormulaView>),
> {
    match without_first(s, a) {
        Some(rest) => split_at(rest, b),
        None => None,
    }
}

/// The sequent in which the search fails where `s` cannot be cut at `a`
/// and then at `b`: `s` itself where `a` does not occur in it, and else `s`
/// without the first `a`.
pub open spec fn searched_in(s: Seq<FormulaView>, a: FormulaView) -> Seq<FormulaView> {
    match without_first(s, a) {
        None => s,
        Some(rest) => rest,
    }
}

/// Cuts the sequent of `prem` at the first `a` and what is left at the
/// first `b`.
fn split_twice(prem: &Proof, a: &Formula, b: &Formula) -> (res: Result<
    (Sequent, Formula, Formula, Sequent),
    Error,
>)
    ensures
        match res {
            Ok((left, first, second, right)) => {
                &&& split_two(prem.sequent(), a@, b@) == Some(
                    (formulas_view(left@), formulas_view(right@)),
                )
                &&& first@ == a@
                &&& second@ == b@
            },
            Err(Error::ActiveNotFound(g, t)) => if split_at(prem.sequent(), a@) is None {
                g@ == a@ && formulas_view(t@) == prem.sequent()
            } else {
                &&& split_two(prem.sequent(), a@, b@) is None
                &&& g@ == b@
                &&& Some(formulas_view(t@)) == without_first(prem.sequent(), a@)
            },
            Err(_) => false,
        },
{
    let split1 = match split_seq(clone_sequent(&prem.conclusion), a) {
        Ok(s) => s,
        Err(e) => {
            return Err(e);
        },
    };
    let mut new_s = split1.left;
    extend_sequent(&mut new_s, &split1.right);
    proof {
        let rest = without_first(prem.sequent(), a@)->0;
        assert(formulas_view(new_s@) =~= rest);
    }
    let split2 = match split_seq(new_s, b) {
        Ok(s) => s,
        Err(e) => {
            return Err(e);
        },
    };
    Ok((split2.left, split1.active, split2.active, split2.right))
}

/// The par of `active_a` and `active_b`: the two leave the sequent, and
/// their par stands where `active_b` stood.
pub fn par(prem: Proof, active_a: &Formula, active_b: &Formula) -> (res: Result<Proof, Error>)
    ensures
        match res {
            Ok(p) => {
                &&& split_two(prem.sequent(), active_a@, active_b@) matches Some((l, r))
                &&& p.sequent() == l.push(par_of(active_a@, active_b@)) + r
                &&& p.rule == Rule::Par
                &&& p.premises@ == seq![prem]
            },
            Err(Error::ActiveNotFound(g, t)) => {
                &&& split_two(prem.sequent(), active_a@, active_b@) is None
                &&& if split_at(prem.sequent(), active_a@) is None {
                    g@ == active_a@
                } else {
                    g@ == active_b@
                }
                &&& formulas_view(t@) == searched_in(prem.sequent(), active_a@)
            },
            Err(_) => false,
        },
{
    let (left, first, second, right) = match split_twice(&prem, active_a, active_b) {
        Ok(parts) => parts,
        Err(e) => {
            return Err(e);
        },
    };
    let mut conclusion = left;
    conclusion.push(Formula::Par(Rc::new(first), Rc::new(second)));
    extend_sequent(&mut conclusion, &right);
    proof {
        let (l, r) = split_two(prem.sequent(), active_a@, active_b@)->0;
        assert(formulas_view(conclusion@) =~= l.push(par_of(active_a@, active_b@)) + r);
    }
    Ok(unary(prem, Rule::Par, conclusion))
}

/// The exchange of `active_a` and `active_b`: the two leave the sequent,
/// and `active_b` followed by `active_a` stands where `active_b` stood.
pub fn ex(prem: Proof, active_a: &Formula, active_b: &Formula) -> (res: Result<Proof, Error>)
    ensures
        match res {
            Ok(p) => {
                &&& split_two(prem.sequent(), active_a@, active_b@) matches Some((l, r))
                &&& p.sequent() == l.push(active_b@).push(active_a@) + r
                &&& p.rule == Rule::Ex
                &&& p.premises@ == seq![prem]
            },
            Err(Error::ActiveNotFound(g, t)) => {
                &&& split_two(prem.sequent(), active_a@, active_b@) is None
                &&& if split_at(prem.sequent(), active_a@) is None {
                    g@ == active_a@
                } else {
                    g@ == active_b@
                }
                &&& formulas_view(t@) == searched_in(prem.sequent(), active_a@)
            },
            Err(_) => false,
        },
{
    let (left, first, second, right) = match split_twice(&prem, active_a, active_b) {
        Ok(parts) => parts,
        Err(e) => {
            return Err(e);
        },
    };
    let mut conclusion = left;
    conclusion.push(second);
    conclusion.push(first);
    extend_sequent(&mut conclusion, &right);
    proof {
        let (l, r) = split_two(prem.sequent(), active_a@, active_b@)->0;
        assert(formulas_view(conclusion@) =~= l.push(active_b@).push(active_a@) + r);
    }
    Ok(unary(prem, Rule::Ex, conclusion))
}

/// Dereliction: the first occurrence of `active` is put under a quest.
pub fn der(prem: Proof, active: &Formula) -> (res: Result<Proof, Error>)
    ensures
        match res {
            Ok(p) => {
                &&& split_at(prem.sequent(), active@) matches Some((l, r))
                &&& p.sequent() == l.push(quest_of(active@)) + r
                &&& p.rule == Rule::Der
                &&& p.premises@ == seq![prem]
            },
            Err(Error::ActiveNotFound(g, t)) => {
                &&& split_at(prem.sequent(), active@) is None
                &&& g@ == active@
                &&& formulas_view(t@) == prem.sequent()
            },
            Err(_) => false,
        },
{
    let split = match split_seq(clone_sequent(&prem.conclusion), active) {
        Ok(s) => s,
        Err(e) => {
            return Err(e);
        },
    };
    let mut conclusion = split.left;
    conclusion.push(Formula::Quest(Rc::new(split.active)));
    extend_sequent(&mut conclusion, &split.right);
    proof {
        let (l, r) = split_at(prem.sequent(), active@)->0;
        assert(formulas_view(conclusion@) =~= l.push(quest_of(active@)) + r);
    }
    Ok(unary(prem, Rule::Der, conclusion))
}

/// Whether every formula of `s` stands under a quest.
pub fn only_quests(s: &Sequent) -> (res: bool)
    ensures
        res == all_quest(formulas_view(s@)),
{
    let mut i: usize = 0;
    while i < s.len()
        invariant
            i <= s.len(),
            forall|j: int| 0 <= j < i ==> (#[trigger] formulas_view(s@)[j]) is Quest,
        decreases s.len() - i,
    {
        match &s[i] {
            Formula::Quest(_) => {},
            _ => {
                assert(!(formulas_view(s@)[i as int] is Quest));
                return false;
            },
        }
        i += 1;
    }
    true
}

/// Promotion: where every formula of the sequent stands under a quest, the
/// first occurrence of `active` is put under a bang.
pub fn prom(prem: Proof, active: &Formula) -> (res: Result<Proof, Error>)
    ensures
        match res {
            Ok(p) => {
                &&& all_quest(prem.sequent())
                &&& split_at(prem.sequent(), active@) matches Some((l, r))
                &&& p.sequent() == l.push(bang_of(active@)) + r
                &&& p.rule == Rule::Prom
                &&& p.premises@ == seq![prem]
            },
            Err(Error::CannotApply(rule)) => !all_quest(prem.sequent()) && rule == Rule::Prom,
            Err(Error::ActiveNotFound(g, t)) => {
                &&& all_quest(prem.sequent())
                &&& split_at(prem.sequent(), active@) is None
                &&& g@ == active@
                &&& formulas_view(t@) == prem.sequent()
            },
        },
{
    if only_quests(&prem.conclusion) {
        let split = match split_seq(clone_sequent(&prem.conclusion), active) {
            Ok(s) => s,
            Err(e) => {
                return Err(e);
            },
        };
        let mut conclusion = split.left;
        conclusion.push(Formula::Bang(Rc::new(split.active)));
        extend_sequent(&mut conclusion, &split.right);
        proof {
            let (l, r) = split_at(prem.sequent(), active@)->0;
            assert(formulas_view(conclusion@) =~= l.push(bang_of(active@)) + r);
        }
        Ok(unary(prem, Rule::Prom, conclusion))
    } else {
        Err(Error::CannotApply(Rule::Prom))
    }
}

/// Weakening: `active` under a quest is added at the end of the sequent.
pub fn weak(prem: Proof, active: &Formula) -> (res: Proof)
    ensures
        res.sequent() == prem.sequent().push(quest_of(active@)),
        res.rule == Rule::Weak,
        res.premises@ == seq![prem],
{
    let mut conclusion = clone_sequent(&prem.conclusion);
    conclusion.push(Formula::Quest(Rc::new(active.clone())));
    assert(formulas_view(conclusion@) =~= prem.sequent().push(quest_of(active@)));
    unary(prem, Rule::Weak, conclusion)
}

/// Contraction: of two occurrences of `active`, which has to stand under a
/// quest, the first leaves the sequent.
pub fn ctr(prem: Proof, active: &Formula) -> (res: Result<Proof, Error>)
    ensures
        match res {
            Ok(p) => {
                &&& active@ is Quest
                &&& split_two(prem.sequent(), active@, active@) matches Some((l, r))
                &&& p.sequent() == l.push(active@) + r
                &&& p.rule == Rule::Ctr
                &&& p.premises@ == seq![prem]
            },
            Err(Error::CannotApply(rule)) => !(active@ is Quest) && rule == Rule::Ctr,
            Err(Error::ActiveNotFound(g, t)) => {
                &&& active@ is Quest
                &&& split_two(prem.sequent(), active@, active@) is None
                &&& g@ == active@
                &&& formulas_view(t@) == searched_in(prem.sequent(), active@)
            },
        },
{
    match active {
        Formula::Quest(_) => {},
        _ => {
            return Err(Error::CannotApply(Rule::Ctr));
        },
    }
    let (left, first, second, right) = match split_twice(&prem, active, active) {
        Ok(parts) => parts,
        Err(e) => {
            return Err(e);
        },
    };
    let mut conclusion = left;
    conclusion.push(second);
    extend_sequent(&mut conclusion, &right);
    proof {
        let (l, r) = split_two(prem.sequent(), active@, active@)->0;
        assert(formulas_view(conclusion@) =~= l.push(active@) + r);
    }
    Ok(unary(prem, Rule::Ctr, conclusion))
}

} // verus!
