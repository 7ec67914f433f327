use crate::mll::deduction::{Deduction, DeductionRule, RuleKind, RuleView};
use crate::mll::formula::{Formula, FormulaView};
use crate::mll::sequent::{clone_sequent, extend_sequent, formulas_view, sequents_view, Sequent};
use std::rc::Rc;
use vstd::prelude::*;

verus! {

/// The par rule: two neighbours in a sequent are joined into one formula.
#[derive(PartialEq, Eq)]
pub struct Par {
    prem_left: Sequent,
    active_left: Formula,
    active_right: Formula,
    prem_right: Sequent,
}

/// What a par of `active_left` and `active_right` shows of itself, with the
/// formulas before and after them.
pub open spec fn par_view(
    prem_left: Seq<FormulaView>,
    active_left: FormulaView,
    active_right: FormulaView,
    prem_right: Seq<FormulaView>,
) -> RuleView {
    RuleView {
        kind: RuleKind::Par,
        premises: seq![prem_left.push(active_left).push(active_right) + prem_right],
        conclusion: prem_left.push(
            FormulaView::Par(Box::new(active_left), Box::new(active_right)),
        ) + prem_right,
        active: seq![active_left, active_right],
    }
}

impl Par {
    /// The par of `active_left` and `active_right`, with the formulas before
    /// and after them.
    pub fn new(prem_left: Sequent, active_left: Formula, active_right: Formula, prem_right: Sequent)
        -> (res: Par)
        ensures
            res.rule_view() == par_view(
                formulas_view(prem_left@),
                active_left@,
                active_right@,
                formulas_view(prem_right@),
            ),
    {
        Par { prem_left, active_left, active_right, prem_right }
    }
}

impl Par {
    /// The kind of this rule.
    pub proof fn lemma_kind(&self)
        ensures
            self.rule_view().kind == RuleKind::Par,
    {
    }
}

impl Clone for Par {
    fn clone(&self) -> (res: Par)
        ensures
            res.rule_view() == self.rule_view(),
    {
        let res = Par {
            prem_left: clone_sequent(&self.prem_left),
            active_left: self.active_left.clone(),
            active_right: self.active_right.clone(),
            prem_right: clone_sequent(&self.prem_right),
        };
        res
    }
}

impl Deduction for Par {
    closed spec fn rule_view(&self) -> RuleView {
        par_view(
            formulas_view(self.prem_left@),
            self.active_left@,
            self.active_right@,
            formulas_view(self.prem_right@),
        )
    }

    fn get_premises(&self) -> (res: Vec<Sequent>) {
        let mut prem = clone_sequent(&self.prem_left);
        prem.push(self.active_left.clone());
        prem.push(self.active_right.clone());
        extend_sequent(&mut prem, &self.prem_right);
        proof {
            assert(formulas_view(prem@) =~= self.rule_view().premises[0]);
        }
        let mut res: Vec<Sequent> = Vec::new();
        res.push(prem);
        assert(sequents_view(res@) =~= self.rule_view().premises);
        res
    }

    fn get_conclusion(&self) -> (res: Sequent) {
        let mut conc = clone_sequent(&self.prem_left);
        conc.push(
            Formula::Par(Rc::new(self.active_left.clone()), Rc::new(self.active_right.clone())),
        );
        extend_sequent(&mut conc, &self.prem_right);
        assert(formulas_view(conc@) =~= self.rule_view().conclusion);
        conc
    }

    fn get_active(&self) -> (res: Vec<Formula>) {
        let mut res: Vec<Formula> = Vec::new();
        res.push(self.active_left.clone());
        res.push(self.active_right.clone());
        assert(formulas_view(res@) =~= seq![self.active_left@, self.active_right@]);
        res
    }
}

impl From<Par> for DeductionRule {
    fn from(par: Par) -> (res: DeductionRule) {
        DeductionRule::Par(par)
    }
}

impl vstd::std_specs::convert::FromSpecImpl<Par> for DeductionRule {
    open spec fn obeys_from_spec() -> bool {
        true
    }

    open spec fn from_spec(par: Par) -> DeductionRule {
        DeductionRule::Par(par)
    }
}

} // verus!
