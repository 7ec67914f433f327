use crate::mll::deduction::{Deduction, DeductionRule, RuleKind, RuleView};
use crate::mll::formula::{Formula, FormulaView};
use crate::mll::sequent::{formulas_view, sequents_view, Sequent};
use vstd::prelude::*;

verus! {

/// The axiom rule: from nothing to a formula beside its dual.
#[derive(PartialEq, Eq)]
pub struct Ax {
    active: Formula,
}

/// What an axiom on `f` shows of itself.
pub open spec fn ax_view(f: FormulaView) -> RuleView {
    RuleView {
        kind: RuleKind::Ax,
        premises: Seq::empty(),
        conclusion: seq![f.negate(), f],
        active: seq![f.negate(), f],
    }
}

impl Ax {
    /// The axiom on `active`.
    pub fn new(active: Formula) -> (res: Ax)
        ensures
            res.rule_view() == ax_view(active@),
    {
        Ax { active }
    }
}

impl Ax {
    /// The kind of this rule.
    pub proof fn lemma_kind(&self)
        ensures
            self.rule_view().kind == RuleKind::Ax,
    {
    }
}

impl Clone for Ax {
    fn clone(&self) -> (res: Ax)
        ensures
            res.rule_view() == self.rule_view(),
    {
        Ax { active: self.active.clone() }
    }
}

impl Deduction for Ax {
    closed spec fn rule_view(&self) -> RuleView {
        ax_view(self.active@)
    }

    fn get_premises(&self) -> (res: Vec<Sequent>) {
        let res: Vec<Sequent> = Vec::new();
        assert(sequents_view(res@) =~= Seq::empty());
        res
    }

    fn get_conclusion(&self) -> (res: Sequent) {
        let mut res: Vec<Formula> = Vec::new();
        res.push(self.active.clone().neg());
        res.push(self.active.clone());
        assert(formulas_view(res@) =~= seq![self.active@.negate(), self.active@]);
        res
    }

    fn get_active(&self) -> (res: Vec<Formula>) {
        let mut res: Vec<Formula> = Vec::new();
        res.push(self.active.clone().neg());
        res.push(self.active.clone());
        assert(formulas_view(res@) =~= seq![self.active@.negate(), self.active@]);
        res
    }
}

impl From<Ax> for DeductionRule {
    fn from(ax: Ax) -> (res: DeductionRule) {
        DeductionRule::Ax(ax)
    }
}

impl vstd::std_specs::convert::FromSpecImpl<Ax> for DeductionRule {
    open spec fn obeys_from_spec() -> bool {
        true
    }

    open spec fn from_spec(ax: Ax) -> DeductionRule {
        DeductionRule::Ax(ax)
    }
}

} // verus!
