use crate::mll::deduction::{Deduction, DeductionRule, RuleKind, RuleView};
use crate::mll::formula::{Formula, FormulaView};
use crate::mll::sequent::{clone_sequent, extend_sequent, formulas_view, sequents_view, Sequent};
use vstd::prelude::*;

verus! {

/// The exchange rule: two neighbours in a sequent change places.
#[derive(PartialEq, Eq)]
pub struct Ex {
    prem_left: Sequent,
    active_left: Formula,
    active_right: Formula,
    prem_right: Sequent,
}

/// What an exchange of `active_left` and `active_right` shows of itself, with
/// the formulas before and after them.
pub open spec fn ex_view(
    prem_left: Seq<FormulaView>,
    active_left: FormulaView,
    active_right: FormulaView,
    prem_right: Seq<FormulaView>,
) -> RuleView {
    RuleView {
        kind: RuleKind::Ex,
        premises: seq![prem_left.push(active_left).push(active_right) + prem_right],
        conclusion: prem_left.push(active_right).push(active_left) + prem_right,
        active: seq![active_left, active_right],
    }
}

impl Ex {
    /// The exchange of `active_left` and `active_right`, with the formulas
    /// before and after them.
    pub fn new(prem_left: Sequent, active_left: Formula, active_right: Formula, prem_right: Sequent)
        -> (res: Ex)
        ensures
            res.rule_view() == ex_view(
                formulas_view(prem_left@),
                active_left@,
                active_right@,
                formulas_view(prem_right@),
            ),
    {
        Ex { prem_left, active_left, active_right, prem_right }
    }
}

impl Ex {
    /// The kind of this rule.
    pub proof fn lemma_kind(&self)
        ensures
            self.rule_view().kind == RuleKind::Ex,
    {
    }
}

impl Clone for Ex {
    fn clone(&self) -> (res: Ex)
        ensures
            res.rule_view() == self.rule_view(),
    {
        let res = Ex {
            prem_left: clone_sequent(&self.prem_left),
            active_left: self.active_left.clone(),
            active_right: self.active_right.clone(),
            prem_right: clone_sequent(&self.prem_right),
        };
        res
    }
}

impl Deduction for Ex {
    closed spec fn rule_view(&self) -> RuleView {
        ex_view(
            formulas_view(self.prem_left@),
            self.active_left@,
            self.active_right@,
            formulas_view(self.prem_right@),
        )
    }

    fn get_premises(&self) -> (res: Vec<Sequent>) {
        let mut prem = clone_sequent(&self.prem_left);
        prem.push(self.active_left.clone());
        prem.push(self.active_right.clone());
        extend_sequent(&mut prem, &self.prem_right);
        proof {
            assert(formulas_view(prem@) =~= self.rule_view().premises[0]);
        }
        let mut res: Vec<Sequent> = Vec::new();
        res.push(prem);
        assert(sequents_view(res@) =~= self.rule_view().premises);
        res
    }

    fn get_conclusion(&self) -> (res: Sequent) {
        let mut conc = clone_sequent(&self.prem_left);
        conc.push(self.active_right.clone());
        conc.push(self.active_left.clone());
        extend_sequent(&mut conc, &self.prem_right);
        assert(formulas_view(conc@) =~= self.rule_view().conclusion);
        conc
    }

    fn get_active(&self) -> (res: Vec<Formula>) {
        let mut res: Vec<Formula> = Vec::new();
        res.push(self.active_left.clone());
        res.push(self.active_right.clone());
        assert(formulas_view(res@) =~= seq![self.active_left@, self.active_right@]);
        res
    }
}

impl From<Ex> for DeductionRule {
    fn from(ex: Ex) -> (res: DeductionRule) {
        DeductionRule::Ex(ex)
    }
}

impl vstd::std_specs::convert::FromSpecImpl<Ex> for DeductionRule {
    open spec fn obeys_from_spec() -> bool {
        true
    }

    open spec fn from_spec(ex: Ex) -> DeductionRule {
        DeductionRule::Ex(ex)
    }
}

} // verus!
