use crate::mll::deduction::{Deduction, DeductionRule, RuleKind, RuleView};
use crate::mll::formula::{Formula, FormulaView};
use crate::mll::sequent::{clone_sequent, extend_sequent, formulas_view, sequents_view, Sequent};
use vstd::prelude::*;

verus! {

/// The cut rule: a formula in one sequent meets its dual in another, and
/// both leave.
#[derive(PartialEq, Eq)]
pub struct Cut {
    left_left: Sequent,
    left_right: Sequent,
    right_left: Sequent,
    right_right: Sequent,
    active: Formula,
}

/// What a cut on `active` shows of itself, with the formulas around `active`
/// in the left premise and around its dual in the right premise.
pub open spec fn cut_view(
    left_left: Seq<FormulaView>,
    left_right: Seq<FormulaView>,
    right_left: Seq<FormulaView>,
    right_right: Seq<FormulaView>,
    active: FormulaView,
) -> RuleView {
    RuleView {
        kind: RuleKind::Cut,
        premises: seq![
            left_left.push(active) + left_right,
            right_left.push(active.negate()) + right_right,
        ],
        conclusion: left_left + left_right + right_left + right_right,
        active: seq![active, active.negate()],
    }
}

impl Cut {
    /// The cut on `active`, with the formulas that stand around `active` in
    /// the left premise and around its dual in the right premise.
    pub fn new(
        left_left: Sequent,
        left_right: Sequent,
        right_left: Sequent,
        right_right: Sequent,
        active: Formula,
    ) -> (res: Cut)
        ensures
            res.rule_view() == cut_view(
                formulas_view(left_left@),
                formulas_view(left_right@),
                formulas_view(right_left@),
                formulas_view(right_right@),
                active@,
            ),
    {
        Cut { left_left, left_right, right_left, right_right, active }
    }
}

impl Cut {
    /// The kind of this rule.
    pub proof fn lemma_kind(&self)
        ensures
            self.rule_view().kind == RuleKind::Cut,
    {
    }
}

impl Clone for Cut {
    fn clone(&self) -> (res: Cut)
        ensures
            res.rule_view() == self.rule_view(),
    {
        let res = Cut {
            left_left: clone_sequent(&self.left_left),
            left_right: clone_sequent(&self.left_right),
            right_left: clone_sequent(&self.right_left),
            right_right: clone_sequent(&self.right_right),
            active: self.active.clone(),
        };
        res
    }
}

impl Deduction for Cut {
    closed spec fn rule_view(&self) -> RuleView {
        cut_view(
            formulas_view(self.left_left@),
            formulas_view(self.left_right@),
            formulas_view(self.right_left@),
            formulas_view(self.right_right@),
            self.active@,
        )
    }

    fn get_premises(&self) -> (res: Vec<Sequent>) {
        let mut left = clone_sequent(&self.left_left);
        left.push(self.active.clone());
        extend_sequent(&mut left, &self.left_right);
        let mut right = clone_sequent(&self.right_left);
        right.push(self.active.clone().neg());
        extend_sequent(&mut right, &self.right_right);
        proof {
            assert(formulas_view(left@) =~= self.rule_view().premises[0]);
            assert(formulas_view(right@) =~= self.rule_view().premises[1]);
        }
        let mut res: Vec<Sequent> = Vec::new();
        res.push(left);
        res.push(right);
        assert(sequents_view(res@) =~= self.rule_view().premises);
        res
    }

    fn get_conclusion(&self) -> (res: Sequent) {
        let mut conc = clone_sequent(&self.left_left);
        extend_sequent(&mut conc, &self.left_right);
        extend_sequent(&mut conc, &self.right_left);
        extend_sequent(&mut conc, &self.right_right);
        assert(formulas_view(conc@) =~= self.rule_view().conclusion);
        conc
    }

    fn get_active(&self) -> (res: Vec<Formula>) {
        let mut res: Vec<Formula> = Vec::new();
        res.push(self.active.clone());
        res.push(self.active.clone().neg());
        assert(formulas_view(res@) =~= seq![self.active@, self.active@.negate()]);
        res
    }
}

impl From<Cut> for DeductionRule {
    fn from(cut: Cut) -> (res: DeductionRule) {
        DeductionRule::Cut(cut)
    }
}

impl vstd::std_specs::convert::FromSpecImpl<Cut> for DeductionRule {
    open spec fn obeys_from_spec() -> bool {
        true
    }

    open spec fn from_spec(cut: Cut) -> DeductionRule {
        DeductionRule::Cut(cut)
    }
}

} // verus!
