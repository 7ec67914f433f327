use crate::mll::deduction::{Deduction, DeductionRule, RuleKind, RuleView};
use crate::mll::formula::{Formula, FormulaView};
use crate::mll::sequent::{clone_sequent, extend_sequent, formulas_view, sequents_view, Sequent};
use std::rc::Rc;
use vstd::prelude::*;

verus! {

/// The tensor rule: a formula of one sequent and a formula of another are
/// joined, and so are the two sequents.
#[derive(PartialEq, Eq)]
pub struct Tensor {
    left_left: Sequent,
    active_left: Formula,
    left_right: Sequent,
    right_left: Sequent,
    active_right: Formula,
    right_right: Sequent,
}

/// What a tensor of `active_left` and `active_right` shows of itself, with the
/// formulas around each of them in its premise.
pub open spec fn tensor_view(
    left_left: Seq<FormulaView>,
    active_left: FormulaView,
    left_right: Seq<FormulaView>,
    right_left: Seq<FormulaView>,
    active_right: FormulaView,
    right_right: Seq<FormulaView>,
) -> RuleView {
    RuleView {
        kind: RuleKind::Tensor,
        premises: seq![
            left_left.push(active_left) + left_right,
            right_left.push(active_right) + right_right,
        ],
        conclusion: (left_left + left_right).push(
            FormulaView::Tensor(Box::new(active_left), Box::new(active_right)),
        ) + right_left + right_right,
        active: seq![active_left, active_right],
    }
}

impl Tensor {
    /// The tensor of `active_left` and `active_right`, with the formulas
    /// that stand around each of them in its premise.
    pub fn new(
        left_left: Sequent,
        active_left: Formula,
        left_right: Sequent,
        right_left: Sequent,
        active_right: Formula,
        right_right: Sequent,
    ) -> (res: Tensor)
        ensures
            res.rule_view() == tensor_view(
                formulas_view(left_left@),
                active_left@,
                formulas_view(left_right@),
                formulas_view(right_left@),
                active_right@,
                formulas_view(right_right@),
            ),
    {
        Tensor { left_left, active_left, left_right, right_left, active_right, right_right }
    }
}

impl Tensor {
    /// The kind of this rule.
    pub proof fn lemma_kind(&self)
        ensures
            self.rule_view().kind == RuleKind::Tensor,
    {
    }
}

impl Clone for Tensor {
    fn clone(&self) -> (res: Tensor)
        ensures
            res.rule_view() == self.rule_view(),
    {
        let res = Tensor {
            left_left: clone_sequent(&self.left_left),
            active_left: self.active_left.clone(),
            left_right: clone_sequent(&self.left_right),
            right_left: clone_sequent(&self.right_left),
            active_right: self.active_right.clone(),
            right_right: clone_sequent(&self.right_right),
        };
        res
    }
}

impl Deduction for Tensor {
    closed spec fn rule_view(&self) -> RuleView {
        tensor_view(
            formulas_view(self.left_left@),
            self.active_left@,
            formulas_view(self.left_right@),
            formulas_view(self.right_left@),
            self.active_right@,
            formulas_view(self.right_right@),
        )
    }

    fn get_premises(&self) -> (res: Vec<Sequent>) {
        let mut left = clone_sequent(&self.left_left);
        left.push(self.active_left.clone());
        extend_sequent(&mut left, &self.left_right);
        let mut right = clone_sequent(&self.right_left);
        right.push(self.active_right.clone());
        extend_sequent(&mut right, &self.right_right);
        proof {
            assert(formulas_view(left@) =~= self.rule_view().premises[0]);
            assert(formulas_view(right@) =~= self.rule_view().premises[1]);
        }
        let mut res: Vec<Sequent> = Vec::new();
        res.push(left);
        res.push(right);
        assert(sequents_view(res@) =~= self.rule_view().premises);
        res
    }

    fn get_conclusion(&self) -> (res: Sequent) {
        let mut conc = clone_sequent(&self.left_left);
        extend_sequent(&mut conc, &self.left_right);
        conc.push(
            Formula::Tensor(Rc::new(self.active_left.clone()), Rc::new(self.active_right.clone())),
        );
        extend_sequent(&mut conc, &self.right_left);
        extend_sequent(&mut conc, &self.right_right);
        assert(formulas_view(conc@) =~= self.rule_view().conclusion);
        conc
    }

    fn get_active(&self) -> (res: Vec<Formula>) {
        let mut res: Vec<Formula> = Vec::new();
        res.push(self.active_left.clone());
        res.push(self.active_right.clone());
        assert(formulas_view(res@) =~= seq![self.active_left@, self.active_right@]);
        res
    }
}

impl From<Tensor> for DeductionRule {
    fn from(tensor: Tensor) -> (res: DeductionRule) {
        DeductionRule::Tensor(tensor)
    }
}

impl vstd::std_specs::convert::FromSpecImpl<Tensor> for DeductionRule {
    open spec fn obeys_from_spec() -> bool {
        true
    }

    open spec fn from_spec(tensor: Tensor) -> DeductionRule {
        DeductionRule::Tensor(tensor)
    }
}

} // verus!
