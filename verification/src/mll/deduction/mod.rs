pub mod ax;
pub mod cut;
pub mod ex;
pub mod par;
pub mod tensor;

pub use ax::Ax;
pub use cut::Cut;
pub use ex::Ex;
pub use par::Par;
pub use tensor::Tensor;

use crate::mll::formula::{Formula, FormulaView};
use crate::mll::sequent::{formulas_view, sequents_view, Sequent};
use vstd::prelude::*;

verus! {

/// The kinds of rule of the sequent calculus.
#[derive(Debug, Clone, Copy, PartialEq, Eq, Structural)]
pub enum RuleKind {
    Ax,
    Cut,
    Tensor,
    Par,
    Ex,
}

/// What a rule application shows of itself: its kind, the sequents it starts
/// from, the sequent it arrives at, and the formulas it acts on.
pub struct RuleView {
    pub kind: RuleKind,
    pub premises: Seq<Seq<FormulaView>>,
    pub conclusion: Seq<FormulaView>,
    pub active: Seq<FormulaView>,
}

/// One application of a rule of the sequent calculus.
pub trait Deduction {
    /// The mathematical content of this rule application.
    spec fn rule_view(&self) -> RuleView;

    /// The sequents that the rule starts from.
    fn get_premises(&self) -> (res: Vec<Sequent>)
        ensures
            sequents_view(res@) == self.rule_view().premises,
    ;

    /// The sequent that the rule arrives at.
    fn get_conclusion(&self) -> (res: Sequent)
        ensures
            formulas_view(res@) == self.rule_view().conclusion,
    ;

    /// The formulas that the rule acts on.
    fn get_active(&self) -> (res: Vec<Formula>)
        ensures
            formulas_view(res@) == self.rule_view().active,
    ;
}

/// An application of one of the five rules.
#[derive(PartialEq, Eq)]
pub enum DeductionRule {
    Ax(Ax),
    Cut(Cut),
    Tensor(Tensor),
    Par(Par),
    Ex(Ex),
}

impl Clone for DeductionRule {
    fn clone(&self) -> (res: DeductionRule)
        ensures
            res.rule_view() == self.rule_view(),
    {
        match self {
            DeductionRule::Ax(ax) => DeductionRule::Ax(ax.clone()),
            DeductionRule::Cut(cut) => DeductionRule::Cut(cut.clone()),
            DeductionRule::Tensor(tensor) => DeductionRule::Tensor(tensor.clone()),
            DeductionRule::Par(par) => DeductionRule::Par(par.clone()),
            DeductionRule::Ex(ex) => DeductionRule::Ex(ex.clone()),
        }
    }
}

impl DeductionRule {
    /// The kind of this rule.
    pub fn kind(&self) -> (res: RuleKind)
        ensures
            res == self.rule_view().kind,
    {
        match self {
            DeductionRule::Ax(ax) => {
                proof {
                    ax.lemma_kind();
                }
                RuleKind::Ax
            },
            DeductionRule::Cut(cut) => {
                proof {
                    cut.lemma_kind();
                }
                RuleKind::Cut
            },
            DeductionRule::Tensor(tensor) => {
                proof {
                    tensor.lemma_kind();
                }
                RuleKind::Tensor
            },
            DeductionRule::Par(par) => {
                proof {
                    par.lemma_kind();
                }
                RuleKind::Par
            },
            DeductionRule::Ex(ex) => {
                proof {
                    ex.lemma_kind();
                }
                RuleKind::Ex
            },
        }
    }
}

impl Deduction for DeductionRule {
    open spec fn rule_view(&self) -> RuleView {
        match self {
            DeductionRule::Ax(ax) => ax.rule_view(),
            DeductionRule::Cut(cut) => cut.rule_view(),
            DeductionRule::Tensor(tensor) => tensor.rule_view(),
            DeductionRule::Par(par) => par.rule_view(),
            DeductionRule::Ex(ex) => ex.rule_view(),
        }
    }

    fn get_premises(&self) -> (res: Vec<Sequent>) {
        match self {
            DeductionRule::Ax(ax) => ax.get_premises(),
            DeductionRule::Cut(cut) => cut.get_premises(),
            DeductionRule::Tensor(tensor) => tensor.get_premises(),
            DeductionRule::Par(par) => par.get_premises(),
            DeductionRule::Ex(ex) => ex.get_premises(),
        }
    }

    fn get_conclusion(&self) -> (res: Sequent) {
        match self {
            DeductionRule::Ax(ax) => ax.get_conclusion(),
            DeductionRule::Cut(cut) => cut.get_conclusion(),
            DeductionRule::Tensor(tensor) => tensor.get_conclusion(),
            DeductionRule::Par(par) => par.get_conclusion(),
            DeductionRule::Ex(ex) => ex.get_conclusion(),
        }
    }

    fn get_active(&self) -> (res: Vec<Formula>) {
        match self {
            DeductionRule::Ax(ax) => ax.get_active(),
            DeductionRule::Cut(cut) => cut.get_active(),
            DeductionRule::Tensor(tensor) => tensor.get_active(),
            DeductionRule::Par(par) => par.get_active(),
            DeductionRule::Ex(ex) => ex.get_active(),
        }
    }
}

} // verus!
