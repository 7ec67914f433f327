use crate::common::definitions::{AtomView, OrientedAtom};
use crate::mll::preformula::Preformula;
use std::ops::Neg;
use std::rc::Rc;
use vstd::prelude::*;

verus! {

/// A formula of multiplicative-exponential linear logic in negation normal
/// form: negation occurs only as the polarity of an atom.
#[derive(Debug)]
pub enum Formula {
    Atomic(OrientedAtom),
    Tensor(Rc<Formula>, Rc<Formula>),
    Par(Rc<Formula>, Rc<Formula>),
    Bang(Rc<Formula>),
    Quest(Rc<Formula>),
}

/// The mathematical content of a [`Formula`].
pub enum FormulaView {
    Atomic(AtomView),
    Tensor(Box<FormulaView>, Box<FormulaView>),
    Par(Box<FormulaView>, Box<FormulaView>),
    Bang(Box<FormulaView>),
    Quest(Box<FormulaView>),
}

impl FormulaView {
    /// The dual formula: tensor and par are exchanged, bang and quest are
    /// exchanged, and every atom changes its polarity.
    pub open spec fn negate(self) -> FormulaView
        decreases self,
    {
        match self {
            FormulaView::Atomic(a) => FormulaView::Atomic(a.flip()),
            FormulaView::Tensor(l, r) => FormulaView::Par(
                Box::new(l.negate()),
                Box::new(r.negate()),
            ),
            FormulaView::Par(l, r) => FormulaView::Tensor(
                Box::new(l.negate()),
                Box::new(r.negate()),
            ),
            FormulaView::Bang(f) => FormulaView::Quest(Box::new(f.negate())),
            FormulaView::Quest(f) => FormulaView::Bang(Box::new(f.negate())),
        }
    }

    /// The greatest number of nested exponentials.
    pub open spec fn depth(self) -> nat
        decreases self,
    {
        match self {
            FormulaView::Atomic(_) => 0,
            FormulaView::Tensor(l, r) => if l.depth() >= r.depth() {
                l.depth()
            } else {
                r.depth()
            },
            FormulaView::Par(l, r) => if l.depth() >= r.depth() {
                l.depth()
            } else {
                r.depth()
            },
            FormulaView::Bang(f) => f.depth() + 1,
            FormulaView::Quest(f) => f.depth() + 1,
        }
    }

    /// Duality is an involution.
    pub proof fn lemma_negate_involutive(self)
        ensures
            self.negate().negate() == self,
        decreases self,
    {
        match self {
            FormulaView::Atomic(a) => {},
            FormulaView::Tensor(l, r) => {
                l.lemma_negate_involutive();
                r.lemma_negate_involutive();
            },
            FormulaView::Par(l, r) => {
                l.lemma_negate_involutive();
                r.lemma_negate_involutive();
            },
            FormulaView::Bang(f) => {
                f.lemma_negate_involutive();
            },
            FormulaView::Quest(f) => {
                f.lemma_negate_involutive();
            },
        }
    }

    /// Duality keeps the exponential depth.
    pub proof fn lemma_negate_depth(self)
        ensures
            self.negate().depth() == self.depth(),
        decreases self,
    {
        match self {
            FormulaView::Atomic(a) => {},
            FormulaView::Tensor(l, r) => {
                l.lemma_negate_depth();
                r.lemma_negate_depth();
            },
            FormulaView::Par(l, r) => {
                l.lemma_negate_depth();
                r.lemma_negate_depth();
            },
            FormulaView::Bang(f) => {
                f.lemma_negate_depth();
            },
            FormulaView::Quest(f) => {
                f.lemma_negate_depth();
            },
        }
    }
}

impl Formula {
    /// The formula as a mathematical value.
    pub open spec fn model(&self) -> FormulaView
        decreases self,
    {
        match self {
            Formula::Atomic(a) => FormulaView::Atomic(a@),
            Formula::Tensor(l, r) => FormulaView::Tensor(Box::new(l.model()), Box::new(r.model())),
            Formula::Par(l, r) => FormulaView::Par(Box::new(l.model()), Box::new(r.model())),
            Formula::Bang(f) => FormulaView::Bang(Box::new(f.model())),
            Formula::Quest(f) => FormulaView::Quest(Box::new(f.model())),
        }
    }
}

impl View for Formula {
    type V = FormulaView;

    open spec fn view(&self) -> FormulaView {
        self.model()
    }
}

impl Clone for Formula {
    fn clone(&self) -> (res: Formula)
        ensures
            res == *self,
        decreases self,
    {
        match self {
            Formula::Atomic(a) => Formula::Atomic(a.clone()),
            Formula::Tensor(l, r) => Formula::Tensor(Rc::new((**l).clone()), Rc::new((**r).clone())),
            Formula::Par(l, r) => Formula::Par(Rc::new((**l).clone()), Rc::new((**r).clone())),
            Formula::Bang(f) => Formula::Bang(Rc::new((**f).clone())),
            Formula::Quest(f) => Formula::Quest(Rc::new((**f).clone())),
        }
    }
}

impl PartialEq for Formula {
    fn eq(&self, other: &Formula) -> (res: bool)
        decreases self,
    {
        match (self, other) {
            (Formula::Atomic(a), Formula::Atomic(b)) => a == b,
            (Formula::Tensor(l1, r1), Formula::Tensor(l2, r2)) => (**l1).eq(&**l2) && (**r1).eq(
                &**r2,
            ),
            (Formula::Par(l1, r1), Formula::Par(l2, r2)) => (**l1).eq(&**l2) && (**r1).eq(&**r2),
            (Formula::Bang(f1), Formula::Bang(f2)) => (**f1).eq(&**f2),
            (Formula::Quest(f1), Formula::Quest(f2)) => (**f1).eq(&**f2),
            _ => false,
        }
    }
}

impl vstd::std_specs::cmp::PartialEqSpecImpl for Formula {
    open spec fn obeys_eq_spec() -> bool {
        true
    }

    open spec fn eq_spec(&self, other: &Formula) -> bool {
        self@ == other@
    }
}

impl Eq for Formula {}

impl Neg for Formula {
    type Output = Formula;

    fn neg(self) -> (res: Formula)
        ensures
            res == self.spec_dual(),
            res@ == self@.negate(),
    {
        self.dual()
    }
}

impl vstd::std_specs::ops::NegSpecImpl for Formula {
    open spec fn obeys_neg_spec() -> bool {
        true
    }

    open spec fn neg_req(self) -> bool {
        true
    }

    open spec fn neg_spec(self) -> Formula {
        self.spec_dual()
    }
}

impl From<Preformula> for Formula {
    fn from(pr: Preformula) -> (res: Formula)
        ensures
            res@ == pr@.normal(),
    {
        pr.normalize()
    }
}

impl vstd::std_specs::convert::FromSpecImpl<Preformula> for Formula {
    open spec fn obeys_from_spec() -> bool {
        true
    }

    open spec fn from_spec(pr: Preformula) -> Formula {
        pr.spec_normal()
    }
}

impl From<OrientedAtom> for Formula {
    fn from(at: OrientedAtom) -> (res: Formula) {
        Formula::Atomic(at)
    }
}

impl vstd::std_specs::convert::FromSpecImpl<OrientedAtom> for Formula {
    open spec fn obeys_from_spec() -> bool {
        true
    }

    open spec fn from_spec(at: OrientedAtom) -> Formula {
        Formula::Atomic(at)
    }
}

impl Formula {
    /// The dual of this formula, built from the atoms of this formula.
    pub open spec fn spec_dual(self) -> Formula
        decreases self,
    {
        match self {
            Formula::Atomic(a) => Formula::Atomic(a.spec_flip()),
            Formula::Tensor(l, r) => Formula::Par(Rc::new(l.spec_dual()), Rc::new(r.spec_dual())),
            Formula::Par(l, r) => Formula::Tensor(Rc::new(l.spec_dual()), Rc::new(r.spec_dual())),
            Formula::Bang(f) => Formula::Quest(Rc::new(f.spec_dual())),
            Formula::Quest(f) => Formula::Bang(Rc::new(f.spec_dual())),
        }
    }

    /// The view of the dual is the dual of the view.
    pub proof fn lemma_spec_dual(&self)
        ensures
            self.spec_dual()@ == self@.negate(),
        decreases self,
    {
        match self {
            Formula::Atomic(a) => {},
            Formula::Tensor(l, r) => {
                l.lemma_spec_dual();
                r.lemma_spec_dual();
            },
            Formula::Par(l, r) => {
                l.lemma_spec_dual();
                r.lemma_spec_dual();
            },
            Formula::Bang(f) => {
                f.lemma_spec_dual();
            },
            Formula::Quest(f) => {
                f.lemma_spec_dual();
            },
        }
    }

    /// The dual of this formula.
    pub fn neg(self) -> (res: Formula)
        ensures
            res == self.spec_dual(),
            res@ == self@.negate(),
    {
        self.dual()
    }

    /// The dual of this formula.
    pub fn dual(&self) -> (res: Formula)
        ensures
            res == self.spec_dual(),
            res@ == self@.negate(),
        decreases self,
    {
        proof {
            self.lemma_spec_dual();
        }
        match self {
            Formula::Atomic(a) => Formula::Atomic(a.clone().flip()),
            Formula::Tensor(l, r) => Formula::Par(Rc::new((**l).dual()), Rc::new((**r).dual())),
            Formula::Par(l, r) => Formula::Tensor(Rc::new((**l).dual()), Rc::new((**r).dual())),
            Formula::Bang(f) => Formula::Quest(Rc::new((**f).dual())),
            Formula::Quest(f) => Formula::Bang(Rc::new((**f).dual())),
        }
    }

    /// The greatest number of nested exponentials.
    pub fn depth(&self) -> (res: i32)
        requires
            self@.depth() <= i32::MAX,
        ensures
            res == self@.depth(),
        decreases self,
    {
        match self {
            Formula::Atomic(_) => 0,
            Formula::Tensor(l, r) => {
                let dl: i32 = (**l).depth();
                let dr: i32 = (**r).depth();
                if dl >= dr {
                    dl
                } else {
                    dr
                }
            },
            Formula::Par(l, r) => {
                let dl: i32 = (**l).depth();
                let dr: i32 = (**r).depth();
                if dl >= dr {
                    dl
                } else {
                    dr
                }
            },
            Formula::Bang(f) => (**f).depth() + 1,
            Formula::Quest(f) => (**f).depth() + 1,
        }
    }

    /// Whether the formula has no exponential.
    pub fn is_linear(&self) -> (res: bool)
        ensures
            res == (self@.depth() == 0),
        decreases self,
    {
        match self {
            Formula::Atomic(_) => true,
            Formula::Tensor(l, r) => (**l).is_linear() && (**r).is_linear(),
            Formula::Par(l, r) => (**l).is_linear() && (**r).is_linear(),
            Formula::Bang(_) => false,
            Formula::Quest(_) => false,
        }
    }

    /// Whether no exponential of the formula stands under another.
    pub fn is_shallow(&self) -> (res: bool)
        ensures
            res == (self@.depth() <= 1),
        decreases self,
    {
        match self {
            Formula::Atomic(_) => true,
            Formula::Tensor(l, r) => (**l).is_shallow() && (**r).is_shallow(),
            Formula::Par(l, r) => (**l).is_shallow() && (**r).is_shallow(),
            Formula::Bang(f) => (**f).is_linear(),
            Formula::Quest(f) => (**f).is_linear(),
        }
    }
}

} // verus!
