use crate::common::definitions::{AtomView, OrientedAtom};
use crate::mll::formula::{Formula, FormulaView};
use std::rc::Rc;
use vstd::prelude::*;

verus! {

/// A formula in which negation may stand before any subformula.
#[derive(Debug)]
pub enum Preformula {
    Atomic(OrientedAtom),
    Tensor(Rc<Preformula>, Rc<Preformula>),
    Par(Rc<Preformula>, Rc<Preformula>),
    Neg(Rc<Preformula>),
    Bang(Rc<Preformula>),
    Quest(Rc<Preformula>),
}

/// The mathematical content of a [`Preformula`].
pub enum PreformulaView {
    Atomic(AtomView),
    Tensor(Box<PreformulaView>, Box<PreformulaView>),
    Par(Box<PreformulaView>, Box<PreformulaView>),
    Neg(Box<PreformulaView>),
    Bang(Box<PreformulaView>),
    Quest(Box<PreformulaView>),
}

impl PreformulaView {
    /// The formula in negation normal form that means the same: every
    /// negation is pushed inwards until it is the polarity of an atom.
    pub open spec fn normal(self) -> FormulaView
        decreases self,
    {
        match self {
            PreformulaView::Atomic(a) => FormulaView::Atomic(a),
            PreformulaView::Tensor(l, r) => FormulaView::Tensor(
                Box::new(l.normal()),
                Box::new(r.normal()),
            ),
            PreformulaView::Par(l, r) => FormulaView::Par(
                Box::new(l.normal()),
                Box::new(r.normal()),
            ),
            PreformulaView::Neg(p) => p.normal().negate(),
            PreformulaView::Bang(p) => FormulaView::Bang(Box::new(p.normal())),
            PreformulaView::Quest(p) => FormulaView::Quest(Box::new(p.normal())),
        }
    }
}

impl FormulaView {
    /// The formula as a preformula without negation signs.
    pub open spec fn embed(self) -> PreformulaView
        decreases self,
    {
        match self {
            FormulaView::Atomic(a) => PreformulaView::Atomic(a),
            FormulaView::Tensor(l, r) => PreformulaView::Tensor(
                Box::new(l.embed()),
                Box::new(r.embed()),
            ),
            FormulaView::Par(l, r) => PreformulaView::Par(Box::new(l.embed()), Box::new(r.embed())),
            FormulaView::Bang(f) => PreformulaView::Bang(Box::new(f.embed())),
            FormulaView::Quest(f) => PreformulaView::Quest(Box::new(f.embed())),
        }
    }

    /// A formula is the normal form of itself taken as a preformula.
    pub proof fn lemma_embed_normal(self)
        ensures
            self.embed().normal() == self,
        decreases self,
    {
        match self {
            FormulaView::Atomic(a) => {},
            FormulaView::Tensor(l, r) => {
                l.lemma_embed_normal();
                r.lemma_embed_normal();
            },
            FormulaView::Par(l, r) => {
                l.lemma_embed_normal();
                r.lemma_embed_normal();
            },
            FormulaView::Bang(f) => {
                f.lemma_embed_normal();
            },
            FormulaView::Quest(f) => {
                f.lemma_embed_normal();
            },
        }
    }

    /// The dual of a formula is the normal form of its negation.
    pub proof fn lemma_negate_is_normal_of_neg(self)
        ensures
            PreformulaView::Neg(Box::new(self.embed())).normal() == self.negate(),
    {
        self.lemma_embed_normal();
    }
}

impl Preformula {
    /// The preformula as a mathematical value.
    pub open spec fn model(&self) -> PreformulaView
        decreases self,
    {
        match self {
            Preformula::Atomic(a) => PreformulaView::Atomic(a@),
            Preformula::Tensor(l, r) => PreformulaView::Tensor(
                Box::new(l.model()),
                Box::new(r.model()),
            ),
            Preformula::Par(l, r) => PreformulaView::Par(Box::new(l.model()), Box::new(r.model())),
            Preformula::Neg(p) => PreformulaView::Neg(Box::new(p.model())),
            Preformula::Bang(p) => PreformulaView::Bang(Box::new(p.model())),
            Preformula::Quest(p) => PreformulaView::Quest(Box::new(p.model())),
        }
    }

    /// The formula in negation normal form that means the same, built from
    /// the atoms of this preformula.
    pub open spec fn spec_normal(&self) -> Formula
        decreases self,
    {
        match self {
            Preformula::Atomic(a) => Formula::Atomic(*a),
            Preformula::Tensor(l, r) => Formula::Tensor(
                Rc::new(l.spec_normal()),
                Rc::new(r.spec_normal()),
            ),
            Preformula::Par(l, r) => Formula::Par(
                Rc::new(l.spec_normal()),
                Rc::new(r.spec_normal()),
            ),
            Preformula::Neg(p) => p.spec_normal().spec_dual(),
            Preformula::Bang(p) => Formula::Bang(Rc::new(p.spec_normal())),
            Preformula::Quest(p) => Formula::Quest(Rc::new(p.spec_normal())),
        }
    }

    /// The view of the normal form is the normal form of the view.
    pub proof fn lemma_spec_normal(&self)
        ensures
            self.spec_normal()@ == self@.normal(),
        decreases self,
    {
        match self {
            Preformula::Atomic(a) => {},
            Preformula::Tensor(l, r) => {
                l.lemma_spec_normal();
                r.lemma_spec_normal();
            },
            Preformula::Par(l, r) => {
                l.lemma_spec_normal();
                r.lemma_spec_normal();
            },
            Preformula::Neg(p) => {
                p.lemma_spec_normal();
                let inner = p.spec_normal();
                inner.lemma_spec_dual();
            },
            Preformula::Bang(p) => {
                p.lemma_spec_normal();
            },
            Preformula::Quest(p) => {
                p.lemma_spec_normal();
            },
        }
    }

    /// The formula `f` as a preformula without negation signs, built from
    /// the atoms of `f`.
    pub open spec fn spec_embed(f: Formula) -> Preformula
        decreases f,
    {
        match f {
            Formula::Atomic(a) => Preformula::Atomic(a),
            Formula::Tensor(l, r) => Preformula::Tensor(
                Rc::new(Preformula::spec_embed(*l)),
                Rc::new(Preformula::spec_embed(*r)),
            ),
            Formula::Par(l, r) => Preformula::Par(
                Rc::new(Preformula::spec_embed(*l)),
                Rc::new(Preformula::spec_embed(*r)),
            ),
            Formula::Bang(p) => Preformula::Bang(Rc::new(Preformula::spec_embed(*p))),
            Formula::Quest(p) => Preformula::Quest(Rc::new(Preformula::spec_embed(*p))),
        }
    }

    /// The view of an embedded formula is the embedded view.
    pub proof fn lemma_spec_embed(f: &Formula)
        ensures
            Preformula::spec_embed(*f)@ == f@.embed(),
        decreases f,
    {
        match f {
            Formula::Atomic(a) => {},
            Formula::Tensor(l, r) => {
                Preformula::lemma_spec_embed(&**l);
                Preformula::lemma_spec_embed(&**r);
            },
            Formula::Par(l, r) => {
                Preformula::lemma_spec_embed(&**l);
                Preformula::lemma_spec_embed(&**r);
            },
            Formula::Bang(p) => {
                Preformula::lemma_spec_embed(&**p);
            },
            Formula::Quest(p) => {
                Preformula::lemma_spec_embed(&**p);
            },
        }
    }

    /// The formula in negation normal form that means the same.
    pub fn normalize(&self) -> (res: Formula)
        ensures
            res == self.spec_normal(),
            res@ == self@.normal(),
        decreases self,
    {
        proof {
            self.lemma_spec_normal();
        }
        match self {
            Preformula::Atomic(at) => Formula::Atomic(at.clone()),
            Preformula::Tensor(l, r) => Formula::Tensor(
                Rc::new((**l).normalize()),
                Rc::new((**r).normalize()),
            ),
            Preformula::Par(l, r) => Formula::Par(
                Rc::new((**l).normalize()),
                Rc::new((**r).normalize()),
            ),
            Preformula::Neg(p) => (**p).normalize().neg(),
            Preformula::Bang(p) => Formula::Bang(Rc::new((**p).normalize())),
            Preformula::Quest(p) => Formula::Quest(Rc::new((**p).normalize())),
        }
    }

    /// The formula `f` as a preformula without negation signs.
    pub fn embed(f: &Formula) -> (res: Preformula)
        ensures
            res == Preformula::spec_embed(*f),
            res@ == f@.embed(),
        decreases f,
    {
        proof {
            Preformula::lemma_spec_embed(f);
        }
        match f {
            Formula::Atomic(at) => Preformula::Atomic(at.clone()),
            Formula::Tensor(l, r) => Preformula::Tensor(
                Rc::new(Preformula::embed(&**l)),
                Rc::new(Preformula::embed(&**r)),
            ),
            Formula::Par(l, r) => Preformula::Par(
                Rc::new(Preformula::embed(&**l)),
                Rc::new(Preformula::embed(&**r)),
            ),
            Formula::Bang(p) => Preformula::Bang(Rc::new(Preformula::embed(&**p))),
            Formula::Quest(p) => Preformula::Quest(Rc::new(Preformula::embed(&**p))),
        }
    }
}

impl View for Preformula {
    type V = PreformulaView;

    open spec fn view(&self) -> PreformulaView {
        self.model()
    }
}

impl Clone for Preformula {
    fn clone(&self) -> (res: Preformula)
        ensures
            res == *self,
        decreases self,
    {
        match self {
            Preformula::Atomic(a) => Preformula::Atomic(a.clone()),
            Preformula::Tensor(l, r) => Preformula::Tensor(
                Rc::new((**l).clone()),
                Rc::new((**r).clone()),
            ),
            Preformula::Par(l, r) => Preformula::Par(Rc::new((**l).clone()), Rc::new((**r).clone())),
            Preformula::Neg(p) => Preformula::Neg(Rc::new((**p).clone())),
            Preformula::Bang(p) => Preformula::Bang(Rc::new((**p).clone())),
            Preformula::Quest(p) => Preformula::Quest(Rc::new((**p).clone())),
        }
    }
}

impl From<Formula> for Preformula {
    fn from(f: Formula) -> (res: Preformula)
        ensures
            res@ == f@.embed(),
    {
        Preformula::embed(&f)
    }
}

impl vstd::std_specs::convert::FromSpecImpl<Formula> for Preformula {
    open spec fn obeys_from_spec() -> bool {
        true
    }

    open spec fn from_spec(f: Formula) -> Preformula {
        Preformula::spec_embed(f)
    }
}

} // verus!
