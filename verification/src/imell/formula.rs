use crate::common::definitions::{AtomView, OrientedAtom};
use crate::common::sequences::{
    first_index, lemma_filter_none, lemma_filter_push, lemma_first_index_is,
    lemma_first_index_none,
};
use crate::imell::errors::Error;
use std::rc::Rc;
use vstd::prelude::*;

verus! {

/// A formula of intuitionistic linear logic.
#[derive(Debug)]
pub enum Formula {
    Atomic(OrientedAtom),
    Tensor(Rc<Formula>, Rc<Formula>),
    Impl(Rc<Formula>, Rc<Formula>),
    Neg(Rc<Formula>),
    Bang(Rc<Formula>),
}

/// The mathematical content of a [`Formula`].
pub enum FormulaView {
    Atomic(AtomView),
    Tensor(Box<FormulaView>, Box<FormulaView>),
    Impl(Box<FormulaView>, Box<FormulaView>),
    Neg(Box<FormulaView>),
    Bang(Box<FormulaView>),
}

impl Formula {
    /// The formula as a mathematical value.
    pub open spec fn model(&self) -> FormulaView
        decreases self,
    {
        match self {
            Formula::Atomic(a) => FormulaView::Atomic(a@),
            Formula::Tensor(l, r) => FormulaView::Tensor(Box::new(l.model()), Box::new(r.model())),
            Formula::Impl(l, r) => FormulaView::Impl(Box::new(l.model()), Box::new(r.model())),
            Formula::Neg(f) => FormulaView::Neg(Box::new(f.model())),
            Formula::Bang(f) => FormulaView::Bang(Box::new(f.model())),
        }
    }
}

impl View for Formula {
    type V = FormulaView;

    open spec fn view(&self) -> FormulaView {
        self.model()
    }
}

impl Clone for Formula {
    fn clone(&self) -> (res: Formula)
        ensures
            res == *self,
        decreases self,
    {
        match self {
            Formula::Atomic(a) => Formula::Atomic(a.clone()),
            Formula::Tensor(l, r) => Formula::Tensor(Rc::new((**l).clone()), Rc::new((**r).clone())),
            Formula::Impl(l, r) => Formula::Impl(Rc::new((**l).clone()), Rc::new((**r).clone())),
            Formula::Neg(f) => Formula::Neg(Rc::new((**f).clone())),
            Formula::Bang(f) => Formula::Bang(Rc::new((**f).clone())),
        }
    }
}

impl PartialEq for Formula {
    fn eq(&self, other: &Formula) -> (res: bool)
        decreases self,
    {
        match (self, other) {
            (Formula::Atomic(a), Formula::Atomic(b)) => a == b,
            (Formula::Tensor(l1, r1), Formula::Tensor(l2, r2)) => (**l1).eq(&**l2) && (**r1).eq(
                &**r2,
            ),
            (Formula::Impl(l1, r1), Formula::Impl(l2, r2)) => (**l1).eq(&**l2) && (**r1).eq(&**r2),
            (Formula::Neg(f1), Formula::Neg(f2)) => (**f1).eq(&**f2),
            (Formula::Bang(f1), Formula::Bang(f2)) => (**f1).eq(&**f2),
            _ => false,
        }
    }
}

impl vstd::std_specs::cmp::PartialEqSpecImpl for Formula {
    open spec fn obeys_eq_spec() -> bool {
        true
    }

    open spec fn eq_spec(&self, other: &Formula) -> bool {
        self@ == other@
    }
}

impl Eq for Formula {}

/// A sequent with formulas on the left and one formula on the right.
#[derive(Debug)]
pub struct Sequent {
    pub antecent: Vec<Formula>,
    pub succedent: Formula,
}

/// The mathematical content of a [`Sequent`].
pub struct SequentView {
    pub antecent: Seq<FormulaView>,
    pub succedent: FormulaView,
}

/// The mathematical content of a row of formulas.
pub open spec fn formulas_view(s: Seq<Formula>) -> Seq<FormulaView> {
    s.map_values(|f: Formula| f@)
}

impl View for Sequent {
    type V = SequentView;

    open spec fn view(&self) -> SequentView {
        SequentView { antecent: formulas_view(self.antecent@), succedent: self.succedent@ }
    }
}

impl Clone for Sequent {
    fn clone(&self) -> (res: Sequent)
        ensures
            res@ == self@,
    {
        Sequent { antecent: clone_formulas(&self.antecent), succedent: self.succedent.clone() }
    }
}

/// A sequent whose left side is cut in three: the formulas before a chosen
/// one, the chosen one, and the formulas after it.
pub struct SplitSequent {
    pub left_ante: Vec<Formula>,
    pub active: Formula,
    pub right_ante: Vec<Formula>,
    pub succedent: Formula,
}

/// The formulas equal to `f`.
pub open spec fn equals(f: FormulaView) -> spec_fn(FormulaView) -> bool {
    |x: FormulaView| x == f
}

/// The formulas other than `f`.
pub open spec fn differs(f: FormulaView) -> spec_fn(FormulaView) -> bool {
    |x: FormulaView| x != f
}

/// The formulas of `s` before the first `f`, and the formulas after it that
/// are not equal to `f`, if `f` occurs in `s`.
pub open spec fn split_at(s: Seq<FormulaView>, f: FormulaView) -> Option<
    (Seq<FormulaView>, Seq<FormulaView>),
> {
    match first_index(s, equals(f)) {
        Some(i) => Some((s.take(i), s.skip(i + 1).filter(differs(f)))),
        None => None,
    }
}

/// A copy of a row of formulas.
pub fn clone_formulas(s: &Vec<Formula>) -> (res: Vec<Formula>)
    ensures
        res@ == s@,
{
    let mut out: Vec<Formula> = Vec::new();
    let mut i: usize = 0;
    while i < s.len()
        invariant
            i <= s.len(),
            out@ == s@.take(i as int),
        decreases s.len() - i,
    {
        out.push(s[i].clone());
        assert(out@ =~= s@.take(i as int + 1));
        i += 1;
    }
    assert(s@.take(i as int) =~= s@);
    out
}

/// Appends copies of the formulas of `more` to `s`.
pub fn extend_formulas(s: &mut Vec<Formula>, more: &Vec<Formula>)
    ensures
        final(s)@ == old(s)@ + more@,
{
    let mut i: usize = 0;
    while i < more.len()
        invariant
            i <= more.len(),
            s@ == old(s)@ + more@.take(i as int),
        decreases more.len() - i,
    {
        s.push(more[i].clone());
        assert(s@ =~= old(s)@ + more@.take(i as int + 1));
        i += 1;
    }
    assert(more@.take(i as int) =~= more@);
}

/// Cuts the left side of `s` at the first formula equal to `active`. Every
/// later formula equal to `active` is left out.
pub fn split_seq(active: &Formula, s: Sequent) -> (res: Result<SplitSequent, Error>)
    ensures
        match res {
            Ok(split) => {
                &&& split_at(s@.antecent, active@) == Some(
                    (formulas_view(split.left_ante@), formulas_view(split.right_ante@)),
                )
                &&& split.active@ == active@
                &&& split.succedent@ == s@.succedent
            },
            Err(e) => {
                &&& split_at(s@.antecent, active@) is None
                &&& e matches Error::ActiveNotFound(g, t)
                &&& g@ == active@
                &&& t@ == s@
            },
        },
{
    let ghost all = s@.antecent;
    let ghost p = equals(active@);
    let ghost q = differs(active@);
    let mut active_found: Option<Formula> = None;
    let mut right: Vec<Formula> = Vec::new();
    let mut left: Vec<Formula> = Vec::new();
    let mut i: usize = 0;
    while i < s.antecent.len()
        invariant
            i <= s.antecent.len(),
            all == formulas_view(s.antecent@),
            p == equals(active@),
            q == differs(active@),
            match active_found {
                None => {
                    &&& forall|j: int| 0 <= j < i ==> !p(all[j])
                    &&& formulas_view(left@) == all.take(i as int)
                    &&& right@.len() == 0
                },
                Some(form) => {
                    &&& form@ == active@
                    &&& first_index(all, p) matches Some(k)
                    &&& 0 <= k < i
                    &&& formulas_view(left@) == all.take(k)
                    &&& formulas_view(right@) == all.subrange(k + 1, i as int).filter(q)
                },
            },
        decreases s.antecent.len() - i,
    {
        let form = s.antecent[i].clone();
        assert(all[i as int] == form@);
        if form == *active {
            proof {
                match active_found {
                    None => {
                        lemma_first_index_is(all, p, i as int);
                        assert(all.subrange(i as int + 1, i as int + 1) =~= Seq::empty());
                        lemma_filter_none(
                            all.subrange(i as int + 1, i as int + 1),
                            q,
                        );
                    },
                    Some(_) => {
                        let k = first_index(all, p)->0;
                        lemma_subrange_filter_step(all, k + 1, i as int, q);
                    },
                }
            }
            active_found = Some(form);
        } else if active_found.is_some() {
            proof {
                let k = first_index(all, p)->0;
                lemma_subrange_filter_step(all, k + 1, i as int, q);
            }
            right.push(form);
            proof {
                let k = first_index(all, p)->0;
                assert(formulas_view(right@) =~= all.subrange(k + 1, i as int).filter(q).push(
                    all[i as int],
                ));
            }
        } else {
            left.push(form);
            assert(formulas_view(left@) =~= all.take(i as int + 1));
        }
        i += 1;
    }
    match active_found {
        Some(form) => {
            proof {
                let k = first_index(all, p)->0;
                assert(all.subrange(k + 1, i as int) =~= all.skip(k + 1));
            }
            Ok(
                SplitSequent {
                    left_ante: left,
                    active: form,
                    right_ante: right,
                    succedent: s.succedent,
                },
            )
        },
        None => {
            proof {
                lemma_first_index_none(all, p);
            }
            Err(Error::ActiveNotFound(active.clone(), s))
        },
    }
}

/// Filtering a stretch of a sequence that is one item longer.
pub proof fn lemma_subrange_filter_step<A>(s: Seq<A>, from: int, to: int, p: spec_fn(A) -> bool)
    requires
        0 <= from <= to < s.len(),
    ensures
        s.subrange(from, to + 1).filter(p) == if p(s[to]) {
            s.subrange(from, to).filter(p).push(s[to])
        } else {
            s.subrange(from, to).filter(p)
        },
{
    assert(s.subrange(from, to + 1) =~= s.subrange(from, to).push(s[to]));
    lemma_filter_push(s.subrange(from, to), s[to], p);
}

} // verus!
