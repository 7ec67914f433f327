use crate::mll::deduction::{Ax, Deduction, DeductionRule, RuleView};
use crate::mll::errors::Error;
use crate::mll::formula::FormulaView;
use crate::mll::sequent::{clone_sequent, formulas_view, same_sequent, sequents_view};
use vstd::prelude::*;

verus! {

/// A derivation: a rule application over the derivations of its premises.
#[derive(PartialEq, Eq)]
pub struct Proof {
    conclusion: DeductionRule,
    premises: Vec<Proof>,
}

/// The mathematical content of a [`Proof`]: a tree of rule applications.
pub struct ProofView {
    pub rule: RuleView,
    pub premises: Seq<ProofView>,
}

impl ProofView {
    /// The number of rule applications in the derivation.
    pub open spec fn size(self) -> nat
        decreases self,
    {
        1 + sizes(self.premises)
    }
}

/// The number of rule applications in a row of derivations.
pub open spec fn sizes(ps: Seq<ProofView>) -> nat
    decreases ps,
{
    if ps.len() == 0 {
        0
    } else {
        sizes(ps.drop_last()) + ps.last().size()
    }
}

impl Proof {
    /// The derivation as a mathematical value.
    pub closed spec fn model(&self) -> ProofView
        decreases self,
    {
        ProofView {
            rule: self.conclusion.rule_view(),
            premises: Seq::new(
                self.premises@.len(),
                |i: int|
                    if 0 <= i < self.premises@.len() {
                        self.premises@[i].model()
                    } else {
                        arbitrary()
                    },
            ),
        }
    }
}

impl View for Proof {
    type V = ProofView;

    open spec fn view(&self) -> ProofView {
        self.model()
    }
}

/// The mathematical content of a row of derivations.
pub open spec fn proofs_view(ps: Seq<Proof>) -> Seq<ProofView> {
    ps.map_values(|p: Proof| p@)
}

/// Whether the `i`-th derivation ends in the `i`-th sequent, for every `i`
/// below `n`.
pub open spec fn premises_match(
    wanted: Seq<Seq<FormulaView>>,
    given: Seq<ProofView>,
    n: int,
) -> bool {
    forall|i: int| 0 <= i < n ==> (#[trigger] given[i]).rule.conclusion == wanted[i]
}

/// The size of a prefix is at most the size of the whole row.
pub proof fn lemma_sizes_prefix(ps: Seq<ProofView>, n: int)
    requires
        0 <= n <= ps.len(),
    ensures
        sizes(ps.take(n)) <= sizes(ps),
    decreases ps.len() - n,
{
    if n < ps.len() {
        lemma_sizes_prefix(ps, n + 1);
        assert(ps.take(n + 1).drop_last() =~= ps.take(n));
    } else {
        assert(ps.take(n) =~= ps);
    }
}

impl Clone for Proof {
    fn clone(&self) -> (res: Proof)
        ensures
            res@ == self@,
        decreases self,
    {
        let mut premises: Vec<Proof> = Vec::new();
        let mut i: usize = 0;
        while i < self.premises.len()
            invariant
                i <= self.premises.len(),
                premises.len() == i,
                forall|j: int| 0 <= j < i ==> premises@[j]@ == self.premises@[j]@,
            decreases self.premises.len() - i,
        {
            premises.push(self.premises[i].clone());
            i += 1;
        }
        let res = Proof { conclusion: self.conclusion.clone(), premises };
        assert(res@.premises =~= self@.premises);
        res
    }
}

impl Proof {
    /// The derivation that consists of one axiom.
    pub fn new(ax: Ax) -> (res: Proof)
        ensures
            res@ == (ProofView { rule: ax.rule_view(), premises: Seq::empty() }),
    {
        let res = Proof { premises: Vec::new(), conclusion: DeductionRule::Ax(ax) };
        assert(res@.premises =~= Seq::empty());
        res
    }

    /// The last rule application of the derivation.
    pub fn conclusion(&self) -> (res: DeductionRule)
        ensures
            res.rule_view() == self@.rule,
    {
        self.conclusion.clone()
    }

    /// The derivations of the premises of the last rule application.
    pub fn premises(&self) -> (res: Vec<Proof>)
        ensures
            proofs_view(res@) == self@.premises,
    {
        let mut out: Vec<Proof> = Vec::new();
        let mut i: usize = 0;
        while i < self.premises.len()
            invariant
                i <= self.premises.len(),
                out.len() == i,
                forall|j: int| 0 <= j < i ==> out@[j]@ == self.premises@[j]@,
            decreases self.premises.len() - i,
        {
            out.push(self.premises[i].clone());
            i += 1;
        }
        assert(proofs_view(out@) =~= self@.premises);
        out
    }

    /// The number of rule applications in the derivation, if the machine can
    /// count them.
    pub fn node_count(&self) -> (res: Option<usize>)
        ensures
            match res {
                Some(n) => n == self@.size(),
                None => self@.size() > usize::MAX,
            },
        decreases self,
    {
        let mut total: usize = 1;
        let mut i: usize = 0;
        while i < self.premises.len()
            invariant
                i <= self.premises.len(),
                total == 1 + sizes(self@.premises.take(i as int)),
            decreases self.premises.len() - i,
        {
            proof {
                assert(self@.premises.take(i as int + 1).drop_last() =~= self@.premises.take(
                    i as int,
                ));
                assert(self@.premises.take(i as int + 1).last() == self.premises@[i as int]@);
                lemma_sizes_prefix(self@.premises, i as int + 1);
            }
            let below = match self.premises[i].node_count() {
                Some(n) => n,
                None => {
                    return None;
                },
            };
            total = match total.checked_add(below) {
                Some(n) => n,
                None => {
                    return None;
                },
            };
            i += 1;
        }
        assert(self@.premises.take(i as int) =~= self@.premises);
        Some(total)
    }

    /// Puts `rule` over the derivations `premises`, which have to end in the
    /// sequents that `rule` starts from, one for one.
    pub fn combine(rule: DeductionRule, premises: Vec<Proof>) -> (res: Result<Proof, Error>)
        ensures
            match res {
                Ok(tree) => {
                    &&& premises.len() == rule.rule_view().premises.len()
                    &&& premises_match(
                        rule.rule_view().premises,
                        proofs_view(premises@),
                        premises.len() as int,
                    )
                    &&& tree@ == (ProofView {
                        rule: rule.rule_view(),
                        premises: proofs_view(premises@),
                    })
                },
                Err(Error::WrongNumberOfPremises { expected, found }) => {
                    &&& premises.len() != rule.rule_view().premises.len()
                    &&& found == premises.len() as i32
                    &&& expected == rule.rule_view().premises.len() as i32
                },
                Err(Error::SequentMismatch(got, wanted)) => {
                    &&& premises.len() == rule.rule_view().premises.len()
                    &&& exists|i: int|
                        {
                            &&& 0 <= i < premises.len()
                            &&& premises_match(
                                rule.rule_view().premises,
                                proofs_view(premises@),
                                i,
                            )
                            &&& formulas_view(got@) == #[trigger] proofs_view(
                                premises@,
                            )[i].rule.conclusion
                            &&& formulas_view(wanted@) == rule.rule_view().premises[i]
                            &&& formulas_view(got@) != formulas_view(wanted@)
                        }
                },
                Err(_) => false,
            },
    {
        let rule_premises = rule.get_premises();
        assert(sequents_view(rule_premises@).len() == rule_premises.len());
        if premises.len() != rule_premises.len() {
            return Err(
                Error::WrongNumberOfPremises {
                    found: #[verifier::truncate]
                    (premises.len() as i32),
                    expected: #[verifier::truncate]
                    (rule_premises.len() as i32),
                },
            );
        }
        let mut i: usize = 0;
        while i < premises.len()
            invariant
                i <= premises.len(),
                premises.len() == rule_premises.len(),
                sequents_view(rule_premises@) == rule.rule_view().premises,
                premises_match(rule.rule_view().premises, proofs_view(premises@), i as int),
            decreases premises.len() - i,
        {
            let proof_conclusion = premises[i].conclusion.get_conclusion();
            assert(proofs_view(premises@)[i as int] == premises@[i as int]@);
            assert(sequents_view(rule_premises@)[i as int] == formulas_view(
                rule_premises@[i as int]@,
            ));
            if !same_sequent(&proof_conclusion, &rule_premises[i]) {
                let wanted = clone_sequent(&rule_premises[i]);
                proof {
                    let k = i as int;
                    assert(formulas_view(proof_conclusion@) == proofs_view(
                        premises@,
                    )[k].rule.conclusion);
                    assert(formulas_view(wanted@) == rule.rule_view().premises[k]);
                }
                return Err(Error::SequentMismatch(proof_conclusion, wanted));
            }
            i += 1;
        }
        let tree = Proof { conclusion: rule, premises };
        assert(tree@.premises =~= proofs_view(premises@));
        Ok(tree)
    }
}

} // verus!
