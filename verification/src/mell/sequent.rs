use crate::common::sequences::{first_index, lemma_first_index};
use crate::mell::errors::Error;
use crate::mell::formula::{Formula, FormulaView};
pub use crate::mll::sequent::{
    clone_sequent, equals, extend_sequent, formulas_view, position, same_sequent,
    split_at_position, Sequent, SplitSequent,
};
use vstd::prelude::*;

verus! {

/// The formulas before and after the first occurrence of `f` in `s`, if `f`
/// occurs in `s`.
pub open spec fn split_at(s: Seq<FormulaView>, f: FormulaView) -> Option<
    (Seq<FormulaView>, Seq<FormulaView>),
> {
    match first_index(s, equals(f)) {
        Some(i) => Some((s.take(i), s.skip(i + 1))),
        None => None,
    }
}

/// `s` without the first occurrence of `f`, if `f` occurs in `s`.
pub open spec fn without_first(s: Seq<FormulaView>, f: FormulaView) -> Option<Seq<FormulaView>> {
    match split_at(s, f) {
        Some((left, right)) => Some(left + right),
        None => None,
    }
}

/// Cuts `s` at the first formula equal to `f`.
pub fn split_seq(s: Sequent, f: &Formula) -> (res: Result<SplitSequent, Error>)
    ensures
        match res {
            Ok(split) => {
                &&& split_at(formulas_view(s@), f@) == Some(
                    (formulas_view(split.left@), formulas_view(split.right@)),
                )
                &&& split.active@ == f@
            },
            Err(e) => {
                &&& split_at(formulas_view(s@), f@) is None
                &&& e matches Error::ActiveNotFound(g, t)
                &&& g@ == f@
                &&& formulas_view(t@) == formulas_view(s@)
            },
        },
{
    match position(&s, f) {
        Some(i) => {
            let split = split_at_position(s, i);
            proof {
                assert(formulas_view(split.left@) =~= formulas_view(s@).take(i as int));
                assert(formulas_view(split.right@) =~= formulas_view(s@).skip(i as int + 1));
                assert(formulas_view(s@)[i as int] == s@[i as int]@);
                lemma_first_index(formulas_view(s@), equals(f@));
            }
            Ok(split)
        },
        None => Err(Error::ActiveNotFound(f.clone(), s)),
    }
}

} // verus!
