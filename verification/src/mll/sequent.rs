use crate::common::sequences::{first_index, lemma_first_index_is, lemma_first_index_none};
use crate::mll::errors::Error;
use crate::mll::formula::{Formula, FormulaView};
use vstd::prelude::*;

verus! {

/// The formulas that a derivation has reached, in a row.
pub type Sequent = Vec<Formula>;

/// A sequent cut in three: the formulas before a chosen one, the chosen one,
/// and the formulas after it.
pub struct SplitSequent {
    pub left: Sequent,
    pub active: Formula,
    pub right: Sequent,
}

/// The mathematical content of a row of formulas.
pub open spec fn formulas_view(s: Seq<Formula>) -> Seq<FormulaView> {
    s.map_values(|f: Formula| f@)
}

/// The mathematical content of a row of sequents.
pub open spec fn sequents_view(s: Seq<Sequent>) -> Seq<Seq<FormulaView>> {
    s.map_values(|q: Sequent| formulas_view(q@))
}

/// The formulas equal to `f`.
pub open spec fn equals(f: FormulaView) -> spec_fn(FormulaView) -> bool {
    |x: FormulaView| x == f
}

/// A copy of a sequent.
pub fn clone_sequent(s: &Sequent) -> (res: Sequent)
    ensures
        res@ == s@,
{
    let mut out: Vec<Formula> = Vec::new();
    let mut i: usize = 0;
    while i < s.len()
        invariant
            i <= s.len(),
            out@ == s@.take(i as int),
        decreases s.len() - i,
    {
        out.push(s[i].clone());
        assert(out@ =~= s@.take(i as int + 1));
        i += 1;
    }
    assert(s@.take(i as int) =~= s@);
    out
}

/// Whether two sequents hold the same formulas in the same order.
pub fn same_sequent(a: &Sequent, b: &Sequent) -> (res: bool)
    ensures
        res == (formulas_view(a@) == formulas_view(b@)),
{
    if a.len() != b.len() {
        assert(formulas_view(a@).len() != formulas_view(b@).len());
        return false;
    }
    let mut i: usize = 0;
    while i < a.len()
        invariant
            i <= a.len(),
            a.len() == b.len(),
            forall|j: int| 0 <= j < i ==> a@[j]@ == b@[j]@,
        decreases a.len() - i,
    {
        if !(a[i] == b[i]) {
            assert(formulas_view(a@)[i as int] != formulas_view(b@)[i as int]);
            return false;
        }
        i += 1;
    }
    assert(formulas_view(a@) =~= formulas_view(b@));
    true
}

/// Appends copies of the formulas of `more` to `s`.
pub fn extend_sequent(s: &mut Sequent, more: &Sequent)
    ensures
        final(s)@ == old(s)@ + more@,
{
    let mut i: usize = 0;
    while i < more.len()
        invariant
            i <= more.len(),
            s@ == old(s)@ + more@.take(i as int),
        decreases more.len() - i,
    {
        s.push(more[i].clone());
        assert(s@ =~= old(s)@ + more@.take(i as int + 1));
        i += 1;
    }
    assert(more@.take(i as int) =~= more@);
}

/// The position of the first formula of `s` that is equal to `f`.
pub fn position(s: &Sequent, f: &Formula) -> (res: Option<usize>)
    ensures
        match res {
            Some(i) => first_index(formulas_view(s@), equals(f@)) == Some(i as int) && i < s.len(),
            None => first_index(formulas_view(s@), equals(f@)) is None,
        },
{
    let ghost p = equals(f@);
    let mut i: usize = 0;
    while i < s.len()
        invariant
            i <= s.len(),
            p == equals(f@),
            forall|j: int| 0 <= j < i ==> !p(formulas_view(s@)[j]),
        decreases s.len() - i,
    {
        if s[i] == *f {
            proof {
                lemma_first_index_is(formulas_view(s@), p, i as int);
            }
            return Some(i);
        }
        i += 1;
    }
    proof {
        lemma_first_index_none(formulas_view(s@), p);
    }
    None
}

/// Cuts `s` at the position `i`.
pub fn split_at_position(s: Sequent, i: usize) -> (res: SplitSequent)
    requires
        i < s.len(),
    ensures
        res.left@ == s@.take(i as int),
        res.active == s@[i as int],
        res.right@ == s@.skip(i as int + 1),
{
    let mut left: Vec<Formula> = Vec::new();
    let mut right: Vec<Formula> = Vec::new();
    let mut j: usize = 0;
    while j < i
        invariant
            j <= i < s.len(),
            left@ == s@.take(j as int),
        decreases i - j,
    {
        left.push(s[j].clone());
        assert(left@ =~= s@.take(j as int + 1));
        j += 1;
    }
    let active = s[i].clone();
    let mut k: usize = i + 1;
    while k < s.len()
        invariant
            i < k <= s.len(),
            right@ == s@.subrange(i as int + 1, k as int),
        decreases s.len() - k,
    {
        right.push(s[k].clone());
        assert(right@ =~= s@.subrange(i as int + 1, k as int + 1));
        k += 1;
    }
    assert(s@.subrange(i as int + 1, k as int) =~= s@.skip(i as int + 1));
    SplitSequent { left, active, right }
}

/// Cuts `s` at the first formula equal to `f`.
pub fn split_seq(s: Sequent, f: &Formula) -> (res: Result<SplitSequent, Error>)
    ensures
        match res {
            Ok(split) => {
                &&& first_index(formulas_view(s@), equals(f@)) matches Some(i)
                &&& split.left@ == s@.take(i)
                &&& split.active == s@[i]
                &&& split.right@ == s@.skip(i + 1)
            },
            Err(e) => {
                &&& first_index(formulas_view(s@), equals(f@)) is None
                &&& e matches Error::ActiveNotFound(g, t)
                &&& g == *f
                &&& t@ == s@
            },
        },
{
    match position(&s, f) {
        Some(i) => Ok(split_at_position(s, i)),
        None => Err(Error::ActiveNotFound(f.clone(), s)),
    }
}

} // verus!
