use linear_logic::mell::errors::Error;
use linear_logic::mell::formula::Formula;
use linear_logic::mell::preformula::{OrientedAtom, Polarity};
use linear_logic::mell::proof_tree::{ax, ctr, cut, der, ex, par, prom, tensor, weak, Rule};
use linear_logic::mell::sequent::split_seq;
use std::rc::Rc;

fn pos(name: &str) -> Formula {
    Formula::Atomic(OrientedAtom { atom: name.to_owned(), pol: Polarity::Pos })
}

fn neg(name: &str) -> Formula {
    Formula::Atomic(OrientedAtom { atom: name.to_owned(), pol: Polarity::Neg })
}

#[test]
fn church_2() {
    let atom: Formula = OrientedAtom {
        atom: "A".to_owned(),
        pol: Polarity::Pos,
    }
    .into();
    let atom_neg = atom.clone().neg();
    let ax_1 = ax(atom.clone());
    let ax_2 = ax(atom.clone());
    let tensor_1 = tensor(ax_1, ax_2, &atom, &atom_neg).unwrap();
    let ax_3 = ax(atom.clone());
    let tensor_2 = tensor(ax_3, tensor_1, &atom, &atom_neg).unwrap();
    let active = Formula::Tensor(Rc::new(atom.clone()), Rc::new(atom_neg.clone()));
    let der_1 = der(tensor_2, &active).unwrap();
    let der_2 = der(der_1, &active).unwrap();
    ctr(der_2, &Formula::Quest(Rc::new(active))).unwrap();
}

#[test]
fn church_2_sequents() {
    let a = pos("A");
    let na = neg("A");
    let t = Formula::Tensor(Rc::new(a.clone()), Rc::new(na.clone()));
    let qt = Formula::Quest(Rc::new(t.clone()));
    let tensor_1 = tensor(ax(a.clone()), ax(a.clone()), &a, &na).unwrap();
    assert_eq!(tensor_1.conclusion, vec![na.clone(), t.clone(), a.clone()]);
    assert_eq!(tensor_1.rule, Rule::Tensor);
    assert_eq!(tensor_1.premises.len(), 2);
    let tensor_2 = tensor(ax(a.clone()), tensor_1, &a, &na).unwrap();
    assert_eq!(tensor_2.conclusion, vec![na.clone(), t.clone(), t.clone(), a.clone()]);
    let der_1 = der(tensor_2, &t).unwrap();
    assert_eq!(der_1.conclusion, vec![na.clone(), qt.clone(), t.clone(), a.clone()]);
    let der_2 = der(der_1, &t).unwrap();
    assert_eq!(der_2.conclusion, vec![na.clone(), qt.clone(), qt.clone(), a.clone()]);
    let last = ctr(der_2, &qt).unwrap();
    assert_eq!(last.conclusion, vec![na, qt, a]);
    assert_eq!(last.rule, Rule::Ctr);
    assert_eq!(last.premises.len(), 1);
}

#[test]
fn axiom_sequent() {
    let p = ax(pos("A"));
    assert_eq!(p.conclusion, vec![neg("A"), pos("A")]);
    assert_eq!(p.rule, Rule::Ax);
    assert!(p.premises.is_empty());
}

#[test]
fn split_at_first_occurrence() {
    let s = vec![pos("A"), pos("B"), pos("C"), pos("B")];
    let split = split_seq(s, &pos("B")).unwrap();
    assert_eq!(split.left, vec![pos("A")]);
    assert_eq!(split.active, pos("B"));
    assert_eq!(split.right, vec![pos("C"), pos("B")]);
}

#[test]
fn split_fails_without_the_formula() {
    let s = vec![pos("A"), pos("B")];
    match split_seq(s.clone(), &neg("A")) {
        Err(Error::ActiveNotFound(f, t)) => {
            assert_eq!(f, neg("A"));
            assert_eq!(t, s);
        }
        _ => panic!("the formula is not in the sequent"),
    }
}

#[test]
fn cut_removes_the_dual_pair() {
    let a = pos("A");
    let b = pos("B");
    let left = weak(ax(a.clone()), &b);
    let right = ax(a.clone());
    let p = cut(left, right, &a).unwrap();
    assert_eq!(p.conclusion, vec![neg("A"), Formula::Quest(Rc::new(b)), pos("A")]);
    assert_eq!(p.rule, Rule::Cut);
    assert_eq!(p.premises.len(), 2);
}

#[test]
fn cut_fails_when_the_dual_is_missing() {
    let a = pos("A");
    let left = ax(a.clone());
    let right = ax(pos("B"));
    match cut(left, right, &a) {
        Err(Error::ActiveNotFound(f, t)) => {
            assert_eq!(f, neg("A"));
            assert_eq!(t, vec![neg("B"), pos("B")]);
        }
        _ => panic!("the dual is not in the right premise"),
    }
    match cut(ax(pos("B")), ax(a.clone()), &a) {
        Err(Error::ActiveNotFound(f, t)) => {
            assert_eq!(f, a);
            assert_eq!(t, vec![neg("B"), pos("B")]);
        }
        _ => panic!("the formula is not in the left premise"),
    }
}

#[test]
fn par_joins_two_formulas() {
    let a = pos("A");
    let na = neg("A");
    let p = par(ax(a.clone()), &na, &a).unwrap();
    assert_eq!(p.conclusion, vec![Formula::Par(Rc::new(na.clone()), Rc::new(a.clone()))]);
    assert_eq!(p.rule, Rule::Par);
    let q = par(ax(a.clone()), &a, &na).unwrap();
    assert_eq!(q.conclusion, vec![Formula::Par(Rc::new(a.clone()), Rc::new(na))]);
    assert!(matches!(par(ax(a.clone()), &a, &a), Err(Error::ActiveNotFound(..))));
}

#[test]
fn exchange_swaps_two_formulas() {
    let a = pos("A");
    let na = neg("A");
    let b = pos("B");
    let prem = weak(ax(a.clone()), &b);
    let p = ex(prem, &na, &a).unwrap();
    assert_eq!(p.conclusion, vec![a.clone(), na.clone(), Formula::Quest(Rc::new(b))]);
    assert_eq!(p.rule, Rule::Ex);
    assert!(matches!(ex(ax(a.clone()), &pos("C"), &a), Err(Error::ActiveNotFound(..))));
}

#[test]
fn dereliction_and_weakening() {
    let a = pos("A");
    let p = der(ax(a.clone()), &a).unwrap();
    assert_eq!(p.conclusion, vec![neg("A"), Formula::Quest(Rc::new(a.clone()))]);
    assert_eq!(p.rule, Rule::Der);
    let w = weak(ax(a.clone()), &pos("B"));
    assert_eq!(w.conclusion, vec![neg("A"), a.clone(), Formula::Quest(Rc::new(pos("B")))]);
    assert_eq!(w.rule, Rule::Weak);
    assert!(matches!(der(ax(a), &pos("B")), Err(Error::ActiveNotFound(..))));
}

#[test]
fn promotion_needs_quests_only() {
    let a = pos("A");
    assert!(matches!(prom(ax(a.clone()), &a), Err(Error::CannotApply(Rule::Prom))));
    let qa = Formula::Quest(Rc::new(a.clone()));
    let qn = Formula::Quest(Rc::new(neg("A")));
    let both = der(der(ax(a.clone()), &a).unwrap(), &neg("A")).unwrap();
    assert_eq!(both.conclusion, vec![qn.clone(), qa.clone()]);
    let p = prom(both, &qa).unwrap();
    assert_eq!(p.conclusion, vec![qn.clone(), Formula::Bang(Rc::new(qa.clone()))]);
    assert_eq!(p.rule, Rule::Prom);
    let again = der(der(ax(a.clone()), &a).unwrap(), &neg("A")).unwrap();
    assert!(matches!(prom(again, &a), Err(Error::ActiveNotFound(..))));
}

#[test]
fn contraction_needs_a_quest_twice() {
    let a = pos("A");
    assert!(matches!(ctr(ax(a.clone()), &a), Err(Error::CannotApply(Rule::Ctr))));
    let qa = Formula::Quest(Rc::new(a.clone()));
    let once = der(ax(a.clone()), &a).unwrap();
    assert!(matches!(ctr(once, &qa), Err(Error::ActiveNotFound(..))));
}

#[test]
fn mell_error_messages() {
    assert_eq!(Error::CannotApply(Rule::Prom).message(), "Cannot apply rule");
    assert_eq!(
        Error::ActiveNotFound(pos("A"), vec![]).message(),
        "Active formula was not found in sequent"
    );
}

#[test]
fn missing_formula_comes_with_the_sequent_that_was_searched() {
    let a = pos("A");
    let na = neg("A");
    match par(ax(a.clone()), &pos("C"), &a) {
        Err(Error::ActiveNotFound(f, t)) => {
            assert_eq!(f, pos("C"));
            assert_eq!(t, vec![na.clone(), a.clone()]);
        }
        _ => panic!("the first formula is not in the sequent"),
    }
    match par(ax(a.clone()), &a, &pos("C")) {
        Err(Error::ActiveNotFound(f, t)) => {
            assert_eq!(f, pos("C"));
            assert_eq!(t, vec![na.clone()]);
        }
        _ => panic!("the second formula is not in the sequent"),
    }
    match ex(ax(a.clone()), &na, &na) {
        Err(Error::ActiveNotFound(f, t)) => {
            assert_eq!(f, na);
            assert_eq!(t, vec![a.clone()]);
        }
        _ => panic!("the formula occurs once only"),
    }
    let qa = Formula::Quest(Rc::new(a.clone()));
    let once = der(ax(a.clone()), &a).unwrap();
    match ctr(once, &qa) {
        Err(Error::ActiveNotFound(f, t)) => {
            assert_eq!(f, qa);
            assert_eq!(t, vec![na.clone()]);
        }
        _ => panic!("the formula occurs once only"),
    }
    match ctr(ax(a.clone()), &qa) {
        Err(Error::ActiveNotFound(f, t)) => {
            assert_eq!(f, qa);
            assert_eq!(t, vec![na, a]);
        }
        _ => panic!("the formula is not in the sequent"),
    }
}
