use linear_logic::common::definitions::{OrientedAtom, Polarity};
use linear_logic::imell::deduction::{
    ax, ctr, cut, der, ex, left_impl, left_tensor, prom, right_impl, right_tensor, weak, Rule,
};
use linear_logic::imell::errors::Error;
use linear_logic::imell::formula::{split_seq, Formula, Sequent};
use std::rc::Rc;

fn atom(name: &str) -> Formula {
    Formula::Atomic(OrientedAtom { atom: name.to_owned(), pol: Polarity::Pos })
}

fn bang(f: Formula) -> Formula {
    Formula::Bang(Rc::new(f))
}

fn seq(antecent: Vec<Formula>, succedent: Formula) -> Sequent {
    Sequent { antecent, succedent }
}

#[test]
fn imell_formulas_compare_by_structure() {
    let a = atom("A");
    let b = atom("B");
    assert_eq!(a, atom("A"));
    assert_ne!(a, b);
    assert_eq!(
        Formula::Impl(Rc::new(a.clone()), Rc::new(b.clone())),
        Formula::Impl(Rc::new(a.clone()), Rc::new(b.clone()))
    );
    assert_ne!(
        Formula::Impl(Rc::new(a.clone()), Rc::new(b.clone())),
        Formula::Tensor(Rc::new(a.clone()), Rc::new(b.clone()))
    );
    assert_ne!(Formula::Neg(Rc::new(a.clone())), bang(a.clone()));
    assert_eq!(bang(a.clone()).clone(), bang(a));
}

#[test]
fn imell_split_leaves_out_later_occurrences() {
    let s = seq(vec![atom("A"), atom("B"), atom("C"), atom("B"), atom("D")], atom("E"));
    let split = split_seq(&atom("B"), s).unwrap();
    assert_eq!(split.left_ante, vec![atom("A")]);
    assert_eq!(split.active, atom("B"));
    assert_eq!(split.right_ante, vec![atom("C"), atom("D")]);
    assert_eq!(split.succedent, atom("E"));
}

#[test]
fn imell_split_fails_without_the_formula() {
    let s = seq(vec![atom("A")], atom("E"));
    match split_seq(&atom("B"), s) {
        Err(Error::ActiveNotFound(f, t)) => {
            assert_eq!(f, atom("B"));
            assert_eq!(t.antecent, vec![atom("A")]);
            assert_eq!(t.succedent, atom("E"));
        }
        _ => panic!("the formula is not in the sequent"),
    }
}

#[test]
fn imell_axiom() {
    let p = ax(&atom("A"));
    assert_eq!(p.rule(), Rule::Ax);
    assert!(p.premises().is_empty());
    assert_eq!(p.conclusion().antecent, vec![atom("A")]);
    assert_eq!(p.conclusion().succedent, atom("A"));
}

#[test]
fn imell_cut() {
    let left = seq(vec![atom("C")], atom("A"));
    let right = seq(vec![atom("D"), atom("A")], atom("B"));
    let p = cut(left, right).unwrap();
    assert_eq!(p.rule(), Rule::Cut);
    assert_eq!(p.premises().len(), 2);
    assert_eq!(p.conclusion().antecent, vec![atom("C"), atom("D")]);
    assert_eq!(p.conclusion().succedent, atom("B"));
    let wrong = cut(seq(vec![], atom("A")), seq(vec![atom("A"), atom("D")], atom("B")));
    assert!(matches!(wrong, Err(Error::ActiveNotFound(f, _)) if f == atom("A")));
    let empty = cut(seq(vec![], atom("A")), seq(vec![], atom("B")));
    assert!(matches!(empty, Err(Error::ActiveNotFound(f, _)) if f == atom("A")));
}

#[test]
fn imell_tensor_rules() {
    let prem = seq(vec![atom("C"), atom("A"), atom("D"), atom("B"), atom("E")], atom("F"));
    let p = left_tensor(prem, &atom("A"), &atom("B")).unwrap();
    assert_eq!(p.rule(), Rule::LTensor);
    assert_eq!(p.conclusion().antecent, vec![atom("C"), atom("D"), atom("E")]);
    assert_eq!(p.conclusion().succedent, atom("F"));
    let backwards = seq(vec![atom("B"), atom("A")], atom("F"));
    assert!(matches!(
        left_tensor(backwards, &atom("A"), &atom("B")),
        Err(Error::ActiveNotFound(f, _)) if f == atom("B")
    ));
    let q = right_tensor(seq(vec![atom("A")], atom("B")), seq(vec![atom("C")], atom("D")));
    assert_eq!(q.rule(), Rule::RTensor);
    assert_eq!(q.conclusion().antecent, vec![atom("A"), atom("C")]);
    assert_eq!(
        q.conclusion().succedent,
        Formula::Tensor(Rc::new(atom("B")), Rc::new(atom("D")))
    );
}

#[test]
fn imell_implication_rules() {
    let left = seq(vec![atom("C")], atom("A"));
    let right = seq(vec![atom("D"), atom("B"), atom("E")], atom("F"));
    let p = left_impl(left, right, &atom("B")).unwrap();
    assert_eq!(p.rule(), Rule::LImpl);
    assert_eq!(
        p.conclusion().antecent,
        vec![
            atom("C"),
            Formula::Impl(Rc::new(atom("A")), Rc::new(atom("B"))),
            atom("D"),
            atom("E")
        ]
    );
    assert_eq!(p.conclusion().succedent, atom("F"));
    let q = right_impl(seq(vec![atom("C"), atom("A")], atom("B")), &atom("A")).unwrap();
    assert_eq!(q.rule(), Rule::RImpl);
    assert_eq!(q.conclusion().antecent, vec![atom("C")]);
    assert_eq!(q.conclusion().succedent, Formula::Impl(Rc::new(atom("A")), Rc::new(atom("B"))));
    assert!(matches!(
        right_impl(seq(vec![atom("C")], atom("B")), &atom("A")),
        Err(Error::ActiveNotFound(..))
    ));
    assert!(matches!(
        left_impl(seq(vec![], atom("A")), seq(vec![], atom("B")), &atom("C")),
        Err(Error::ActiveNotFound(..))
    ));
}

#[test]
fn imell_exchange() {
    let prem = seq(vec![atom("C"), atom("A"), atom("D"), atom("B"), atom("E")], atom("F"));
    let p = ex(prem, &atom("A"), &atom("B")).unwrap();
    assert_eq!(p.rule(), Rule::Ex);
    assert_eq!(
        p.conclusion().antecent,
        vec![atom("C"), atom("B"), atom("A"), atom("D"), atom("E")]
    );
    assert!(matches!(
        ex(seq(vec![atom("A")], atom("F")), &atom("B"), &atom("A")),
        Err(Error::ActiveNotFound(f, _)) if f == atom("B")
    ));
}

#[test]
fn imell_exponential_rules() {
    let p = der(seq(vec![atom("C"), atom("A")], atom("B")), &atom("A")).unwrap();
    assert_eq!(p.rule(), Rule::Der);
    assert_eq!(p.conclusion().antecent, vec![atom("C"), bang(atom("A"))]);
    assert!(matches!(
        der(seq(vec![atom("C")], atom("B")), &atom("A")),
        Err(Error::ActiveNotFound(..))
    ));
    let w = weak(seq(vec![atom("C")], atom("B")), &atom("A"));
    assert_eq!(w.rule(), Rule::Weak);
    assert_eq!(w.conclusion().antecent, vec![atom("C"), bang(atom("A"))]);
    assert_eq!(w.conclusion().succedent, atom("B"));
    let q = prom(seq(vec![atom("C")], atom("B"))).unwrap();
    assert_eq!(q.rule(), Rule::Prom);
    assert_eq!(q.conclusion().antecent, vec![atom("C")]);
    assert_eq!(q.conclusion().succedent, bang(atom("B")));
    assert!(matches!(
        prom(seq(vec![atom("C"), bang(atom("A"))], atom("B"))),
        Err(Error::CannotApply(Rule::Prom))
    ));
}

#[test]
fn imell_contraction_never_finds_the_second_occurrence() {
    let twice = seq(vec![bang(atom("A")), bang(atom("A"))], atom("B"));
    assert!(matches!(
        ctr(twice, &bang(atom("A"))),
        Err(Error::ActiveNotFound(f, _)) if f == bang(atom("A"))
    ));
    assert!(matches!(
        ctr(seq(vec![atom("A"), atom("A")], atom("B")), &atom("A")),
        Err(Error::CannotApply(Rule::Ctr))
    ));
}

#[test]
fn imell_error_messages() {
    assert_eq!(Error::CannotApply(Rule::Ctr).message(), "Cannot apply rule");
    assert_eq!(
        Error::ActiveNotFound(atom("A"), seq(vec![], atom("A"))).message(),
        "Could not find formula in sequent"
    );
}

#[test]
fn imell_missing_formula_comes_with_the_sequent_that_was_searched() {
    let prem = seq(vec![atom("C"), atom("A"), atom("D")], atom("F"));
    match left_tensor(prem, &atom("B"), &atom("A")) {
        Err(Error::ActiveNotFound(f, t)) => {
            assert_eq!(f, atom("B"));
            assert_eq!(t.antecent, vec![atom("C"), atom("A"), atom("D")]);
            assert_eq!(t.succedent, atom("F"));
        }
        _ => panic!("the first formula is not in the sequent"),
    }
    let prem = seq(vec![atom("C"), atom("A"), atom("D"), atom("A")], atom("F"));
    match left_tensor(prem, &atom("A"), &atom("B")) {
        Err(Error::ActiveNotFound(f, t)) => {
            assert_eq!(f, atom("B"));
            assert_eq!(t.antecent, vec![atom("D")]);
            assert_eq!(t.succedent, atom("F"));
        }
        _ => panic!("the second formula is not in the sequent"),
    }
    let prem = seq(vec![atom("C"), atom("A"), atom("D")], atom("F"));
    match ex(prem, &atom("A"), &atom("C")) {
        Err(Error::ActiveNotFound(f, t)) => {
            assert_eq!(f, atom("C"));
            assert_eq!(t.antecent, vec![atom("D")]);
            assert_eq!(t.succedent, atom("F"));
        }
        _ => panic!("the second formula does not follow the first"),
    }
    let twice = seq(vec![atom("C"), bang(atom("A")), atom("D"), bang(atom("A"))], atom("B"));
    match ctr(twice, &bang(atom("A"))) {
        Err(Error::ActiveNotFound(f, t)) => {
            assert_eq!(f, bang(atom("A")));
            assert_eq!(t.antecent, vec![atom("D")]);
            assert_eq!(t.succedent, atom("B"));
        }
        _ => panic!("the second occurrence is never found"),
    }
    match ctr(seq(vec![atom("C")], atom("B")), &bang(atom("A"))) {
        Err(Error::ActiveNotFound(f, t)) => {
            assert_eq!(f, bang(atom("A")));
            assert_eq!(t.antecent, vec![atom("C")]);
            assert_eq!(t.succedent, atom("B"));
        }
        _ => panic!("the formula is not in the sequent"),
    }
}
