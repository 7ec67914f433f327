use linear_logic::mell::formula::Formula;
use linear_logic::mell::preformula::{OrientedAtom, Polarity, Preformula};
use std::rc::Rc;

fn atom(name: &str, pol: Polarity) -> Formula {
    Formula::Atomic(OrientedAtom { atom: name.to_owned(), pol })
}

#[test]
fn eq() {
    let form1 = Formula::Tensor(
        Rc::new(Formula::Atomic(OrientedAtom {
            atom: "A".to_owned(),
            pol: Polarity::Pos,
        })),
        Rc::new(Formula::Atomic(OrientedAtom {
            atom: "A".to_owned(),
            pol: Polarity::Neg,
        })),
    );

    let form2 = Formula::Tensor(
        Rc::new(Formula::Atomic(OrientedAtom {
            atom: "A".to_owned(),
            pol: Polarity::Pos,
        })),
        Rc::new(Formula::Atomic(OrientedAtom {
            atom: "A".to_owned(),
            pol: Polarity::Neg,
        })),
    );
    assert_eq!(form1, form2)
}

#[test]
fn formulas_that_differ_are_not_equal() {
    let a = atom("A", Polarity::Pos);
    let b = atom("B", Polarity::Pos);
    assert_ne!(a, b);
    assert_ne!(a, atom("A", Polarity::Neg));
    assert_ne!(
        Formula::Tensor(Rc::new(a.clone()), Rc::new(b.clone())),
        Formula::Par(Rc::new(a.clone()), Rc::new(b.clone()))
    );
    assert_ne!(Formula::Bang(Rc::new(a.clone())), Formula::Quest(Rc::new(a.clone())));
    assert_ne!(
        Formula::Tensor(Rc::new(a.clone()), Rc::new(b.clone())),
        Formula::Tensor(Rc::new(b), Rc::new(a))
    );
}

#[test]
fn negation_follows_de_morgan() {
    let a = atom("A", Polarity::Pos);
    let b = atom("B", Polarity::Neg);
    let tensor = Formula::Tensor(Rc::new(a.clone()), Rc::new(b.clone()));
    let expected = Formula::Par(
        Rc::new(atom("A", Polarity::Neg)),
        Rc::new(atom("B", Polarity::Pos)),
    );
    assert_eq!(tensor.clone().neg(), expected);
    assert_eq!(expected.clone().neg(), tensor);
    let bang = Formula::Bang(Rc::new(a.clone()));
    assert_eq!(bang.clone().neg(), Formula::Quest(Rc::new(atom("A", Polarity::Neg))));
    assert_eq!(bang.dual(), Formula::Quest(Rc::new(atom("A", Polarity::Neg))));
}

#[test]
fn negation_is_an_involution() {
    let a = atom("A", Polarity::Pos);
    let b = atom("B", Polarity::Neg);
    let f = Formula::Quest(Rc::new(Formula::Par(
        Rc::new(Formula::Bang(Rc::new(a.clone()))),
        Rc::new(Formula::Tensor(Rc::new(b), Rc::new(a))),
    )));
    assert_eq!(f.clone().neg().neg(), f);
    assert_ne!(f.clone().neg(), f);
}

#[test]
fn clone_keeps_the_formula() {
    let f = Formula::Par(
        Rc::new(atom("A", Polarity::Pos)),
        Rc::new(Formula::Bang(Rc::new(atom("B", Polarity::Neg)))),
    );
    assert_eq!(f.clone(), f);
}

#[test]
fn depth_counts_nested_exponentials() {
    let a = atom("A", Polarity::Pos);
    assert_eq!(a.depth(), 0);
    assert!(a.is_linear());
    assert!(a.is_shallow());
    let bang = Formula::Bang(Rc::new(a.clone()));
    assert_eq!(bang.depth(), 1);
    assert!(!bang.is_linear());
    assert!(bang.is_shallow());
    let deep = Formula::Tensor(
        Rc::new(Formula::Quest(Rc::new(bang.clone()))),
        Rc::new(a.clone()),
    );
    assert_eq!(deep.depth(), 2);
    assert!(!deep.is_linear());
    assert!(!deep.is_shallow());
    let par = Formula::Par(Rc::new(a.clone()), Rc::new(bang));
    assert_eq!(par.depth(), 1);
    assert!(par.is_shallow());
}

#[test]
fn normal_form_pushes_negation_inwards() {
    let a = Preformula::Atomic(OrientedAtom { atom: "A".to_owned(), pol: Polarity::Pos });
    let b = Preformula::Atomic(OrientedAtom { atom: "B".to_owned(), pol: Polarity::Pos });
    let pre = Preformula::Neg(Rc::new(Preformula::Tensor(
        Rc::new(a.clone()),
        Rc::new(Preformula::Neg(Rc::new(b))),
    )));
    let expected = Formula::Par(
        Rc::new(atom("A", Polarity::Neg)),
        Rc::new(atom("B", Polarity::Pos)),
    );
    assert_eq!(pre.normalize(), expected);
    assert_eq!(Formula::from(pre), expected);
    let twice = Preformula::Neg(Rc::new(Preformula::Neg(Rc::new(a))));
    assert_eq!(Formula::from(twice), atom("A", Polarity::Pos));
}

#[test]
fn a_formula_is_its_own_normal_form() {
    let f = Formula::Bang(Rc::new(Formula::Par(
        Rc::new(atom("A", Polarity::Neg)),
        Rc::new(atom("B", Polarity::Pos)),
    )));
    assert_eq!(Preformula::from(f.clone()).normalize(), f);
    assert_eq!(Preformula::embed(&f).normalize(), f);
}

#[test]
fn formula_from_atom() {
    let at = OrientedAtom { atom: "A".to_owned(), pol: Polarity::Neg };
    let f: Formula = at.clone().into();
    assert_eq!(f, Formula::Atomic(at));
}

#[test]
fn minus_sign_gives_the_dual() {
    let a = atom("A", Polarity::Pos);
    let b = atom("B", Polarity::Neg);
    let tensor = Formula::Tensor(Rc::new(a.clone()), Rc::new(b.clone()));
    let expected = Formula::Par(
        Rc::new(atom("A", Polarity::Neg)),
        Rc::new(atom("B", Polarity::Pos)),
    );
    assert_eq!(-tensor.clone(), expected);
    assert_eq!(-(-tensor.clone()), tensor);
    assert_eq!(std::ops::Neg::neg(a), atom("A", Polarity::Neg));
}
