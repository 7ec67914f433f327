use linear_logic::common::definitions::{OrientedAtom, Polarity};

#[test]
fn polarity_flip_swaps() {
    assert_eq!(Polarity::Pos.flip(), Polarity::Neg);
    assert_eq!(Polarity::Neg.flip(), Polarity::Pos);
}

#[test]
fn oriented_atom_flip_keeps_name() {
    let a = OrientedAtom { atom: "A".to_owned(), pol: Polarity::Pos };
    let b = a.clone().flip();
    assert_eq!(b.atom, "A");
    assert_eq!(b.pol, Polarity::Neg);
    assert_eq!(b.flip(), a);
}
