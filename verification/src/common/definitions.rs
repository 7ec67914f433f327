use vstd::prelude::*;

verus! {

/// The name of a propositional variable.
pub type Atom = String;

/// The sign carried by an atom: an atom and its dual differ in polarity only.
#[derive(Debug, Clone, Copy, PartialEq, Eq, Structural)]
pub enum Polarity {
    Pos,
    Neg,
}

/// An atom together with its polarity.
#[derive(Debug)]
pub struct OrientedAtom {
    pub atom: Atom,
    pub pol: Polarity,
}

/// The mathematical content of an [`OrientedAtom`]: its name as a sequence of
/// characters, and its polarity.
pub struct AtomView {
    pub atom: Seq<char>,
    pub pol: Polarity,
}

impl Polarity {
    /// The opposite polarity.
    pub open spec fn spec_flip(self) -> Polarity {
        match self {
            Polarity::Pos => Polarity::Neg,
            Polarity::Neg => Polarity::Pos,
        }
    }

    /// The opposite polarity.
    pub fn flip(self) -> (res: Polarity)
        ensures
            res == self.spec_flip(),
    {
        match self {
            Polarity::Pos => Polarity::Neg,
            Polarity::Neg => Polarity::Pos,
        }
    }
}

impl AtomView {
    /// The same atom with the opposite polarity.
    pub open spec fn flip(self) -> AtomView {
        AtomView { atom: self.atom, pol: self.pol.spec_flip() }
    }
}

impl View for OrientedAtom {
    type V = AtomView;

    open spec fn view(&self) -> AtomView {
        AtomView { atom: self.atom@, pol: self.pol }
    }
}

impl Clone for OrientedAtom {
    fn clone(&self) -> (res: OrientedAtom)
        ensures
            res == *self,
    {
        OrientedAtom { atom: self.atom.clone(), pol: self.pol }
    }
}

impl PartialEq for OrientedAtom {
    fn eq(&self, other: &OrientedAtom) -> (res: bool) {
        self.atom == other.atom && self.pol == other.pol
    }
}

impl vstd::std_specs::cmp::PartialEqSpecImpl for OrientedAtom {
    open spec fn obeys_eq_spec() -> bool {
        true
    }

    open spec fn eq_spec(&self, other: &OrientedAtom) -> bool {
        self@ == other@
    }
}

impl Eq for OrientedAtom {}

impl OrientedAtom {
    /// The same atom with the opposite polarity.
    pub open spec fn spec_flip(self) -> OrientedAtom {
        OrientedAtom { atom: self.atom, pol: self.pol.spec_flip() }
    }

    /// The same atom with the opposite polarity.
    pub fn flip(self) -> (res: OrientedAtom)
        ensures
            res == self.spec_flip(),
            res@ == self@.flip(),
    {
        OrientedAtom { atom: self.atom, pol: self.pol.flip() }
    }
}

/// Flipping a polarity twice gives it back.
pub proof fn lemma_flip_involutive(a: AtomView)
    ensures
        a.flip().flip() == a,
{
}

} // verus!
