pub use crate::common::definitions::{Atom, AtomView, OrientedAtom, Polarity};
pub use crate::mll::preformula::{Preformula, PreformulaView};
