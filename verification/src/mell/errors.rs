use crate::mell::formula::Formula;
use crate::mell::proof_tree::Rule;
use crate::mell::sequent::Sequent;
use vstd::prelude::*;

verus! {

/// What can go wrong while a rule is applied.
#[derive(Debug)]
pub enum Error {
    /// The formula does not occur in the sequent.
    ActiveNotFound(Formula, Sequent),
    /// The rule does not apply to the premise it was given.
    CannotApply(Rule),
}

impl Error {
    /// The message of this error.
    pub fn message(&self) -> (res: String)
        ensures
            res@ == match self {
                Error::ActiveNotFound(..) => "Active formula was not found in sequent"@,
                Error::CannotApply(_) => "Cannot apply rule"@,
            },
    {
        match self {
            Error::ActiveNotFound(..) => "Active formula was not found in sequent".to_owned(),
            Error::CannotApply(_) => "Cannot apply rule".to_owned(),
        }
    }
}

} // verus!
