use crate::imell::deduction::Rule;
use crate::imell::formula::{Formula, Sequent};
use vstd::prelude::*;

verus! {

/// What can go wrong while a rule is applied.
#[derive(Debug)]
pub enum Error {
    /// The formula does not occur on the left of the sequent.
    ActiveNotFound(Formula, Sequent),
    /// The rule does not apply to the premise it was given.
    CannotApply(Rule),
}

impl Error {
    /// The message of this error.
    pub fn message(&self) -> (res: String)
        ensures
            res@ == match self {
                Error::ActiveNotFound(..) => "Could not find formula in sequent"@,
                Error::CannotApply(_) => "Cannot apply rule"@,
            },
    {
        match self {
            Error::ActiveNotFound(..) => "Could not find formula in sequent".to_owned(),
            Error::CannotApply(_) => "Cannot apply rule".to_owned(),
        }
    }
}

} // verus!
