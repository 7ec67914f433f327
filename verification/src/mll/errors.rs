use crate::mll::formula::Formula;
use crate::mll::sequent::Sequent;
use vstd::prelude::*;

verus! {

/// What can go wrong while a derivation is put together.
#[derive(Debug)]
pub enum Error {
    /// The two sequents should hold the same formulas.
    SequentMismatch(Sequent, Sequent),
    /// A rule asks for a premise with this sequent, and none was given.
    MissingPremise(Sequent),
    /// A rule was given more or fewer premises than it takes.
    WrongNumberOfPremises { expected: i32, found: i32 },
    /// The formula does not occur in the sequent.
    ActiveNotFound(Formula, Sequent),
}

impl Error {
    /// The message of this error.
    pub fn message(&self) -> (res: String)
        ensures
            res@ == match self {
                Error::SequentMismatch(..) => "Sequents should be equal"@,
                Error::MissingPremise(_) => "Missing premise"@,
                Error::WrongNumberOfPremises { .. } => "Wrong number of premises"@,
                Error::ActiveNotFound(..) => "Active formula was not found in sequent"@,
            },
    {
        match self {
            Error::SequentMismatch(..) => "Sequents should be equal".to_owned(),
            Error::MissingPremise(_) => "Missing premise".to_owned(),
            Error::WrongNumberOfPremises { .. } => "Wrong number of premises".to_owned(),
            Error::ActiveNotFound(..) => "Active formula was not found in sequent".to_owned(),
        }
    }
}

} // verus!
