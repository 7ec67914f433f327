use vstd::prelude::*;

verus! {

/// What can go wrong in a computation with polynomials and points.
#[derive(Debug, Clone, Copy, PartialEq, Eq, Structural)]
pub enum Error {
    /// All coordinates of a projective point are zero.
    ProjectiveAllZero,
    /// A division by zero.
    DivisionByZero,
    /// A value has `found` coordinates or variables where `expected` are
    /// required.
    DimensionMismatch { found: usize, expected: usize },
    /// A monomial or polynomial has degree `found` where `expected` is
    /// required.
    WrongDegree { found: usize, expected: usize },
}

impl Error {
    /// The message of this error.
    pub fn message(&self) -> (res: String)
        ensures
            res@ == match self {
                Error::ProjectiveAllZero => "Projective points cannot have all zero coordinates"@,
                Error::DivisionByZero => "Cannot divide by zero"@,
                Error::DimensionMismatch { .. } => "Unexpected dimension"@,
                Error::WrongDegree { .. } => "Unexpected degree"@,
            },
    {
        match self {
            Error::ProjectiveAllZero => "Projective points cannot have all zero coordinates".to_owned(),
            Error::DivisionByZero => "Cannot divide by zero".to_owned(),
            Error::DimensionMismatch { .. } => "Unexpected dimension".to_owned(),
            Error::WrongDegree { .. } => "Unexpected degree".to_owned(),
        }
    }
}

} // verus!
