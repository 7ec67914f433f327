use crate::mll::formula::{Formula, FormulaView};
use crate::proof_net::net_view::LabelView;
use crate::proof_net::proof_structure::{RuleLabel, VertexLabel};
use vstd::prelude::*;

verus! {

/// What can go wrong while a net is built or rewritten.
#[derive(Debug)]
pub enum Error {
    /// No vertex of the net carries this label.
    VertexNotFound(VertexLabel),
    /// No edge of the net carries this formula.
    EdgeNotFound(Formula),
    /// A derivation or a net does not have the shape that a rule asks for.
    BadProof,
    /// A link needs a vertex to start from, and none was given or found.
    MissingPremise,
    /// A link needs a vertex to end in, and none was given or found.
    MissingConclusion,
    /// A vertex of one kind was met where another kind was required.
    WrongLabel { found: RuleLabel, expected: RuleLabel },
    /// The net already has a vertex with this label.
    VertexAlreadyExists(VertexLabel),
    /// No rewrite applies to this cut, so that it cannot be eliminated.
    Irreducible(VertexLabel),
}

/// The mathematical content of an [`Error`].
pub enum ErrorView {
    VertexNotFound(LabelView),
    EdgeNotFound(FormulaView),
    BadProof,
    MissingPremise,
    MissingConclusion,
    WrongLabel { found: RuleLabel, expected: RuleLabel },
    VertexAlreadyExists(LabelView),
    Irreducible(LabelView),
}

impl View for Error {
    type V = ErrorView;

    open spec fn view(&self) -> ErrorView {
        match self {
            Error::VertexNotFound(l) => ErrorView::VertexNotFound(l@),
            Error::EdgeNotFound(f) => ErrorView::EdgeNotFound(f@),
            Error::BadProof => ErrorView::BadProof,
            Error::MissingPremise => ErrorView::MissingPremise,
            Error::MissingConclusion => ErrorView::MissingConclusion,
            Error::WrongLabel { found, expected } => ErrorView::WrongLabel {
                found: *found,
                expected: *expected,
            },
            Error::VertexAlreadyExists(l) => ErrorView::VertexAlreadyExists(l@),
            Error::Irreducible(l) => ErrorView::Irreducible(l@),
        }
    }
}

impl Error {
    /// The message of this error.
    pub fn message(&self) -> (res: String)
        ensures
            res@ == self@.message(),
    {
        match self {
            Error::VertexNotFound(_) => "Could not find vertex".to_owned(),
            Error::EdgeNotFound(_) => "Could not find edge".to_owned(),
            Error::BadProof => "Proof is malformed".to_owned(),
            Error::MissingPremise => "Expected premise, but found none".to_owned(),
            Error::MissingConclusion => "Expected conclusion, but found none".to_owned(),
            Error::WrongLabel { .. } => "Unexpected label".to_owned(),
            Error::VertexAlreadyExists(_) => "Vertex already exists".to_owned(),
            Error::Irreducible(_) => "No rewrite applies to cut".to_owned(),
        }
    }
}

impl ErrorView {
    /// The message that belongs to an error of this kind.
    pub open spec fn message(self) -> Seq<char> {
        match self {
            ErrorView::VertexNotFound(_) => "Could not find vertex"@,
            ErrorView::EdgeNotFound(_) => "Could not find edge"@,
            ErrorView::BadProof => "Proof is malformed"@,
            ErrorView::MissingPremise => "Expected premise, but found none"@,
            ErrorView::MissingConclusion => "Expected conclusion, but found none"@,
            ErrorView::WrongLabel { .. } => "Unexpected label"@,
            ErrorView::VertexAlreadyExists(_) => "Vertex already exists"@,
            ErrorView::Irreducible(_) => "No rewrite applies to cut"@,
        }
    }
}

} // verus!
