//! What can go wrong while importing.

use vstd::prelude::*;

verus! {

/// Reasons for which an import ends without output.
#[derive(Clone, Debug)]
pub enum Error {
    /// A column that an adapter needs is absent from a row, or holds text that
    /// cannot be read as what the adapter needs.
    MissingField { field: String, index: usize, row: Vec<String> },
    /// The rules document is not well-formed.
    InvalidRules,
    /// A payee or fund name cannot be written as a key of the rules document.
    InvalidKey { key: String },
    /// The operator declined to edit the rules.
    Aborted,
}

/// Mathematical view of an [`Error`].
pub enum Failure {
    MissingField { field: Seq<char>, index: nat, row: Seq<Seq<char>> },
    InvalidRules,
    InvalidKey { key: Seq<char> },
    Aborted,
}

impl View for Error {
    type V = Failure;

    open spec fn view(&self) -> Failure {
        match self {
            Error::MissingField { field, index, row } => Failure::MissingField {
                field: field@,
                index: *index as nat,
                row: row.deep_view(),
            },
            Error::InvalidRules => Failure::InvalidRules,
            Error::InvalidKey { key } => Failure::InvalidKey { key: key@ },
            Error::Aborted => Failure::Aborted,
        }
    }
}

/// The failure that names column `index` of `row` as the missing `field`.
pub open spec fn missing_field(field: Seq<char>, index: nat, row: Seq<Seq<char>>) -> Failure {
    Failure::MissingField { field, index, row }
}

/// A copy of `row`.
pub fn copy_row(row: &Vec<String>) -> (r: Vec<String>)
    ensures
        r.deep_view() == row.deep_view(),
{
    let mut out: Vec<String> = Vec::new();
    let mut i: usize = 0;
    while i < row.len()
        invariant
            i <= row.len(),
            out.len() == i,
            forall|j: int| 0 <= j < i ==> out@[j]@ == row@[j]@,
        decreases row.len() - i,
    {
        out.push(row[i].clone());
        i = i + 1;
    }
    assert(out.deep_view() =~= row.deep_view());
    out
}

impl Error {
    /// The error for column `index` of `row`, needed as `field`.
    pub fn missing(field: &str, index: usize, row: &Vec<String>) -> (e: Error)
        ensures
            e@ == missing_field(field@, index as nat, row.deep_view()),
    {
        Error::MissingField { field: field.to_owned(), index, row: copy_row(row) }
    }
}

} // verus!
