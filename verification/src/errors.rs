use vstd::prelude::*;

verus! {

/// The failures a repository operation can report.  Client input
/// errors (`InvalidId`, `MalformedId`, `InvalidPage`, `InvalidLimit`)
/// are raised before any store access; `NotFound` says no document
/// matched the given identifier.
#[derive(Clone, Copy, PartialEq, Eq, Structural, Debug)]
pub enum RepoError {
    InvalidId,
    MalformedId,
    InvalidPage,
    InvalidLimit,
    NotFound,
}

} // verus!
