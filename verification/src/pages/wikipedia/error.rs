//! What can go wrong when a Wikipedia page is read.

use vstd::prelude::*;
use vstd::std_specs::convert::FromSpecImpl;
use crate::error::FetchError;

verus! {

/// Why a Wikipedia page could not be read.
#[derive(Debug, Clone, PartialEq, Eq)]
pub enum Error {
    /// The document has no main part, or the main part has no body.
    NoPageContentFound,
    /// The main part has no title.
    NoTitleFound,
    /// The page has no content.
    NoContentFound,
    /// The title or the short description has no readable text.
    UnableToExtractContent,
    /// The main part has no list of categories.
    NoCategoriesFound,
    /// The page could not be retrieved.
    Fetch(FetchError),
}

impl From<FetchError> for Error {
    fn from(failure: FetchError) -> (e: Self) {
        Error::Fetch(failure)
    }
}

impl FromSpecImpl<FetchError> for Error {
    open spec fn obeys_from_spec() -> bool {
        true
    }

    open spec fn from_spec(failure: FetchError) -> Self {
        Error::Fetch(failure)
    }
}

} // verus!
