//! What can go wrong when a page is read.

use vstd::prelude::*;
use vstd::std_specs::convert::FromSpecImpl;
use crate::error::FetchError;

verus! {

/// Why a page could not be read.
#[derive(Debug, Clone, PartialEq, Eq)]
pub enum Error {
    /// The document has no article.
    NoArticleFound,
    /// The article has no headline.
    NoTitleFound,
    /// The article has no text.
    NoContentFound,
    /// The article has no list of topics.
    NoRelatedTopicsFound,
    /// A link of the article leads nowhere.
    InvalidRelatedLink,
    /// The page has no short description.
    ShortDescriptionNotFound,
    /// The page has no table.
    TableNotFound,
    /// The table has no title.
    TableTitleNotFount,
    /// The page has no list of categories.
    NoCategoriesFound,
    /// The part of the page that was searched holds no link.
    NoUrlsFound,
    /// The page could not be retrieved.
    Fetch(FetchError),
}

impl From<FetchError> for Error {
    fn from(failure: FetchError) -> (e: Self) {
        Error::Fetch(failure)
    }
}

impl FromSpecImpl<FetchError> for Error {
    open spec fn obeys_from_spec() -> bool {
        true
    }

    open spec fn from_spec(failure: FetchError) -> Self {
        Error::Fetch(failure)
    }
}

} // verus!
