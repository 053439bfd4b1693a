//! What can go wrong with a BBC address or a BBC article page.

use vstd::prelude::*;
use vstd::std_specs::convert::FromSpecImpl;

verus! {

/// A failure that concerns one BBC address or page.
#[derive(Debug, Clone, PartialEq, Eq)]
pub enum BBCError {
    /// A free-form message.
    Custom(String),
    /// A value outside its bounds.
    ExampleError { too_high: u32, too_low: u32 },
    /// The address `url` was refused by validation, for `reason`.
    InvalidUrl { url: String, reason: String },
    /// The page at `url` has no `article` element.
    NoArticleFound { url: String },
    /// The article at `url` has no headline.
    NoTitleFound { url: String },
    /// The article at `url` has no text block.
    NoContentFound { url: String },
    /// The article at `url` has no topic list.
    NoRelatedTopicsFound { url: String },
}

impl From<String> for BBCError {
    fn from(message: String) -> (e: Self) {
        BBCError::Custom(message)
    }
}

impl FromSpecImpl<String> for BBCError {
    open spec fn obeys_from_spec() -> bool {
        true
    }

    open spec fn from_spec(message: String) -> Self {
        BBCError::Custom(message)
    }
}

} // verus!
