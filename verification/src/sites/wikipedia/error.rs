//! What can go wrong with a Wikipedia address or page.

use vstd::prelude::*;
use vstd::std_specs::convert::FromSpecImpl;

verus! {

/// A failure that concerns one Wikipedia address or page.
#[derive(Debug, Clone, PartialEq, Eq)]
pub enum WikipediaError {
    /// A free-form message.
    Custom(String),
    /// A value outside its bounds.
    ExampleError { too_high: u32, too_low: u32 },
    /// The page could not be read, for `reason`.
    ParseError { reason: String },
    /// The address `url` was refused by validation, for `reason`.
    InvalidUrl { url: String, reason: String },
}

impl From<String> for WikipediaError {
    fn from(message: String) -> (e: Self) {
        WikipediaError::Custom(message)
    }
}

impl FromSpecImpl<String> for WikipediaError {
    open spec fn obeys_from_spec() -> bool {
        true
    }

    open spec fn from_spec(message: String) -> Self {
        WikipediaError::Custom(message)
    }
}

} // verus!
