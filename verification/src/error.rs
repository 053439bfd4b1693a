//! The error type of the crate.

use vstd::prelude::*;
use vstd::std_specs::convert::FromSpecImpl;
use crate::sites::bbc::error::BBCError;
use crate::sites::error::ScraperError;
use crate::sites::wikipedia::error::WikipediaError;

verus! {

/// Why a page could not be retrieved.
#[derive(Debug, Clone, Copy, PartialEq, Eq, Structural)]
pub enum FetchError {
    /// The transport failed before an answer arrived.
    Network,
    /// No answer arrived within the time allowed.
    Timeout,
    /// An answer arrived with a status code outside `200..=299`.
    Status(u16),
}

/// Any failure of this crate. Each one concerns a single page and never a
/// whole crawl.
#[derive(Debug, Clone, PartialEq, Eq)]
pub enum Error {
    /// A free-form message.
    Custom(String),
    /// A value outside its bounds.
    ExampleError { too_high: u32, too_low: u32 },
    /// A failure that belongs to no single site.
    ScraperError(ScraperError),
    /// A failure on a Wikipedia address or page.
    WikipediaError(WikipediaError),
    /// A failure on a BBC address or page.
    BBCError(BBCError),
    /// The page could not be retrieved.
    Fetch(FetchError),
}

impl Error {
    /// An error that carries `message` and nothing else.
    pub fn custom(message: &str) -> (e: Self)
        ensures
            e matches Error::Custom(m) && m@ == message@,
    {
        Error::Custom(String::from_str(message))
    }

    /// Whether this error is the refusal of an address by validation.
    pub open spec fn is_invalid_url(&self) -> bool {
        ||| self matches Error::BBCError(BBCError::InvalidUrl { .. })
        ||| self matches Error::WikipediaError(WikipediaError::InvalidUrl { .. })
    }
}

impl From<String> for Error {
    fn from(message: String) -> (e: Self) {
        Error::Custom(message)
    }
}

impl FromSpecImpl<String> for Error {
    open spec fn obeys_from_spec() -> bool {
        true
    }

    open spec fn from_spec(message: String) -> Self {
        Error::Custom(message)
    }
}

impl<'a> From<&'a str> for Error {
    fn from(message: &'a str) -> (e: Self)
        ensures
            e matches Error::Custom(m) && m@ == message@,
    {
        Error::Custom(String::from_str(message))
    }
}

/// The general law of `From` claims nothing here: what `from` returns is
/// stated on `from` itself.
impl<'a> FromSpecImpl<&'a str> for Error {
    open spec fn obeys_from_spec() -> bool {
        false
    }

    open spec fn from_spec(message: &'a str) -> Self {
        Error::ExampleError { too_high: 0, too_low: 0 }
    }
}

impl From<ScraperError> for Error {
    fn from(inner: ScraperError) -> (e: Self) {
        Error::ScraperError(inner)
    }
}

impl FromSpecImpl<ScraperError> for Error {
    open spec fn obeys_from_spec() -> bool {
        true
    }

    open spec fn from_spec(inner: ScraperError) -> Self {
        Error::ScraperError(inner)
    }
}

impl From<WikipediaError> for Error {
    fn from(inner: WikipediaError) -> (e: Self) {
        Error::WikipediaError(inner)
    }
}

impl FromSpecImpl<WikipediaError> for Error {
    open spec fn obeys_from_spec() -> bool {
        true
    }

    open spec fn from_spec(inner: WikipediaError) -> Self {
        Error::WikipediaError(inner)
    }
}

impl From<BBCError> for Error {
    fn from(inner: BBCError) -> (e: Self) {
        Error::BBCError(inner)
    }
}

impl FromSpecImpl<BBCError> for Error {
    open spec fn obeys_from_spec() -> bool {
        true
    }

    open spec fn from_spec(inner: BBCError) -> Self {
        Error::BBCError(inner)
    }
}

impl From<FetchError> for Error {
    fn from(inner: FetchError) -> (e: Self) {
        Error::Fetch(inner)
    }
}

impl FromSpecImpl<FetchError> for Error {
    open spec fn obeys_from_spec() -> bool {
        true
    }

    open spec fn from_spec(inner: FetchError) -> Self {
        Error::Fetch(inner)
    }
}

} // verus!
