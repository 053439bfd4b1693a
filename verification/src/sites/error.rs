//! Failures common to all sites.

use vstd::prelude::*;
use vstd::std_specs::convert::FromSpecImpl;

verus! {

/// A failure of the scraping machinery that belongs to no single site.
#[derive(Debug, Clone, PartialEq, Eq)]
pub enum ScraperError {
    /// A value outside its bounds.
    ExampleError { too_high: u32, too_low: u32 },
}

impl From<(u32, u32)> for ScraperError {
    fn from(bounds: (u32, u32)) -> (e: Self) {
        ScraperError::ExampleError { too_high: bounds.0, too_low: bounds.1 }
    }
}

impl FromSpecImpl<(u32, u32)> for ScraperError {
    open spec fn obeys_from_spec() -> bool {
        true
    }

    open spec fn from_spec(bounds: (u32, u32)) -> Self {
        ScraperError::ExampleError { too_high: bounds.0, too_low: bounds.1 }
    }
}

} // verus!
