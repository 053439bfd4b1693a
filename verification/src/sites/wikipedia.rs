//! Wikipedia: addresses and pages.

pub mod error;
pub mod page;
pub mod url;

pub use page::WikipediaContent;
pub use url::WikipediaUrl;
