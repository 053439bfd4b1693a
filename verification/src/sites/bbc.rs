//! BBC News: addresses and article pages.

pub mod error;
pub mod page;
pub mod url;

pub use page::BBCContent;
pub use url::BBCUrl;
