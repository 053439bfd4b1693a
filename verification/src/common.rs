//! What is common to all sites: addresses, pages and the crawl itself.

pub mod handler;
pub mod make_request;
pub mod page;
pub mod url;

pub use handler::{DatabaseService, PageHandler, PageScraper, VisitedSet};
pub use make_request::{read_response, transport_failure, FetchPolicy};
pub use page::{
    LinkTo, Page, PageState, PageView, Pending, Scrapable, ScrapableContent, Scraped, ToScrape,
    WasScraped,
};
pub use url::UrlTrait;
