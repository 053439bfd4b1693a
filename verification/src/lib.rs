//! A breadth-first crawler for BBC News and Wikipedia, with its rules
//! verified.
//!
//! - [`common`]: addresses, pages and their states, the crawl of one site,
//!   and what is decided about a request.
//! - [`sites`]: the addresses and the content of each site.
//! - [`crawl`]: the crawl over the addresses of every site.
//! - [`pages`]: articles and encyclopedia pages as they are read from
//!   documents: sections, tables, links.
//! - [`site_url`]: an address of any site.
//! - [`text`], [`pattern`], [`html`]: text operations, regular expressions
//!   and access to parsed documents.

pub mod common;
pub mod crawl;
pub mod error;
pub mod html;
pub mod pages;
pub mod pattern;
pub mod site_url;
pub mod sites;
pub mod text;
