//! Retrieval of pages: the limits that every request keeps to, the choice
//! of a user agent, and what is made of an answer.
//!
//! The request itself is made by whoever runs the crawl. This module holds
//! what is decided about it.

use vstd::prelude::*;
use rand::seq::SliceRandom;
use scraper::Html;
use crate::error::FetchError;
use crate::html::{document_of, parse_document};
use crate::text::texts;

verus! {

/// How many requests may be in flight at the same time.
pub const MAX_IN_FLIGHT: usize = 50;

/// How long to wait before each request, in milliseconds.
pub const REQUEST_DELAY_MS: u64 = 50;

/// How long a request may take as a whole, in seconds.
pub const REQUEST_TIMEOUT_SECS: u64 = 12;

/// How long connecting may take, in seconds.
pub const CONNECT_TIMEOUT_SECS: u64 = 10;

/// How long an idle connection is kept, in seconds.
pub const POOL_IDLE_TIMEOUT_SECS: u64 = 10;

/// How many idle connections are kept for one host.
pub const POOL_MAX_IDLE_PER_HOST: usize = 10;

/// Whether `status` is a success: within `200..=299`.
pub open spec fn is_success(status: u16) -> bool {
    200 <= status <= 299
}

/// The user agents of the default policy.
pub open spec fn default_user_agents() -> Seq<Seq<char>> {
    seq![
        "Mozilla/5.0 (Windows NT 10.0; Win64; x64) AppleWebKit/537.36 (KHTML, like Gecko) Chrome/83.0.4103.116 Safari/537.36"@,
        "Mozilla/5.0 (X11; Ubuntu; Linux x86_64; rv:78.0) Gecko/20100101 Firefox/78.0"@,
        "Mozilla/5.0 (Macintosh; Intel Mac OS X 10_15_4) AppleWebKit/605.1.15 (KHTML, like Gecko) Version/13.1 Safari/605.1.15"@,
        "Mozilla/5.0 (Windows NT 10.0; Win64; x64) AppleWebKit/537.36 (KHTML, like Gecko) Chrome/58.0.3029.110 Safari/537.36"@,
        "Mozilla/5.0 (Macintosh; Intel Mac OS X 10_15_7) AppleWebKit/605.1.15 (KHTML, like Gecko) Version/14.0.3 Safari/605.1.15"@,
        "Mozilla/5.0 (X11; Ubuntu; Linux x86_64; rv:88.0) Gecko/20100101 Firefox/88.0"@,
    ]
}

/// Calls `SliceRandom::choose` on the slice of `pool` with the generator
/// that `rand::thread_rng` hands out. Trusted: the result is `None` exactly
/// if `pool` is empty, and otherwise an element of `pool`; which one is a
/// matter of chance.
#[verifier::external_body]
fn pick_one<'a>(pool: &'a Vec<String>) -> (r: Option<&'a String>)
    ensures
        r is None <==> pool.len() == 0,
        r matches Some(chosen) ==> pool@.contains(*chosen),
{
    pool.choose(&mut rand::thread_rng())
}

/// The limits and the user agents that requests keep to.
#[derive(Debug, Clone, PartialEq, Eq)]
pub struct FetchPolicy {
    /// How many requests may be in flight at the same time.
    pub max_in_flight: usize,
    /// How long to wait before each request, in milliseconds.
    pub delay_ms: u64,
    /// How long a request may take as a whole, in seconds.
    pub timeout_secs: u64,
    /// How long connecting may take, in seconds.
    pub connect_timeout_secs: u64,
    /// How long an idle connection is kept, in seconds.
    pub pool_idle_timeout_secs: u64,
    /// How many idle connections are kept for one host.
    pub pool_max_idle_per_host: usize,
    /// The user agents to choose from.
    pub user_agents: Vec<String>,
}

impl Default for FetchPolicy {
    /// The policy with the limits of this module and the user agents of six
    /// common browsers.
    fn default() -> (r: Self)
        ensures
            r.max_in_flight == MAX_IN_FLIGHT,
            r.delay_ms == REQUEST_DELAY_MS,
            r.timeout_secs == REQUEST_TIMEOUT_SECS,
            r.connect_timeout_secs == CONNECT_TIMEOUT_SECS,
            r.pool_idle_timeout_secs == POOL_IDLE_TIMEOUT_SECS,
            r.pool_max_idle_per_host == POOL_MAX_IDLE_PER_HOST,
            texts(r.user_agents@) == default_user_agents(),
    {
        let mut user_agents: Vec<String> = Vec::new();
        user_agents.push(
            String::from_str(
                "Mozilla/5.0 (Windows NT 10.0; Win64; x64) AppleWebKit/537.36 (KHTML, like Gecko) Chrome/83.0.4103.116 Safari/537.36",
            ),
        );
        user_agents.push(
            String::from_str(
                "Mozilla/5.0 (X11; Ubuntu; Linux x86_64; rv:78.0) Gecko/20100101 Firefox/78.0",
            ),
        );
        user_agents.push(
            String::from_str(
                "Mozilla/5.0 (Macintosh; Intel Mac OS X 10_15_4) AppleWebKit/605.1.15 (KHTML, like Gecko) Version/13.1 Safari/605.1.15",
            ),
        );
        user_agents.push(
            String::from_str(
                "Mozilla/5.0 (Windows NT 10.0; Win64; x64) AppleWebKit/537.36 (KHTML, like Gecko) Chrome/58.0.3029.110 Safari/537.36",
            ),
        );
        user_agents.push(
            String::from_str(
                "Mozilla/5.0 (Macintosh; Intel Mac OS X 10_15_7) AppleWebKit/605.1.15 (KHTML, like Gecko) Version/14.0.3 Safari/605.1.15",
            ),
        );
        user_agents.push(
            String::from_str(
                "Mozilla/5.0 (X11; Ubuntu; Linux x86_64; rv:88.0) Gecko/20100101 Firefox/88.0",
            ),
        );
        assert(texts(user_agents@) =~= default_user_agents());
        FetchPolicy {
            max_in_flight: MAX_IN_FLIGHT,
            delay_ms: REQUEST_DELAY_MS,
            timeout_secs: REQUEST_TIMEOUT_SECS,
            connect_timeout_secs: CONNECT_TIMEOUT_SECS,
            pool_idle_timeout_secs: POOL_IDLE_TIMEOUT_SECS,
            pool_max_idle_per_host: POOL_MAX_IDLE_PER_HOST,
            user_agents,
        }
    }
}

impl FetchPolicy {
    /// A user agent for one request, chosen at random among those of the
    /// policy, or `None` if the policy has none.
    pub fn user_agent(&self) -> (r: Option<&String>)
        ensures
            r is None <==> self.user_agents.len() == 0,
            r matches Some(agent) ==> self.user_agents@.contains(*agent),
    {
        pick_one(&self.user_agents)
    }
}

/// The failure that a request ends with when no answer arrives: a timeout
/// if it `timed_out`, and a failure of the network otherwise.
pub fn transport_failure(timed_out: bool) -> (e: FetchError)
    ensures
        e == if timed_out {
            FetchError::Timeout
        } else {
            FetchError::Network
        },
{
    if timed_out {
        FetchError::Timeout
    } else {
        FetchError::Network
    }
}

/// What is made of an answer with the status code `status` and the text
/// `body`: the document parsed from the text if the status is a success,
/// and the status as a failure otherwise.
pub fn read_response(status: u16, body: &str) -> (r: Result<Html, FetchError>)
    ensures
        r is Ok <==> is_success(status),
        r matches Ok(document) ==> document == document_of(body@),
        r matches Err(e) ==> e == FetchError::Status(status),
{
    if 200 <= status && status <= 299 {
        Ok(parse_document(body))
    } else {
        Err(FetchError::Status(status))
    }
}

} // verus!
