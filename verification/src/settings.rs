//! The runtime configuration the core consumes. Loading it from the
//! environment is the application shell's job; this module holds the shape
//! and the checks.

use vstd::prelude::*;

use crate::Error;

verus! {

pub struct DatabaseConfig {
    pub url: String,
    pub max_connections: u32,
    pub min_connections: u32,
    pub connection_timeout_seconds: u64,
    pub idle_timeout_seconds: u64,
}

pub struct ServerConfig {
    pub host: String,
    pub port: u16,
    pub external_url: Option<String>,
    pub api_rate_limit: u64,
}

pub struct CrawlerConfig {
    pub interval_seconds: u64,
    pub max_feed_size: usize,
    pub max_recipe_size: usize,
    pub rate_limit: u64,
    pub user_agent: String,
}

pub struct SearchConfig {
    pub index_path: String,
}

pub struct PaginationConfig {
    pub api_max_limit: usize,
    pub web_default_limit: usize,
    pub feed_page_size: usize,
    pub max_search_results: usize,
    pub max_request_body_size: usize,
    /// Caps pagination so offsets cannot overflow.
    pub max_pages: usize,
}

pub struct Settings {
    pub database: DatabaseConfig,
    pub server: ServerConfig,
    pub crawler: CrawlerConfig,
    pub search: SearchConfig,
    pub pagination: PaginationConfig,
}

impl Settings {
    /// A configuration is valid exactly when the port and the crawl rate
    /// are non-zero.
    pub fn validate(&self) -> (r: Result<(), Error>)
        ensures
            r is Ok <==> (self.server.port != 0 && self.crawler.rate_limit != 0),
            r is Err ==> r->Err_0 is Config,
    {
        if self.server.port == 0 {
            return Err(Error::Config(String::from_str("Port must be non-zero")));
        }
        if self.crawler.rate_limit == 0 {
            return Err(Error::Config(String::from_str("Rate limit must be non-zero")));
        }
        Ok(())
    }
}

/// The first page, where a request names none.
pub fn default_page() -> (r: usize)
    ensures
        r == 1,
{
    1
}

/// The page size, where a request names none.
pub fn default_limit() -> (r: usize)
    ensures
        r == 20,
{
    20
}

} // verus!
