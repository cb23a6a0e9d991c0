//! Core of a recipe-feed aggregation pipeline: feed crawling decisions,
//! change detection, content-hash deduplication, repository tree diffing,
//! rate limiting, and the search-document lifecycle.
//!
//! Network, persistence and the embedded search engine are external
//! collaborators; this crate holds the logic that decides what they are
//! asked to do, with contracts proved by Verus.

pub mod crawler;
pub mod feedcfg;
pub mod feedscan;
pub mod fetcher;
pub mod github;
pub mod hasher;
pub mod ratelimit;
pub mod recipe;
pub mod repo;
pub mod sanitize;
pub mod scheduler;
pub mod schema;
pub mod search;
pub mod settings;
pub mod sync;
pub mod text;
pub mod validation;

use vstd::prelude::*;

verus! {

broadcast use vstd::string::group_string_axioms;

/// Error taxonomy of the pipeline. Not-modified outcomes are control flow,
/// not errors, and so do not appear here.
#[derive(Debug)]
pub enum Error {
    /// The feed document could not be parsed, or an HTTP status made the
    /// fetch fail.
    FeedParse(String),
    /// Recipe markup could not be parsed.
    RecipeParse(String),
    /// The search engine reported a failure.
    Search(String),
    /// Configuration is malformed.
    Config(String),
    /// A requested row or resource does not exist.
    NotFound(String),
    /// An input was rejected before any outside work was attempted.
    Validation(String),
    /// A string could not be parsed as a URL at all.
    InvalidUrl(String),
    /// Anything else.
    Internal(String),
}

/// Whether an internal error message names a credential and must be
/// redacted: its lowered form mentions a password, a secret, a token or a
/// key.
pub open spec fn spec_redact(m: Seq<char>) -> bool {
    ||| crate::text::spec_contains(crate::text::lower_of(m), seq!['p', 'a', 's', 's', 'w', 'o', 'r', 'd'])
    ||| crate::text::spec_contains(crate::text::lower_of(m), seq!['s', 'e', 'c', 'r', 'e', 't'])
    ||| crate::text::spec_contains(crate::text::lower_of(m), seq!['t', 'o', 'k', 'e', 'n'])
    ||| crate::text::spec_contains(crate::text::lower_of(m), seq!['k', 'e', 'y'])
}

impl Error {
    /// A line describing the error that is safe to log: messages of
    /// internal errors that mention credentials are redacted, and parse
    /// failures keep their detail.
    pub fn log_safe(&self) -> (r: String)
        ensures
            ({
                match self {
                    Error::FeedParse(m) => r@ == "Feed parsing error: "@ + m@,
                    Error::RecipeParse(m) => r@ == "Recipe parsing error: "@ + m@,
                    Error::Search(m) => r@ == "Search error: "@ + m@,
                    Error::Config(m) => r@ == "Configuration error: "@ + m@,
                    Error::NotFound(m) => r@ == "Not found: "@ + m@,
                    Error::Validation(m) => r@ == "Validation error: "@ + m@,
                    Error::InvalidUrl(_) => r@ == "Invalid URL provided"@,
                    Error::Internal(m) => if spec_redact(m@) {
                        r@ == "Internal error (details redacted)"@
                    } else {
                        r@ == "Internal error: "@ + m@
                    },
                }
            }),
    {
        match self {
            Error::FeedParse(m) => prefixed("Feed parsing error: ", m),
            Error::RecipeParse(m) => prefixed("Recipe parsing error: ", m),
            Error::Search(m) => prefixed("Search error: ", m),
            Error::Config(m) => prefixed("Configuration error: ", m),
            Error::NotFound(m) => prefixed("Not found: ", m),
            Error::Validation(m) => prefixed("Validation error: ", m),
            Error::InvalidUrl(_) => String::from_str("Invalid URL provided"),
            Error::Internal(m) => {
                let low = crate::text::lowercase(m.as_str());
                let lc = crate::text::to_chars(low.as_str());
                let p1 = crate::text::to_chars("password");
                let p2 = crate::text::to_chars("secret");
                let p3 = crate::text::to_chars("token");
                let p4 = crate::text::to_chars("key");
                proof {
                    reveal_strlit("password");
                    reveal_strlit("secret");
                    reveal_strlit("token");
                    reveal_strlit("key");
                    assert("password"@ =~= seq!['p', 'a', 's', 's', 'w', 'o', 'r', 'd']);
                    assert("secret"@ =~= seq!['s', 'e', 'c', 'r', 'e', 't']);
                    assert("token"@ =~= seq!['t', 'o', 'k', 'e', 'n']);
                    assert("key"@ =~= seq!['k', 'e', 'y']);
                }
                if crate::text::contains_sub(&lc, &p1) || crate::text::contains_sub(&lc, &p2)
                    || crate::text::contains_sub(&lc, &p3) || crate::text::contains_sub(
                    &lc,
                    &p4,
                ) {
                    String::from_str("Internal error (details redacted)")
                } else {
                    prefixed("Internal error: ", m)
                }
            },
        }
    }
}

/// A message behind a fixed prefix.
fn prefixed(prefix: &str, m: &String) -> (r: String)
    ensures
        r@ == prefix@ + m@,
{
    let mut out = crate::text::to_chars(prefix);
    let mc = crate::text::to_chars(m.as_str());
    crate::text::append_chars(&mut out, &mc);
    crate::text::from_chars(&out)
}

} // verus!
