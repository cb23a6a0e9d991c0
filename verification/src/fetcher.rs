//! Fetch policy: classification of HTTP outcomes, the retry/backoff
//! schedule for transient failures, response size ceilings and the
//! content-type allow list. The network call itself is an external
//! collaborator; these functions decide what it is asked and how its
//! answers are treated.

use vstd::prelude::*;

use crate::text::{lower_of, lowercase, matches_at, starts_with, to_chars};

verus! {

/// A fetched document with its caching tokens.
pub struct FetchResult {
    pub content: String,
    pub etag: Option<String>,
    pub last_modified: Option<String>,
    pub content_type: Option<String>,
}

/// Outcome of fetching a recipe's content with conditional headers.
pub enum RecipeContentResult {
    /// The content was fetched, new or modified.
    Fetched { content: String, etag: Option<String>, last_modified: Option<String> },
    /// The content has not changed since the cached tokens were issued.
    NotModified,
}

/// Why a fetch failed, as far as retry policy cares.
pub enum FetchErrorKind {
    /// The request timed out.
    Timeout,
    /// No connection could be established.
    Connect,
    /// The request failed while being sent.
    Request,
    /// Any other transport failure.
    OtherTransport,
    /// A response arrived with a non-success status.
    Status(u16),
    /// The response exceeded the size ceiling.
    SizeViolation,
    /// The response body was not valid text.
    InvalidBody,
}

/// Only transient transport failures are retried; statuses, size violations
/// and malformed bodies fail at once.
pub open spec fn spec_is_retryable(k: FetchErrorKind) -> bool {
    k is Timeout || k is Connect || k is Request
}

pub fn is_retryable(k: &FetchErrorKind) -> (r: bool)
    ensures
        r == spec_is_retryable(*k),
{
    match k {
        FetchErrorKind::Timeout => true,
        FetchErrorKind::Connect => true,
        FetchErrorKind::Request => true,
        _ => false,
    }
}

/// How a response status is treated.
pub enum StatusClass {
    /// The conditional headers matched: skip all downstream work.
    NotModified,
    /// A success status: the body is used.
    Success,
    /// Anything else fails the fetch.
    Failure,
}

/// 304 is the not-modified short circuit; the 2xx range is success;
/// everything else is a failure.
pub open spec fn spec_classify_status(status: u16) -> StatusClass {
    if status == 304 {
        StatusClass::NotModified
    } else if 200 <= status && status <= 299 {
        StatusClass::Success
    } else {
        StatusClass::Failure
    }
}

pub fn classify_status(status: u16) -> (r: StatusClass)
    ensures
        r == spec_classify_status(status),
{
    if status == 304 {
        StatusClass::NotModified
    } else if 200 <= status && status <= 299 {
        StatusClass::Success
    } else {
        StatusClass::Failure
    }
}

/// Two to the `n`th power.
pub open spec fn pow2(n: int) -> int
    decreases n,
{
    if n <= 0 {
        1
    } else {
        2 * pow2(n - 1)
    }
}

/// Fetch policy: how often to retry, where backoff starts, and how large a
/// response may be.
pub struct Fetcher {
    pub user_agent: String,
    pub max_retries: u32,
    pub initial_backoff_ms: u64,
    pub max_feed_size: usize,
}

impl Fetcher {
    /// Three retries, one-second initial backoff.
    pub fn new(user_agent: String, max_feed_size: usize) -> (r: Fetcher)
        ensures
            r.user_agent@ == user_agent@,
            r.max_retries == 3,
            r.initial_backoff_ms == 1000,
            r.max_feed_size == max_feed_size,
    {
        Fetcher { user_agent, max_retries: 3, initial_backoff_ms: 1000, max_feed_size }
    }

    /// Whether a failed attempt is tried again: only transient failures,
    /// and only while retries are left.
    pub fn should_retry(&self, retries_done: u32, kind: &FetchErrorKind) -> (r: bool)
        ensures
            r == (retries_done < self.max_retries && spec_is_retryable(*kind)),
    {
        retries_done < self.max_retries && is_retryable(kind)
    }

    /// The backoff before retry number `attempt` (counted from zero): the
    /// initial backoff doubled `attempt` times, saturating at the integer
    /// ceiling.
    pub fn backoff_ms(&self, attempt: u32) -> (r: u64)
        ensures
            self.initial_backoff_ms * pow2(attempt as int) <= u64::MAX ==> r
                == self.initial_backoff_ms * pow2(attempt as int),
            self.initial_backoff_ms * pow2(attempt as int) > u64::MAX ==> r == u64::MAX,
    {
        let mut b: u64 = self.initial_backoff_ms;
        let mut k: u32 = 0;
        proof {
            assert(pow2(0int) == 1);
        }
        while k < attempt
        invariant
            0 <= k <= attempt,
            self.initial_backoff_ms * pow2(k as int) <= u64::MAX ==> b == self.initial_backoff_ms
                * pow2(k as int),
            self.initial_backoff_ms * pow2(k as int) > u64::MAX ==> b == u64::MAX,
            decreases attempt - k,
        {
            proof {
                assert(pow2(k + 1int) == 2 * pow2(k as int));
                lemma_pow2_pos(k as int);
            }
            let ghost truek = self.initial_backoff_ms * pow2(k as int);
            let ghost truek1 = self.initial_backoff_ms * pow2(k + 1int);
            proof {
                assert(truek1 == 2 * truek) by (nonlinear_arith)
                    requires
                        truek == self.initial_backoff_ms * pow2(k as int),
                        truek1 == self.initial_backoff_ms * pow2(k + 1int),
                        pow2(k + 1int) == 2 * pow2(k as int),
                ;
                assert(truek >= 0) by (nonlinear_arith)
                    requires
                        truek == self.initial_backoff_ms * pow2(k as int),
                        pow2(k as int) >= 1,
                        self.initial_backoff_ms >= 0,
                ;
            }
            if b > u64::MAX / 2 {
                b = u64::MAX;
            } else {
                b = b * 2;
            }
            k = k + 1;
        }
        b
    }

    /// Whether a declared or actual size stays within the ceiling.
    pub fn size_ok(&self, size: u64) -> (r: bool)
        ensures
            r == (size <= self.max_feed_size),
    {
        size <= self.max_feed_size as u64
    }
}

proof fn lemma_pow2_pos(n: int)
    ensures
        pow2(n) >= 1,
    decreases n,
{
    if n > 0 {
        lemma_pow2_pos(n - 1);
    }
}

/// The content types a feed or recipe file may declare; others only warn.
pub open spec fn spec_allowed_content_type(ct: Seq<char>) -> bool {
    ||| matches_at(lower_of(ct), "text/xml"@, 0)
    ||| matches_at(lower_of(ct), "application/xml"@, 0)
    ||| matches_at(lower_of(ct), "application/atom+xml"@, 0)
    ||| matches_at(lower_of(ct), "application/rss+xml"@, 0)
    ||| matches_at(lower_of(ct), "text/plain"@, 0)
    ||| matches_at(lower_of(ct), "text/html"@, 0)
}

/// Whether a declared content type is on the allow list. A mismatch is
/// logged, never fatal: many servers misreport the type.
pub fn is_allowed_content_type(ct: &str) -> (r: bool)
    ensures
        r == spec_allowed_content_type(ct@),
{
    let low = lowercase(ct);
    let cs = to_chars(low.as_str());
    let p1 = to_chars("text/xml");
    let p2 = to_chars("application/xml");
    let p3 = to_chars("application/atom+xml");
    let p4 = to_chars("application/rss+xml");
    let p5 = to_chars("text/plain");
    let p6 = to_chars("text/html");
    starts_with(&cs, &p1) || starts_with(&cs, &p2) || starts_with(&cs, &p3) || starts_with(
        &cs,
        &p4,
    ) || starts_with(&cs, &p5) || starts_with(&cs, &p6)
}

} // verus!
