//! Repository-source support: parsing repository URLs into owner and name,
//! the indexer configuration, and the API rate limiter that tracks
//! remaining quota and reset time from response headers.

use vstd::prelude::*;

use crate::text::{
    from_chars, spec_utrim, split_from, starts_with, strip_prefix_exec, strip_prefix_spec,
    to_chars, trim_end_char, trim_end_char_exec, trim_end_seq, trim_end_seq_exec, utrim_chars,
    matches_at,
};
use crate::Error;

verus! {

/// Owner and repository name parsed from a repository URL.
pub struct RepositoryInfo {
    pub owner: String,
    pub repo: String,
}

/// The remainder of a repository URL after trimming, protocol and host
/// stripping: what is split into owner and repository name.
pub open spec fn repo_url_core(u: Seq<char>) -> Seq<char> {
    let t = spec_utrim(u);
    let t = trim_end_char(t, '/');
    let t = trim_end_seq(t, ".git"@);
    let t = if matches_at(t, "https://"@, 0) {
        strip_prefix_spec(t, "https://"@)
    } else {
        strip_prefix_spec(t, "http://"@)
    };
    strip_prefix_spec(t, "github.com/"@)
}

/// The owner and repository name a URL parses to, when it parses.
pub open spec fn spec_parse_repository_url(u: Seq<char>) -> Option<(Seq<char>, Seq<char>)> {
    let parts = split_from(repo_url_core(u), '/', 0);
    if parts.len() < 2 {
        Option::None
    } else {
        let owner = spec_utrim(parts[0]);
        let repo = spec_utrim(parts[1]);
        if owner.len() == 0 || repo.len() == 0 {
            Option::None
        } else {
            Option::Some((owner, repo))
        }
    }
}

/// Parse a repository URL in any of the accepted shapes — with or without
/// protocol, host, trailing slashes or a `.git` suffix — into owner and
/// repository name. Rejects input with fewer than two path segments or an
/// empty owner or name.
pub fn parse_repository_url(url: &str) -> (r: Result<RepositoryInfo, Error>)
    ensures
        match r {
            Ok(info) => spec_parse_repository_url(url@) == Option::Some(
                (info.owner@, info.repo@),
            ),
            Err(e) => spec_parse_repository_url(url@) is None && e is Validation,
        },
{
    let cs = to_chars(url);
    let trimmed = utrim_chars(&cs);
    let no_slash = trim_end_char_exec(&trimmed, '/');
    let git_pat = to_chars(".git");
    proof {
        reveal_strlit(".git");
    }
    let no_git = trim_end_seq_exec(&no_slash, &git_pat);
    let https_pat = to_chars("https://");
    let http_pat = to_chars("http://");
    let after_proto = if starts_with(&no_git, &https_pat) {
        strip_prefix_exec(&no_git, &https_pat)
    } else {
        strip_prefix_exec(&no_git, &http_pat)
    };
    let host_pat = to_chars("github.com/");
    let core = strip_prefix_exec(&after_proto, &host_pat);
    assert(core@ == repo_url_core(url@));

    let parts = crate::text::split_char(&core, '/');
    let ghost specparts = split_from(core@, '/', 0);
    if parts.len() < 2 {
        return Err(
            Error::Validation(
                String::from_str("Invalid repository URL format. Expected: owner/repo"),
            ),
        );
    }
    let owner = utrim_chars(&parts[0]);
    let repo = utrim_chars(&parts[1]);
    if owner.len() == 0 || repo.len() == 0 {
        return Err(
            Error::Validation(String::from_str("Repository owner and name cannot be empty")),
        );
    }
    Ok(RepositoryInfo { owner: from_chars(&owner), repo: from_chars(&repo) })
}

/// Configuration for the repository indexer.
pub struct GitHubConfig {
    /// Optional access token for a higher rate limit.
    pub token: Option<String>,
    /// Seconds between scheduled repository syncs.
    pub update_interval_secs: u64,
    /// How many API requests to hold in reserve.
    pub rate_limit_buffer: u32,
    /// Ceiling on the size of a downloaded file, in bytes.
    pub max_file_size_bytes: u64,
    /// How many files are processed concurrently.
    pub recipe_concurrency: usize,
}

impl GitHubConfig {
    /// Repository indexing works with or without a token, so it is always
    /// available.
    pub fn is_enabled(&self) -> (r: bool)
        ensures
            r == true,
    {
        true
    }

    /// The base URL of the hosting service's API.
    pub fn api_base_url(&self) -> (r: &'static str)
        ensures
            r@ == "https://api.github.com"@,
    {
        "https://api.github.com"
    }
}

impl Default for GitHubConfig {
    /// Six-hour sync interval, five hundred requests held back, one-megabyte
    /// file ceiling, ten concurrent downloads, no token.
    fn default() -> (r: Self)
        ensures
            r.token is None,
            r.update_interval_secs == 21600,
            r.rate_limit_buffer == 500,
            r.max_file_size_bytes == 1048576,
            r.recipe_concurrency == 10,
    {
        GitHubConfig {
            token: None,
            update_interval_secs: 21600,
            rate_limit_buffer: 500,
            max_file_size_bytes: 1048576,
            recipe_concurrency: 10,
        }
    }
}

/// Rate limiter for the hosting service's API: tracks the quota advertised
/// in response headers and decides when requests must pause until the
/// advertised reset time.
pub struct RateLimiter {
    /// Total requests the service allows per window.
    pub limit: u32,
    /// Requests still available in the current window.
    pub remaining: u32,
    /// Unix timestamp at which the window resets.
    pub reset_at: i64,
    /// Requests held in reserve before pausing.
    pub buffer: u32,
}

/// The quota threshold at or below which requests pause: the lesser of the
/// configured buffer and a tenth of the total quota, floored at five.
pub open spec fn spec_threshold(limit: u32, buffer: u32) -> int {
    let tenth = if limit / 10 > 5 {
        (limit / 10) as int
    } else {
        5
    };
    if buffer <= tenth {
        buffer as int
    } else {
        tenth
    }
}

impl RateLimiter {
    /// A fresh limiter assumes the unauthenticated default of sixty
    /// requests, resetting an hour from now.
    pub fn new(buffer: u32, now: i64) -> (r: Self)
        requires
            now <= i64::MAX - 3600,
        ensures
            r.limit == 60,
            r.remaining == 60,
            r.reset_at == now + 3600,
            r.buffer == buffer,
    {
        RateLimiter { limit: 60, remaining: 60, reset_at: now + 3600, buffer }
    }

    /// Adopt whichever quota fields a response's headers carried.
    pub fn update_from_headers(
        &mut self,
        limit: Option<u32>,
        remaining: Option<u32>,
        reset_at: Option<i64>,
    )
        ensures
            final(self).limit == match limit {
                Option::Some(l) => l,
                Option::None => old(self).limit,
            },
            final(self).remaining == match remaining {
                Option::Some(m) => m,
                Option::None => old(self).remaining,
            },
            final(self).reset_at == match reset_at {
                Option::Some(t) => t,
                Option::None => old(self).reset_at,
            },
            final(self).buffer == old(self).buffer,
    {
        if let Some(l) = limit {
            self.limit = l;
        }
        if let Some(m) = remaining {
            self.remaining = m;
        }
        if let Some(t) = reset_at {
            self.reset_at = t;
        }
    }

    /// Whether the next request should pause: the remaining quota has
    /// reached the safety threshold.
    pub fn should_wait(&self) -> (r: bool)
        ensures
            r == (self.remaining <= spec_threshold(self.limit, self.buffer)),
    {
        let tenth_raw = self.limit / 10;
        let tenth: u32 = if tenth_raw > 5 {
            tenth_raw
        } else {
            5
        };
        let threshold: u32 = if self.buffer <= tenth {
            self.buffer
        } else {
            tenth
        };
        self.remaining <= threshold
    }

    /// How many seconds a request must pause before it may proceed: the
    /// time to the advertised reset when the threshold is reached and the
    /// reset is still ahead, and zero otherwise.
    pub fn wait_seconds(&self, now: i64) -> (r: u64)
        requires
            now >= 0,
        ensures
            (self.remaining <= spec_threshold(self.limit, self.buffer) && now < self.reset_at)
                ==> r == self.reset_at - now,
            !(self.remaining <= spec_threshold(self.limit, self.buffer) && now < self.reset_at)
                ==> r == 0,
    {
        if self.should_wait() && now < self.reset_at {
            (self.reset_at - now) as u64
        } else {
            0
        }
    }

    /// The remaining quota, the total quota, and the reset timestamp.
    pub fn get_status(&self) -> (r: (u32, u32, i64))
        ensures
            r.0 == self.remaining,
            r.1 == self.limit,
            r.2 == self.reset_at,
    {
        (self.remaining, self.limit, self.reset_at)
    }
}

} // verus!
