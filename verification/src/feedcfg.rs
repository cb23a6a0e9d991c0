//! The curated feed list: its entries, its validation rules — uniqueness,
//! protocol allow list, repository-URL shape, URL glob patterns, and the
//! bookkeeping demanded of disabled feeds. Reading the list from a file is
//! the application shell's job.

use vstd::prelude::*;

use crate::text::{
    spec_utrim, split_from, str_eq, to_chars, trim_end_char, trim_end_char_exec,
    trim_start_char, trim_start_char_exec, utrim_chars, split_char,
};
use crate::validation::{parse_url_parts, url_parse_of};
use crate::Error;

verus! {

broadcast use vstd::string::group_string_axioms;

/// How a feed is fetched: polled as a web feed, or indexed as a repository.
#[derive(Clone, Copy, PartialEq, Eq, Structural, Debug)]
pub enum FeedType {
    Web,
    GitHub,
}

/// One curated feed.
pub struct FeedEntry {
    pub url: String,
    pub title: String,
    pub feed_type: FeedType,
    pub branch: Option<String>,
    pub enabled: bool,
    pub tags: Vec<String>,
    pub notes: Option<String>,
    pub added_by: String,
    pub added_at: String,
    pub disabled_at: Option<String>,
    pub disabled_by: Option<String>,
    pub disabled_reason: Option<String>,
}

/// URL allow and deny patterns.
pub struct UrlPatterns {
    pub allow: Vec<String>,
    pub deny: Vec<String>,
}

impl Default for UrlPatterns {
    /// No patterns.
    fn default() -> (r: Self)
        ensures
            r.allow@.len() == 0,
            r.deny@.len() == 0,
    {
        UrlPatterns { allow: Vec::new(), deny: Vec::new() }
    }
}

/// Validation limits for the feed list.
pub struct ValidationConfig {
    pub max_feeds: usize,
    pub allowed_protocols: Vec<String>,
    pub url_patterns: UrlPatterns,
}

pub fn default_true() -> (r: bool)
    ensures
        r == true,
{
    true
}

pub fn default_feed_type() -> (r: FeedType)
    ensures
        r == FeedType::Web,
{
    FeedType::Web
}

pub fn default_max_feeds() -> (r: usize)
    ensures
        r == 1000,
{
    1000
}

/// The protocols allowed by default.
pub fn default_protocols() -> (r: Vec<String>)
    ensures
        r@.len() == 2,
        r@[0]@ == "https"@,
        r@[1]@ == "http"@,
{
    let mut v: Vec<String> = Vec::new();
    v.push(String::from_str("https"));
    v.push(String::from_str("http"));
    v
}

impl Default for ValidationConfig {
    /// A thousand feeds at most, https and http allowed, no patterns.
    fn default() -> (r: Self)
        ensures
            r.max_feeds == 1000,
            r.allowed_protocols@.len() == 2,
            r.allowed_protocols@[0]@ == "https"@,
            r.allowed_protocols@[1]@ == "http"@,
            r.url_patterns.allow@.len() == 0,
            r.url_patterns.deny@.len() == 0,
    {
        ValidationConfig {
            max_feeds: default_max_feeds(),
            allowed_protocols: default_protocols(),
            url_patterns: UrlPatterns { allow: Vec::new(), deny: Vec::new() },
        }
    }
}

/// The curated feed list.
pub struct FeedConfig {
    pub version: u32,
    pub feeds: Vec<FeedEntry>,
    pub validation: ValidationConfig,
}

/// Glob matching: a star matches any run of characters, a question mark
/// exactly one, anything else itself; the whole string must match.
pub open spec fn glob_match(p: Seq<char>, s: Seq<char>) -> bool
    decreases p.len(), s.len(),
{
    if p.len() == 0 {
        s.len() == 0
    } else if p[0] == '*' {
        glob_match(p.skip(1), s) || (s.len() > 0 && glob_match(p, s.skip(1)))
    } else {
        s.len() > 0 && (p[0] == '?' || p[0] == s[0]) && glob_match(p.skip(1), s.skip(1))
    }
}

fn glob_match_at(p: &Vec<char>, s: &Vec<char>, i: usize, j: usize) -> (r: bool)
    requires
        i <= p@.len(),
        j <= s@.len(),
    ensures
        r == glob_match(p@.skip(i as int), s@.skip(j as int)),
    decreases p@.len() - i, s@.len() - j,
{
    proof {
        if i < p@.len() {
            assert(p@.skip(i as int)[0] == p@[i as int]);
            assert(p@.skip(i as int).skip(1) =~= p@.skip(i + 1int));
        }
        if j < s@.len() {
            assert(s@.skip(j as int)[0] == s@[j as int]);
            assert(s@.skip(j as int).skip(1) =~= s@.skip(j + 1int));
        }
    }
    if i == p.len() {
        return j == s.len();
    }
    let c = p[i];
    if c == '*' {
        if glob_match_at(p, s, i + 1, j) {
            return true;
        }
        if j < s.len() {
            return glob_match_at(p, s, i, j + 1);
        }
        false
    } else {
        if j == s.len() {
            return false;
        }
        if c == '?' || c == s[j] {
            glob_match_at(p, s, i + 1, j + 1)
        } else {
            false
        }
    }
}

/// A repository URL accepted by the feed list: hosted on the expected
/// domain, with a non-empty owner and repository name as its first two path
/// segments.
pub open spec fn spec_github_url_ok(host: Seq<char>, path: Seq<char>) -> bool {
    let trimmed = trim_end_char(trim_start_char(path, '/'), '/');
    let parts = split_from(trimmed, '/', 0);
    &&& (host == "github.com"@ || host == "www.github.com"@)
    &&& parts.len() >= 2
    &&& parts[0].len() > 0
    &&& parts[1].len() > 0
}

/// One feed entry's validity under the list's rules.
pub open spec fn spec_feed_ok(v: ValidationConfig, f: FeedEntry) -> bool {
    &&& spec_utrim(f.url@).len() > 0
    &&& spec_utrim(f.title@).len() > 0
    &&& spec_utrim(f.added_by@).len() > 0
    &&& spec_utrim(f.added_at@).len() > 0
    &&& url_parse_of(f.url@) is Some
    &&& ({
        let parts = url_parse_of(f.url@)->Some_0;
        &&& (exists|k: int| 0 <= k < v.allowed_protocols@.len()
            && #[trigger] v.allowed_protocols@[k]@ == parts.0)
        &&& parts.1 is Some
        &&& (f.feed_type == FeedType::GitHub ==> spec_github_url_ok(parts.1->Some_0, parts.3))
    })
    &&& (forall|k: int| 0 <= k < v.url_patterns.deny@.len() ==> !glob_match(
        #[trigger] v.url_patterns.deny@[k]@,
        f.url@,
    ))
    &&& (v.url_patterns.allow@.len() > 0 ==> exists|k: int| 0 <= k < v.url_patterns.allow@.len()
        && glob_match(#[trigger] v.url_patterns.allow@[k]@, f.url@))
    &&& (!f.enabled ==> f.disabled_at is Some && f.disabled_by is Some)
}

/// URL uniqueness across the list.
pub open spec fn spec_urls_unique(fs: Seq<FeedEntry>) -> bool {
    forall|i: int, j: int| 0 <= i < j < fs.len() ==> (#[trigger] fs[i].url)@ != (#[trigger] fs[j].url)@
}

/// A whole feed list's validity.
pub open spec fn spec_config_ok(c: FeedConfig) -> bool {
    &&& c.version == 1
    &&& c.feeds@.len() <= c.validation.max_feeds
    &&& spec_urls_unique(c.feeds@)
    &&& forall|i: int| 0 <= i < c.feeds@.len() ==> spec_feed_ok(c.validation, #[trigger] c.feeds@[i])
}

/// The enabled entries, in order.
pub open spec fn spec_enabled_feeds(fs: Seq<FeedEntry>) -> Seq<FeedEntry>
    decreases fs.len(),
{
    if fs.len() == 0 {
        Seq::<FeedEntry>::empty()
    } else {
        spec_enabled_feeds(fs.drop_last()) + (if fs.last().enabled {
            seq![fs.last()]
        } else {
            Seq::<FeedEntry>::empty()
        })
    }
}

/// The disabled entries, in order.
pub open spec fn spec_disabled_feeds(fs: Seq<FeedEntry>) -> Seq<FeedEntry>
    decreases fs.len(),
{
    if fs.len() == 0 {
        Seq::<FeedEntry>::empty()
    } else {
        spec_disabled_feeds(fs.drop_last()) + (if !fs.last().enabled {
            seq![fs.last()]
        } else {
            Seq::<FeedEntry>::empty()
        })
    }
}

impl FeedConfig {
    /// Whether a URL matches a simple glob pattern, where a star matches
    /// any run and a question mark one character.
    pub fn matches_pattern(&self, url: &str, pattern: &str) -> (r: bool)
        ensures
            r == glob_match(pattern@, url@),
    {
        let p = to_chars(pattern);
        let s = to_chars(url);
        proof {
            assert(p@.skip(0) =~= p@);
            assert(s@.skip(0) =~= s@);
        }
        glob_match_at(&p, &s, 0, 0)
    }

    /// Validate one entry under the list's rules.
    fn validate_feed(&self, f: &FeedEntry) -> (r: bool)
        ensures
            r == spec_feed_ok(self.validation, *f),
    {
        let url_t = crate::text::utrim_chars(&to_chars(f.url.as_str()));
        if url_t.len() == 0 {
            return false;
        }
        let title_t = crate::text::utrim_chars(&to_chars(f.title.as_str()));
        if title_t.len() == 0 {
            return false;
        }
        let by_t = crate::text::utrim_chars(&to_chars(f.added_by.as_str()));
        if by_t.len() == 0 {
            return false;
        }
        let at_t = crate::text::utrim_chars(&to_chars(f.added_at.as_str()));
        if at_t.len() == 0 {
            return false;
        }
        let parts = match parse_url_parts(f.url.as_str()) {
            Some(p) => p,
            None => {
                return false;
            },
        };
        let mut proto_ok = false;
        let mut k: usize = 0;
        while k < self.validation.allowed_protocols.len()
            invariant
                0 <= k <= self.validation.allowed_protocols@.len(),
                parts.scheme@ == url_parse_of(f.url@)->Some_0.0,
                proto_ok == exists|q: int| 0 <= q < k
                    && #[trigger] self.validation.allowed_protocols@[q]@ == parts.scheme@,
            decreases self.validation.allowed_protocols@.len() - k,
        {
            if str_eq(self.validation.allowed_protocols[k].as_str(), parts.scheme.as_str()) {
                proto_ok = true;
            }
            k = k + 1;
        }
        if !proto_ok {
            return false;
        }
        let host = match &parts.host {
            Some(h) => h,
            None => {
                return false;
            },
        };
        let is_github = match f.feed_type {
            FeedType::GitHub => true,
            FeedType::Web => false,
        };
        if is_github {
            let host_ok = str_eq(host.as_str(), "github.com") || str_eq(
                host.as_str(),
                "www.github.com",
            );
            if !host_ok {
                return false;
            }
            let pc = to_chars(parts.path.as_str());
            let t1 = trim_start_char_exec(&pc, '/');
            let t2 = trim_end_char_exec(&t1, '/');
            let segs = split_char(&t2, '/');
            if segs.len() < 2 {
                return false;
            }
            if segs[0].len() == 0 || segs[1].len() == 0 {
                return false;
            }
            assert(spec_github_url_ok(
                url_parse_of(f.url@)->Some_0.1->Some_0,
                url_parse_of(f.url@)->Some_0.3,
            ));
        }
        let fu = to_chars(f.url.as_str());
        let mut k2: usize = 0;
        while k2 < self.validation.url_patterns.deny.len()
            invariant
                0 <= k2 <= self.validation.url_patterns.deny@.len(),
                fu@ == f.url@,
                forall|q: int| 0 <= q < k2 ==> !glob_match(
                    #[trigger] self.validation.url_patterns.deny@[q]@,
                    f.url@,
                ),
            decreases self.validation.url_patterns.deny@.len() - k2,
        {
            let pat = to_chars(self.validation.url_patterns.deny[k2].as_str());
            proof {
                assert(pat@.skip(0) =~= pat@);
                assert(fu@.skip(0) =~= fu@);
            }
            if glob_match_at(&pat, &fu, 0, 0) {
                return false;
            }
            k2 = k2 + 1;
        }
        if self.validation.url_patterns.allow.len() > 0 {
            let mut any = false;
            let mut k3: usize = 0;
            while k3 < self.validation.url_patterns.allow.len()
                invariant
                    0 <= k3 <= self.validation.url_patterns.allow@.len(),
                    fu@ == f.url@,
                    any == exists|q: int| 0 <= q < k3 && glob_match(
                        #[trigger] self.validation.url_patterns.allow@[q]@,
                        f.url@,
                    ),
                decreases self.validation.url_patterns.allow@.len() - k3,
            {
                let pat = to_chars(self.validation.url_patterns.allow[k3].as_str());
                proof {
                    assert(pat@.skip(0) =~= pat@);
                    assert(fu@.skip(0) =~= fu@);
                }
                if glob_match_at(&pat, &fu, 0, 0) {
                    any = true;
                }
                k3 = k3 + 1;
            }
            if !any {
                return false;
            }
        }
        if !f.enabled {
            if f.disabled_at.is_none() {
                return false;
            }
            if f.disabled_by.is_none() {
                return false;
            }
        }
        true
    }

    /// Validate the whole list: the supported version, the feed-count
    /// ceiling, URL uniqueness, and every entry's own rules — exactly these.
    pub fn validate(&self) -> (r: Result<(), Error>)
        ensures
            r is Ok <==> spec_config_ok(*self),
            r is Err ==> r->Err_0 is Config,
    {
        if self.version != 1 {
            return Err(Error::Config(String::from_str("Unsupported config version")));
        }
        if self.feeds.len() > self.validation.max_feeds {
            return Err(Error::Config(String::from_str("Too many feeds")));
        }
        let mut i: usize = 0;
        while i < self.feeds.len()
            invariant
                0 <= i <= self.feeds@.len(),
                forall|a: int, b: int| 0 <= a < b < i ==> (#[trigger] self.feeds@[a].url)@ != (
                #[trigger] self.feeds@[b].url)@,
            decreases self.feeds@.len() - i,
        {
            let mut j: usize = 0;
            while j < i
                invariant
                    0 <= j <= i < self.feeds@.len(),
                    forall|b: int| 0 <= b < j ==> (#[trigger] self.feeds@[b].url)@
                        != self.feeds@[i as int].url@,
                decreases i - j,
            {
                if str_eq(self.feeds[j].url.as_str(), self.feeds[i].url.as_str()) {
                    return Err(Error::Config(String::from_str("Duplicate feed URL")));
                }
                j = j + 1;
            }
            i = i + 1;
        }
        let mut k: usize = 0;
        while k < self.feeds.len()
            invariant
                0 <= k <= self.feeds@.len(),
                spec_urls_unique(self.feeds@),
                forall|q: int| 0 <= q < k ==> spec_feed_ok(
                    self.validation,
                    #[trigger] self.feeds@[q],
                ),
            decreases self.feeds@.len() - k,
        {
            if !self.validate_feed(&self.feeds[k]) {
                return Err(Error::Config(String::from_str("Invalid feed entry")));
            }
            k = k + 1;
        }
        Ok(())
    }

    /// The enabled feeds, cloned in order.
    pub fn enabled_feeds(&self) -> (r: Vec<FeedEntry>)
        ensures
            r@.len() == spec_enabled_feeds(self.feeds@).len(),
            forall|k: int| 0 <= k < r@.len() ==> (#[trigger] r@[k]).url@ == spec_enabled_feeds(
                self.feeds@,
            )[k].url@ && r@[k].enabled == spec_enabled_feeds(self.feeds@)[k].enabled
                && r@[k].feed_type == spec_enabled_feeds(self.feeds@)[k].feed_type,
    {
        collect_enabled(&self.feeds)
    }

    /// The disabled feeds, cloned in order.
    pub fn disabled_feeds(&self) -> (r: Vec<FeedEntry>)
        ensures
            r@.len() == spec_disabled_feeds(self.feeds@).len(),
            forall|k: int| 0 <= k < r@.len() ==> (#[trigger] r@[k]).url@ == spec_disabled_feeds(
                self.feeds@,
            )[k].url@ && r@[k].enabled == spec_disabled_feeds(self.feeds@)[k].enabled
                && r@[k].feed_type == spec_disabled_feeds(self.feeds@)[k].feed_type,
    {
        collect_disabled(&self.feeds)
    }

    /// How many feeds the list holds.
    pub fn total_feeds(&self) -> (r: usize)
        ensures
            r == self.feeds@.len(),
    {
        self.feeds.len()
    }

    /// How many feeds are enabled.
    pub fn enabled_count(&self) -> (r: usize)
        ensures
            r == spec_enabled_feeds(self.feeds@).len(),
    {
        self.enabled_feeds().len()
    }

    /// How many feeds are disabled.
    pub fn disabled_count(&self) -> (r: usize)
        ensures
            r == spec_disabled_feeds(self.feeds@).len(),
    {
        self.disabled_feeds().len()
    }
}

fn clone_feed_entry(f: &FeedEntry) -> (r: FeedEntry)
    ensures
        r.url@ == f.url@,
        r.enabled == f.enabled,
        r.feed_type == f.feed_type,
        r.title@ == f.title@,
{
    FeedEntry {
        url: f.url.clone(),
        title: f.title.clone(),
        feed_type: f.feed_type,
        branch: match &f.branch {
            Some(b) => Some(b.clone()),
            None => None,
        },
        enabled: f.enabled,
        tags: clone_tags(&f.tags),
        notes: match &f.notes {
            Some(n) => Some(n.clone()),
            None => None,
        },
        added_by: f.added_by.clone(),
        added_at: f.added_at.clone(),
        disabled_at: match &f.disabled_at {
            Some(d) => Some(d.clone()),
            None => None,
        },
        disabled_by: match &f.disabled_by {
            Some(d) => Some(d.clone()),
            None => None,
        },
        disabled_reason: match &f.disabled_reason {
            Some(d) => Some(d.clone()),
            None => None,
        },
    }
}

fn clone_tags(v: &Vec<String>) -> (r: Vec<String>)
    ensures
        r@ == v@,
{
    let mut out: Vec<String> = Vec::new();
    let mut i: usize = 0;
    while i < v.len()
        invariant
            0 <= i <= v@.len(),
            out@ == v@.take(i as int),
        decreases v@.len() - i,
    {
        out.push(v[i].clone());
        assert(out@ =~= v@.take(i + 1int));
        i = i + 1;
    }
    assert(v@.take(v@.len() as int) =~= v@);
    out
}

fn collect_enabled(feeds: &Vec<FeedEntry>) -> (r: Vec<FeedEntry>)
    ensures
        r@.len() == spec_enabled_feeds(feeds@).len(),
        forall|k: int| 0 <= k < r@.len() ==> (#[trigger] r@[k]).url@ == spec_enabled_feeds(
            feeds@,
        )[k].url@ && r@[k].enabled == spec_enabled_feeds(feeds@)[k].enabled && r@[k].feed_type
            == spec_enabled_feeds(feeds@)[k].feed_type && r@[k].title@ == spec_enabled_feeds(
            feeds@,
        )[k].title@,
{
    let mut out: Vec<FeedEntry> = Vec::new();
    let mut i: usize = 0;
    while i < feeds.len()
        invariant
            0 <= i <= feeds@.len(),
            out@.len() == spec_enabled_feeds(feeds@.take(i as int)).len(),
            forall|k: int| 0 <= k < out@.len() ==> (#[trigger] out@[k]).url@
                == spec_enabled_feeds(feeds@.take(i as int))[k].url@ && out@[k].enabled
                == spec_enabled_feeds(feeds@.take(i as int))[k].enabled && out@[k].feed_type
                == spec_enabled_feeds(feeds@.take(i as int))[k].feed_type && out@[k].title@
                == spec_enabled_feeds(feeds@.take(i as int))[k].title@,
        decreases feeds@.len() - i,
    {
        proof {
            assert(feeds@.take(i + 1int).drop_last() =~= feeds@.take(i as int));
            assert(feeds@.take(i + 1int).last() == feeds@[i as int]);
        }
        let f = &feeds[i];
        let ghost oldchosen = spec_enabled_feeds(feeds@.take(i as int));
        let ghost newchosen = spec_enabled_feeds(feeds@.take(i + 1int));
        if f.enabled {
            out.push(clone_feed_entry(f));
            proof {
                assert(newchosen =~= oldchosen.push(feeds@[i as int]));
            }
        } else {
            proof {
                assert(newchosen =~= oldchosen);
            }
        }
        i = i + 1;
    }
    assert(feeds@.take(feeds@.len() as int) =~= feeds@);
    out
}

fn collect_disabled(feeds: &Vec<FeedEntry>) -> (r: Vec<FeedEntry>)
    ensures
        r@.len() == spec_disabled_feeds(feeds@).len(),
        forall|k: int| 0 <= k < r@.len() ==> (#[trigger] r@[k]).url@ == spec_disabled_feeds(
            feeds@,
        )[k].url@ && r@[k].enabled == spec_disabled_feeds(feeds@)[k].enabled && r@[k].feed_type
            == spec_disabled_feeds(feeds@)[k].feed_type && r@[k].title@ == spec_disabled_feeds(
            feeds@,
        )[k].title@,
{
    let mut out: Vec<FeedEntry> = Vec::new();
    let mut i: usize = 0;
    while i < feeds.len()
        invariant
            0 <= i <= feeds@.len(),
            out@.len() == spec_disabled_feeds(feeds@.take(i as int)).len(),
            forall|k: int| 0 <= k < out@.len() ==> (#[trigger] out@[k]).url@
                == spec_disabled_feeds(feeds@.take(i as int))[k].url@ && out@[k].enabled
                == spec_disabled_feeds(feeds@.take(i as int))[k].enabled && out@[k].feed_type
                == spec_disabled_feeds(feeds@.take(i as int))[k].feed_type && out@[k].title@
                == spec_disabled_feeds(feeds@.take(i as int))[k].title@,
        decreases feeds@.len() - i,
    {
        proof {
            assert(feeds@.take(i + 1int).drop_last() =~= feeds@.take(i as int));
            assert(feeds@.take(i + 1int).last() == feeds@[i as int]);
        }
        let f = &feeds[i];
        let ghost oldchosen = spec_disabled_feeds(feeds@.take(i as int));
        let ghost newchosen = spec_disabled_feeds(feeds@.take(i + 1int));
        if !f.enabled {
            out.push(clone_feed_entry(f));
            proof {
                assert(newchosen =~= oldchosen.push(feeds@[i as int]));
            }
        } else {
            proof {
                assert(newchosen =~= oldchosen);
            }
        }
        i = i + 1;
    }
    assert(feeds@.take(feeds@.len() as int) =~= feeds@);
    out
}

} // verus!
