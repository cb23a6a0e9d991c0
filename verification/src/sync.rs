//! Configuration-to-store feed synchronization: what a sync run decides for
//! each configured feed against the stored feeds, and the report it
//! aggregates. The store itself is an external collaborator.

use vstd::prelude::*;

use crate::text::str_eq;

verus! {

/// What one synchronization run did.
pub struct SyncReport {
    pub added: usize,
    pub updated: usize,
    pub disabled: usize,
    pub re_enabled: usize,
    pub unchanged: usize,
    pub errors: Vec<String>,
}

impl SyncReport {
    /// An empty report.
    pub fn new() -> (r: SyncReport)
        ensures
            r.added == 0,
            r.updated == 0,
            r.disabled == 0,
            r.re_enabled == 0,
            r.unchanged == 0,
            r.errors@.len() == 0,
    {
        SyncReport {
            added: 0,
            updated: 0,
            disabled: 0,
            re_enabled: 0,
            unchanged: 0,
            errors: Vec::new(),
        }
    }

    /// One line summarizing the run, fit for a log.
    pub fn log_summary(&self) -> String {
        let mut out = crate::text::to_chars("Feed sync completed: ");
        let a = crate::text::u64_to_dec(self.added as u64);
        crate::text::append_chars(&mut out, &a);
        let t1 = crate::text::to_chars(" added, ");
        crate::text::append_chars(&mut out, &t1);
        let u = crate::text::u64_to_dec(self.updated as u64);
        crate::text::append_chars(&mut out, &u);
        let t2 = crate::text::to_chars(" updated, ");
        crate::text::append_chars(&mut out, &t2);
        let d = crate::text::u64_to_dec(self.disabled as u64);
        crate::text::append_chars(&mut out, &d);
        let t3 = crate::text::to_chars(" disabled, ");
        crate::text::append_chars(&mut out, &t3);
        let re = crate::text::u64_to_dec(self.re_enabled as u64);
        crate::text::append_chars(&mut out, &re);
        let t4 = crate::text::to_chars(" re-enabled, ");
        crate::text::append_chars(&mut out, &t4);
        let un = crate::text::u64_to_dec(self.unchanged as u64);
        crate::text::append_chars(&mut out, &un);
        let t5 = crate::text::to_chars(" unchanged, ");
        crate::text::append_chars(&mut out, &t5);
        let e = crate::text::u64_to_dec(self.errors.len() as u64);
        crate::text::append_chars(&mut out, &e);
        let t6 = crate::text::to_chars(" errors");
        crate::text::append_chars(&mut out, &t6);
        crate::text::from_chars(&out)
    }
}

/// The status a configured feed should have in the store.
pub open spec fn spec_desired_status(enabled: bool) -> Seq<char> {
    if enabled {
        "active"@
    } else {
        "disabled"@
    }
}

pub fn desired_status(enabled: bool) -> (r: String)
    ensures
        r@ == spec_desired_status(enabled),
{
    if enabled {
        String::from_str("active")
    } else {
        String::from_str("disabled")
    }
}

/// What syncing one configured feed against its stored row decides.
pub struct ExistingSyncDecision {
    /// Whether the row needs a write at all.
    pub update_needed: bool,
    /// The status the row should carry.
    pub status: String,
    /// Whether this sync re-enabled a disabled feed.
    pub re_enabled: bool,
    /// Whether the report counts this as updated.
    pub counts_updated: bool,
    /// Whether the report counts this as unchanged.
    pub counts_unchanged: bool,
}

/// Decide what to do with a stored feed that is still configured: a write
/// happens when the title or the enabled status differ; re-enabling a
/// disabled feed is counted apart and not also as an update.
pub fn sync_existing_decision(
    config_title: &String,
    config_enabled: bool,
    stored_title: Option<&String>,
    stored_status: &String,
) -> (r: ExistingSyncDecision)
    ensures
        ({
            let title_differs = match stored_title {
                Option::Some(t) => t@ != config_title@,
                Option::None => true,
            };
            let status_changed = stored_status@ != spec_desired_status(config_enabled);
            &&& r.update_needed == (title_differs || status_changed)
            &&& r.status@ == spec_desired_status(config_enabled)
            &&& r.re_enabled == (status_changed && config_enabled && stored_status@
                == "disabled"@)
            &&& r.counts_updated == (r.update_needed && (!status_changed || !config_enabled))
            &&& r.counts_unchanged == !r.update_needed
        }),
{
    let title_differs = match stored_title {
        Some(t) => !str_eq(t.as_str(), config_title.as_str()),
        None => true,
    };
    let status = desired_status(config_enabled);
    let status_changed = !str_eq(stored_status.as_str(), status.as_str());
    let update_needed = title_differs || status_changed;
    let re_enabled = status_changed && config_enabled && str_eq(
        stored_status.as_str(),
        "disabled",
    );
    ExistingSyncDecision {
        update_needed,
        status,
        re_enabled,
        counts_updated: update_needed && (!status_changed || !config_enabled),
        counts_unchanged: !update_needed,
    }
}

/// A stored feed's identity and status, as the sync pass reads them.
pub struct StoredFeed {
    pub id: i64,
    pub url: String,
    pub status: String,
}

/// The stored feeds that a sync run disables: the active ones whose URL no
/// longer appears in the configuration.
pub open spec fn spec_feeds_to_disable(stored: Seq<StoredFeed>, config_urls: Seq<String>) -> Seq<
    i64,
>
    decreases stored.len(),
{
    if stored.len() == 0 {
        Seq::<i64>::empty()
    } else {
        spec_feeds_to_disable(stored.drop_last(), config_urls) + (if stored.last().status@
            == "active"@ && !url_listed(config_urls, stored.last().url@) {
            seq![stored.last().id]
        } else {
            Seq::<i64>::empty()
        })
    }
}

/// Whether a URL appears in the configured list.
pub open spec fn url_listed(config_urls: Seq<String>, url: Seq<char>) -> bool {
    exists|k: int| 0 <= k < config_urls.len() && #[trigger] config_urls[k]@ == url
}

fn url_in_list(config_urls: &Vec<String>, url: &String) -> (r: bool)
    ensures
        r == url_listed(config_urls@, url@),
{
    let mut k: usize = 0;
    while k < config_urls.len()
        invariant
            0 <= k <= config_urls@.len(),
            forall|j: int| 0 <= j < k ==> #[trigger] config_urls@[j]@ != url@,
        decreases config_urls@.len() - k,
    {
        if str_eq(config_urls[k].as_str(), url.as_str()) {
            assert(config_urls@[k as int]@ == url@);
            return true;
        }
        k = k + 1;
    }
    false
}

/// Collect the ids of stored feeds to disable: active rows whose URL left
/// the configuration.
pub fn feeds_to_disable(stored: &Vec<StoredFeed>, config_urls: &Vec<String>) -> (r: Vec<i64>)
    ensures
        r@ == spec_feeds_to_disable(stored@, config_urls@),
{
    let mut out: Vec<i64> = Vec::new();
    let mut i: usize = 0;
    while i < stored.len()
        invariant
            0 <= i <= stored@.len(),
            out@ == spec_feeds_to_disable(stored@.take(i as int), config_urls@),
        decreases stored@.len() - i,
    {
        proof {
            assert(stored@.take(i + 1int).drop_last() =~= stored@.take(i as int));
            assert(stored@.take(i + 1int).last() == stored@[i as int]);
        }
        let f = &stored[i];
        if str_eq(f.status.as_str(), "active") && !url_in_list(config_urls, &f.url) {
            out.push(f.id);
            assert(out@ =~= spec_feeds_to_disable(stored@.take(i + 1int), config_urls@));
        } else {
            assert(out@ =~= spec_feeds_to_disable(stored@.take(i + 1int), config_urls@));
        }
        i = i + 1;
    }
    assert(stored@.take(stored@.len() as int) =~= stored@);
    out
}

} // verus!
