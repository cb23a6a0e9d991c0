//! The crawl orchestrator's decision core: the entry change-detection state
//! machine, what each fetch outcome does to the stored recipe, the feed
//! status lifecycle, and the per-crawl counters. Network and persistence
//! are external collaborators driven by these decisions.

use vstd::prelude::*;

use crate::hasher::{calculate_content_hash, spec_content_hash};
use crate::validation::{resolve_image_url, spec_resolve_image_url};

verus! {

/// Structured facts parsed from a feed entry.
pub struct RecipeMetadata {
    pub servings: Option<i64>,
    pub total_time: Option<i64>,
    pub active_time: Option<i64>,
    pub difficulty: Option<String>,
}

/// One normalized feed entry. Timestamps are Unix milliseconds.
pub struct ParsedEntry {
    pub id: String,
    pub title: String,
    pub summary: Option<String>,
    pub source_url: Option<String>,
    pub enclosure_url: Option<String>,
    pub image_url: Option<String>,
    pub published: Option<i64>,
    pub updated: Option<i64>,
    pub tags: Vec<String>,
    pub metadata: RecipeMetadata,
}

/// A normalized feed document.
pub struct ParsedFeed {
    pub title: Option<String>,
    pub author: Option<String>,
    pub updated: Option<i64>,
    pub entries: Vec<ParsedEntry>,
}

/// One link of a raw feed entry, as the feed parser reports it.
pub struct RawLink {
    pub href: String,
    pub rel: Option<String>,
    pub media_type: Option<String>,
}

/// A raw feed entry as the external feed parser hands it over, before this
/// crate's link and image selection.
pub struct RawEntry {
    pub id: String,
    pub title: Option<String>,
    pub summary: Option<String>,
    pub content_body: Option<String>,
    pub links: Vec<RawLink>,
    pub media_image: Option<String>,
    pub published: Option<i64>,
    pub updated: Option<i64>,
    pub categories: Vec<String>,
}

/// What the change-detection state machine reads of a stored recipe.
pub struct StoredRecipe {
    pub id: i64,
    pub feed_entry_updated: Option<i64>,
    pub content_etag: Option<String>,
    pub content_last_modified: Option<String>,
    pub content_hash: Option<String>,
}

/// A recipe row to insert.
pub struct NewRecipe {
    pub feed_id: i64,
    pub external_id: String,
    pub title: String,
    pub source_url: Option<String>,
    pub enclosure_url: String,
    pub content: Option<String>,
    pub summary: Option<String>,
    pub servings: Option<i64>,
    pub total_time_minutes: Option<i64>,
    pub active_time_minutes: Option<i64>,
    pub difficulty: Option<String>,
    pub image_url: Option<String>,
    pub published_at: Option<i64>,
    pub content_hash: Option<String>,
    pub content_etag: Option<String>,
    pub content_last_modified: Option<String>,
    pub feed_entry_updated: Option<i64>,
}

/// What processing one entry did.
pub enum ProcessResult {
    /// A new recipe was created.
    New,
    /// An existing recipe was updated.
    Updated,
    /// The entry was skipped: no change, no enclosure, or a tolerated
    /// per-entry failure.
    Skipped,
}

/// Whether and how an entry's content is fetched.
pub enum EntryPlan {
    /// No network call is made for this entry.
    Skip,
    /// Fetch without conditional headers: the recipe does not exist yet.
    FetchNew,
    /// Fetch with the stored content caching tokens.
    FetchConditional { etag: Option<String>, last_modified: Option<String> },
}

/// The outcome of fetching an entry's content.
pub enum ContentOutcome {
    /// Content arrived, new or changed.
    Fetched { content: String, etag: Option<String>, last_modified: Option<String> },
    /// The conditional headers matched: nothing changed.
    NotModified,
    /// The fetch failed; the entry is tolerated and skipped.
    Failed,
}

/// The write an entry's processing asks of persistence.
pub enum RecipeWrite {
    /// Nothing to persist.
    NoWrite,
    /// Update only the tracked entry timestamp.
    Touch { recipe_id: i64, feed_entry_updated: Option<i64> },
    /// Insert a new recipe row.
    Insert(NewRecipe),
    /// Update content, digest, caching tokens and tags in place.
    Update {
        recipe_id: i64,
        content: String,
        content_hash: String,
        content_etag: Option<String>,
        content_last_modified: Option<String>,
        feed_entry_updated: Option<i64>,
        tags: Vec<String>,
    },
}

/// The result of processing one entry.
pub struct EntryOutcome {
    pub result: ProcessResult,
    pub write: RecipeWrite,
}

/// The decision table for one entry, in precedence order: no enclosure is a
/// skip; an unknown recipe is always fetched; comparable timestamps decide
/// by strict newness; a newly tracked timestamp is fetched conservatively;
/// no entry timestamp falls back to a conditional fetch.
pub open spec fn spec_entry_plan(entry: ParsedEntry, existing: Option<StoredRecipe>) -> EntryPlan {
    if entry.enclosure_url is None {
        EntryPlan::Skip
    } else {
        match existing {
            Option::None => EntryPlan::FetchNew,
            Option::Some(rec) => {
                match (entry.updated, rec.feed_entry_updated) {
                    (Option::Some(eu), Option::Some(su)) => if eu > su {
                        EntryPlan::FetchConditional {
                            etag: rec.content_etag,
                            last_modified: rec.content_last_modified,
                        }
                    } else {
                        EntryPlan::Skip
                    },
                    _ => EntryPlan::FetchConditional {
                        etag: rec.content_etag,
                        last_modified: rec.content_last_modified,
                    },
                }
            },
        }
    }
}

fn clone_opt_string(o: &Option<String>) -> (r: Option<String>)
    ensures
        r == *o,
{
    match o {
        Some(s) => Some(s.clone()),
        None => None,
    }
}

fn clone_opt_i64(o: &Option<i64>) -> (r: Option<i64>)
    ensures
        r == *o,
{
    match o {
        Some(v) => Some(*v),
        None => None,
    }
}

fn clone_string_vec(v: &Vec<String>) -> (r: Vec<String>)
    ensures
        r@ == v@,
{
    let mut out: Vec<String> = Vec::new();
    let mut i: usize = 0;
    while i < v.len()
        invariant
            0 <= i <= v@.len(),
            out@ == v@.take(i as int),
        decreases v@.len() - i,
    {
        out.push(v[i].clone());
        assert(out@ =~= v@.take(i + 1int));
        i = i + 1;
    }
    assert(v@.take(v@.len() as int) =~= v@);
    out
}

/// Decide whether an entry's content is fetched, and with which caching
/// tokens, per the change-detection table.
pub fn entry_fetch_plan(entry: &ParsedEntry, existing: Option<&StoredRecipe>) -> (r: EntryPlan)
    ensures
        r == spec_entry_plan(*entry, match existing {
            Option::Some(rec) => Option::Some(*rec),
            Option::None => Option::None,
        }),
{
    if entry.enclosure_url.is_none() {
        return EntryPlan::Skip;
    }
    match existing {
        None => EntryPlan::FetchNew,
        Some(rec) => {
            match (&entry.updated, &rec.feed_entry_updated) {
                (Some(eu), Some(su)) => {
                    if *eu > *su {
                        EntryPlan::FetchConditional {
                            etag: clone_opt_string(&rec.content_etag),
                            last_modified: clone_opt_string(&rec.content_last_modified),
                        }
                    } else {
                        EntryPlan::Skip
                    }
                },
                _ => EntryPlan::FetchConditional {
                    etag: clone_opt_string(&rec.content_etag),
                    last_modified: clone_opt_string(&rec.content_last_modified),
                },
            }
        },
    }
}

/// What an entry's processing comes to, for each fetch outcome: a
/// not-modified or failed fetch is a skip; fetched content with an
/// unchanged digest is a skip; otherwise the recipe is updated in place or
/// newly created.
pub open spec fn spec_finish_result(
    entry: ParsedEntry,
    existing: Option<StoredRecipe>,
    outcome: ContentOutcome,
) -> ProcessResult {
    match existing {
        Option::Some(rec) => match outcome {
            ContentOutcome::NotModified => ProcessResult::Skipped,
            ContentOutcome::Failed => ProcessResult::Skipped,
            ContentOutcome::Fetched { content, .. } => {
                match rec.content_hash {
                    Option::Some(h) => if h@ == spec_content_hash(
                        entry.title@,
                        Option::Some(content@),
                    ) {
                        ProcessResult::Skipped
                    } else {
                        ProcessResult::Updated
                    },
                    Option::None => ProcessResult::Updated,
                }
            },
        },
        Option::None => match outcome {
            ContentOutcome::Fetched { .. } => ProcessResult::New,
            _ => ProcessResult::Skipped,
        },
    }
}

/// The image recorded for a new recipe: the feed's own per-entry image is
/// preferred, the markup metadata image is the fallback, and either is
/// resolved against the enclosure URL.
pub open spec fn spec_new_image(
    entry_img: Option<String>,
    meta_img: Option<String>,
    enclosure: Seq<char>,
) -> Option<Seq<char>> {
    match entry_img {
        Option::Some(i) => spec_resolve_image_url(i@, enclosure),
        Option::None => match meta_img {
            Option::Some(i) => spec_resolve_image_url(i@, enclosure),
            Option::None => Option::None,
        },
    }
}

/// Turn a fetch outcome into the entry's result and the write it asks of
/// persistence. A failed fetch is tolerated as a skip; unchanged content —
/// whether reported not-modified or refetched with an equal digest — never
/// rewrites the row.
pub fn finish_entry(
    feed_id: i64,
    entry: &ParsedEntry,
    existing: Option<&StoredRecipe>,
    outcome: ContentOutcome,
    metadata_image: Option<String>,
) -> (r: EntryOutcome)
    requires
        entry.enclosure_url is Some,
    ensures
        r.result == spec_finish_result(*entry, match existing {
            Option::Some(rec) => Option::Some(*rec),
            Option::None => Option::None,
        }, outcome),
        existing is Some && outcome is NotModified ==> (r.write matches RecipeWrite::Touch {
            recipe_id,
            feed_entry_updated,
        } && recipe_id == existing->Some_0.id && feed_entry_updated == entry.updated),
        outcome is Failed ==> r.write is NoWrite,
        existing is None && outcome is NotModified ==> r.write is NoWrite,
        existing is Some ==> (outcome matches ContentOutcome::Fetched {
            content,
            etag,
            last_modified,
        } ==> {
            let rec = *existing->Some_0;
            if rec.content_hash is Some && rec.content_hash->Some_0@ == spec_content_hash(
                entry.title@,
                Option::Some(content@),
            ) {
                r.write is NoWrite
            } else {
                (r.write matches RecipeWrite::Update {
                    recipe_id,
                    content: c,
                    content_hash,
                    content_etag,
                    content_last_modified,
                    feed_entry_updated,
                    tags,
                } && recipe_id == rec.id && c == content && content_hash@ == spec_content_hash(
                    entry.title@,
                    Option::Some(content@),
                ) && content_etag == etag && content_last_modified == last_modified
                    && feed_entry_updated == entry.updated && tags@ == entry.tags@)
            }
        }),
        existing is None ==> (outcome matches ContentOutcome::Fetched {
            content,
            etag,
            last_modified,
        } ==> (r.write matches RecipeWrite::Insert(ins) && {
            &&& ins.feed_id == feed_id
            &&& ins.external_id == entry.id
            &&& ins.title == entry.title
            &&& ins.source_url == entry.source_url
            &&& ins.enclosure_url == entry.enclosure_url->Some_0
            &&& ins.content == Option::Some(content)
            &&& ins.summary == entry.summary
            &&& ins.servings == entry.metadata.servings
            &&& ins.total_time_minutes == entry.metadata.total_time
            &&& ins.active_time_minutes == entry.metadata.active_time
            &&& ins.difficulty == entry.metadata.difficulty
            &&& (ins.image_url is Some <==> spec_new_image(
                entry.image_url,
                metadata_image,
                entry.enclosure_url->Some_0@,
            ) is Some)
            &&& (ins.image_url is Some ==> ins.image_url->Some_0@ == spec_new_image(
                entry.image_url,
                metadata_image,
                entry.enclosure_url->Some_0@,
            )->Some_0)
            &&& ins.published_at == entry.published
            &&& ins.content_hash is Some
            &&& ins.content_hash->Some_0@ == spec_content_hash(
                entry.title@,
                Option::Some(content@),
            )
            &&& ins.content_etag == etag
            &&& ins.content_last_modified == last_modified
            &&& ins.feed_entry_updated == entry.updated
        })),
{
    let enclosure: &String = match &entry.enclosure_url {
        Some(u) => u,
        None => {
            return vstd::pervasive::unreached();
        },
    };
    match existing {
        Some(rec) => {
            match outcome {
                ContentOutcome::NotModified => EntryOutcome {
                    result: ProcessResult::Skipped,
                    write: RecipeWrite::Touch {
                        recipe_id: rec.id,
                        feed_entry_updated: clone_opt_i64(&entry.updated),
                    },
                },
                ContentOutcome::Failed => EntryOutcome {
                    result: ProcessResult::Skipped,
                    write: RecipeWrite::NoWrite,
                },
                ContentOutcome::Fetched { content, etag, last_modified } => {
                    let hash = calculate_content_hash(entry.title.as_str(), Some(content.as_str()));
                    let unchanged = match &rec.content_hash {
                        Some(h) => crate::text::str_eq(h.as_str(), hash.as_str()),
                        None => false,
                    };
                    if unchanged {
                        EntryOutcome { result: ProcessResult::Skipped, write: RecipeWrite::NoWrite }
                    } else {
                        EntryOutcome {
                            result: ProcessResult::Updated,
                            write: RecipeWrite::Update {
                                recipe_id: rec.id,
                                content,
                                content_hash: hash,
                                content_etag: etag,
                                content_last_modified: last_modified,
                                feed_entry_updated: clone_opt_i64(&entry.updated),
                                tags: clone_string_vec(&entry.tags),
                            },
                        }
                    }
                },
            }
        },
        None => {
            match outcome {
                ContentOutcome::Fetched { content, etag, last_modified } => {
                    let hash = calculate_content_hash(entry.title.as_str(), Some(content.as_str()));
                    let chosen_img: Option<String> = match &entry.image_url {
                        Some(i) => Some(i.clone()),
                        None => metadata_image,
                    };
                    let image_url = match &chosen_img {
                        Some(img) => resolve_image_url(img.as_str(), enclosure.as_str()),
                        None => None,
                    };
                    let ins = NewRecipe {
                        feed_id,
                        external_id: entry.id.clone(),
                        title: entry.title.clone(),
                        source_url: clone_opt_string(&entry.source_url),
                        enclosure_url: enclosure.clone(),
                        content: Some(content),
                        summary: clone_opt_string(&entry.summary),
                        servings: clone_opt_i64(&entry.metadata.servings),
                        total_time_minutes: clone_opt_i64(&entry.metadata.total_time),
                        active_time_minutes: clone_opt_i64(&entry.metadata.active_time),
                        difficulty: clone_opt_string(&entry.metadata.difficulty),
                        image_url,
                        published_at: clone_opt_i64(&entry.published),
                        content_hash: Some(hash),
                        content_etag: etag,
                        content_last_modified: last_modified,
                        feed_entry_updated: clone_opt_i64(&entry.updated),
                    };
                    EntryOutcome { result: ProcessResult::New, write: RecipeWrite::Insert(ins) }
                },
                _ => EntryOutcome { result: ProcessResult::Skipped, write: RecipeWrite::NoWrite },
            }
        },
    }
}

/// Entry timestamp monotonicity: with a stored entry timestamp, an incoming
/// entry whose timestamp is not strictly newer never triggers a content
/// fetch, and a strictly newer one always does.
pub proof fn lemma_timestamp_monotonicity(entry: ParsedEntry, rec: StoredRecipe)
    requires
        entry.enclosure_url is Some,
        entry.updated is Some,
        rec.feed_entry_updated is Some,
    ensures
        entry.updated->Some_0 <= rec.feed_entry_updated->Some_0 ==> spec_entry_plan(
            entry,
            Option::Some(rec),
        ) is Skip,
        entry.updated->Some_0 > rec.feed_entry_updated->Some_0 ==> spec_entry_plan(
            entry,
            Option::Some(rec),
        ) is FetchConditional,
{
}

/// Idempotent sync: once a crawl has recorded an entry's timestamp and its
/// content digest, a second run against the unchanged feed does no work. An
/// entry that carries a timestamp is skipped without any network call; one
/// without a timestamp is fetched conditionally, and both a not-modified
/// answer and a refetch of the same content finish as a skip — never as a
/// new or updated recipe.
pub proof fn lemma_idempotent_sync(entry: ParsedEntry, rec: StoredRecipe)
    requires
        entry.enclosure_url is Some,
        rec.feed_entry_updated == entry.updated,
        rec.content_hash is Some,
    ensures
        entry.updated is Some ==> spec_entry_plan(entry, Option::Some(rec)) is Skip,
        entry.updated is None ==> spec_entry_plan(entry, Option::Some(rec)) is FetchConditional,
        spec_finish_result(entry, Option::Some(rec), ContentOutcome::NotModified)
            is Skipped,
        forall|content: String, etag: Option<String>, lm: Option<String>|
            rec.content_hash->Some_0@ == spec_content_hash(entry.title@, Option::Some(content@))
                ==> spec_finish_result(
                entry,
                Option::Some(rec),
                ContentOutcome::Fetched { content, etag, last_modified: lm },
            ) is Skipped,
{
}

/// A feed record as the crawler sees and transitions it. Timestamps are
/// Unix milliseconds.
pub struct FeedRecord {
    pub id: i64,
    pub url: String,
    pub title: Option<String>,
    pub author: Option<String>,
    pub etag: Option<String>,
    pub last_modified: Option<i64>,
    pub status: String,
    pub error_count: i64,
    pub error_message: Option<String>,
}

/// The outcome of fetching the feed document itself.
pub enum FeedFetchOutcome {
    /// A feed document arrived with fresh caching tokens.
    Fetched { content: String, etag: Option<String>, last_modified: Option<i64> },
    /// The feed document has not changed since the stored tokens.
    NotModified,
    /// The fetch or the parse failed; the message describes it.
    Failed { message: String },
}

/// What a crawl does after fetching the feed document.
pub enum FeedCrawlPlan {
    /// Parse the document and process every entry.
    Process,
    /// Skip all downstream work: nothing changed.
    Unchanged,
    /// Record the failure on the feed and abort this feed's crawl.
    Abort,
}

/// A fetched document is processed, a not-modified answer short-circuits,
/// and a failure aborts this feed alone.
pub open spec fn spec_feed_crawl_plan(outcome: FeedFetchOutcome) -> FeedCrawlPlan {
    match outcome {
        FeedFetchOutcome::Fetched { .. } => FeedCrawlPlan::Process,
        FeedFetchOutcome::NotModified => FeedCrawlPlan::Unchanged,
        FeedFetchOutcome::Failed { .. } => FeedCrawlPlan::Abort,
    }
}

pub fn feed_crawl_plan(outcome: &FeedFetchOutcome) -> (r: FeedCrawlPlan)
    ensures
        r == spec_feed_crawl_plan(*outcome),
{
    match outcome {
        FeedFetchOutcome::Fetched { .. } => FeedCrawlPlan::Process,
        FeedFetchOutcome::NotModified => FeedCrawlPlan::Unchanged,
        FeedFetchOutcome::Failed { .. } => FeedCrawlPlan::Abort,
    }
}

/// Conditional fetch short-circuit: a not-modified feed document means no
/// entry is processed — the crawl's plan carries no entries to work on, and
/// its counters are all zero.
pub proof fn lemma_not_modified_short_circuit()
    ensures
        spec_feed_crawl_plan(FeedFetchOutcome::NotModified) is Unchanged,
        forall|feed_id: i64| #![auto] spec_unchanged_counts(feed_id).new_recipes == 0
            && spec_unchanged_counts(feed_id).updated_recipes == 0 && spec_unchanged_counts(
            feed_id,
        ).skipped_recipes == 0,
{
}

/// Outcome counters of one feed crawl.
pub struct CrawlResult {
    pub feed_id: i64,
    pub new_recipes: usize,
    pub updated_recipes: usize,
    pub skipped_recipes: usize,
}

/// The counters of a crawl that processed no entries.
pub open spec fn spec_unchanged_counts(feed_id: i64) -> CrawlResult {
    CrawlResult { feed_id, new_recipes: 0, updated_recipes: 0, skipped_recipes: 0 }
}

/// The result of a crawl short-circuited by an unchanged feed document.
pub fn unchanged_crawl_result(feed_id: i64) -> (r: CrawlResult)
    ensures
        r == spec_unchanged_counts(feed_id),
{
    CrawlResult { feed_id, new_recipes: 0, updated_recipes: 0, skipped_recipes: 0 }
}

pub open spec fn count_new(rs: Seq<ProcessResult>) -> int
    decreases rs.len(),
{
    if rs.len() == 0 {
        0
    } else {
        count_new(rs.drop_last()) + (if rs.last() is New {
            1int
        } else {
            0int
        })
    }
}

pub open spec fn count_updated(rs: Seq<ProcessResult>) -> int
    decreases rs.len(),
{
    if rs.len() == 0 {
        0
    } else {
        count_updated(rs.drop_last()) + (if rs.last() is Updated {
            1int
        } else {
            0int
        })
    }
}

pub open spec fn count_skipped(rs: Seq<ProcessResult>) -> int
    decreases rs.len(),
{
    if rs.len() == 0 {
        0
    } else {
        count_skipped(rs.drop_last()) + (if rs.last() is Skipped {
            1int
        } else {
            0int
        })
    }
}

/// Tally per-entry results into the crawl's counters.
pub fn tally_results(feed_id: i64, results: &Vec<ProcessResult>) -> (r: CrawlResult)
    ensures
        r.feed_id == feed_id,
        r.new_recipes == count_new(results@),
        r.updated_recipes == count_updated(results@),
        r.skipped_recipes == count_skipped(results@),
{
    let mut new_recipes: usize = 0;
    let mut updated_recipes: usize = 0;
    let mut skipped_recipes: usize = 0;
    let mut i: usize = 0;
    let n = results.len();
    while i < results.len()
        invariant
            0 <= i <= results@.len(),
            results@.len() == n,
            new_recipes == count_new(results@.take(i as int)),
            updated_recipes == count_updated(results@.take(i as int)),
            skipped_recipes == count_skipped(results@.take(i as int)),
            new_recipes + updated_recipes + skipped_recipes <= i,
        decreases results@.len() - i,
    {
        proof {
            assert(results@.take(i + 1int).drop_last() =~= results@.take(i as int));
            assert(results@.take(i + 1int).last() == results@[i as int]);
        }
        let pr = &results[i];
        match pr {
            ProcessResult::New => {
                new_recipes = new_recipes + 1;
            },
            ProcessResult::Updated => {
                updated_recipes = updated_recipes + 1;
            },
            ProcessResult::Skipped => {
                skipped_recipes = skipped_recipes + 1;
            },
        }
        i = i + 1;
    }
    assert(results@.take(results@.len() as int) =~= results@);
    CrawlResult { feed_id, new_recipes, updated_recipes, skipped_recipes }
}

/// Record a feed-level failure: status becomes error, the error count grows
/// by one, and the message is kept. Caching tokens are untouched.
pub fn feed_after_failure(feed: &FeedRecord, message: String) -> (r: FeedRecord)
    requires
        feed.error_count < i64::MAX,
    ensures
        r.id == feed.id,
        r.url == feed.url,
        r.title == feed.title,
        r.author == feed.author,
        r.etag == feed.etag,
        r.last_modified == feed.last_modified,
        r.status@ == "error"@,
        r.error_count == feed.error_count + 1,
        r.error_message == Option::Some(message),
{
    FeedRecord {
        id: feed.id,
        url: feed.url.clone(),
        title: clone_opt_string(&feed.title),
        author: clone_opt_string(&feed.author),
        etag: clone_opt_string(&feed.etag),
        last_modified: clone_opt_i64(&feed.last_modified),
        status: String::from_str("error"),
        error_count: feed.error_count + 1,
        error_message: Some(message),
    }
}

/// Record a successful fetch: fresh caching tokens, status active, error
/// count reset to zero, error message cleared.
pub fn feed_after_success(
    feed: &FeedRecord,
    etag: Option<String>,
    last_modified: Option<i64>,
) -> (r: FeedRecord)
    ensures
        r.id == feed.id,
        r.url == feed.url,
        r.title == feed.title,
        r.author == feed.author,
        r.etag == etag,
        r.last_modified == last_modified,
        r.status@ == "active"@,
        r.error_count == 0,
        r.error_message is None,
{
    FeedRecord {
        id: feed.id,
        url: feed.url.clone(),
        title: clone_opt_string(&feed.title),
        author: clone_opt_string(&feed.author),
        etag,
        last_modified,
        status: String::from_str("active"),
        error_count: 0,
        error_message: None,
    }
}

/// The first link that is an alternate (or carries no relation): the
/// entry's source page.
pub open spec fn spec_select_source(links: Seq<RawLink>, i: int) -> Option<Seq<char>>
    decreases links.len() - i,
{
    if i < 0 || i >= links.len() {
        Option::None
    } else if links[i].rel is None || links[i].rel->Some_0@ == "alternate"@ {
        Option::Some(links[i].href@)
    } else {
        spec_select_source(links, i + 1)
    }
}

/// Pick the entry's source URL.
pub fn select_source_url(links: &Vec<RawLink>) -> (r: Option<String>)
    ensures
        r is Some <==> spec_select_source(links@, 0) is Some,
        r is Some ==> r->Some_0@ == spec_select_source(links@, 0)->Some_0,
{
    let mut i: usize = 0;
    while i < links.len()
        invariant
            0 <= i <= links@.len(),
            spec_select_source(links@, 0) == spec_select_source(links@, i as int),
        decreases links@.len() - i,
    {
        let is_match = match &links[i].rel {
            None => true,
            Some(rel) => crate::text::str_eq(rel.as_str(), "alternate"),
        };
        if is_match {
            return Some(links[i].href.clone());
        }
        i = i + 1;
    }
    None
}

/// A link to the entry's recipe file: an enclosure whose media type says
/// plain text or whose file name carries the recipe extension.
pub open spec fn is_recipe_enclosure(l: RawLink) -> bool {
    &&& l.rel is Some && l.rel->Some_0@ == "enclosure"@
    &&& (l.media_type is Some && l.media_type->Some_0@ == "text/plain"@
        || crate::text::spec_ends_with(l.href@, ".cook"@))
}

pub open spec fn spec_select_enclosure(links: Seq<RawLink>, i: int) -> Option<Seq<char>>
    decreases links.len() - i,
{
    if i < 0 || i >= links.len() {
        Option::None
    } else if is_recipe_enclosure(links[i]) {
        Option::Some(links[i].href@)
    } else {
        spec_select_enclosure(links, i + 1)
    }
}

/// Pick the entry's enclosure URL — the link to the recipe file.
pub fn select_enclosure_url(links: &Vec<RawLink>) -> (r: Option<String>)
    ensures
        r is Some <==> spec_select_enclosure(links@, 0) is Some,
        r is Some ==> r->Some_0@ == spec_select_enclosure(links@, 0)->Some_0,
{
    let cook = crate::text::to_chars(".cook");
    let mut i: usize = 0;
    while i < links.len()
        invariant
            0 <= i <= links@.len(),
            cook@ == ".cook"@,
            spec_select_enclosure(links@, 0) == spec_select_enclosure(links@, i as int),
        decreases links@.len() - i,
    {
        let l = &links[i];
        let rel_ok = match &l.rel {
            Some(rel) => crate::text::str_eq(rel.as_str(), "enclosure"),
            None => false,
        };
        if rel_ok {
            let type_ok = match &l.media_type {
                Some(mt) => crate::text::str_eq(mt.as_str(), "text/plain"),
                None => false,
            };
            let href_chars = crate::text::to_chars(l.href.as_str());
            if type_ok || crate::text::ends_with(&href_chars, &cook) {
                assert(is_recipe_enclosure(links@[i as int]));
                return Some(l.href.clone());
            }
        }
        assert(!is_recipe_enclosure(links@[i as int]));
        i = i + 1;
    }
    None
}

/// An enclosure link that names an image type.
pub open spec fn is_image_enclosure(l: RawLink) -> bool {
    &&& l.rel is Some && l.rel->Some_0@ == "enclosure"@
    &&& l.media_type is Some && crate::text::matches_at(l.media_type->Some_0@, "image/"@, 0)
}

pub open spec fn spec_select_image_link(links: Seq<RawLink>, i: int) -> Option<Seq<char>>
    decreases links.len() - i,
{
    if i < 0 || i >= links.len() {
        Option::None
    } else if is_image_enclosure(links[i]) {
        Option::Some(links[i].href@)
    } else {
        spec_select_image_link(links, i + 1)
    }
}

/// The entry's image: a vendor image element wins, then the first media
/// image, then an image-typed enclosure link.
pub open spec fn spec_entry_image(
    cooklang_image: Option<String>,
    media_image: Option<String>,
    links: Seq<RawLink>,
) -> Option<Seq<char>> {
    match cooklang_image {
        Option::Some(i) => Option::Some(i@),
        Option::None => match media_image {
            Option::Some(i) => Option::Some(i@),
            Option::None => spec_select_image_link(links, 0),
        },
    }
}

/// Pick the entry's image URL by the documented precedence.
pub fn select_image_url(
    cooklang_image: Option<String>,
    media_image: Option<String>,
    links: &Vec<RawLink>,
) -> (r: Option<String>)
    ensures
        r is Some <==> spec_entry_image(cooklang_image, media_image, links@) is Some,
        r is Some ==> r->Some_0@ == spec_entry_image(cooklang_image, media_image, links@)->Some_0,
{
    if let Some(i) = cooklang_image {
        return Some(i);
    }
    if let Some(i) = media_image {
        return Some(i);
    }
    let img_pre = crate::text::to_chars("image/");
    let mut i: usize = 0;
    while i < links.len()
        invariant
            0 <= i <= links@.len(),
            img_pre@ == "image/"@,
            cooklang_image is None,
            media_image is None,
            spec_select_image_link(links@, 0) == spec_select_image_link(links@, i as int),
        decreases links@.len() - i,
    {
        let l = &links[i];
        let rel_ok = match &l.rel {
            Some(rel) => crate::text::str_eq(rel.as_str(), "enclosure"),
            None => false,
        };
        if rel_ok {
            if let Some(mt) = &l.media_type {
                let mtc = crate::text::to_chars(mt.as_str());
                if crate::text::starts_with(&mtc, &img_pre) {
                    assert(is_image_enclosure(links@[i as int]));
                    return Some(l.href.clone());
                }
            }
        }
        assert(!is_image_enclosure(links@[i as int]));
        i = i + 1;
    }
    None
}

/// Assemble a normalized entry from a raw one: an entry without a title is
/// dropped; the summary falls back to the content body; links are selected
/// by the documented rules.
pub fn build_entry(raw: RawEntry, cooklang_image: Option<String>) -> (r: Option<ParsedEntry>)
    ensures
        r is Some <==> raw.title is Some,
        r is Some ==> {
            let e = r->Some_0;
            &&& e.id == raw.id
            &&& e.title == raw.title->Some_0
            &&& e.summary == (if raw.summary is Some {
                raw.summary
            } else {
                raw.content_body
            })
            &&& (e.source_url is Some <==> spec_select_source(raw.links@, 0) is Some)
            &&& (e.source_url is Some ==> e.source_url->Some_0@ == spec_select_source(
                raw.links@,
                0,
            )->Some_0)
            &&& (e.enclosure_url is Some <==> spec_select_enclosure(raw.links@, 0) is Some)
            &&& (e.enclosure_url is Some ==> e.enclosure_url->Some_0@ == spec_select_enclosure(
                raw.links@,
                0,
            )->Some_0)
            &&& (e.image_url is Some <==> spec_entry_image(
                cooklang_image,
                raw.media_image,
                raw.links@,
            ) is Some)
            &&& (e.image_url is Some ==> e.image_url->Some_0@ == spec_entry_image(
                cooklang_image,
                raw.media_image,
                raw.links@,
            )->Some_0)
            &&& e.published == raw.published
            &&& e.updated == raw.updated
            &&& e.tags@ == raw.categories@
            &&& e.metadata.servings is None && e.metadata.total_time is None
                && e.metadata.active_time is None && e.metadata.difficulty is None
        },
{
    let title = match raw.title {
        Some(t) => t,
        None => {
            return None;
        },
    };
    let source_url = select_source_url(&raw.links);
    let enclosure_url = select_enclosure_url(&raw.links);
    let image_url = select_image_url(cooklang_image, raw.media_image, &raw.links);
    let summary = match raw.summary {
        Some(s) => Some(s),
        None => raw.content_body,
    };
    Some(
        ParsedEntry {
            id: raw.id,
            title,
            summary,
            source_url,
            enclosure_url,
            image_url,
            published: raw.published,
            updated: raw.updated,
            tags: raw.categories,
            metadata: RecipeMetadata {
                servings: None,
                total_time: None,
                active_time: None,
                difficulty: None,
            },
        },
    )
}

} // verus!
