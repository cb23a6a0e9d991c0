use federation::crawler::{build_entry, entry_fetch_plan, feed_after_failure, feed_after_success,
    feed_crawl_plan, finish_entry, tally_results, unchanged_crawl_result, ContentOutcome,
    EntryPlan, FeedCrawlPlan, FeedFetchOutcome, FeedRecord, ParsedEntry, ProcessResult, RawEntry,
    RawLink, RecipeMetadata, RecipeWrite, StoredRecipe};
use federation::hasher::calculate_content_hash;

fn entry(id: &str, enclosure: Option<&str>, updated: Option<i64>) -> ParsedEntry {
    ParsedEntry {
        id: id.to_string(),
        title: "Test Recipe".to_string(),
        summary: None,
        source_url: None,
        enclosure_url: enclosure.map(|s| s.to_string()),
        image_url: None,
        published: None,
        updated,
        tags: vec!["dessert".to_string()],
        metadata: RecipeMetadata { servings: None, total_time: None, active_time: None,
            difficulty: None },
    }
}

fn stored(id: i64, updated: Option<i64>, hash: Option<String>) -> StoredRecipe {
    StoredRecipe {
        id,
        feed_entry_updated: updated,
        content_etag: Some("etag-1".to_string()),
        content_last_modified: None,
        content_hash: hash,
    }
}

#[test]
fn entry_without_enclosure_is_skipped() {
    let e = entry("e1", None, Some(10));
    assert!(matches!(entry_fetch_plan(&e, None), EntryPlan::Skip));
}

#[test]
fn unknown_recipe_is_always_fetched() {
    let e = entry("e1", Some("https://example.com/a.cook"), None);
    assert!(matches!(entry_fetch_plan(&e, None), EntryPlan::FetchNew));
}

#[test]
fn timestamp_monotonicity_decides_fetch() {
    let e_new = entry("e1", Some("https://example.com/a.cook"), Some(11));
    let e_same = entry("e1", Some("https://example.com/a.cook"), Some(10));
    let e_old = entry("e1", Some("https://example.com/a.cook"), Some(9));
    let rec = stored(7, Some(10), None);
    assert!(matches!(entry_fetch_plan(&e_new, Some(&rec)), EntryPlan::FetchConditional { .. }));
    assert!(matches!(entry_fetch_plan(&e_same, Some(&rec)), EntryPlan::Skip));
    assert!(matches!(entry_fetch_plan(&e_old, Some(&rec)), EntryPlan::Skip));
}

#[test]
fn adopted_timestamp_is_fetched_conservatively() {
    let e = entry("e1", Some("https://example.com/a.cook"), Some(10));
    let rec = stored(7, None, None);
    match entry_fetch_plan(&e, Some(&rec)) {
        EntryPlan::FetchConditional { etag, .. } => {
            assert_eq!(etag, Some("etag-1".to_string()));
        },
        _ => panic!("a newly tracked timestamp must still fetch"),
    }
}

#[test]
fn missing_timestamp_falls_back_to_conditional_fetch() {
    let e = entry("e1", Some("https://example.com/a.cook"), None);
    let rec = stored(7, Some(10), None);
    assert!(matches!(entry_fetch_plan(&e, Some(&rec)), EntryPlan::FetchConditional { .. }));
}

#[test]
fn not_modified_touches_timestamp_only() {
    let e = entry("e1", Some("https://example.com/a.cook"), Some(12));
    let rec = stored(7, Some(10), Some("x".to_string()));
    let out = finish_entry(1, &e, Some(&rec), ContentOutcome::NotModified, None);
    assert!(matches!(out.result, ProcessResult::Skipped));
    match out.write {
        RecipeWrite::Touch { recipe_id, feed_entry_updated } => {
            assert_eq!(recipe_id, 7);
            assert_eq!(feed_entry_updated, Some(12));
        },
        _ => panic!("a not-modified answer only touches the tracked timestamp"),
    }
}

#[test]
fn second_crawl_of_unchanged_feed_only_skips() {
    // First crawl stored the entry's timestamp and digest; the second run of
    // the unchanged feed never yields new or updated work.
    let body = "@flour{500%g}\nMix.";
    let hash = calculate_content_hash("Test Recipe", Some(body));
    let e = entry("e1", Some("https://example.com/a.cook"), Some(10));
    let rec = stored(7, Some(10), Some(hash));
    // The timestamp case skips without any network call.
    assert!(matches!(entry_fetch_plan(&e, Some(&rec)), EntryPlan::Skip));
    // The timestamp-less case refetches conditionally; both possible
    // outcomes of an unchanged server finish as skips.
    let e2 = entry("e1", Some("https://example.com/a.cook"), None);
    assert!(matches!(entry_fetch_plan(&e2, Some(&rec)), EntryPlan::FetchConditional { .. }));
    let not_modified = finish_entry(1, &e2, Some(&rec), ContentOutcome::NotModified, None);
    assert!(matches!(not_modified.result, ProcessResult::Skipped));
    let refetched = finish_entry(
        1,
        &e2,
        Some(&rec),
        ContentOutcome::Fetched { content: body.to_string(), etag: None, last_modified: None },
        None,
    );
    assert!(matches!(refetched.result, ProcessResult::Skipped));
    assert!(matches!(refetched.write, RecipeWrite::NoWrite));
}

#[test]
fn comment_only_change_is_not_rewritten() {
    // The digest ignores comments, so a body changed only in comments never
    // rewrites the row.
    let stored_body = "@flour{500%g}\nMix.";
    let commented_body = "@flour{500%g}\n-- now with a note\nMix.";
    let hash = calculate_content_hash("Test Recipe", Some(stored_body));
    let e = entry("e1", Some("https://example.com/a.cook"), None);
    let rec = stored(7, None, Some(hash));
    let out = finish_entry(
        1,
        &e,
        Some(&rec),
        ContentOutcome::Fetched {
            content: commented_body.to_string(),
            etag: None,
            last_modified: None,
        },
        None,
    );
    assert!(matches!(out.result, ProcessResult::Skipped));
    assert!(matches!(out.write, RecipeWrite::NoWrite));
}

#[test]
fn changed_content_updates_in_place() {
    let hash = calculate_content_hash("Test Recipe", Some("@flour{500%g}"));
    let e = entry("e1", Some("https://example.com/a.cook"), None);
    let rec = stored(7, None, Some(hash));
    let out = finish_entry(
        1,
        &e,
        Some(&rec),
        ContentOutcome::Fetched {
            content: "@flour{600%g}".to_string(),
            etag: Some("etag-2".to_string()),
            last_modified: None,
        },
        None,
    );
    assert!(matches!(out.result, ProcessResult::Updated));
    match out.write {
        RecipeWrite::Update { recipe_id, content, content_etag, tags, .. } => {
            assert_eq!(recipe_id, 7);
            assert_eq!(content, "@flour{600%g}");
            assert_eq!(content_etag, Some("etag-2".to_string()));
            assert_eq!(tags, vec!["dessert".to_string()]);
        },
        _ => panic!("changed content updates the row in place"),
    }
}

#[test]
fn failed_entry_fetch_is_tolerated() {
    let e = entry("e1", Some("https://example.com/a.cook"), None);
    let out = finish_entry(1, &e, None, ContentOutcome::Failed, None);
    assert!(matches!(out.result, ProcessResult::Skipped));
    assert!(matches!(out.write, RecipeWrite::NoWrite));
}

#[test]
fn two_entry_feed_with_one_enclosure() {
    // A feed with two entries, one lacking an enclosure: exactly one new
    // recipe, no update, and the enclosure-less entry neither creates a
    // recipe nor aborts anything.
    let with = entry("e1", Some("https://example.com/a.cook"), None);
    let without = entry("e2", None, None);
    assert!(matches!(entry_fetch_plan(&with, None), EntryPlan::FetchNew));
    assert!(matches!(entry_fetch_plan(&without, None), EntryPlan::Skip));
    let done = finish_entry(
        1,
        &with,
        None,
        ContentOutcome::Fetched {
            content: "@flour{1%cup}".to_string(),
            etag: None,
            last_modified: None,
        },
        None,
    );
    assert!(matches!(done.result, ProcessResult::New));
    match &done.write {
        RecipeWrite::Insert(ins) => {
            assert_eq!(ins.external_id, "e1");
            assert_eq!(ins.title, "Test Recipe");
            assert!(ins.content_hash.is_some());
        },
        _ => panic!("a first-seen entry with an enclosure inserts a row"),
    }
    let counts = tally_results(1, &vec![ProcessResult::New, ProcessResult::Skipped]);
    assert_eq!(counts.new_recipes, 1);
    assert_eq!(counts.updated_recipes, 0);
    assert_eq!(counts.skipped_recipes, 1);
}

#[test]
fn not_modified_feed_short_circuits() {
    let plan = feed_crawl_plan(&FeedFetchOutcome::NotModified);
    assert!(matches!(plan, FeedCrawlPlan::Unchanged));
    let counts = unchanged_crawl_result(42);
    assert_eq!(counts.feed_id, 42);
    assert_eq!(counts.new_recipes, 0);
    assert_eq!(counts.updated_recipes, 0);
    assert_eq!(counts.skipped_recipes, 0);
}

#[test]
fn feed_status_lifecycle() {
    let feed = FeedRecord {
        id: 3,
        url: "https://example.com/feed.xml".to_string(),
        title: None,
        author: None,
        etag: None,
        last_modified: None,
        status: "active".to_string(),
        error_count: 0,
        error_message: None,
    };
    let failed = feed_after_failure(&feed, "connection refused".to_string());
    assert_eq!(failed.status, "error");
    assert_eq!(failed.error_count, 1);
    assert_eq!(failed.error_message, Some("connection refused".to_string()));
    let healed = feed_after_success(&failed, Some("etag-9".to_string()), Some(1000));
    assert_eq!(healed.status, "active");
    assert_eq!(healed.error_count, 0);
    assert_eq!(healed.error_message, None);
    assert_eq!(healed.etag, Some("etag-9".to_string()));
}

#[test]
fn build_entry_selects_links() {
    let raw = RawEntry {
        id: "recipe-1".to_string(),
        title: Some("Cookies".to_string()),
        summary: None,
        content_body: Some("body text".to_string()),
        links: vec![
            RawLink {
                href: "https://example.com/cookies".to_string(),
                rel: Some("alternate".to_string()),
                media_type: None,
            },
            RawLink {
                href: "https://example.com/cookies.cook".to_string(),
                rel: Some("enclosure".to_string()),
                media_type: Some("text/plain".to_string()),
            },
            RawLink {
                href: "https://example.com/cookies.jpg".to_string(),
                rel: Some("enclosure".to_string()),
                media_type: Some("image/jpeg".to_string()),
            },
        ],
        media_image: None,
        published: Some(5),
        updated: Some(6),
        categories: vec!["dessert".to_string()],
    };
    let e = build_entry(raw, None).unwrap();
    assert_eq!(e.source_url, Some("https://example.com/cookies".to_string()));
    assert_eq!(e.enclosure_url, Some("https://example.com/cookies.cook".to_string()));
    assert_eq!(e.image_url, Some("https://example.com/cookies.jpg".to_string()));
    assert_eq!(e.summary, Some("body text".to_string()));
    assert_eq!(e.tags, vec!["dessert".to_string()]);
}

#[test]
fn build_entry_without_title_is_dropped() {
    let raw = RawEntry {
        id: "recipe-1".to_string(),
        title: None,
        summary: None,
        content_body: None,
        links: vec![],
        media_image: None,
        published: None,
        updated: None,
        categories: vec![],
    };
    assert!(build_entry(raw, None).is_none());
}

#[test]
fn build_entry_prefers_vendor_image() {
    let raw = RawEntry {
        id: "recipe-1".to_string(),
        title: Some("Cookies".to_string()),
        summary: Some("s".to_string()),
        content_body: None,
        links: vec![],
        media_image: Some("https://example.com/media.png".to_string()),
        published: None,
        updated: None,
        categories: vec![],
    };
    let e = build_entry(raw, Some("https://cdn.example.com/vendor.jpeg".to_string())).unwrap();
    assert_eq!(e.image_url, Some("https://cdn.example.com/vendor.jpeg".to_string()));
}
