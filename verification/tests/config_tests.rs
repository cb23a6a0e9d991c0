use federation::feedcfg::{default_feed_type, default_max_feeds, default_protocols, default_true,
    FeedConfig, FeedEntry, FeedType, UrlPatterns, ValidationConfig};
use federation::ratelimit::RateLimiter;
use federation::scheduler::{BatchRun, BATCH_SIZE};
use federation::settings::{default_limit, default_page, CrawlerConfig, DatabaseConfig,
    PaginationConfig, SearchConfig, ServerConfig, Settings};
use federation::sync::{desired_status, feeds_to_disable, sync_existing_decision, StoredFeed,
    SyncReport};

fn feed(url: &str, enabled: bool, feed_type: FeedType) -> FeedEntry {
    FeedEntry {
        url: url.to_string(),
        title: "A Feed".to_string(),
        feed_type,
        branch: None,
        enabled,
        tags: vec![],
        notes: None,
        added_by: "@tester".to_string(),
        added_at: "2025-10-13".to_string(),
        disabled_at: if enabled { None } else { Some("2025-10-14".to_string()) },
        disabled_by: if enabled { None } else { Some("@admin".to_string()) },
        disabled_reason: None,
    }
}

fn config(feeds: Vec<FeedEntry>) -> FeedConfig {
    FeedConfig { version: 1, feeds, validation: ValidationConfig::default() }
}

#[test]
fn test_settings_validation() {
    let mut settings = Settings {
        database: DatabaseConfig {
            url: "sqlite::memory:".to_string(),
            max_connections: 5,
            min_connections: 2,
            connection_timeout_seconds: 30,
            idle_timeout_seconds: 600,
        },
        server: ServerConfig {
            host: "127.0.0.1".to_string(),
            port: 3000,
            external_url: None,
            api_rate_limit: 100,
        },
        crawler: CrawlerConfig {
            interval_seconds: 3600,
            max_feed_size: 5242880,
            max_recipe_size: 1048576,
            rate_limit: 1,
            user_agent: "test".to_string(),
        },
        search: SearchConfig { index_path: "/tmp/index".to_string() },
        pagination: PaginationConfig {
            api_max_limit: 100,
            web_default_limit: 50,
            feed_page_size: 20,
            max_search_results: 1000,
            max_request_body_size: 10485760,
            max_pages: 10000,
        },
    };

    assert!(settings.validate().is_ok());

    settings.server.port = 0;
    assert!(settings.validate().is_err());
}

#[test]
fn test_pattern_matching() {
    let config = FeedConfig {
        version: 1,
        feeds: vec![],
        validation: ValidationConfig::default(),
    };

    assert!(config.matches_pattern("localhost", "localhost"));
    assert!(config.matches_pattern("http://localhost/feed", "*localhost*"));
    assert!(config.matches_pattern("http://192.168.1.1/feed", "*192.168.*"));
    assert!(config.matches_pattern("something.local", "*.local"));
    assert!(!config.matches_pattern("example.com", "*.local"));
}

#[test]
fn config_defaults() {
    assert!(default_true());
    assert!(matches!(default_feed_type(), FeedType::Web));
    assert_eq!(default_max_feeds(), 1000);
    assert_eq!(default_protocols(), vec!["https".to_string(), "http".to_string()]);
    assert_eq!(default_page(), 1);
    assert_eq!(default_limit(), 20);
}

#[test]
fn config_validate_accepts_good_list() {
    let c = config(vec![
        feed("https://example.com/feed.xml", true, FeedType::Web),
        feed("https://github.com/owner/repo", true, FeedType::GitHub),
    ]);
    assert!(c.validate().is_ok());
    assert_eq!(c.total_feeds(), 2);
    assert_eq!(c.enabled_count(), 2);
    assert_eq!(c.disabled_count(), 0);
}

#[test]
fn config_rejects_duplicate_urls() {
    let c = config(vec![
        feed("https://example.com/feed.xml", true, FeedType::Web),
        feed("https://example.com/feed.xml", true, FeedType::Web),
    ]);
    assert!(c.validate().is_err());
}

#[test]
fn config_rejects_wrong_version() {
    let mut c = config(vec![feed("https://example.com/feed.xml", true, FeedType::Web)]);
    c.version = 2;
    assert!(c.validate().is_err());
}

#[test]
fn config_rejects_too_many_feeds() {
    let mut c = config(vec![
        feed("https://example1.com/feed.xml", true, FeedType::Web),
        feed("https://example2.com/feed.xml", true, FeedType::Web),
    ]);
    c.validation.max_feeds = 1;
    assert!(c.validate().is_err());
}

#[test]
fn config_rejects_bad_protocol() {
    let c = config(vec![feed("ftp://example.com/feed.xml", true, FeedType::Web)]);
    assert!(c.validate().is_err());
}

#[test]
fn config_rejects_non_github_repository() {
    let c = config(vec![feed("https://gitlab.com/owner/repo", true, FeedType::GitHub)]);
    assert!(c.validate().is_err());
    let short = config(vec![feed("https://github.com/owner", true, FeedType::GitHub)]);
    assert!(short.validate().is_err());
}

#[test]
fn config_rejects_denied_pattern() {
    let mut c = config(vec![feed("http://localhost/feed.xml", true, FeedType::Web)]);
    c.validation.url_patterns = UrlPatterns {
        allow: vec![],
        deny: vec!["*localhost*".to_string()],
    };
    assert!(c.validate().is_err());
}

#[test]
fn config_requires_disabled_bookkeeping() {
    let mut bad = feed("https://example.com/feed.xml", false, FeedType::Web);
    bad.disabled_at = None;
    let c = config(vec![bad]);
    assert!(c.validate().is_err());
    let good = config(vec![feed("https://example.com/feed.xml", false, FeedType::Web)]);
    assert!(good.validate().is_ok());
    assert_eq!(good.enabled_count(), 0);
    assert_eq!(good.disabled_count(), 1);
}

#[test]
fn enabled_feeds_filtered_in_order() {
    let c = config(vec![
        feed("https://example1.com/feed.xml", true, FeedType::Web),
        feed("https://example2.com/feed.xml", false, FeedType::Web),
        feed("https://example3.com/feed.xml", true, FeedType::Web),
    ]);
    let enabled: Vec<String> = c.enabled_feeds().iter().map(|f| f.url.clone()).collect();
    assert_eq!(
        enabled,
        vec!["https://example1.com/feed.xml".to_string(),
            "https://example3.com/feed.xml".to_string()]
    );
}

#[test]
fn sync_decisions() {
    let report = SyncReport::new();
    assert_eq!(report.added, 0);
    assert!(report.log_summary().contains("0 added"));
    assert_eq!(desired_status(true), "active");
    assert_eq!(desired_status(false), "disabled");

    let title = "Example Feed".to_string();
    let same = sync_existing_decision(&title, true, Some(&title), &"active".to_string());
    assert!(!same.update_needed);
    assert!(same.counts_unchanged);

    let retitled = sync_existing_decision(
        &"New Title".to_string(),
        true,
        Some(&title),
        &"active".to_string(),
    );
    assert!(retitled.update_needed);
    assert!(retitled.counts_updated);
    assert!(!retitled.re_enabled);

    let re_enabled = sync_existing_decision(&title, true, Some(&title), &"disabled".to_string());
    assert!(re_enabled.update_needed);
    assert!(re_enabled.re_enabled);
    assert!(!re_enabled.counts_updated);
}

#[test]
fn feeds_no_longer_configured_are_disabled() {
    let stored = vec![
        StoredFeed { id: 1, url: "https://a.example/feed".to_string(), status: "active".to_string() },
        StoredFeed { id: 2, url: "https://b.example/feed".to_string(), status: "active".to_string() },
        StoredFeed { id: 3, url: "https://c.example/feed".to_string(), status: "disabled".to_string() },
    ];
    let configured = vec!["https://a.example/feed".to_string()];
    assert_eq!(feeds_to_disable(&stored, &configured), vec![2]);
}

#[test]
fn scheduler_batches_advance_by_fixed_size() {
    let mut run = BatchRun::new();
    let more = run.record_batch(BATCH_SIZE as usize, 48, 2);
    assert!(more);
    assert_eq!(run.offset, BATCH_SIZE);
    assert_eq!(run.total_feeds, 50);
    assert_eq!(run.total_success, 48);
    assert_eq!(run.total_errors, 2);
    let more = run.record_batch(7, 7, 0);
    assert!(!more);
    assert_eq!(run.total_feeds, 57);
}

#[test]
fn rate_limiter_spacing() {
    // Four sequential waits at two requests per second: the stamps are at
    // least (4 - 1) * 500 milliseconds apart end to end.
    let mut limiter = RateLimiter::new(2);
    assert_eq!(limiter.delay_ms, 500);
    let mut now: u64 = 1000;
    let mut stamps: Vec<u64> = Vec::new();
    for _ in 0..4 {
        let wait = limiter.wait_ms(now);
        now += wait;
        limiter.record(now);
        stamps.push(now);
        now += 100;
    }
    assert_eq!(limiter.wait_ms(now), 400);
    assert!(stamps[3] - stamps[0] >= 3 * 500);
}
