use federation::github::{GitHubConfig, RateLimiter};
use federation::repo::{file_needs_download, find_recipe_image, html_url, plan_repository,
    raw_content_url, title_from_path, TreeEntryData};

fn tree_entry(path: &str, sha: &str, kind: &str) -> TreeEntryData {
    TreeEntryData { path: path.to_string(), sha: sha.to_string(), entry_type: kind.to_string() }
}

#[test]
fn repository_noop_when_sha_unchanged() {
    // The no-op guard: an unchanged latest commit digest plans nothing, so
    // no file is downloaded and nothing reaches the search index.
    let tree = vec![tree_entry("a.cook", "s1", "blob")];
    let stored = "abc123".to_string();
    let latest = "abc123".to_string();
    assert!(plan_repository(Some(&stored), &latest, &tree).is_none());
}

#[test]
fn repository_plan_selects_recipe_blobs() {
    let tree = vec![
        tree_entry("a.cook", "s1", "blob"),
        tree_entry("readme.md", "s2", "blob"),
        tree_entry("dir", "s3", "tree"),
        tree_entry("dir/b.cook", "s4", "blob"),
    ];
    let latest = "new".to_string();
    let files = plan_repository(None, &latest, &tree).unwrap();
    let paths: Vec<&str> = files.iter().map(|f| f.path.as_str()).collect();
    assert_eq!(paths, vec!["a.cook", "dir/b.cook"]);
    let old = "old".to_string();
    assert!(plan_repository(Some(&old), &latest, &tree).is_some());
}

#[test]
fn file_download_decided_by_blob_sha() {
    let same = "sha-1".to_string();
    let new = "sha-2".to_string();
    assert!(!file_needs_download(Some(&same), &same.clone()));
    assert!(file_needs_download(Some(&same), &new));
    assert!(file_needs_download(None, &new));
}

#[test]
fn content_urls() {
    assert_eq!(
        raw_content_url("o", "r", "main", "dir/a.cook"),
        "https://raw.githubusercontent.com/o/r/main/dir/a.cook"
    );
    assert_eq!(
        html_url("o", "r", "main", "dir/a.cook"),
        "https://github.com/o/r/blob/main/dir/a.cook"
    );
}

#[test]
fn title_from_file_path() {
    assert_eq!(title_from_path("dir/Apple Pie.cook"), "Apple Pie");
    assert_eq!(title_from_path("Flat.cook"), "Flat");
    assert_eq!(title_from_path("dir/notes.txt"), "dir/notes.txt");
}

#[test]
fn sibling_image_is_adopted() {
    let tree = vec![
        tree_entry("pie.cook", "s1", "blob"),
        tree_entry("pie.png", "s2", "blob"),
        tree_entry("cake.cook", "s3", "blob"),
    ];
    assert_eq!(
        find_recipe_image("pie.cook", &tree, "o", "r", "main"),
        Some("https://raw.githubusercontent.com/o/r/main/pie.png".to_string())
    );
    assert_eq!(find_recipe_image("cake.cook", &tree, "o", "r", "main"), None);
    assert_eq!(find_recipe_image("readme.md", &tree, "o", "r", "main"), None);
}

#[test]
fn sibling_image_extension_order() {
    let tree = vec![
        tree_entry("pie.cook", "s1", "blob"),
        tree_entry("pie.gif", "s2", "blob"),
        tree_entry("pie.jpg", "s3", "blob"),
    ];
    // The first recognized extension wins.
    assert_eq!(
        find_recipe_image("pie.cook", &tree, "o", "r", "main"),
        Some("https://raw.githubusercontent.com/o/r/main/pie.jpg".to_string())
    );
}

#[test]
fn api_rate_limiter_thresholds() {
    let mut rl = RateLimiter::new(500, 1000);
    assert_eq!(rl.reset_at, 4600);
    // Sixty remaining of sixty: the threshold is min(500, max(6, 5)) = 6.
    assert!(!rl.should_wait());
    rl.update_from_headers(Some(5000), Some(400), Some(9000));
    // Threshold becomes min(500, 500) = 500; 400 remaining pauses.
    assert!(rl.should_wait());
    assert_eq!(rl.wait_seconds(8000), 1000);
    assert_eq!(rl.wait_seconds(9500), 0);
    rl.update_from_headers(None, Some(4000), None);
    assert!(!rl.should_wait());
    assert_eq!(rl.wait_seconds(8000), 0);
    assert_eq!(rl.get_status(), (4000, 5000, 9000));
}

#[test]
fn github_config_defaults() {
    let cfg = GitHubConfig::default();
    assert!(cfg.is_enabled());
    assert_eq!(cfg.api_base_url(), "https://api.github.com");
    assert_eq!(cfg.update_interval_secs, 21600);
    assert_eq!(cfg.rate_limit_buffer, 500);
    assert_eq!(cfg.max_file_size_bytes, 1048576);
    assert_eq!(cfg.recipe_concurrency, 10);
}
