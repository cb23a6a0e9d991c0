use federation::sanitize::{escape_xml, sanitize_filename, sanitize_html, sanitize_text, truncate};

#[test]
fn test_sanitize_html() {
    // The cleaner removes script tags entirely.
    assert!(!sanitize_html("<script>alert('xss')</script>").contains("script"));

    // Safe markup passes through.
    let safe_html = "<p>Hello <strong>world</strong></p>";
    let sanitized = sanitize_html(safe_html);
    assert!(sanitized.contains("<p>"));
    assert!(sanitized.contains("<strong>"));
}

#[test]
fn test_sanitize_text() {
    assert_eq!(
        sanitize_text("<script>alert('xss')</script>"),
        "&lt;script&gt;alert(&#x27;xss&#x27;)&lt;&#x2F;script&gt;"
    );

    assert_eq!(
        sanitize_text("A & B < C > D \"quoted\" 'single'"),
        "A &amp; B &lt; C &gt; D &quot;quoted&quot; &#x27;single&#x27;"
    );
}

#[test]
fn test_truncate() {
    assert_eq!(truncate("hello", 10), "hello");
    assert_eq!(truncate("hello world", 8), "hello...");
}

#[test]
fn test_truncate_tiny_limit() {
    assert_eq!(truncate("hello", 2), "...");
    assert_eq!(truncate("hi", 2), "hi");
}

#[test]
fn test_escape_xml() {
    assert_eq!(escape_xml("a & b <c> \"d\" 'e'"), "a &amp; b &lt;c&gt; &quot;d&quot; &apos;e&apos;");
    assert_eq!(escape_xml("plain"), "plain");
}

#[test]
fn test_sanitize_filename() {
    assert_eq!(sanitize_filename("My Great Recipe!"), "My-Great-Recipe");
    assert_eq!(sanitize_filename("--dashed--"), "dashed");
    assert_eq!(sanitize_filename("under_score kept"), "under_score-kept");
}

#[test]
fn test_sanitize_filename_unicode() {
    // Accented letters are alphanumeric and survive.
    assert_eq!(sanitize_filename("Crème brûlée"), "Crème-brûlée");
}
