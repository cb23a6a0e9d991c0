use federation::validation::{resolve_image_url, validate_difficulty, validate_output_dir,
    validate_url};
use federation::Error;

#[test]
fn test_validate_url() {
    // Valid URLs
    assert!(validate_url("https://example.com").is_ok());
    assert!(validate_url("http://example.com").is_ok());
    assert!(validate_url("https://example.com:8080").is_ok());

    // Invalid schemes
    assert!(validate_url("ftp://example.com").is_err());
    assert!(validate_url("not-a-url").is_err());

    // Localhost and loopback addresses
    assert!(validate_url("http://localhost").is_err());
    assert!(validate_url("http://127.0.0.1").is_err());
    assert!(validate_url("http://[::1]").is_err());
    assert!(validate_url("http://0.0.0.0").is_err());

    // Private IP ranges
    assert!(validate_url("http://10.0.0.1").is_err());
    assert!(validate_url("http://172.16.0.1").is_err());
    assert!(validate_url("http://192.168.1.1").is_err());
    assert!(validate_url("http://169.254.169.254").is_err());

    // Blocked ports
    assert!(validate_url("http://example.com:22").is_err());
    assert!(validate_url("http://example.com:3306").is_err());
    assert!(validate_url("http://example.com:5432").is_err());
}

#[test]
fn test_validate_url_error_kinds() {
    match validate_url("not-a-url") {
        Err(Error::InvalidUrl(_)) => {},
        _ => panic!("an unparseable URL reports an invalid-URL error"),
    }
    match validate_url("http://10.0.0.1") {
        Err(Error::Validation(_)) => {},
        _ => panic!("a private address reports a validation error"),
    }
}

#[test]
fn test_validate_difficulty() {
    assert!(validate_difficulty("easy").is_ok());
    assert!(validate_difficulty("medium").is_ok());
    assert!(validate_difficulty("hard").is_ok());
    assert!(validate_difficulty("impossible").is_err());
}

#[test]
fn test_resolve_image_url_absolute() {
    let result = resolve_image_url(
        "https://example.com/images/photo.jpg",
        "https://example.com/recipes/cake.cook",
    );
    assert_eq!(result, Some("https://example.com/images/photo.jpg".to_string()));
}

#[test]
fn test_resolve_image_url_relative_filename() {
    let result = resolve_image_url(
        "Lemon Drop.jpeg",
        "https://example.com/recipes/Lemon Drop.cook",
    );
    assert_eq!(result, Some("https://example.com/recipes/Lemon%20Drop.jpeg".to_string()));
}

#[test]
fn test_resolve_image_url_relative_path() {
    let result = resolve_image_url(
        "../images/photo.jpg",
        "https://example.com/recipes/cake.cook",
    );
    assert_eq!(result, Some("https://example.com/images/photo.jpg".to_string()));
}

#[test]
fn test_resolve_image_url_absolute_path() {
    let result = resolve_image_url(
        "/images/photo.jpg",
        "https://example.com/recipes/cake.cook",
    );
    assert_eq!(result, Some("https://example.com/images/photo.jpg".to_string()));
}

#[test]
fn test_validate_output_dir() {
    assert_eq!(validate_output_dir("recipes/out").unwrap(), "recipes/out");
    assert!(validate_output_dir("../etc").is_err());
}

#[test]
fn test_log_safe_redaction() {
    let loud = Error::Internal("the TOKEN leaked".to_string());
    assert_eq!(loud.log_safe(), "Internal error (details redacted)");
    let quiet = Error::Internal("disk full".to_string());
    assert_eq!(quiet.log_safe(), "Internal error: disk full");
    let parse = Error::FeedParse("bad xml".to_string());
    assert_eq!(parse.log_safe(), "Feed parsing error: bad xml");
}
