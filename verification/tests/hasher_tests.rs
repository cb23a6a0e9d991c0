use federation::feedscan::{cooklang_image_for, extract_cooklang_images};
use federation::hasher::{calculate_content_hash, normalize_cooklang_content, normalize_title};

#[test]
fn test_normalize_title() {
    assert_eq!(normalize_title("  Chocolate   Cake  "), "chocolate cake");
    assert_eq!(normalize_title("CHOCOLATE CAKE"), "chocolate cake");
    assert_eq!(normalize_title("Chocolate\tCake"), "chocolate cake");
}

#[test]
fn test_normalize_title_unicode_whitespace() {
    // A no-break space is whitespace too, and collapses like any other.
    assert_eq!(normalize_title("Chocolate\u{a0}Cake"), "chocolate cake");
}

#[test]
fn test_same_content_produces_same_hash() {
    let content1 = ">> ingredients\n@flour{500%g}\n@sugar{200%g}\n\n>> steps\nMix ingredients.";
    let content2 = ">> ingredients\n@flour{500%g}\n@sugar{200%g}\n\n>> steps\nMix ingredients.";

    let hash1 = calculate_content_hash("Chocolate Cake", Some(content1));
    let hash2 = calculate_content_hash("Chocolate Cake", Some(content2));

    assert_eq!(hash1, hash2);
}

#[test]
fn test_whitespace_differences_produce_same_hash() {
    let content1 = "@flour{500%g}\n@sugar{200%g}";
    let content2 = "@flour{500%g}  \n  @sugar{200%g}";

    let hash1 = calculate_content_hash("Cake", Some(content1));
    let hash2 = calculate_content_hash("Cake", Some(content2));

    assert_eq!(hash1, hash2);
}

#[test]
fn test_comments_dont_affect_hash() {
    let content1 = "@flour{500%g}\n-- This is a comment\n@sugar{200%g}";
    let content2 = "@flour{500%g}\n@sugar{200%g}";

    let hash1 = calculate_content_hash("Cake", Some(content1));
    let hash2 = calculate_content_hash("Cake", Some(content2));

    assert_eq!(hash1, hash2);
}

#[test]
fn test_different_content_produces_different_hash() {
    let content1 = "@flour{500%g}";
    let content2 = "@flour{600%g}";

    let hash1 = calculate_content_hash("Cake", Some(content1));
    let hash2 = calculate_content_hash("Cake", Some(content2));

    assert_ne!(hash1, hash2);
}

#[test]
fn test_title_case_differences_produce_same_hash() {
    let content = "@flour{500%g}";

    let hash1 = calculate_content_hash("Chocolate Cake", Some(content));
    let hash2 = calculate_content_hash("CHOCOLATE CAKE", Some(content));
    let hash3 = calculate_content_hash("chocolate cake", Some(content));

    assert_eq!(hash1, hash2);
    assert_eq!(hash2, hash3);
}

#[test]
fn test_block_comments_dont_affect_hash() {
    let content1 = "@flour{500%g}\n[- This is a block comment -]\n@sugar{200%g}";
    let content2 = "@flour{500%g}\n@sugar{200%g}";

    let hash1 = calculate_content_hash("Cake", Some(content1));
    let hash2 = calculate_content_hash("Cake", Some(content2));

    assert_eq!(hash1, hash2);
}

#[test]
fn test_hash_shape() {
    // The digest is hex over the normalized input, never the input itself.
    let hash = calculate_content_hash("Cake", Some("@flour{500%g}"));
    assert_eq!(hash.len(), 64);
    assert!(hash.chars().all(|c| c.is_ascii_hexdigit()));
    assert_ne!(hash, "cake@flour{500%g}");
}

#[test]
fn test_normalize_content_pipeline() {
    let content = "  line one -- trailing comment\n\n\n[- gone -]\nline two  ";
    assert_eq!(normalize_cooklang_content(content), "line one\nline two");
}

#[test]
fn test_extract_cooklang_images() {
    let content = r#"
        <entry>
            <id>entry-1</id>
            <cooklang:recipe>
                <cooklang:image>https://cdn.example.com/photo1.jpg</cooklang:image>
            </cooklang:recipe>
        </entry>
        <entry>
            <id>entry-2</id>
        </entry>
        <entry>
            <id>entry-3</id>
            <cooklang:recipe>
                <cooklang:image>https://cdn.example.com/photo3.jpg</cooklang:image>
            </cooklang:recipe>
        </entry>"#;

    let images = extract_cooklang_images(content);
    assert_eq!(images.len(), 2);
    assert_eq!(
        cooklang_image_for(&images, "entry-1"),
        Some("https://cdn.example.com/photo1.jpg".to_string())
    );
    assert_eq!(cooklang_image_for(&images, "entry-2"), None);
    assert_eq!(
        cooklang_image_for(&images, "entry-3"),
        Some("https://cdn.example.com/photo3.jpg".to_string())
    );
}

#[test]
fn test_extract_guid_keyed_images() {
    let content = "<item><guid isPermaLink=\"false\">recipe-9</guid>\
        <cooklang:image>https://cdn.example.com/photo9.jpg</cooklang:image></item>";
    let images = extract_cooklang_images(content);
    assert_eq!(images.len(), 1);
    assert_eq!(
        cooklang_image_for(&images, "recipe-9"),
        Some("https://cdn.example.com/photo9.jpg".to_string())
    );
}
