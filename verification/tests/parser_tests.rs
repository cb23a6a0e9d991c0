use federation::github::parse_repository_url;
use federation::recipe::{normalize_ingredient, parse_cooklang, parse_recipe_metadata,
    parse_time_to_minutes};
use federation::schema::{extract_number, format_iso_duration, step_to_text, StepData, StepItem};

#[test]
fn test_parse_full_https_url() {
    let info = parse_repository_url("https://github.com/cooklang/cooklang-rs").unwrap();
    assert_eq!(info.owner, "cooklang");
    assert_eq!(info.repo, "cooklang-rs");
}

#[test]
fn test_parse_url_with_trailing_slash() {
    let info = parse_repository_url("https://github.com/cooklang/cooklang-rs/").unwrap();
    assert_eq!(info.owner, "cooklang");
    assert_eq!(info.repo, "cooklang-rs");
}

#[test]
fn test_parse_url_with_git_suffix() {
    let info = parse_repository_url("https://github.com/cooklang/cooklang-rs.git").unwrap();
    assert_eq!(info.owner, "cooklang");
    assert_eq!(info.repo, "cooklang-rs");
}

#[test]
fn test_parse_without_protocol() {
    let info = parse_repository_url("github.com/cooklang/cooklang-rs").unwrap();
    assert_eq!(info.owner, "cooklang");
    assert_eq!(info.repo, "cooklang-rs");
}

#[test]
fn test_parse_short_format() {
    let info = parse_repository_url("cooklang/cooklang-rs").unwrap();
    assert_eq!(info.owner, "cooklang");
    assert_eq!(info.repo, "cooklang-rs");
}

#[test]
fn test_parse_invalid_single_part() {
    let result = parse_repository_url("cooklang");
    assert!(result.is_err());
}

#[test]
fn test_parse_empty_owner() {
    let result = parse_repository_url("/cooklang-rs");
    assert!(result.is_err());
}

#[test]
fn test_parse_empty_repo() {
    let result = parse_repository_url("cooklang/");
    assert!(result.is_err());
}

#[test]
fn test_parse_time_to_minutes() {
    assert_eq!(parse_time_to_minutes("45 minutes"), Some(45));
    assert_eq!(parse_time_to_minutes("1 hour"), Some(60));
    assert_eq!(parse_time_to_minutes("2 hours"), Some(120));
    assert_eq!(parse_time_to_minutes("30"), Some(30));
}

#[test]
fn test_parse_cooklang() {
    let content = ">> servings: 4\n>> total time: 30 minutes\n>> tags: dinner, italian\n\nMix @flour{200%g} with @water{100%ml}.\n\nBake for ~{15%minutes}.";

    let result = parse_cooklang(content);
    assert!(result.is_ok());

    let recipe = result.unwrap();
    assert_eq!(recipe.metadata.servings, Some(4));
    assert_eq!(recipe.metadata.total_time, Some("30 minutes".to_string()));
    assert_eq!(recipe.metadata.tags.len(), 2);
    assert!(recipe.metadata.tags.contains(&"dinner".to_string()));
    assert!(recipe.ingredients.len() >= 2);
}

#[test]
fn test_parse_cooklang_ingredient_names() {
    let content = "Mix @flour{200%g} with @water and more @flour{}.";
    let recipe = parse_cooklang(content).unwrap();
    let names: Vec<&str> = recipe.ingredients.iter().map(|i| i.name.as_str()).collect();
    assert_eq!(names, vec!["flour", "water"]);
    assert!(recipe.ingredients.iter().all(|i| i.quantity.is_none() && i.unit.is_none()));
}

#[test]
fn test_parse_cooklang_instructions() {
    let content = ">> servings: 2\nFirst step.\n\nSecond step.";
    let recipe = parse_cooklang(content).unwrap();
    assert_eq!(recipe.instructions, "First step.\nSecond step.");
    assert_eq!(recipe.sections.len(), 1);
    assert_eq!(recipe.sections[0].instructions, "First step.\nSecond step.");
}

#[test]
fn test_parse_recipe_metadata_fields() {
    let content = ">> title: Lemon Cake\n>> tags: dessert, baking\n>> summary: A bright cake\nMix things.";
    let (title, tags, summary) = parse_recipe_metadata(content, "lemon-cake");
    assert_eq!(title, "Lemon Cake");
    assert_eq!(tags, vec!["dessert".to_string(), "baking".to_string()]);
    assert_eq!(summary, "A bright cake");
}

#[test]
fn test_parse_recipe_metadata_defaults() {
    let content = "Just instructions.";
    let (title, tags, summary) = parse_recipe_metadata(content, "beef_stew");
    assert_eq!(title, "beef stew");
    assert!(tags.is_empty());
    assert_eq!(summary, "Recipe: beef stew");
}

#[test]
fn test_format_iso_duration() {
    assert_eq!(format_iso_duration("30 minutes"), Some("PT30M".to_string()));
    assert_eq!(format_iso_duration("1 hour"), Some("PT1H".to_string()));
    assert_eq!(format_iso_duration("1 hour 30 minutes"), Some("PT1H30M".to_string()));
    assert_eq!(format_iso_duration("45 min"), Some("PT45M".to_string()));
    assert_eq!(format_iso_duration("15"), Some("PT15M".to_string()));
}

#[test]
fn test_extract_number() {
    assert_eq!(extract_number("30 minutes"), Some(30));
    assert_eq!(extract_number("1 hour"), Some(1));
    assert_eq!(extract_number("no number"), None);
}

#[test]
fn test_step_to_text() {
    let step = StepData {
        items: vec![
            StepItem::Text { value: "Mix ".to_string() },
            StepItem::Ingredient { index: 0, name: "flour".to_string() },
            StepItem::Text { value: " for ".to_string() },
            StepItem::Timer { index: 0, text: "5 minutes".to_string() },
        ],
    };
    assert_eq!(step_to_text(&step), "Mix flour for 5 minutes");
}

#[test]
fn test_normalize_ingredient() {
    assert_eq!(normalize_ingredient("  Flour "), "flour");
    assert_eq!(normalize_ingredient("BUTTER"), "butter");
}
