use mdbook_exercises::preprocessor::config_from_settings;
use mdbook_exercises::{ExercisesPreprocessor, RenderConfig};

#[test]
fn test_process_chapter_no_exercises() {
    let content = "# Just a normal chapter\n\nSome content here.";
    let config = RenderConfig::default();

    let result = ExercisesPreprocessor::process_chapter(content, &config).unwrap();

    // Should return unchanged
    assert_eq!(result, content);
}

#[test]
fn test_process_chapter_with_exercise() {
    let content = r#"# My Exercise

::: exercise
id: test-ex
difficulty: beginner
:::

Some description.

::: starter
```rust
fn main() {}
```
:::
"#;
    let config = RenderConfig::default();

    let result = ExercisesPreprocessor::process_chapter(content, &config).unwrap();

    // Should contain rendered HTML
    assert!(result.contains("exercise-container"));
    assert!(result.contains("test-ex"));
}

#[test]
fn process_chapter_reports_parse_errors() {
    let content = "::: exercise\ndifficulty: beginner\n:::\n";
    let config = RenderConfig::default();
    let result = ExercisesPreprocessor::process_chapter(content, &config).unwrap();
    assert_eq!(
        result,
        format!(
            "<!-- Exercise parse error: Missing required field 'id' in exercise block -->\n\n{}",
            content
        )
    );
}

#[test]
fn settings_replace_defaults() {
    let config = config_from_settings(
        Some(Some(true)),
        None,
        Some(None),
        Some(Some("https://example.org".to_string())),
        Some(Some(false)),
    );
    assert!(config.reveal_hints);
    assert!(!config.reveal_solution);
    assert!(config.enable_playground);
    assert_eq!(config.playground_url, "https://example.org");
    assert!(!config.enable_progress);
}

#[test]
fn process_chapter_reports_unknown_type_message_exactly() {
    let content = "```\n::: exercise\n```\n";
    let config = RenderConfig::default();
    let result = ExercisesPreprocessor::process_chapter(content, &config).unwrap();
    assert_eq!(
        result,
        format!("<!-- Exercise parse error: No exercise directive found -->\n\n{}", content)
    );
}
