use mdbook_exercises::preprocessor::{replace_str, ExerciseIncludeProcessor};
use mdbook_exercises::RenderConfig;

#[test]
fn includes_are_found_in_order_with_trimmed_paths() {
    let content = "Intro\n\n{{#exercise  ex/one.md }}\n\nMiddle {{#exercise two.md}} end";
    let includes = ExerciseIncludeProcessor::includes(content).unwrap();
    assert_eq!(includes.len(), 2);
    assert_eq!(includes[0].directive, "{{#exercise  ex/one.md }}");
    assert_eq!(includes[0].path, "ex/one.md");
    assert_eq!(includes[1].path, "two.md");
}

#[test]
fn no_includes_in_plain_text() {
    let includes = ExerciseIncludeProcessor::includes("{{#include other.md}}").unwrap();
    assert!(includes.is_empty());
}

#[test]
fn replacement_renders_or_reports() {
    let p = ExerciseIncludeProcessor::new("book", RenderConfig::default());
    assert_eq!(p.book_root(), "book");
    let missing = p.replacement("a.md", &Err("no such file".to_string()));
    assert_eq!(
        missing,
        "<div class=\"exercise-error\">\n  <p><strong>Error loading exercise file:</strong> no such file</p>\n  <p>File: a.md</p>\n</div>"
    );
    let ok = p.replacement("b.md", &Ok("::: exercise\nid: inc\n:::\n".to_string()));
    assert!(ok.starts_with("<div class=\"exercise-container\">\n<article"));
    assert!(ok.contains("data-exercise-id=\"inc\""));
    let bad = p.replacement("c.md", &Ok("no directive".to_string()));
    assert!(bad.contains("Error parsing exercise:</strong> No exercise directive found"));
}

#[test]
fn replace_all_occurrences() {
    assert_eq!(replace_str("a-b-a", "a", "xy"), "xy-b-xy");
    assert_eq!(replace_str("aaa", "aa", "b"), "ba");
    assert_eq!(replace_str("abc", "", "z"), "abc");
}
