use mdbook_exercises::render::escape_html_attr;
use mdbook_exercises::{
    escape_html, render_exercise, render_exercise_with_config, Difficulty, Exercise,
    ExerciseMetadata, Hint, RenderConfig, Solution, SolutionReveal,
};

#[test]
fn test_render_simple_exercise() {
    let exercise = Exercise {
        metadata: ExerciseMetadata {
            id: "test-exercise".to_string(),
            difficulty: Difficulty::Beginner,
            time_minutes: Some(15),
            prerequisites: vec![],
        },
        title: Some("Test Exercise".to_string()),
        description: "A simple test exercise.".to_string(),
        ..Default::default()
    };

    let html = render_exercise(&exercise).unwrap();

    assert!(html.contains(r#"data-exercise-id="test-exercise""#));
    assert!(html.contains("Test Exercise"));
    assert!(html.contains("beginner"));
    assert!(html.contains("15 min"));
}

#[test]
fn test_render_with_hints() {
    let exercise = Exercise {
        metadata: ExerciseMetadata {
            id: "hint-test".to_string(),
            difficulty: Difficulty::Intermediate,
            ..Default::default()
        },
        hints: vec![
            Hint {
                level: 1,
                title: Some("First Hint".to_string()),
                content: "This is hint 1.".to_string(),
            },
            Hint {
                level: 2,
                title: None,
                content: "This is hint 2.".to_string(),
            },
        ],
        ..Default::default()
    };

    let html = render_exercise(&exercise).unwrap();

    assert!(html.contains("Hint 1: First Hint"));
    assert!(html.contains("Hint 2"));
    assert!(html.contains(r#"data-level="1""#));
    assert!(html.contains(r#"data-level="2""#));
}

#[test]
fn test_escape_html() {
    assert_eq!(escape_html("<script>"), "&lt;script&gt;");
    assert_eq!(escape_html("a & b"), "a &amp; b");
    assert_eq!(escape_html(r#""quoted""#), "&quot;quoted&quot;");
}

#[test]
fn escape_html_apostrophe_and_plain_text() {
    assert_eq!(escape_html("it's"), "it&#x27;s");
    assert_eq!(escape_html("plain"), "plain");
    assert_eq!(escape_html(""), "");
}

#[test]
fn escape_html_attr_escapes_line_breaks() {
    assert_eq!(escape_html_attr("a\nb\r<"), "a&#10;b&#13;&lt;");
}

#[test]
fn render_time_in_hours_and_minutes() {
    let exercise = Exercise {
        metadata: ExerciseMetadata {
            id: "long".to_string(),
            time_minutes: Some(90),
            ..Default::default()
        },
        ..Default::default()
    };
    let html = render_exercise(&exercise).unwrap();
    assert!(html.contains("⏱️ 1h 30m</span>"));
}

#[test]
fn render_description_goes_through_markdown() {
    let exercise = Exercise {
        metadata: ExerciseMetadata { id: "md".to_string(), ..Default::default() },
        description: "Some *emphasis* here.".to_string(),
        ..Default::default()
    };
    let html = render_exercise(&exercise).unwrap();
    assert!(html.contains("<em>emphasis</em>"));
    assert!(html.contains(r#"id="md-description""#));
}

#[test]
fn render_never_solution_stays_closed() {
    let exercise = Exercise {
        metadata: ExerciseMetadata { id: "s".to_string(), ..Default::default() },
        solution: Some(Solution {
            code: "fn main() {}".to_string(),
            reveal: SolutionReveal::Never,
            ..Default::default()
        }),
        ..Default::default()
    };
    let config = RenderConfig { reveal_solution: true, ..Default::default() };
    let html = render_exercise_with_config(&exercise, &config).unwrap();
    assert!(html.contains(r#"<details class="solution">"#));
    assert!(!html.contains(r#"<details class="solution" open>"#));
}

#[test]
fn render_without_progress_has_no_footer() {
    let exercise = Exercise {
        metadata: ExerciseMetadata { id: "nf".to_string(), ..Default::default() },
        ..Default::default()
    };
    let config = RenderConfig { enable_progress: false, ..Default::default() };
    let html = render_exercise_with_config(&exercise, &config).unwrap();
    assert!(!html.contains("exercise-footer"));
    assert!(html.ends_with("</article>\n"));
}
