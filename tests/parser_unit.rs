use mdbook_exercises::{parse_exercise, parse_inline_attributes, Difficulty};

    #[test]
    fn test_parse_simple_exercise() {
        let markdown = r#"
# Hello World

::: exercise
id: hello-world
difficulty: beginner
time: 10 minutes
:::

Write a greeting function.
"#;

        let exercise = parse_exercise(markdown).unwrap();
        assert_eq!(exercise.metadata.id, "hello-world");
        assert_eq!(exercise.metadata.difficulty, Difficulty::Beginner);
        assert_eq!(exercise.metadata.time_minutes, Some(10));
        assert_eq!(exercise.title, Some("Hello World".to_string()));
    }

    #[test]
    fn test_parse_hint() {
        let markdown = r#"
::: exercise
id: test
difficulty: beginner
:::

::: hint level=1 title="First Hint"
This is hint 1.
:::

::: hint level=2
This is hint 2.
:::
"#;

        let exercise = parse_exercise(markdown).unwrap();
        assert_eq!(exercise.hints.len(), 2);
        assert_eq!(exercise.hints[0].level, 1);
        assert_eq!(exercise.hints[0].title, Some("First Hint".to_string()));
        assert_eq!(exercise.hints[1].level, 2);
    }

    #[test]
    fn test_parse_inline_attributes() {
        let attrs = parse_inline_attributes(r#"level=1 file="src/main.rs" readonly"#);
        assert_eq!(attrs.get("level"), Some(&"1".to_string()));
        assert_eq!(attrs.get("file"), Some(&"src/main.rs".to_string()));
        assert_eq!(attrs.get("readonly"), Some(&"true".to_string()));
    }

    #[test]
    fn test_ignore_code_blocks() {
        let markdown = r#"
# Test

::: exercise
id: test
difficulty: beginner
:::

Here is an example of an exercise block:

```markdown
::: exercise
id: fake
difficulty: advanced
:::
```
"#;
        let exercise = parse_exercise(markdown).unwrap();
        assert_eq!(exercise.metadata.id, "test");
        assert_eq!(exercise.metadata.difficulty, Difficulty::Beginner);
        // The second block should be ignored, so difficulty should remain Beginner
    }

    #[test]
    fn test_starter_filename_from_fence_info() {
        let markdown = r#"
::: exercise
id: fence-file-test
difficulty: beginner
:::

::: starter
```rust,filename=src/main.rs
fn main() {}
```
:::
"#;

        let exercise = parse_exercise(markdown).unwrap();
        let starter = exercise.starter.as_ref().expect("starter missing");
        assert_eq!(starter.language, "rust");
        assert_eq!(starter.filename.as_deref(), Some("src/main.rs"));
    }

    #[test]
    fn test_starter_filename_attr_precedence_over_fence() {
        let markdown = r#"
::: exercise
id: fence-vs-attr
difficulty: beginner
:::

::: starter file="src/lib.rs"
```rust,filename=src/main.rs
fn main() {}
```
:::
"#;

        let exercise = parse_exercise(markdown).unwrap();
        let starter = exercise.starter.as_ref().expect("starter missing");
        // Attribute should take precedence over fence info
        assert_eq!(starter.filename.as_deref(), Some("src/lib.rs"));
        assert_eq!(starter.language, "rust");
    }

    #[test]
    fn test_tests_language_from_fence_info() {
        let markdown = r#"
::: exercise
id: tests-lang-fence
difficulty: beginner
:::

::: tests
```rust
#[test]
fn it_works() { assert!(true); }
```
:::
"#;

        let exercise = parse_exercise(markdown).unwrap();
        let tests = exercise.tests.as_ref().expect("tests missing");
        assert_eq!(tests.language, "rust");
    }

    #[test]
    fn test_tests_language_attr_precedence_over_fence() {
        let markdown = r#"
::: exercise
id: tests-lang-attr
difficulty: beginner
:::

::: tests language=python
```rust
#[test]
fn it_works() { assert!(true); }
```
:::
"#;

        let exercise = parse_exercise(markdown).unwrap();
        let tests = exercise.tests.as_ref().expect("tests missing");
        // Attribute should override fence info
        assert_eq!(tests.language, "python");
    }
