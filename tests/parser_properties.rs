use mdbook_exercises::blocks::parse_hint_block;
use mdbook_exercises::{Exercise, Hint};
use mdbook_exercises::exclusion::find_excluded_ranges;
use mdbook_exercises::lines::parse_time_string;
use mdbook_exercises::{
    parse_exercise, parse_exercise_with_ranges, parse_fence_info, Difficulty, ParseError,
    SolutionReveal, TestMode,
};

#[test]
fn document_without_directives_is_unknown_type() {
    let r = parse_exercise("# Title\n\nJust prose.\n");
    assert!(matches!(r, Err(ParseError::UnknownExerciseType)));
}

#[test]
fn directive_only_inside_code_is_unknown_type() {
    let md = "# Café ☕\n\n```markdown\n::: exercise\nid: fake\n:::\n```\n";
    let r = parse_exercise(md);
    assert!(matches!(r, Err(ParseError::UnknownExerciseType)));
}

#[test]
fn empty_document_is_unknown_type() {
    assert!(matches!(parse_exercise(""), Err(ParseError::UnknownExerciseType)));
}

#[test]
fn identifier_is_kept_verbatim() {
    let md = "::: exercise\nid: Hello-World_42\n:::\n";
    let ex = parse_exercise(md).unwrap();
    assert_eq!(ex.metadata.id, "Hello-World_42");
}

#[test]
fn hints_are_sorted_by_level() {
    let md = "::: exercise\nid: h\n:::\n\n::: hint level=3\nthird\n:::\n\n::: hint level=1\nfirst\n:::\n\n::: hint level=2\nsecond\n:::\n";
    let ex = parse_exercise(md).unwrap();
    let levels: Vec<u8> = ex.hints.iter().map(|h| h.level).collect();
    assert_eq!(levels, vec![1, 2, 3]);
    assert_eq!(ex.hints[0].content, "first");
}

#[test]
fn equal_hint_levels_keep_source_order() {
    let md = "::: exercise\nid: h\n:::\n::: hint level=1\na\n:::\n::: hint level=1\nb\n:::\n";
    let ex = parse_exercise(md).unwrap();
    assert_eq!(ex.hints[0].content, "a");
    assert_eq!(ex.hints[1].content, "b");
}

#[test]
fn blank_code_blocks_are_dropped() {
    let md = "::: exercise\nid: e\n:::\n\n::: starter file=\"src/main.rs\"\n```rust\n   \n```\n:::\n\n::: solution\n```rust\n```\n:::\n\n::: tests language=rust\nno fence at all\n:::\n";
    let ex = parse_exercise(md).unwrap();
    assert!(ex.starter.is_none());
    assert!(ex.solution.is_none());
    assert!(ex.tests.is_none());
}

#[test]
fn fake_exercise_in_code_sample_is_ignored() {
    let md = "::: exercise\nid: real\ndifficulty: beginner\n:::\n\n```markdown\n::: exercise\nid: fake\ndifficulty: advanced\n:::\n```\n";
    let ex = parse_exercise(md).unwrap();
    assert_eq!(ex.metadata.id, "real");
    assert_eq!(ex.metadata.difficulty, Difficulty::Beginner);
}

#[test]
fn time_strings_and_integers() {
    assert_eq!(parse_time_string("2 hours"), Some(120));
    assert_eq!(parse_time_string("45"), Some(45));
    assert_eq!(parse_time_string("1 HOUR"), Some(60));
    assert_eq!(parse_time_string("+5 min"), Some(5));
    assert_eq!(parse_time_string("soon"), None);
    assert_eq!(parse_time_string(""), None);
    assert_eq!(parse_time_string("4294967295"), Some(4294967295));
    assert_eq!(parse_time_string("4294967296"), None);
    assert_eq!(parse_time_string("71582789 hours"), None);
    let md = "::: exercise\nid: t\ntime: 30\n:::\n";
    assert_eq!(parse_exercise(md).unwrap().metadata.time_minutes, Some(30));
    let md = "::: exercise\nid: t\ntime: \"2 hours\"\n:::\n";
    assert_eq!(parse_exercise(md).unwrap().metadata.time_minutes, Some(120));
}

#[test]
fn starter_attribute_wins_over_fence() {
    let md = "::: exercise\nid: f\n:::\n::: starter file=\"src/lib.rs\"\n```rust,filename=src/main.rs\nfn main() {}\n```\n:::\n";
    let ex = parse_exercise(md).unwrap();
    let st = ex.starter.unwrap();
    assert_eq!(st.filename.as_deref(), Some("src/lib.rs"));
    assert_eq!(st.language, "rust");
    assert_eq!(st.code, "fn main() {}");
}

#[test]
fn default_language_when_none_given() {
    let md = "::: exercise\nid: f\n:::\n::: starter\n```\nprint(1)\n```\n:::\n";
    let ex = parse_exercise(md).unwrap();
    assert_eq!(ex.starter.unwrap().language, "rust");
}

#[test]
fn unterminated_hint_is_unclosed_block() {
    let md = "::: exercise\nid: u\n:::\n\n::: hint level=1\nnever closed\n";
    match parse_exercise(md) {
        Err(ParseError::UnclosedBlock { block, line }) => {
            assert_eq!(block, "hint");
            assert_eq!(line, 5);
        }
        other => panic!("unexpected: {:?}", other),
    }
}

#[test]
fn missing_id_is_missing_field() {
    match parse_exercise("::: exercise\ndifficulty: beginner\n:::\n") {
        Err(ParseError::MissingField { block, field }) => {
            assert_eq!(block, "exercise");
            assert_eq!(field, "id");
        }
        other => panic!("unexpected: {:?}", other),
    }
}

#[test]
fn missing_hint_level_is_missing_field() {
    match parse_exercise("::: exercise\nid: a\n:::\n::: hint\nx\n:::\n") {
        Err(ParseError::MissingField { block, field }) => {
            assert_eq!(block, "hint");
            assert_eq!(field, "level");
        }
        other => panic!("unexpected: {:?}", other),
    }
}

#[test]
fn bad_hint_level_is_invalid_hint_level() {
    match parse_exercise("::: exercise\nid: a\n:::\n::: hint level=256\nx\n:::\n") {
        Err(ParseError::InvalidHintLevel(text)) => assert_eq!(text, "256"),
        other => panic!("unexpected: {:?}", other),
    }
}

#[test]
fn unknown_difficulty_is_invalid_attribute() {
    match parse_exercise("::: exercise\nid: a\ndifficulty: expert\n:::\n") {
        Err(ParseError::InvalidAttribute { attribute, value }) => {
            assert_eq!(attribute, "difficulty");
            assert_eq!(value, "expert");
        }
        other => panic!("unexpected: {:?}", other),
    }
}

#[test]
fn malformed_yaml_is_yaml_error() {
    match parse_exercise("::: exercise\nid: [unclosed\n:::\n") {
        Err(e @ ParseError::YamlError { .. }) => {
            assert!(e.message().starts_with("YAML parse error in exercise block: "));
        }
        other => panic!("unexpected: {:?}", other),
    }
}

#[test]
fn error_messages() {
    let e = ParseError::UnclosedBlock { block: "hint".to_string(), line: 12 };
    assert_eq!(e.message(), "Unclosed directive block 'hint' starting at line 12");
    let e = ParseError::InvalidHintLevel("x".to_string());
    assert_eq!(e.message(), "Invalid hint level: x");
}

#[test]
fn title_and_description() {
    let md = "# My Title\n\nIntro line.\n\n::: exercise\nid: d\n:::\n\nMore text.\n\n::: starter\n```rust\nfn main() {}\n```\n:::\n\nAfter.\n";
    let ex = parse_exercise(md).unwrap();
    assert_eq!(ex.title.as_deref(), Some("My Title"));
    assert_eq!(ex.description, "Intro line.\n\n\nMore text.");
}

#[test]
fn description_without_content_directive() {
    let md = "::: exercise\nid: d\n:::\n\n  Only prose.  \n";
    let ex = parse_exercise(md).unwrap();
    assert_eq!(ex.description, "Only prose.");
    assert!(ex.title.is_none());
}

#[test]
fn new_directive_closes_the_open_one() {
    let md = "::: exercise\nid: n\n::: discussion\n- one\n2. two\n* three\n:::\n";
    let ex = parse_exercise(md).unwrap();
    assert_eq!(ex.metadata.id, "n");
    assert_eq!(
        ex.discussion.unwrap(),
        vec!["one".to_string(), "two".to_string(), "three".to_string()]
    );
}

#[test]
fn empty_list_leaves_field_unset() {
    let md = "::: exercise\nid: n\n:::\n::: reflection\nno items here\n:::\n";
    let ex = parse_exercise(md).unwrap();
    assert!(ex.reflection.is_none());
}

#[test]
fn unknown_directives_are_ignored() {
    let md = "::: exercise\nid: n\n:::\n::: future-thing level=x\nwhatever\n:::\n";
    assert!(parse_exercise(md).is_ok());
}

#[test]
fn objectives_and_prerequisites() {
    let md = "::: exercise\nid: o\nprerequisites:\n  - a\n  - 3\n  - b\n:::\n::: objectives\nthinking:\n  - Think\n:::\n";
    let ex = parse_exercise(md).unwrap();
    assert_eq!(ex.metadata.prerequisites, vec!["a".to_string(), "b".to_string()]);
    let o = ex.objectives.unwrap();
    assert_eq!(o.thinking, vec!["Think".to_string()]);
    assert!(o.doing.is_empty());
}

#[test]
fn solution_explanation_and_reveal() {
    let md = "::: exercise\nid: s\n:::\n::: solution reveal=ALWAYS language=python\n```py\nprint(1)\n```\n### Explanation\nBecause.\n:::\n";
    let ex = parse_exercise(md).unwrap();
    let sol = ex.solution.unwrap();
    assert_eq!(sol.code, "print(1)");
    assert_eq!(sol.language, "python");
    assert_eq!(sol.explanation.as_deref(), Some("Because."));
    assert_eq!(sol.reveal, SolutionReveal::Always);
}

#[test]
fn tests_mode_falls_back_to_playground() {
    let md = "::: exercise\nid: m\n:::\n::: tests mode=cloud\n```rust\n#[test] fn t() {}\n```\n:::\n";
    let ex = parse_exercise(md).unwrap();
    assert_eq!(ex.tests.unwrap().mode, TestMode::Playground);
}

#[test]
fn fence_info_parsing() {
    let (lang, attrs) = parse_fence_info("rust, filename = src/main.rs ,ignore");
    assert_eq!(lang, "rust");
    assert_eq!(attrs.get("filename"), Some(&"src/main.rs".to_string()));
    assert_eq!(attrs.get("ignore"), Some(&"true".to_string()));
    let (lang, attrs) = parse_fence_info("file=a.rs");
    assert_eq!(lang, "");
    assert_eq!(attrs.get("file"), Some(&"a.rs".to_string()));
}

#[test]
fn inline_attributes_later_key_wins_and_unclosed_quote() {
    let attrs = mdbook_exercises::parse_inline_attributes(r#"a=1 a=2 title="open ended   "#);
    assert_eq!(attrs.get("a"), Some(&"2".to_string()));
    assert_eq!(attrs.get("title"), Some(&"open ended".to_string()));
    assert_eq!(attrs.get("missing"), None);
}

#[test]
fn excluded_ranges_cover_inline_code_and_blocks() {
    let ranges = find_excluded_ranges("Use `x` here.\n\n```\ncode\n```\n");
    assert_eq!(ranges[0], (4, 7));
    assert_eq!(ranges.len(), 2);
    assert_eq!(ranges[1].0, 15);
}

#[test]
fn explicit_ranges_suppress_directives() {
    let md = "::: exercise\nid: r\n:::\n";
    let r = parse_exercise_with_ranges(md, &vec![(0, 100)]);
    assert!(matches!(r, Err(ParseError::UnknownExerciseType)));
    let ok = parse_exercise_with_ranges(md, &vec![]).unwrap();
    assert_eq!(ok.metadata.id, "r");
}

#[test]
fn numbered_items_need_digits_then_dot() {
    let md = "::: exercise\nid: n\n:::\n::: discussion\n1x. not an item\n2024 was great. Really\n12. twelve\n3.three\n.5 no\n:::\n";
    let ex = parse_exercise(md).unwrap();
    assert_eq!(ex.discussion.unwrap(), vec!["twelve".to_string(), "three".to_string()]);
}

#[test]
fn hints_resorted_on_every_insert() {
    let md = "::: exercise\nid: h\n:::\n::: hint level=5\nfive\n:::\n::: hint level=2\ntwo\n:::\n::: hint level=9\nnine\n:::\n::: hint level=0\nzero\n:::\n";
    let ex = parse_exercise(md).unwrap();
    let contents: Vec<&str> = ex.hints.iter().map(|h| h.content.as_str()).collect();
    assert_eq!(contents, vec!["zero", "two", "five", "nine"]);
}

#[test]
fn hint_block_sorts_unsorted_hints() {
    let mut ex = Exercise {
        hints: vec![
            Hint { level: 3, title: None, content: "c".to_string() },
            Hint { level: 1, title: None, content: "a".to_string() },
        ],
        ..Default::default()
    };
    let attrs = mdbook_exercises::parse_inline_attributes("level=2 title=\"Mid\"");
    let content: Vec<char> = "  b  ".chars().collect();
    parse_hint_block(&mut ex, &attrs, &content, 0, content.len()).unwrap();
    let levels: Vec<u8> = ex.hints.iter().map(|h| h.level).collect();
    assert_eq!(levels, vec![1, 2, 3]);
    assert_eq!(ex.hints[1].content, "b");
    assert_eq!(ex.hints[1].title.as_deref(), Some("Mid"));
}

#[test]
fn hint_error_leaves_hints_unchanged() {
    let mut ex = Exercise {
        hints: vec![Hint { level: 1, title: None, content: "a".to_string() }],
        ..Default::default()
    };
    let attrs = mdbook_exercises::parse_inline_attributes("level=-1");
    let content: Vec<char> = "x".chars().collect();
    let r = parse_hint_block(&mut ex, &attrs, &content, 0, 1);
    assert!(matches!(r, Err(ParseError::InvalidHintLevel(ref s)) if s == "-1"));
    assert_eq!(ex.hints.len(), 1);
}
