use mdbook_exercises::usecase::Domain;
use mdbook_exercises::{parse_document, ParseError, ParsedExercise, SolutionReveal};

const USECASE: &str = r#"# Triage Assistant

Design a triage workflow.

::: usecase
id: triage-01
difficulty: intermediate
domain: Healthcare
time: 1 hour
:::

::: scenario
organization: City Hospital
constraints:
  - HIPAA applies
  - No new staff
The emergency room is overloaded.

Patients wait for hours.
:::

::: prompt
aspects:
  - Risks
  - Costs
Propose a triage process.
:::

::: hint level=2
Think about queues.
:::

::: hint level=1 title="Start"
Who arrives first?
:::

::: evaluation
criteria:
  - name: Safety
    weight: 0.6
    description: Keeps patients safe
  - name: Cost
key_points:
  - Prioritise by severity
min_words: 100
max_words: 500
pass_threshold: 0.7
:::

::: sample-answer reveal=always
expected_score: 0.9
A nurse-led triage desk sorts arrivals.
:::

::: context
  Background reading.  
:::
"#;

#[test]
fn usecase_document_is_parsed_as_use_case() {
    let parsed = parse_document(USECASE).expect("parse");
    let uc = match parsed {
        ParsedExercise::UseCase(uc) => uc,
        ParsedExercise::Code(_) => panic!("expected a use case"),
    };
    assert_eq!(uc.metadata.id, "triage-01");
    assert_eq!(uc.metadata.domain, Domain::Healthcare);
    assert_eq!(uc.metadata.time_minutes, Some(60));
    assert_eq!(uc.title.as_deref(), Some("Triage Assistant"));
    assert_eq!(uc.description, "Design a triage workflow.");

    assert_eq!(uc.scenario.organization.as_deref(), Some("City Hospital"));
    assert_eq!(uc.scenario.constraints, vec!["HIPAA applies".to_string(), "No new staff".to_string()]);
    assert_eq!(uc.scenario.content, "The emergency room is overloaded.\n\nPatients wait for hours.");

    assert_eq!(uc.prompt.aspects, vec!["Risks".to_string(), "Costs".to_string()]);
    assert_eq!(uc.prompt.content, "Propose a triage process.");

    assert_eq!(uc.hints.len(), 2);
    assert_eq!(uc.hints[0].level, 1);
    assert_eq!(uc.hints[0].title.as_deref(), Some("Start"));
    assert_eq!(uc.hints[1].level, 2);

    let ev = &uc.evaluation;
    assert_eq!(ev.criteria.len(), 2);
    assert_eq!(ev.criteria[0].name, "Safety");
    assert_eq!(ev.criteria[0].weight.as_ref().and_then(|w| w.as_f64()), Some(0.6));
    assert_eq!(ev.criteria[0].description, "Keeps patients safe");
    assert_eq!(ev.criteria[1].name, "Cost");
    assert!(ev.criteria[1].weight.is_none());
    assert_eq!(ev.criteria[1].description, "");
    assert_eq!(ev.key_points, vec!["Prioritise by severity".to_string()]);
    assert_eq!(ev.min_words, Some(100));
    assert_eq!(ev.max_words, Some(500));
    assert_eq!(ev.pass_threshold.as_ref().and_then(|p| p.as_f64()), Some(0.7));

    let sa = uc.sample_answer.as_ref().expect("sample answer");
    assert_eq!(sa.content, "A nurse-led triage desk sorts arrivals.");
    assert_eq!(sa.expected_score.as_ref().and_then(|s| s.as_f64()), Some(0.9));
    assert_eq!(sa.reveal, SolutionReveal::Always);

    assert_eq!(uc.context.as_deref(), Some("Background reading."));
    assert!(uc.objectives.is_none());
}

#[test]
fn code_document_is_parsed_as_code_exercise() {
    let parsed = parse_document("::: exercise\nid: code\n:::\n").unwrap();
    match parsed {
        ParsedExercise::Code(ex) => assert_eq!(ex.metadata.id, "code"),
        ParsedExercise::UseCase(_) => panic!("expected a code exercise"),
    }
}

#[test]
fn usecase_wins_over_exercise() {
    let parsed = parse_document("::: exercise\nid: a\n:::\n::: usecase\nid: b\n:::\n").unwrap();
    match parsed {
        ParsedExercise::UseCase(uc) => assert_eq!(uc.metadata.id, "b"),
        ParsedExercise::Code(_) => panic!("expected a use case"),
    }
}

#[test]
fn document_without_directives_is_unknown() {
    assert!(matches!(parse_document("plain"), Err(ParseError::UnknownExerciseType)));
}

#[test]
fn unknown_domain_is_invalid_attribute() {
    match parse_document("::: usecase\nid: d\ndomain: space\n:::\n") {
        Err(ParseError::InvalidAttribute { attribute, value }) => {
            assert_eq!(attribute, "domain");
            assert_eq!(value, "space");
        }
        other => panic!("unexpected: {:?}", other.map(|_| ())),
    }
}

#[test]
fn scenario_without_header_is_all_body() {
    let md = "::: usecase\nid: s\n:::\n::: scenario\nA plain story: with a colon later.\n:::\n";
    let uc = match parse_document(md).unwrap() {
        ParsedExercise::UseCase(uc) => uc,
        ParsedExercise::Code(_) => panic!("expected a use case"),
    };
    assert!(uc.scenario.organization.is_none());
    assert_eq!(uc.scenario.content, "A plain story: with a colon later.");
    assert_eq!(uc.metadata.domain, Domain::General);
}

#[test]
fn usecase_missing_id_names_the_block() {
    match parse_document("::: usecase\ndomain: defense\n:::\n") {
        Err(ParseError::MissingField { block, field }) => {
            assert_eq!(block, "usecase");
            assert_eq!(field, "id");
        }
        other => panic!("unexpected: {:?}", other.map(|_| ())),
    }
}
