//! Use-case exercises: a scenario, a prompt to answer in prose, and the
//! rubric that an answer is judged by.

use crate::attrs::{lemma_white_index, white_index, Attributes};
use crate::blocks::{
    add_hint, hint_from_block, hint_of, sort_hints, items_or_empty, metadata_from,
    metadata_of, objectives_from, objectives_of, reveal_of, str_items, yaml_error, yaml_strings,
    ParseError, ParseErrorV,
};
use crate::attrs::find_white;
use crate::lines::{first_line, next_line, opt_view, rest_lines, strings_view};
use crate::text::{
    chars_of, eq_ignore_case, find_char, index_of, is_white, is_white_char,
    lemma_index_of_bound, starts_with, string_from, trim, trim_window, window_eq_ignore_case,
    window_starts_with,
};
use crate::types::{
    hints_view, Difficulty, ExerciseMetadata, Hint, HintV, MetadataV, Objectives, ObjectivesV,
    SolutionReveal,
};
use crate::yaml::{
    parse_number, parse_yaml, yaml_accepts, yaml_number, yaml_number_at, yaml_seq_at,
    yaml_seq_field, yaml_seq_field_at, yaml_seq_number, yaml_seq_number_at, yaml_str,
    yaml_str_at, yaml_u64, yaml_u64_at, number_parses, present, YamlDoc,
};
use crate::parser::{
    blocks_fit, blocks_view, block_view, has_line, has_line_exec, scan_document, scan_with, Block,
    BlockV, ScanV, Scanned,
};
use vstd::prelude::*;

verus! {

/// The field a use case belongs to.
#[derive(Debug, Clone, Copy, PartialEq, Eq, Structural)]
pub enum Domain {
    General,
    Healthcare,
    Defense,
    Financial,
}

/// Metadata about a use-case exercise.
#[derive(Debug, Clone)]
pub struct UseCaseMetadata {
    pub id: String,
    pub difficulty: Difficulty,
    pub time_minutes: Option<u32>,
    pub prerequisites: Vec<String>,
    pub domain: Domain,
}

/// The situation a use case describes.
#[derive(Debug, Clone)]
pub struct Scenario {
    pub organization: Option<String>,
    pub content: String,
    pub constraints: Vec<String>,
}

/// What the learner is asked to answer.
#[derive(Debug, Clone)]
pub struct UseCasePrompt {
    pub content: String,
    pub aspects: Vec<String>,
}

/// One weighted criterion of a rubric.
#[derive(Debug, Clone)]
pub struct Criterion {
    pub name: String,
    pub weight: Option<serde_yaml::Number>,
    pub description: String,
}

/// The rubric that an answer is judged by.
#[derive(Debug, Clone)]
pub struct EvaluationCriteria {
    pub criteria: Vec<Criterion>,
    pub key_points: Vec<String>,
    pub min_words: Option<u32>,
    pub max_words: Option<u32>,
    pub pass_threshold: Option<serde_yaml::Number>,
}

/// A model answer.
#[derive(Debug, Clone)]
pub struct SampleAnswer {
    pub content: String,
    pub expected_score: Option<serde_yaml::Number>,
    pub reveal: SolutionReveal,
}

/// A parsed use-case exercise.
#[derive(Debug, Clone)]
pub struct UseCaseExercise {
    pub metadata: UseCaseMetadata,
    pub title: Option<String>,
    pub description: String,
    pub scenario: Scenario,
    pub prompt: UseCasePrompt,
    pub hints: Vec<Hint>,
    pub evaluation: EvaluationCriteria,
    pub sample_answer: Option<SampleAnswer>,
    pub context: Option<String>,
    pub objectives: Option<Objectives>,
}

pub struct ScenarioV {
    pub organization: Option<Seq<char>>,
    pub content: Seq<char>,
    pub constraints: Seq<Seq<char>>,
}

pub struct PromptV {
    pub content: Seq<char>,
    pub aspects: Seq<Seq<char>>,
}

/// A criterion; of its weight, only whether there is one.
pub struct CriterionV {
    pub name: Seq<char>,
    pub weighted: bool,
    pub description: Seq<char>,
}

pub struct EvaluationV {
    pub criteria: Seq<CriterionV>,
    pub key_points: Seq<Seq<char>>,
    pub min_words: Option<u32>,
    pub max_words: Option<u32>,
    pub has_pass_threshold: bool,
}

pub struct SampleAnswerV {
    pub content: Seq<char>,
    pub has_expected_score: bool,
    pub reveal: SolutionReveal,
}

pub struct UseCaseV {
    pub metadata: MetadataV,
    pub domain: Domain,
    pub title: Option<Seq<char>>,
    pub description: Seq<char>,
    pub scenario: ScenarioV,
    pub prompt: PromptV,
    pub hints: Seq<HintV>,
    pub evaluation: EvaluationV,
    pub sample_answer: Option<SampleAnswerV>,
    pub context: Option<Seq<char>>,
    pub objectives: Option<ObjectivesV>,
}

impl View for Scenario {
    type V = ScenarioV;

    open spec fn view(&self) -> ScenarioV {
        ScenarioV {
            organization: opt_view(self.organization),
            content: self.content@,
            constraints: strings_view(self.constraints@),
        }
    }
}

impl View for UseCasePrompt {
    type V = PromptV;

    open spec fn view(&self) -> PromptV {
        PromptV { content: self.content@, aspects: strings_view(self.aspects@) }
    }
}

impl View for Criterion {
    type V = CriterionV;

    open spec fn view(&self) -> CriterionV {
        CriterionV {
            name: self.name@,
            weighted: self.weight is Some,
            description: self.description@,
        }
    }
}

impl View for EvaluationCriteria {
    type V = EvaluationV;

    open spec fn view(&self) -> EvaluationV {
        EvaluationV {
            criteria: self.criteria@.map_values(|c: Criterion| c@),
            key_points: strings_view(self.key_points@),
            min_words: self.min_words,
            max_words: self.max_words,
            has_pass_threshold: self.pass_threshold is Some,
        }
    }
}

impl View for SampleAnswer {
    type V = SampleAnswerV;

    open spec fn view(&self) -> SampleAnswerV {
        SampleAnswerV {
            content: self.content@,
            has_expected_score: self.expected_score is Some,
            reveal: self.reveal,
        }
    }
}

impl View for UseCaseMetadata {
    type V = MetadataV;

    open spec fn view(&self) -> MetadataV {
        MetadataV {
            id: self.id@,
            difficulty: self.difficulty,
            time_minutes: self.time_minutes,
            prerequisites: strings_view(self.prerequisites@),
        }
    }
}

impl View for UseCaseExercise {
    type V = UseCaseV;

    open spec fn view(&self) -> UseCaseV {
        UseCaseV {
            metadata: self.metadata@,
            domain: self.metadata.domain,
            title: opt_view(self.title),
            description: self.description@,
            scenario: self.scenario@,
            prompt: self.prompt@,
            hints: hints_view(self.hints@),
            evaluation: self.evaluation@,
            sample_answer: match self.sample_answer {
                Some(a) => Some(a@),
                None => None,
            },
            context: opt_view(self.context),
            objectives: match self.objectives {
                Some(o) => Some(o@),
                None => None,
            },
        }
    }
}

/// The domain a string names, in any case.
pub open spec fn domain_of(s: Seq<char>) -> Option<Domain> {
    if eq_ignore_case(s, "general"@) {
        Some(Domain::General)
    } else if eq_ignore_case(s, "healthcare"@) {
        Some(Domain::Healthcare)
    } else if eq_ignore_case(s, "defense"@) {
        Some(Domain::Defense)
    } else if eq_ignore_case(s, "financial"@) {
        Some(Domain::Financial)
    } else {
        None
    }
}

/// The `usecase` metadata block `c` applied to `uc`: the metadata of a code
/// exercise, and a `domain` that replaces the earlier one when present.
pub open spec fn apply_usecase_meta(uc: UseCaseV, c: Seq<char>) -> Result<UseCaseV, ParseErrorV> {
    match metadata_of("usecase"@, uc.metadata, c) {
        Err(e) => Err(e),
        Ok(m) => match yaml_str_at(c, "domain"@) {
            None => Ok(UseCaseV { metadata: m, ..uc }),
            Some(d) => match domain_of(d) {
                Some(x) => Ok(UseCaseV { metadata: m, domain: x, ..uc }),
                None => Err(ParseErrorV::InvalidAttribute("domain"@, d)),
            },
        },
    }
}

/// A line of the form `key: value` or `key:`.
pub open spec fn is_key_line(l: Seq<char>) -> bool {
    let t = trim(l);
    let k = index_of(t, ':');
    0 < k < t.len() && white_index(t) > k && (k + 1 == t.len() || is_white(t[k + 1]))
}

/// A list item line `- item`.
pub open spec fn is_item_line(l: Seq<char>) -> bool {
    let t = trim(l);
    t.len() > 0 && t[0] == '-'
}

#[via_fn]
proof fn header_end_decreases(s: Seq<char>, seen_key: bool) {
    lemma_index_of_bound(s, '\n');
}

/// The length of the YAML header at the start of `s`: lines of the form
/// `key: value` or `key:`, with `- item` lines after a key line; the first
/// other line ends the header.
pub open spec fn header_end(s: Seq<char>, seen_key: bool) -> int
    decreases s.len(),
    via header_end_decreases
{
    if s.len() == 0 {
        0
    } else {
        let l = first_line(s);
        if is_key_line(l) || (seen_key && is_item_line(l)) {
            (s.len() - rest_lines(s).len()) + header_end(rest_lines(s), true)
        } else {
            0
        }
    }
}

/// The header and the trimmed body of a scenario or prompt block.
pub open spec fn split_header(c: Seq<char>) -> (Seq<char>, Seq<char>) {
    let e = header_end(c, false);
    (c.subrange(0, e), trim(c.subrange(e, c.len() as int)))
}

/// The scenario of a block: `organization` and `constraints` from its
/// header, the rest as its Markdown content.
pub open spec fn scenario_of(c: Seq<char>) -> Result<ScenarioV, ParseErrorV> {
    let (header, body) = split_header(c);
    if header.len() == 0 {
        Ok(ScenarioV { organization: None, content: body, constraints: seq![] })
    } else if !yaml_accepts(header) {
        Err(ParseErrorV::YamlError("scenario"@))
    } else {
        Ok(
            ScenarioV {
                organization: yaml_str_at(header, "organization"@),
                content: body,
                constraints: items_or_empty(yaml_seq_at(header, "constraints"@)),
            },
        )
    }
}

/// The prompt of a block: `aspects` from its header, the rest as its Markdown content.
pub open spec fn prompt_of(c: Seq<char>) -> Result<PromptV, ParseErrorV> {
    let (header, body) = split_header(c);
    if header.len() == 0 {
        Ok(PromptV { content: body, aspects: seq![] })
    } else if !yaml_accepts(header) {
        Err(ParseErrorV::YamlError("prompt"@))
    } else {
        Ok(PromptV { content: body, aspects: items_or_empty(yaml_seq_at(header, "aspects"@)) })
    }
}

pub open spec fn or_empty(o: Option<Seq<char>>) -> Seq<char> {
    match o {
        Some(s) => s,
        None => seq![],
    }
}

/// The criteria of a rubric: for each item of its `criteria` sequence, the
/// `name` and `description` strings (empty when absent) and whether it has
/// a numeric `weight`.
pub open spec fn criteria_of(
    names: Option<Seq<Option<Seq<char>>>>,
    weights: Option<Seq<bool>>,
    descriptions: Option<Seq<Option<Seq<char>>>>,
) -> Seq<CriterionV> {
    match names {
        None => seq![],
        Some(ns) => Seq::new(
            ns.len(),
            |i: int|
                CriterionV {
                    name: or_empty(ns[i]),
                    weighted: match weights {
                        Some(w) => i < w.len() && w[i],
                        None => false,
                    },
                    description: match descriptions {
                        Some(d) => if i < d.len() {
                            or_empty(d[i])
                        } else {
                            seq![]
                        },
                        None => seq![],
                    },
                },
        ),
    }
}

pub open spec fn word_count(o: Option<u64>) -> Option<u32> {
    match o {
        Some(n) => if n <= u32::MAX {
            Some(n as u32)
        } else {
            None
        },
        None => None,
    }
}

/// The rubric of an evaluation block.
pub open spec fn evaluation_of(c: Seq<char>) -> Result<EvaluationV, ParseErrorV> {
    if !yaml_accepts(c) {
        Err(ParseErrorV::YamlError("evaluation"@))
    } else {
        Ok(
            EvaluationV {
                criteria: criteria_of(
                    yaml_seq_field_at(c, "criteria"@, "name"@),
                    yaml_seq_number_at(c, "criteria"@, "weight"@),
                    yaml_seq_field_at(c, "criteria"@, "description"@),
                ),
                key_points: items_or_empty(yaml_seq_at(c, "key_points"@)),
                min_words: word_count(yaml_u64_at(c, "min_words"@)),
                max_words: word_count(yaml_u64_at(c, "max_words"@)),
                has_pass_threshold: yaml_number_at(c, "pass_threshold"@),
            },
        )
    }
}

pub open spec fn score_key() -> Seq<char> {
    seq!['e', 'x', 'p', 'e', 'c', 't', 'e', 'd', '_', 's', 'c', 'o', 'r', 'e', ':']
}

/// A line that gives an expected score.
pub open spec fn is_score_line(l: Seq<char>) -> bool {
    starts_with(trim(l), score_key())
}

/// The value text of a score line.
pub open spec fn score_text(l: Seq<char>) -> Seq<char> {
    let t = trim(l);
    trim(t.subrange(score_key().len() as int, t.len() as int))
}

#[via_fn]
proof fn scores_decreases(s: Seq<char>) {
    lemma_index_of_bound(s, '\n');
}

/// The length of the score lines at the start of `s`, and the value text of
/// the last of them.
pub open spec fn scores(s: Seq<char>) -> (int, Option<Seq<char>>)
    decreases s.len(),
    via scores_decreases
{
    if s.len() > 0 && is_score_line(first_line(s)) {
        let r = scores(rest_lines(s));
        (
            (s.len() - rest_lines(s).len()) + r.0,
            if r.1 is Some {
                r.1
            } else {
                Some(score_text(first_line(s)))
            },
        )
    } else {
        (0, None)
    }
}

/// The sample answer of a block: leading `expected_score:` lines give the
/// expected score, and the trimmed rest is the answer.
pub open spec fn sample_answer_of(attrs: Map<Seq<char>, Seq<char>>, c: Seq<char>) -> SampleAnswerV {
    let (e, score) = scores(c);
    SampleAnswerV {
        content: trim(c.subrange(e, c.len() as int)),
        has_expected_score: match score {
            Some(t) => number_parses(t),
            None => false,
        },
        reveal: reveal_of(attrs),
    }
}

/// A closed block of a use-case document: name, attributes and text.
pub open spec fn apply_usecase_block(
    uc: UseCaseV,
    name: Seq<char>,
    attrs: Map<Seq<char>, Seq<char>>,
    c: Seq<char>,
) -> Result<UseCaseV, ParseErrorV> {
    if name == "usecase"@ {
        apply_usecase_meta(uc, c)
    } else if name == "objectives"@ {
        match objectives_of(c) {
            Err(e) => Err(e),
            Ok(o) => Ok(UseCaseV { objectives: Some(o), ..uc }),
        }
    } else if name == "scenario"@ {
        match scenario_of(c) {
            Err(e) => Err(e),
            Ok(s) => Ok(UseCaseV { scenario: s, ..uc }),
        }
    } else if name == "prompt"@ {
        match prompt_of(c) {
            Err(e) => Err(e),
            Ok(p) => Ok(UseCaseV { prompt: p, ..uc }),
        }
    } else if name == "hint"@ {
        match hint_of(attrs, c) {
            Err(e) => Err(e),
            Ok(h) => Ok(UseCaseV { hints: sort_hints(uc.hints.push(h)), ..uc }),
        }
    } else if name == "evaluation"@ {
        match evaluation_of(c) {
            Err(e) => Err(e),
            Ok(v) => Ok(UseCaseV { evaluation: v, ..uc }),
        }
    } else if name == "sample-answer"@ {
        Ok(UseCaseV { sample_answer: Some(sample_answer_of(attrs, c)), ..uc })
    } else if name == "context"@ {
        Ok(UseCaseV { context: Some(trim(c)), ..uc })
    } else {
        Ok(uc)
    }
}

/// `r` is the outcome `spec` describes: on success `after` is the use case
/// it gives; on an error the use case stays `before`.
pub open spec fn usecase_outcome(
    r: Result<(), ParseError>,
    before: UseCaseV,
    after: UseCaseV,
    spec: Result<UseCaseV, ParseErrorV>,
) -> bool {
    match spec {
        Ok(u) => r is Ok && after == u,
        Err(err) => r is Err && r->Err_0@ == err && after == before,
    }
}

/// Reads the `usecase` metadata block `content` into `uc`.
pub fn parse_usecase_meta(uc: &mut UseCaseExercise, content: &str) -> (r: Result<(), ParseError>)
    ensures
        usecase_outcome(r, old(uc)@, final(uc)@, apply_usecase_meta(old(uc)@, content@)),
{
    let current = ExerciseMetadata {
        id: uc.metadata.id.clone(),
        difficulty: uc.metadata.difficulty,
        time_minutes: uc.metadata.time_minutes,
        prerequisites: uc.metadata.prerequisites.clone(),
    };
    let m = metadata_from("usecase", content, &current)?;
    let yaml = match parse_yaml(content) {
        Ok(y) => y,
        Err(e) => return Err(yaml_error("usecase", e)),
    };
    let mut domain = uc.metadata.domain;
    match yaml_str(&yaml, "domain") {
        Some(d) => {
            let dc = chars_of(d.as_str());
            assert(dc@.subrange(0, dc@.len() as int) =~= dc@);
            if window_eq_ignore_case(&dc, 0, dc.len(), "general") {
                domain = Domain::General;
            } else if window_eq_ignore_case(&dc, 0, dc.len(), "healthcare") {
                domain = Domain::Healthcare;
            } else if window_eq_ignore_case(&dc, 0, dc.len(), "defense") {
                domain = Domain::Defense;
            } else if window_eq_ignore_case(&dc, 0, dc.len(), "financial") {
                domain = Domain::Financial;
            } else {
                return Err(ParseError::InvalidAttribute { attribute: "domain".to_owned(), value: d });
            }
        },
        None => {},
    }
    uc.metadata = UseCaseMetadata {
        id: m.id,
        difficulty: m.difficulty,
        time_minutes: m.time_minutes,
        prerequisites: m.prerequisites,
        domain,
    };
    Ok(())
}

/// Whether the line `s[lo..hi]` has the form `key: value` or `key:`.
fn is_key_line_window(s: &Vec<char>, lo: usize, hi: usize) -> (r: bool)
    requires
        lo <= hi <= s@.len(),
    ensures
        r == is_key_line(s@.subrange(lo as int, hi as int)),
{
    let (a, b) = trim_window(s, lo, hi);
    let ghost t = s@.subrange(a as int, b as int);
    let k = find_char(s, a, b, ':');
    let w = find_white(s, a, b);
    proof {
        lemma_index_of_bound(t, ':');
        lemma_white_index(t);
    }
    if k > a && k < b && w > k {
        if k + 1 == b {
            true
        } else {
            assert(t[k - a + 1] == s@[k + 1]);
            is_white_char(s[k + 1])
        }
    } else {
        false
    }
}

/// Whether the line `s[lo..hi]` is a list item `- item`.
fn is_item_line_window(s: &Vec<char>, lo: usize, hi: usize) -> (r: bool)
    requires
        lo <= hi <= s@.len(),
    ensures
        r == is_item_line(s@.subrange(lo as int, hi as int)),
{
    let (a, b) = trim_window(s, lo, hi);
    a < b && s[a] == '-'
}

/// The end of the YAML header at the start of `s[lo..hi]`.
fn header_end_window(s: &Vec<char>, lo: usize, hi: usize) -> (e: usize)
    requires
        lo <= hi <= s@.len(),
    ensures
        lo <= e <= hi,
        e - lo == header_end(s@.subrange(lo as int, hi as int), false),
{
    let mut p = lo;
    let mut seen = false;
    while p < hi
        invariant
            lo <= p <= hi <= s@.len(),
            header_end(s@.subrange(lo as int, hi as int), false) == (p - lo) + header_end(
                s@.subrange(p as int, hi as int),
                seen,
            ),
        decreases hi - p,
    {
        let (le, next) = next_line(s, p, hi);
        if is_key_line_window(s, p, le) || (seen && is_item_line_window(s, p, le)) {
            p = next;
            seen = true;
        } else {
            return p;
        }
    }
    assert(s@.subrange(p as int, hi as int) =~= Seq::<char>::empty());
    p
}

/// The header window and the trimmed body window of the block `s[lo..hi]`.
fn split_header_window(s: &Vec<char>, lo: usize, hi: usize) -> (r: (usize, usize, usize))
    requires
        lo <= hi <= s@.len(),
    ensures
        lo <= r.0 <= r.1 <= r.2 <= hi,
        s@.subrange(lo as int, r.0 as int) == split_header(s@.subrange(lo as int, hi as int)).0,
        s@.subrange(r.1 as int, r.2 as int) == split_header(s@.subrange(lo as int, hi as int)).1,
{
    let ghost c = s@.subrange(lo as int, hi as int);
    let e = header_end_window(s, lo, hi);
    assert(c.subrange(0, e - lo) =~= s@.subrange(lo as int, e as int));
    assert(c.subrange(e - lo, c.len() as int) =~= s@.subrange(e as int, hi as int));
    let (a, b) = trim_window(s, e, hi);
    (e, a, b)
}

/// The scenario of the block `s[lo..hi]`.
pub fn scenario_from(s: &Vec<char>, lo: usize, hi: usize) -> (r: Result<Scenario, ParseError>)
    requires
        lo <= hi <= s@.len(),
    ensures
        match scenario_of(s@.subrange(lo as int, hi as int)) {
            Ok(v) => r is Ok && r->Ok_0@ == v,
            Err(e) => r is Err && r->Err_0@ == e,
        },
{
    let (e, a, b) = split_header_window(s, lo, hi);
    let content = string_from(s, a, b);
    if e == lo {
        let constraints: Vec<String> = Vec::new();
        assert(strings_view(constraints@) =~= Seq::<Seq<char>>::empty());
        return Ok(Scenario { organization: None, content, constraints });
    }
    let header = string_from(s, lo, e);
    let yaml = match parse_yaml(header.as_str()) {
        Ok(y) => y,
        Err(err) => return Err(yaml_error("scenario", err)),
    };
    let organization = yaml_str(&yaml, "organization");
    let constraints = yaml_strings(&yaml, "constraints");
    Ok(Scenario { organization, content, constraints })
}

/// The prompt of the block `s[lo..hi]`.
pub fn prompt_from(s: &Vec<char>, lo: usize, hi: usize) -> (r: Result<UseCasePrompt, ParseError>)
    requires
        lo <= hi <= s@.len(),
    ensures
        match prompt_of(s@.subrange(lo as int, hi as int)) {
            Ok(v) => r is Ok && r->Ok_0@ == v,
            Err(e) => r is Err && r->Err_0@ == e,
        },
{
    let (e, a, b) = split_header_window(s, lo, hi);
    let content = string_from(s, a, b);
    if e == lo {
        let aspects: Vec<String> = Vec::new();
        assert(strings_view(aspects@) =~= Seq::<Seq<char>>::empty());
        return Ok(UseCasePrompt { content, aspects });
    }
    let header = string_from(s, lo, e);
    let yaml = match parse_yaml(header.as_str()) {
        Ok(y) => y,
        Err(err) => return Err(yaml_error("prompt", err)),
    };
    let aspects = yaml_strings(&yaml, "aspects");
    Ok(UseCasePrompt { content, aspects })
}

fn string_or_empty(o: &Option<String>) -> (r: String)
    ensures
        r@ == or_empty(opt_view(*o)),
{
    match o {
        Some(x) => x.clone(),
        None => String::new(),
    }
}

pub open spec fn opt_items(o: Option<Vec<Option<String>>>) -> Option<Seq<Option<Seq<char>>>> {
    match o {
        Some(v) => Some(crate::yaml::opt_strings(v@)),
        None => None,
    }
}

pub open spec fn opt_present(o: Option<Vec<Option<serde_yaml::Number>>>) -> Option<Seq<bool>> {
    match o {
        Some(v) => Some(present(v@)),
        None => None,
    }
}

/// The criteria of a rubric from the names, weights and descriptions of its items.
fn criteria_from(
    names: Option<Vec<Option<String>>>,
    weights: Option<Vec<Option<serde_yaml::Number>>>,
    descriptions: Option<Vec<Option<String>>>,
) -> (r: Vec<Criterion>)
    ensures
        r@.map_values(|c: Criterion| c@) == criteria_of(
            opt_items(names),
            opt_present(weights),
            opt_items(descriptions),
        ),
{
    let ns = match names {
        Some(v) => v,
        None => {
            let none: Vec<Criterion> = Vec::new();
            assert(none@.map_values(|c: Criterion| c@) =~= Seq::<CriterionV>::empty());
            return none;
        },
    };
    let ghost nv = crate::yaml::opt_strings(ns@);
    let ghost wv = opt_present(weights);
    let ghost dv = opt_items(descriptions);
    let ghost target = criteria_of(Some(nv), wv, dv);
    let mut ws: Vec<Option<serde_yaml::Number>> = match weights {
        Some(v) => v,
        None => Vec::new(),
    };
    let ghost all_w = ws@;
    assert(wv == Some(present(all_w)) || (wv is None && all_w.len() == 0));
    let mut out: Vec<Criterion> = Vec::new();
    let mut i: usize = 0;
    while i < ns.len()
        invariant
            i <= ns@.len(),
            nv == crate::yaml::opt_strings(ns@),
            target == criteria_of(Some(nv), wv, dv),
            dv == opt_items(descriptions),
            wv == Some(present(all_w)) || (wv is None && all_w.len() == 0),
            ws@ == (if i <= all_w.len() { all_w.subrange(i as int, all_w.len() as int) } else { Seq::empty() }),
            out@.len() == i,
            forall|j: int| 0 <= j < i ==> #[trigger] out@[j]@ == target[j],
        decreases ns@.len() - i,
    {
        let name = string_or_empty(&ns[i]);
        let weight = if ws.len() > 0 {
            ws.remove(0)
        } else {
            None
        };
        let description = match &descriptions {
            Some(d) => if i < d.len() {
                string_or_empty(&d[i])
            } else {
                String::new()
            },
            None => String::new(),
        };
        let c = Criterion { name, weight, description };
        proof {
            if wv is Some && (i as int) < all_w.len() {
                assert(present(all_w)[i as int] == (all_w[i as int] is Some));
            }
        }
        out.push(c);
        i = i + 1;
    }
    assert(out@.map_values(|c: Criterion| c@) =~= target);
    out
}

/// The rubric of the evaluation block `content`.
pub fn evaluation_from(content: &str) -> (r: Result<EvaluationCriteria, ParseError>)
    ensures
        match evaluation_of(content@) {
            Ok(v) => r is Ok && r->Ok_0@ == v,
            Err(e) => r is Err && r->Err_0@ == e,
        },
{
    let yaml = match parse_yaml(content) {
        Ok(y) => y,
        Err(err) => return Err(yaml_error("evaluation", err)),
    };
    let names = yaml_seq_field(&yaml, "criteria", "name");
    let weights = yaml_seq_number(&yaml, "criteria", "weight");
    let descriptions = yaml_seq_field(&yaml, "criteria", "description");
    let criteria = criteria_from(names, weights, descriptions);
    let key_points = yaml_strings(&yaml, "key_points");
    let min_words = match yaml_u64(&yaml, "min_words") {
        Some(n) => if n <= u32::MAX as u64 {
            Some(n as u32)
        } else {
            None
        },
        None => None,
    };
    let max_words = match yaml_u64(&yaml, "max_words") {
        Some(n) => if n <= u32::MAX as u64 {
            Some(n as u32)
        } else {
            None
        },
        None => None,
    };
    let pass_threshold = yaml_number(&yaml, "pass_threshold");
    Ok(EvaluationCriteria { criteria, key_points, min_words, max_words, pass_threshold })
}

/// Whether the line `s[lo..hi]` gives an expected score, and the window of its value text.
fn score_line_window(s: &Vec<char>, lo: usize, hi: usize) -> (r: Option<(usize, usize)>)
    requires
        lo <= hi <= s@.len(),
    ensures
        match r {
            Some((a, b)) => is_score_line(s@.subrange(lo as int, hi as int)) && a <= b <= s@.len()
                && s@.subrange(a as int, b as int) == score_text(s@.subrange(lo as int, hi as int)),
            None => !is_score_line(s@.subrange(lo as int, hi as int)),
        },
{
    let (a, b) = trim_window(s, lo, hi);
    proof {
        reveal_strlit("expected_score:");
        assert("expected_score:"@ =~= score_key());
    }
    if window_starts_with(s, a, b, "expected_score:") {
        let ghost t = s@.subrange(a as int, b as int);
        assert(t.subrange(15, t.len() as int) =~= s@.subrange(a + 15, b as int));
        Some(trim_window(s, a + 15, b))
    } else {
        None
    }
}

/// The sample answer of the block `s[lo..hi]` with attributes `attrs`.
pub fn sample_answer_from(attrs: &Attributes, s: &Vec<char>, lo: usize, hi: usize) -> (r: SampleAnswer)
    requires
        lo <= hi <= s@.len(),
    ensures
        r@ == sample_answer_of(attrs@, s@.subrange(lo as int, hi as int)),
{
    let ghost c = s@.subrange(lo as int, hi as int);
    let mut p = lo;
    let mut score: Option<(usize, usize)> = None;
    let ghost mut texts: Option<Seq<char>> = None;
    while p < hi
        invariant
            lo <= p <= hi <= s@.len(),
            c == s@.subrange(lo as int, hi as int),
            match score {
                Some((a, b)) => a <= b <= s@.len() && texts == Some(s@.subrange(a as int, b as int)),
                None => texts is None,
            },
            scores(c).0 == (p - lo) + scores(s@.subrange(p as int, hi as int)).0,
            scores(c).1 == (if scores(s@.subrange(p as int, hi as int)).1 is Some {
                scores(s@.subrange(p as int, hi as int)).1
            } else {
                texts
            }),
        ensures
            lo <= p <= hi,
            match score {
                Some((a, b)) => a <= b <= s@.len() && texts == Some(s@.subrange(a as int, b as int)),
                None => texts is None,
            },
            scores(c).0 == p - lo,
            scores(c).1 == texts,
        decreases hi - p,
    {
        let (le, next) = next_line(s, p, hi);
        match score_line_window(s, p, le) {
            Some(w) => {
                score = Some(w);
                proof {
                    texts = Some(s@.subrange(w.0 as int, w.1 as int));
                }
                p = next;
            },
            None => {
                break;
            },
        }
        if p == hi {
            assert(s@.subrange(p as int, hi as int) =~= Seq::<char>::empty());
        }
    }
    let (a, b) = trim_window(s, p, hi);
    assert(c.subrange(p - lo, c.len() as int) =~= s@.subrange(p as int, hi as int));
    let content = string_from(s, a, b);
    let expected_score = match score {
        Some((x, y)) => {
            let text = string_from(s, x, y);
            parse_number(text.as_str())
        },
        None => None,
    };
    let reveal = crate::blocks::reveal_exec(attrs);
    SampleAnswer { content, expected_score, reveal }
}

/// The blocks `bs` applied to `uc` in order; the first error ends it.
pub open spec fn apply_usecase_blocks(uc: UseCaseV, bs: Seq<BlockV>) -> Result<UseCaseV, ParseErrorV>
    decreases bs.len(),
{
    if bs.len() == 0 {
        Ok(uc)
    } else {
        match apply_usecase_block(uc, bs[0].name, bs[0].attrs, bs[0].content) {
            Err(e) => Err(e),
            Ok(u2) => apply_usecase_blocks(u2, bs.drop_first()),
        }
    }
}

pub open spec fn usecase_marker() -> Seq<char> {
    seq![':', ':', ':', ' ', 'u', 's', 'e', 'c', 'a', 's', 'e']
}

/// The use case before any block is applied: the title and description of
/// the scan, and defaults elsewhere.
pub open spec fn initial_usecase(sc: ScanV) -> UseCaseV {
    UseCaseV {
        metadata: MetadataV {
            id: seq![],
            difficulty: Difficulty::Beginner,
            time_minutes: None,
            prerequisites: seq![],
        },
        domain: Domain::General,
        title: sc.title,
        description: if sc.in_desc {
            trim(sc.desc)
        } else {
            sc.description
        },
        scenario: ScenarioV { organization: None, content: seq![], constraints: seq![] },
        prompt: PromptV { content: seq![], aspects: seq![] },
        hints: seq![],
        evaluation: EvaluationV {
            criteria: seq![],
            key_points: seq![],
            min_words: None,
            max_words: None,
            has_pass_threshold: false,
        },
        sample_answer: None,
        context: None,
        objectives: None,
    }
}

/// What parsing `doc` as a use case, with excluded byte ranges `rs`, yields.
pub open spec fn parse_usecase_spec(doc: Seq<char>, rs: Seq<(usize, usize)>) -> Result<UseCaseV, ParseErrorV> {
    if !has_line(doc, rs, usecase_marker()) {
        Err(ParseErrorV::UnknownExerciseType)
    } else {
        let sc = scan_with(doc, rs, "usecase"@);
        match apply_usecase_blocks(initial_usecase(sc), sc.blocks) {
            Err(e) => Err(e),
            Ok(u) => match sc.open {
                Some(o) => Err(ParseErrorV::UnclosedBlock(o.name, o.line)),
                None => Ok(u),
            },
        }
    }
}

/// Applies the closed block `block` of the document `doc` to `uc`.
pub fn process_usecase_block(uc: &mut UseCaseExercise, doc: &Vec<char>, block: &Block) -> (r: Result<(), ParseError>)
    requires
        block.lo <= block.hi <= doc@.len(),
    ensures
        usecase_outcome(
            r,
            old(uc)@,
            final(uc)@,
            apply_usecase_block(
                old(uc)@,
                block_view(*block, doc@).name,
                block_view(*block, doc@).attrs,
                block_view(*block, doc@).content,
            ),
        ),
{
    let name = &block.directive.name;
    let attrs = &block.directive.attributes;
    let (lo, hi) = (block.lo, block.hi);
    if *name == "usecase".to_owned() {
        let content = string_from(doc, lo, hi);
        parse_usecase_meta(uc, content.as_str())
    } else if *name == "objectives".to_owned() {
        let content = string_from(doc, lo, hi);
        let o = objectives_from(content.as_str())?;
        uc.objectives = Some(o);
        Ok(())
    } else if *name == "scenario".to_owned() {
        let sc = scenario_from(doc, lo, hi)?;
        uc.scenario = sc;
        Ok(())
    } else if *name == "prompt".to_owned() {
        let p = prompt_from(doc, lo, hi)?;
        uc.prompt = p;
        Ok(())
    } else if *name == "hint".to_owned() {
        let h = hint_from_block(attrs, doc, lo, hi)?;
        add_hint(&mut uc.hints, h);
        Ok(())
    } else if *name == "evaluation".to_owned() {
        let content = string_from(doc, lo, hi);
        let e = evaluation_from(content.as_str())?;
        uc.evaluation = e;
        Ok(())
    } else if *name == "sample-answer".to_owned() {
        uc.sample_answer = Some(sample_answer_from(attrs, doc, lo, hi));
        Ok(())
    } else if *name == "context".to_owned() {
        let (a, b) = trim_window(doc, lo, hi);
        uc.context = Some(string_from(doc, a, b));
        Ok(())
    } else {
        Ok(())
    }
}

pub open spec fn usecase_result_view(r: Result<UseCaseExercise, ParseError>) -> Result<UseCaseV, ParseErrorV> {
    match r {
        Ok(u) => Ok(u@),
        Err(e) => Err(e@),
    }
}

/// Parses `markdown`, whose excluded byte ranges are `ranges`, as a use case.
pub fn parse_usecase_with_ranges(markdown: &str, ranges: &Vec<(usize, usize)>) -> (r: Result<UseCaseExercise, ParseError>)
    ensures
        usecase_result_view(r) == parse_usecase_spec(markdown@, ranges@),
{
    let doc = chars_of(markdown);
    proof {
        reveal_strlit("::: usecase");
        assert("::: usecase"@ =~= usecase_marker());
    }
    if !has_line_exec(&doc, ranges, "::: usecase") {
        return Err(ParseError::UnknownExerciseType);
    }
    let scanned = scan_document(&doc, ranges, "usecase");
    let Scanned { blocks, title, description, open } = scanned;
    let constraints: Vec<String> = Vec::new();
    let aspects: Vec<String> = Vec::new();
    let criteria: Vec<Criterion> = Vec::new();
    let key_points: Vec<String> = Vec::new();
    let mut uc = UseCaseExercise {
        metadata: UseCaseMetadata {
            id: String::new(),
            difficulty: Difficulty::Beginner,
            time_minutes: None,
            prerequisites: Vec::new(),
            domain: Domain::General,
        },
        title,
        description,
        scenario: Scenario { organization: None, content: String::new(), constraints },
        prompt: UseCasePrompt { content: String::new(), aspects },
        hints: Vec::new(),
        evaluation: EvaluationCriteria {
            criteria,
            key_points,
            min_words: None,
            max_words: None,
            pass_threshold: None,
        },
        sample_answer: None,
        context: None,
        objectives: None,
    };
    let ghost sc = scan_with(doc@, ranges@, "usecase"@);
    let ghost bvs = blocks_view(blocks@, doc@);
    assert(uc@.metadata.prerequisites =~= Seq::<Seq<char>>::empty());
    assert(uc@.hints =~= Seq::<HintV>::empty());
    assert(uc@.scenario.constraints =~= Seq::<Seq<char>>::empty());
    assert(uc@.prompt.aspects =~= Seq::<Seq<char>>::empty());
    assert(uc@.evaluation.criteria =~= Seq::<CriterionV>::empty());
    assert(uc@.evaluation.key_points =~= Seq::<Seq<char>>::empty());
    assert(uc@ == initial_usecase(sc));
    assert(bvs.subrange(0, bvs.len() as int) =~= bvs);
    let mut i: usize = 0;
    while i < blocks.len()
        invariant
            i <= blocks@.len(),
            doc@ == markdown@,
            has_line(doc@, ranges@, usecase_marker()),
            sc == scan_with(doc@, ranges@, "usecase"@),
            bvs == blocks_view(blocks@, doc@),
            bvs == sc.blocks,
            blocks_fit(blocks@, doc@.len() as int),
            apply_usecase_blocks(initial_usecase(sc), sc.blocks) == apply_usecase_blocks(
                uc@,
                bvs.subrange(i as int, bvs.len() as int),
            ),
        decreases blocks@.len() - i,
    {
        let ghost rest = bvs.subrange(i as int, bvs.len() as int);
        assert(rest.drop_first() =~= bvs.subrange(i + 1, bvs.len() as int));
        assert(rest[0] == block_view(blocks@[i as int], doc@));
        let ghost before = uc@;
        match process_usecase_block(&mut uc, &doc, &blocks[i]) {
            Ok(()) => {},
            Err(e) => {
                assert(apply_usecase_block(before, rest[0].name, rest[0].attrs, rest[0].content) is Err);
                assert(apply_usecase_blocks(before, rest) == Err::<UseCaseV, ParseErrorV>(e@));
                return Err(e);
            },
        }
        i = i + 1;
    }
    assert(bvs.subrange(i as int, bvs.len() as int) =~= Seq::<BlockV>::empty());
    match open {
        Some(d) => Err(ParseError::UnclosedBlock { block: d.name, line: d.line }),
        None => Ok(uc),
    }
}

} // verus!
