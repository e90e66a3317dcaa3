//! Content interpreters: each turns the text of one closed directive block
//! into a field of the exercise record.

use crate::attrs::{fence_attrs, fence_info_window, fence_lang, Attributes};
use crate::lines::{
    code_block, code_block_window, explanation, explanation_window, lines, list_items,
    list_window, opt_view, parse_time_string, parse_uint, parse_uint_window, strings_view,
    time_minutes,
};
use crate::text::{chars_of, eq_ignore_case, string_from, trim, trim_window, window_eq_ignore_case};
use vstd::seq_lib::{to_multiset_build, to_multiset_insert};
use crate::types::{
    Difficulty, Exercise, ExerciseMetadata, ExerciseV, Hint, HintV, MetadataV, Objectives, ObjectivesV, Solution,
    SolutionReveal, SolutionV, StarterCode, StarterV, TestBlock, TestMode, TestsV, hints_sorted,
    hints_view,
};
use crate::yaml::{
    opt_strings, parse_yaml, yaml_accepts, yaml_seq, yaml_seq_at, yaml_str, yaml_str_at, yaml_u64,
    yaml_u64_at, YamlDoc,
};
use vstd::prelude::*;

verus! {

/// Errors that can occur during parsing.
#[derive(Debug)]
pub enum ParseError {
    /// A required key is absent from a block.
    MissingField { block: String, field: String },
    /// An attribute holds a value outside its domain.
    InvalidAttribute { attribute: String, value: String },
    /// The document ends with a directive still open.
    UnclosedBlock { block: String, line: usize },
    /// A block that may appear once appeared again. Kept for callers: a
    /// repeated block is not an error here, the later block replaces what the
    /// earlier one set (hints accumulate).
    DuplicateBlock { block_type: String },
    /// A block's YAML payload failed to parse.
    YamlError { block: String, source: serde_yaml::Error },
    /// A hint's `level` is not a number from 0 to 255.
    InvalidHintLevel(String),
    /// The document has no `::: exercise` directive outside code.
    UnknownExerciseType,
}

pub enum ParseErrorV {
    MissingField(Seq<char>, Seq<char>),
    InvalidAttribute(Seq<char>, Seq<char>),
    UnclosedBlock(Seq<char>, nat),
    DuplicateBlock(Seq<char>),
    YamlError(Seq<char>),
    InvalidHintLevel(Seq<char>),
    UnknownExerciseType,
}

impl View for ParseError {
    type V = ParseErrorV;

    open spec fn view(&self) -> ParseErrorV {
        match self {
            ParseError::MissingField { block, field } => ParseErrorV::MissingField(block@, field@),
            ParseError::InvalidAttribute { attribute, value } => ParseErrorV::InvalidAttribute(
                attribute@,
                value@,
            ),
            ParseError::UnclosedBlock { block, line } => ParseErrorV::UnclosedBlock(
                block@,
                *line as nat,
            ),
            ParseError::DuplicateBlock { block_type } => ParseErrorV::DuplicateBlock(block_type@),
            ParseError::YamlError { block, .. } => ParseErrorV::YamlError(block@),
            ParseError::InvalidHintLevel(s) => ParseErrorV::InvalidHintLevel(s@),
            ParseError::UnknownExerciseType => ParseErrorV::UnknownExerciseType,
        }
    }
}

/// `r` is the outcome `spec` describes: on success `after` is the record it
/// gives; on an error the record stays `before`.
pub open spec fn outcome_is(
    r: Result<(), ParseError>,
    before: ExerciseV,
    after: ExerciseV,
    spec: Result<ExerciseV, ParseErrorV>,
) -> bool {
    match spec {
        Ok(e) => r is Ok && after == e,
        Err(err) => r is Err && r->Err_0@ == err && after == before,
    }
}

/// The difficulty a string names, in any case.
pub open spec fn difficulty_of(s: Seq<char>) -> Option<Difficulty> {
    if eq_ignore_case(s, "beginner"@) {
        Some(Difficulty::Beginner)
    } else if eq_ignore_case(s, "intermediate"@) {
        Some(Difficulty::Intermediate)
    } else if eq_ignore_case(s, "advanced"@) {
        Some(Difficulty::Advanced)
    } else {
        None
    }
}

/// The strings among `v`, in order.
pub open spec fn str_items(v: Seq<Option<Seq<char>>>) -> Seq<Seq<char>>
    decreases v.len(),
{
    if v.len() == 0 {
        seq![]
    } else {
        let r = str_items(v.drop_last());
        match v.last() {
            Some(x) => r.push(x),
            None => r,
        }
    }
}

pub open spec fn items_or_empty(o: Option<Seq<Option<Seq<char>>>>) -> Seq<Seq<char>> {
    match o {
        Some(v) => str_items(v),
        None => seq![],
    }
}

/// The metadata that the YAML block `c`, named `block`, gives over `m`:
/// `id` is required; `difficulty`, `time` and `prerequisites` replace the
/// values of `m` when present.
pub open spec fn metadata_of(block: Seq<char>, m: MetadataV, c: Seq<char>) -> Result<MetadataV, ParseErrorV> {
    if !yaml_accepts(c) {
        Err(ParseErrorV::YamlError(block))
    } else {
        match yaml_str_at(c, "id"@) {
            None => Err(ParseErrorV::MissingField(block, "id"@)),
            Some(id) => {
                let diff = match yaml_str_at(c, "difficulty"@) {
                    None => Ok(m.difficulty),
                    Some(d) => match difficulty_of(d) {
                        Some(x) => Ok(x),
                        None => Err(ParseErrorV::InvalidAttribute("difficulty"@, d)),
                    },
                };
                match diff {
                    Err(e) => Err(e),
                    Ok(difficulty) => {
                        let time = match yaml_str_at(c, "time"@) {
                            Some(t) => time_minutes(t),
                            None => match yaml_u64_at(c, "time"@) {
                                Some(n) => if n <= u32::MAX {
                                    Some(n as u32)
                                } else {
                                    None
                                },
                                None => m.time_minutes,
                            },
                        };
                        let prerequisites = match yaml_seq_at(c, "prerequisites"@) {
                            Some(v) => str_items(v),
                            None => m.prerequisites,
                        };
                        Ok(MetadataV { id, difficulty, time_minutes: time, prerequisites })
                    },
                }
            },
        }
    }
}

/// The metadata block `c` applied to `ex`.
pub open spec fn apply_exercise_block(ex: ExerciseV, c: Seq<char>) -> Result<ExerciseV, ParseErrorV> {
    match metadata_of("exercise"@, ex.metadata, c) {
        Err(e) => Err(e),
        Ok(m) => Ok(ExerciseV { metadata: m, ..ex }),
    }
}

/// The objectives that the block `c` states.
pub open spec fn objectives_of(c: Seq<char>) -> Result<ObjectivesV, ParseErrorV> {
    if !yaml_accepts(c) {
        Err(ParseErrorV::YamlError("objectives"@))
    } else {
        Ok(
            ObjectivesV {
                thinking: items_or_empty(yaml_seq_at(c, "thinking"@)),
                doing: items_or_empty(yaml_seq_at(c, "doing"@)),
            },
        )
    }
}

/// The objectives block `c` applied to `ex`.
pub open spec fn apply_objectives_block(ex: ExerciseV, c: Seq<char>) -> Result<ExerciseV, ParseErrorV> {
    match objectives_of(c) {
        Err(e) => Err(e),
        Ok(o) => Ok(ExerciseV { objectives: Some(o), ..ex }),
    }
}

/// The list items of a discussion or reflection block; `None` when there are none.
pub open spec fn list_field(c: Seq<char>) -> Option<Seq<Seq<char>>> {
    let items = list_items(lines(c));
    if items.len() > 0 {
        Some(items)
    } else {
        None
    }
}

/// The language of a fence info string, when it names one.
pub open spec fn fence_language(info: Option<Seq<char>>) -> Option<Seq<char>> {
    match info {
        Some(i) => if fence_lang(i).len() > 0 {
            Some(fence_lang(i))
        } else {
            None
        },
        None => None,
    }
}

/// The language of a code block: the directive's `language` attribute, else
/// the fence's language, else `dl`.
pub open spec fn resolve_language(
    attrs: Map<Seq<char>, Seq<char>>,
    info: Option<Seq<char>>,
    dl: Seq<char>,
) -> Seq<char> {
    if attrs.contains_key("language"@) {
        attrs["language"@]
    } else {
        match fence_language(info) {
            Some(l) => l,
            None => dl,
        }
    }
}

/// The filename of starter code: the directive's `file` or `filename`
/// attribute, else the fence's `filename` or `file` attribute.
pub open spec fn resolve_filename(attrs: Map<Seq<char>, Seq<char>>, info: Option<Seq<char>>) -> Option<Seq<char>> {
    if attrs.contains_key("file"@) {
        Some(attrs["file"@])
    } else if attrs.contains_key("filename"@) {
        Some(attrs["filename"@])
    } else {
        match info {
            Some(i) => if fence_attrs(i).contains_key("filename"@) {
                Some(fence_attrs(i)["filename"@])
            } else if fence_attrs(i).contains_key("file"@) {
                Some(fence_attrs(i)["file"@])
            } else {
                None
            },
            None => None,
        }
    }
}

/// Whether a code body holds nothing but whitespace.
pub open spec fn blank(code: Seq<char>) -> bool {
    trim(code).len() == 0
}

/// The starter block `c` applied to `ex`; a blank code body leaves `ex` as it is.
pub open spec fn apply_starter_block(
    ex: ExerciseV,
    attrs: Map<Seq<char>, Seq<char>>,
    c: Seq<char>,
    dl: Seq<char>,
) -> ExerciseV {
    let (info, code) = code_block(c);
    if blank(code) {
        ex
    } else {
        ExerciseV {
            starter: Some(
                StarterV {
                    filename: resolve_filename(attrs, info),
                    language: resolve_language(attrs, info, dl),
                    code,
                },
            ),
            ..ex
        }
    }
}

/// The reveal policy an attribute value names, in any case.
pub open spec fn reveal_of(attrs: Map<Seq<char>, Seq<char>>) -> SolutionReveal {
    if attrs.contains_key("reveal"@) && eq_ignore_case(attrs["reveal"@], "always"@) {
        SolutionReveal::Always
    } else if attrs.contains_key("reveal"@) && eq_ignore_case(attrs["reveal"@], "never"@) {
        SolutionReveal::Never
    } else {
        SolutionReveal::OnDemand
    }
}

/// The solution block `c` applied to `ex`; a blank code body leaves `ex` as it is.
pub open spec fn apply_solution_block(
    ex: ExerciseV,
    attrs: Map<Seq<char>, Seq<char>>,
    c: Seq<char>,
    dl: Seq<char>,
) -> ExerciseV {
    let (info, code) = code_block(c);
    if blank(code) {
        ex
    } else {
        ExerciseV {
            solution: Some(
                SolutionV {
                    code,
                    language: resolve_language(attrs, info, dl),
                    explanation: explanation(c),
                    reveal: reveal_of(attrs),
                },
            ),
            ..ex
        }
    }
}

/// The test mode an attribute value names; anything but `local` is the playground.
pub open spec fn mode_of(attrs: Map<Seq<char>, Seq<char>>) -> TestMode {
    if attrs.contains_key("mode"@) && eq_ignore_case(attrs["mode"@], "local"@) {
        TestMode::Local
    } else {
        TestMode::Playground
    }
}

/// The tests block `c` applied to `ex`; a blank code body leaves `ex` as it is.
pub open spec fn apply_tests_block(
    ex: ExerciseV,
    attrs: Map<Seq<char>, Seq<char>>,
    c: Seq<char>,
    dl: Seq<char>,
) -> ExerciseV {
    let (info, code) = code_block(c);
    if blank(code) {
        ex
    } else {
        ExerciseV {
            tests: Some(
                TestsV { language: resolve_language(attrs, info, dl), code, mode: mode_of(attrs) },
            ),
            ..ex
        }
    }
}

/// Where a hint of level `lvl` goes: after every hint whose level is at most `lvl`.
pub open spec fn insert_pos(hs: Seq<HintV>, lvl: u8) -> int
    decreases hs.len(),
{
    if hs.len() == 0 {
        0
    } else if hs.last().level <= lvl {
        hs.len() as int
    } else {
        insert_pos(hs.drop_last(), lvl)
    }
}

pub open spec fn insert_hint(hs: Seq<HintV>, h: HintV) -> Seq<HintV> {
    hs.insert(insert_pos(hs, h.level), h)
}

/// `hs` sorted by level, hints of equal level kept in their order in `hs`.
pub open spec fn sort_hints(hs: Seq<HintV>) -> Seq<HintV>
    decreases hs.len(),
{
    if hs.len() == 0 {
        seq![]
    } else {
        insert_hint(sort_hints(hs.drop_last()), hs.last())
    }
}

/// The hint of a hint block: `level` is required and must read as a number
/// from 0 to 255; `title` is optional; the content is the trimmed text.
pub open spec fn hint_of(attrs: Map<Seq<char>, Seq<char>>, c: Seq<char>) -> Result<HintV, ParseErrorV> {
    if !attrs.contains_key("level"@) {
        Err(ParseErrorV::MissingField("hint"@, "level"@))
    } else {
        match parse_uint(attrs["level"@], 255) {
            None => Err(ParseErrorV::InvalidHintLevel(attrs["level"@])),
            Some(n) => Ok(
                HintV {
                    level: n as u8,
                    title: if attrs.contains_key("title"@) {
                        Some(attrs["title"@])
                    } else {
                        None
                    },
                    content: trim(c),
                },
            ),
        }
    }
}

/// The hint block `c` applied to `ex`: its hint is added and the hints are
/// sorted again by level.
pub open spec fn apply_hint_block(
    ex: ExerciseV,
    attrs: Map<Seq<char>, Seq<char>>,
    c: Seq<char>,
) -> Result<ExerciseV, ParseErrorV> {
    match hint_of(attrs, c) {
        Err(e) => Err(e),
        Ok(h) => Ok(ExerciseV { hints: sort_hints(ex.hints.push(h)), ..ex }),
    }
}

pub proof fn lemma_insert_pos(hs: Seq<HintV>, lvl: u8)
    requires
        hints_sorted(hs),
    ensures
        0 <= insert_pos(hs, lvl) <= hs.len(),
        forall|i: int| 0 <= i < insert_pos(hs, lvl) ==> hs[i].level <= lvl,
        forall|i: int| insert_pos(hs, lvl) <= i < hs.len() ==> hs[i].level > lvl,
    decreases hs.len(),
{
    if hs.len() > 0 {
        let d = hs.drop_last();
        if hs.last().level > lvl {
            assert(hints_sorted(d)) by {
                assert forall|i: int, j: int| 0 <= i < j < d.len() implies d[i].level <= d[j].level by {
                    assert(d[i] == hs[i] && d[j] == hs[j]);
                }
            }
            lemma_insert_pos(d, lvl);
            assert forall|i: int| insert_pos(hs, lvl) <= i < hs.len() implies hs[i].level > lvl by {
                if i < hs.len() - 1 {
                    assert(d[i] == hs[i]);
                }
            }
            assert forall|i: int| 0 <= i < insert_pos(hs, lvl) implies hs[i].level <= lvl by {
                assert(d[i] == hs[i]);
            }
        } else {
            assert forall|i: int| 0 <= i < insert_pos(hs, lvl) implies hs[i].level <= lvl by {
                if i < hs.len() - 1 {
                    assert(hs[i].level <= hs[hs.len() - 1].level);
                }
            }
        }
    }
}

/// Inserting a hint keeps the hints ordered by level.
pub proof fn lemma_insert_hint_sorted(hs: Seq<HintV>, h: HintV)
    requires
        hints_sorted(hs),
    ensures
        hints_sorted(insert_hint(hs, h)),
{
    lemma_insert_pos(hs, h.level);
    let k = insert_pos(hs, h.level);
    let r = insert_hint(hs, h);
    assert forall|i: int, j: int| 0 <= i < j < r.len() implies r[i].level <= r[j].level by {
        if j < k {
        } else if j == k {
        } else if i < k {
        } else if i == k {
        } else {
            assert(r[i] == hs[i - 1] && r[j] == hs[j - 1]);
        }
    }
}

proof fn lemma_insert_pos_bound(hs: Seq<HintV>, lvl: u8)
    ensures
        0 <= insert_pos(hs, lvl) <= hs.len(),
    decreases hs.len(),
{
    if hs.len() > 0 && hs.last().level > lvl {
        lemma_insert_pos_bound(hs.drop_last(), lvl);
    }
}

/// Sorting gives hints ordered by level, whatever order they were in.
pub proof fn lemma_sort_hints_sorted(hs: Seq<HintV>)
    ensures
        hints_sorted(sort_hints(hs)),
    decreases hs.len(),
{
    if hs.len() > 0 {
        lemma_sort_hints_sorted(hs.drop_last());
        lemma_insert_hint_sorted(sort_hints(hs.drop_last()), hs.last());
    }
}

/// Sorting keeps each hint, as many times as it occurs.
pub proof fn lemma_sort_hints_permutes(hs: Seq<HintV>)
    ensures
        sort_hints(hs).to_multiset() == hs.to_multiset(),
    decreases hs.len(),
{
    if hs.len() > 0 {
        let d = hs.drop_last();
        lemma_sort_hints_permutes(d);
        lemma_insert_pos_bound(sort_hints(d), hs.last().level);
        let k = insert_pos(sort_hints(d), hs.last().level);
        to_multiset_insert(sort_hints(d), k, hs.last());
        to_multiset_build(d, hs.last());
        assert(d.push(hs.last()) =~= hs);
        assert(sort_hints(hs) == sort_hints(d).insert(k, hs.last()));
        assert(sort_hints(hs).to_multiset() == sort_hints(d).to_multiset().insert(hs.last()));
        assert(hs.to_multiset() =~= d.to_multiset().insert(hs.last()));
    } else {
        assert(hs =~= Seq::<HintV>::empty());
    }
}

/// The strings among `v`, in order.
fn keep_strings(v: Vec<Option<String>>) -> (r: Vec<String>)
    ensures
        strings_view(r@) == str_items(opt_strings(v@)),
{
    let mut out: Vec<String> = Vec::new();
    let mut i: usize = 0;
    while i < v.len()
        invariant
            i <= v@.len(),
            strings_view(out@) == str_items(opt_strings(v@).subrange(0, i as int)),
        decreases v@.len() - i,
    {
        let ghost pre = opt_strings(v@).subrange(0, i + 1);
        assert(pre.drop_last() =~= opt_strings(v@).subrange(0, i as int));
        match &v[i] {
            Some(x) => {
                let ghost before = out@;
                out.push(x.clone());
                assert(strings_view(out@) =~= strings_view(before).push(x@));
            },
            None => {},
        }
        i = i + 1;
    }
    assert(opt_strings(v@).subrange(0, i as int) =~= opt_strings(v@));
    out
}

pub(crate) fn yaml_error(block: &str, e: serde_yaml::Error) -> (r: ParseError)
    ensures
        r@ == ParseErrorV::YamlError(block@),
{
    ParseError::YamlError { block: block.to_owned(), source: e }
}

/// The metadata that the YAML block `content`, named `block`, gives over `current`.
pub fn metadata_from(block: &str, content: &str, current: &ExerciseMetadata) -> (r: Result<ExerciseMetadata, ParseError>)
    ensures
        match metadata_of(block@, current@, content@) {
            Ok(m) => r is Ok && r->Ok_0@ == m,
            Err(e) => r is Err && r->Err_0@ == e,
        },
{
    let yaml = match parse_yaml(content) {
        Ok(y) => y,
        Err(e) => return Err(yaml_error(block, e)),
    };
    let id = match yaml_str(&yaml, "id") {
        Some(id) => id,
        None => return Err(ParseError::MissingField { block: block.to_owned(), field: "id".to_owned() }),
    };
    let mut difficulty = current.difficulty;
    match yaml_str(&yaml, "difficulty") {
        Some(d) => {
            let dc = chars_of(d.as_str());
            assert(dc@.subrange(0, dc@.len() as int) =~= dc@);
            if window_eq_ignore_case(&dc, 0, dc.len(), "beginner") {
                difficulty = Difficulty::Beginner;
            } else if window_eq_ignore_case(&dc, 0, dc.len(), "intermediate") {
                difficulty = Difficulty::Intermediate;
            } else if window_eq_ignore_case(&dc, 0, dc.len(), "advanced") {
                difficulty = Difficulty::Advanced;
            } else {
                return Err(
                    ParseError::InvalidAttribute { attribute: "difficulty".to_owned(), value: d },
                );
            }
        },
        None => {},
    }
    let mut time = current.time_minutes;
    match yaml_str(&yaml, "time") {
        Some(t) => {
            time = parse_time_string(t.as_str());
        },
        None => match yaml_u64(&yaml, "time") {
            Some(n) => {
                time = if n <= u32::MAX as u64 {
                    Some(n as u32)
                } else {
                    None
                };
            },
            None => {},
        },
    }
    let prerequisites = match yaml_seq(&yaml, "prerequisites") {
        Some(v) => keep_strings(v),
        None => current.prerequisites.clone(),
    };
    Ok(ExerciseMetadata { id, difficulty, time_minutes: time, prerequisites })
}

/// Reads the metadata block `content` into `exercise`.
pub fn parse_exercise_block(exercise: &mut Exercise, content: &str) -> (r: Result<(), ParseError>)
    ensures
        outcome_is(r, old(exercise)@, final(exercise)@, apply_exercise_block(old(exercise)@, content@)),
{
    let m = metadata_from("exercise", content, &exercise.metadata)?;
    exercise.metadata = m;
    Ok(())
}

/// The strings of the sequence under `key`, or none.
pub(crate) fn yaml_strings(yaml: &YamlDoc, key: &str) -> (r: Vec<String>)
    ensures
        strings_view(r@) == items_or_empty(yaml_seq_at(yaml@, key@)),
{
    match yaml_seq(yaml, key) {
        Some(v) => keep_strings(v),
        None => Vec::new(),
    }
}

/// The objectives that the block `content` states.
pub fn objectives_from(content: &str) -> (r: Result<Objectives, ParseError>)
    ensures
        match objectives_of(content@) {
            Ok(o) => r is Ok && r->Ok_0@ == o,
            Err(e) => r is Err && r->Err_0@ == e,
        },
{
    let yaml = match parse_yaml(content) {
        Ok(y) => y,
        Err(e) => return Err(yaml_error("objectives", e)),
    };
    let thinking = yaml_strings(&yaml, "thinking");
    let doing = yaml_strings(&yaml, "doing");
    Ok(Objectives { thinking, doing })
}

/// Reads the objectives block `content` into `exercise`.
pub fn parse_objectives_block(exercise: &mut Exercise, content: &str) -> (r: Result<(), ParseError>)
    ensures
        outcome_is(r, old(exercise)@, final(exercise)@, apply_objectives_block(old(exercise)@, content@)),
{
    let o = objectives_from(content)?;
    exercise.objectives = Some(o);
    Ok(())
}

/// The list items of the block `s[lo..hi]`, or `None` when there are none.
pub fn parse_list_block(s: &Vec<char>, lo: usize, hi: usize) -> (r: Option<Vec<String>>)
    requires
        lo <= hi <= s@.len(),
    ensures
        match r {
            Some(v) => list_field(s@.subrange(lo as int, hi as int)) == Some(strings_view(v@)),
            None => list_field(s@.subrange(lo as int, hi as int)) is None,
        },
{
    let items = list_window(s, lo, hi);
    if items.len() > 0 {
        Some(items)
    } else {
        None
    }
}

/// The fence's language, when its info string names one.
fn fence_language_of(info: &Option<String>) -> (r: Option<String>)
    ensures
        opt_view(r) == fence_language(opt_view(*info)),
{
    match info {
        Some(i) => {
            let ic = chars_of(i.as_str());
            assert(ic@.subrange(0, ic@.len() as int) =~= ic@);
            let (lang, _attrs) = fence_info_window(&ic, 0, ic.len());
            let lc = chars_of(lang.as_str());
            if lc.len() > 0 {
                Some(lang)
            } else {
                None
            }
        },
        None => None,
    }
}

fn resolve_language_exec(attrs: &Attributes, info: &Option<String>, dl: &str) -> (r: String)
    ensures
        r@ == resolve_language(attrs@, opt_view(*info), dl@),
{
    match attrs.get("language") {
        Some(l) => l.clone(),
        None => match fence_language_of(info) {
            Some(l) => l,
            None => dl.to_owned(),
        },
    }
}

fn resolve_filename_exec(attrs: &Attributes, info: &Option<String>) -> (r: Option<String>)
    ensures
        opt_view(r) == resolve_filename(attrs@, opt_view(*info)),
{
    if let Some(f) = attrs.get("file") {
        return Some(f.clone());
    }
    if let Some(f) = attrs.get("filename") {
        return Some(f.clone());
    }
    match info {
        Some(i) => {
            let ic = chars_of(i.as_str());
            assert(ic@.subrange(0, ic@.len() as int) =~= ic@);
            let (_lang, fa) = fence_info_window(&ic, 0, ic.len());
            if let Some(f) = fa.get("filename") {
                Some(f.clone())
            } else if let Some(f) = fa.get("file") {
                Some(f.clone())
            } else {
                None
            }
        },
        None => None,
    }
}

fn is_blank(code: &String) -> (r: bool)
    ensures
        r == blank(code@),
{
    let cc = chars_of(code.as_str());
    let (a, b) = trim_window(&cc, 0, cc.len());
    assert(cc@.subrange(0, cc@.len() as int) =~= cc@);
    a == b
}

/// Reads the starter block `s[lo..hi]` into `exercise`.
pub fn parse_starter_block(
    exercise: &mut Exercise,
    attrs: &Attributes,
    s: &Vec<char>,
    lo: usize,
    hi: usize,
    dl: &str,
)
    requires
        lo <= hi <= s@.len(),
    ensures
        final(exercise)@ == apply_starter_block(
            old(exercise)@,
            attrs@,
            s@.subrange(lo as int, hi as int),
            dl@,
        ),
{
    let (info, code) = code_block_window(s, lo, hi);
    if is_blank(&code) {
        return ;
    }
    let filename = resolve_filename_exec(attrs, &info);
    let language = resolve_language_exec(attrs, &info, dl);
    exercise.starter = Some(StarterCode { filename, language, code });
}

/// The reveal policy of a solution block's attributes.
pub fn reveal_exec(attrs: &Attributes) -> (r: SolutionReveal)
    ensures
        r == reveal_of(attrs@),
{
    match attrs.get("reveal") {
        Some(v) => {
            let vc = chars_of(v.as_str());
            assert(vc@.subrange(0, vc@.len() as int) =~= vc@);
            if window_eq_ignore_case(&vc, 0, vc.len(), "always") {
                SolutionReveal::Always
            } else if window_eq_ignore_case(&vc, 0, vc.len(), "never") {
                SolutionReveal::Never
            } else {
                SolutionReveal::OnDemand
            }
        },
        None => SolutionReveal::OnDemand,
    }
}

/// Reads the solution block `s[lo..hi]` into `exercise`.
pub fn parse_solution_block(
    exercise: &mut Exercise,
    attrs: &Attributes,
    s: &Vec<char>,
    lo: usize,
    hi: usize,
    dl: &str,
)
    requires
        lo <= hi <= s@.len(),
    ensures
        final(exercise)@ == apply_solution_block(
            old(exercise)@,
            attrs@,
            s@.subrange(lo as int, hi as int),
            dl@,
        ),
{
    let (info, code) = code_block_window(s, lo, hi);
    if is_blank(&code) {
        return ;
    }
    let explanation = explanation_window(s, lo, hi);
    let language = resolve_language_exec(attrs, &info, dl);
    let reveal = reveal_exec(attrs);
    exercise.solution = Some(Solution { code, language, explanation, reveal });
}

/// The test mode of a tests block's attributes.
fn mode_exec(attrs: &Attributes) -> (r: TestMode)
    ensures
        r == mode_of(attrs@),
{
    match attrs.get("mode") {
        Some(v) => {
            let vc = chars_of(v.as_str());
            assert(vc@.subrange(0, vc@.len() as int) =~= vc@);
            if window_eq_ignore_case(&vc, 0, vc.len(), "local") {
                TestMode::Local
            } else {
                TestMode::Playground
            }
        },
        None => TestMode::Playground,
    }
}

/// Reads the tests block `s[lo..hi]` into `exercise`.
pub fn parse_tests_block(
    exercise: &mut Exercise,
    attrs: &Attributes,
    s: &Vec<char>,
    lo: usize,
    hi: usize,
    dl: &str,
)
    requires
        lo <= hi <= s@.len(),
    ensures
        final(exercise)@ == apply_tests_block(
            old(exercise)@,
            attrs@,
            s@.subrange(lo as int, hi as int),
            dl@,
        ),
{
    let (info, code) = code_block_window(s, lo, hi);
    if is_blank(&code) {
        return ;
    }
    let language = resolve_language_exec(attrs, &info, dl);
    let mode = mode_exec(attrs);
    exercise.tests = Some(TestBlock { language, code, mode });
}

/// Inserts `h` after every hint whose level is at most its own.
fn insert_hint_exec(hints: &mut Vec<Hint>, h: Hint)
    ensures
        hints_view(final(hints)@) == insert_hint(hints_view(old(hints)@), h@),
{
    let ghost hv = hints_view(hints@);
    let mut k = hints.len();
    assert(hv.subrange(0, k as int) =~= hv);
    while k > 0 && hints[k - 1].level > h.level
        invariant
            k <= hints@.len(),
            hv == hints_view(hints@),
            insert_pos(hv, h.level) == insert_pos(hv.subrange(0, k as int), h.level),
        decreases k,
    {
        assert(hv.subrange(0, k as int).drop_last() =~= hv.subrange(0, k - 1));
        k = k - 1;
    }
    proof {
        if k > 0 {
            assert(hv.subrange(0, k as int).last() == hv[k - 1]);
        } else {
            assert(hv.subrange(0, 0) =~= Seq::<HintV>::empty());
        }
    }
    let ghost hh = h@;
    hints.insert(k, h);
    assert(hints_view(hints@) =~= hv.insert(k as int, hh));
}

/// Adds `h` to `hints` and sorts them again by level, keeping the order of
/// hints of equal level.
pub fn add_hint(hints: &mut Vec<Hint>, h: Hint)
    ensures
        hints_view(final(hints)@) == sort_hints(hints_view(old(hints)@).push(h@)),
{
    let ghost orig = hints_view(hints@);
    let mut rest: Vec<Hint> = Vec::new();
    std::mem::swap(hints, &mut rest);
    let mut sorted: Vec<Hint> = Vec::new();
    let ghost mut i: int = 0;
    assert(orig.subrange(0, 0) =~= Seq::<HintV>::empty());
    assert(orig.subrange(0, orig.len() as int) =~= orig);
    while rest.len() > 0
        invariant
            0 <= i <= orig.len(),
            hints_view(rest@) == orig.subrange(i, orig.len() as int),
            hints_view(sorted@) == sort_hints(orig.subrange(0, i)),
        decreases rest@.len(),
    {
        let ghost rv = hints_view(rest@);
        assert(rv.len() == rest@.len());
        assert(rv[0] == orig[i]);
        let ghost old_rest = rest@;
        let x = rest.remove(0);
        proof {
            assert(x@ == rv[0]);
            assert forall|j: int| 0 <= j < rest@.len() implies #[trigger] hints_view(rest@)[j]
                == orig[i + 1 + j] by {
                assert(rest@[j] == old_rest[j + 1]);
                assert(rv[j + 1] == orig[i + 1 + j]);
            }
            assert(orig.subrange(0, i + 1).drop_last() =~= orig.subrange(0, i));
            assert(hints_view(rest@) =~= orig.subrange(i + 1, orig.len() as int));
            i = i + 1;
        }
        insert_hint_exec(&mut sorted, x);
    }
    assert(orig.subrange(0, i) =~= orig);
    let ghost hh = h@;
    insert_hint_exec(&mut sorted, h);
    assert(orig.push(hh).drop_last() =~= orig);
    *hints = sorted;
}

/// The hint of the hint block with attributes `attrs` and text `content[lo..hi]`.
pub fn hint_from_block(attrs: &Attributes, content: &Vec<char>, lo: usize, hi: usize) -> (r: Result<Hint, ParseError>)
    requires
        lo <= hi <= content@.len(),
    ensures
        match hint_of(attrs@, content@.subrange(lo as int, hi as int)) {
            Ok(h) => r is Ok && r->Ok_0@ == h,
            Err(e) => r is Err && r->Err_0@ == e,
        },
{
    let level_text = match attrs.get("level") {
        Some(l) => l,
        None => {
            return Err(
                ParseError::MissingField { block: "hint".to_owned(), field: "level".to_owned() },
            )
        },
    };
    let lc = chars_of(level_text.as_str());
    assert(lc@.subrange(0, lc@.len() as int) =~= lc@);
    let level = match parse_uint_window(&lc, 0, lc.len(), 255) {
        Some(n) => n as u8,
        None => return Err(ParseError::InvalidHintLevel(level_text.clone())),
    };
    let title = match attrs.get("title") {
        Some(t) => Some(t.clone()),
        None => None,
    };
    let (a, b) = trim_window(content, lo, hi);
    let text = string_from(content, a, b);
    Ok(Hint { level, title, content: text })
}

/// Reads the hint block with attributes `attrs` and text `content[lo..hi]` into `exercise`.
pub fn parse_hint_block(exercise: &mut Exercise, attrs: &Attributes, content: &Vec<char>, lo: usize, hi: usize) -> (r: Result<(), ParseError>)
    requires
        lo <= hi <= content@.len(),
    ensures
        outcome_is(
            r,
            old(exercise)@,
            final(exercise)@,
            apply_hint_block(old(exercise)@, attrs@, content@.subrange(lo as int, hi as int)),
        ),
{
    let h = hint_from_block(attrs, content, lo, hi)?;
    add_hint(&mut exercise.hints, h);
    Ok(())
}

/// Relies on `Display` for `serde_yaml::Error`: the parser's diagnostic.
#[verifier::external_body]
fn yaml_error_text(e: &serde_yaml::Error) -> String {
    e.to_string()
}

/// The message of an error; for a YAML error, the part before the parser's diagnostic.
pub open spec fn message_text(e: ParseErrorV) -> Seq<char> {
    match e {
        ParseErrorV::MissingField(block, field) => "Missing required field '"@ + field + "' in "@
            + block + " block"@,
        ParseErrorV::InvalidAttribute(attribute, value) => "Invalid attribute value '"@ + value
            + "' for '"@ + attribute + "'"@,
        ParseErrorV::UnclosedBlock(block, line) => "Unclosed directive block '"@ + block
            + "' starting at line "@ + crate::render::decimal(line),
        ParseErrorV::DuplicateBlock(block_type) => "Duplicate block type '"@ + block_type
            + "' (only one allowed)"@,
        ParseErrorV::YamlError(block) => "YAML parse error in "@ + block + " block: "@,
        ParseErrorV::InvalidHintLevel(text) => "Invalid hint level: "@ + text,
        ParseErrorV::UnknownExerciseType => "No exercise directive found"@,
    }
}

impl ParseError {
    /// A human-readable message.
    pub fn message(&self) -> (r: String)
        ensures
            crate::text::starts_with(r@, message_text(self@)),
            !(self@ is YamlError) ==> r@ == message_text(self@),
    {
        let mut out: Vec<char> = Vec::new();
        match self {
            ParseError::MissingField { block, field } => {
                crate::render::push_str(&mut out, "Missing required field '");
                crate::render::push_str(&mut out, field.as_str());
                crate::render::push_str(&mut out, "' in ");
                crate::render::push_str(&mut out, block.as_str());
                crate::render::push_str(&mut out, " block");
            },
            ParseError::InvalidAttribute { attribute, value } => {
                crate::render::push_str(&mut out, "Invalid attribute value '");
                crate::render::push_str(&mut out, value.as_str());
                crate::render::push_str(&mut out, "' for '");
                crate::render::push_str(&mut out, attribute.as_str());
                crate::render::push_str(&mut out, "'");
            },
            ParseError::UnclosedBlock { block, line } => {
                crate::render::push_str(&mut out, "Unclosed directive block '");
                crate::render::push_str(&mut out, block.as_str());
                crate::render::push_str(&mut out, "' starting at line ");
                crate::render::push_decimal(&mut out, *line as u64);
            },
            ParseError::DuplicateBlock { block_type } => {
                crate::render::push_str(&mut out, "Duplicate block type '");
                crate::render::push_str(&mut out, block_type.as_str());
                crate::render::push_str(&mut out, "' (only one allowed)");
            },
            ParseError::YamlError { block, source } => {
                crate::render::push_str(&mut out, "YAML parse error in ");
                crate::render::push_str(&mut out, block.as_str());
                crate::render::push_str(&mut out, " block: ");
                let ghost pre = out@;
                let text = yaml_error_text(source);
                crate::render::push_str(&mut out, text.as_str());
                assert(out@.subrange(0, pre.len() as int) =~= pre);
            },
            ParseError::InvalidHintLevel(text) => {
                crate::render::push_str(&mut out, "Invalid hint level: ");
                crate::render::push_str(&mut out, text.as_str());
            },
            ParseError::UnknownExerciseType => {
                crate::render::push_str(&mut out, "No exercise directive found");
            },
        }
        proof {
            if !(self@ is YamlError) {
                assert(out@ =~= message_text(self@));
            }
            assert(out@.subrange(0, message_text(self@).len() as int) =~= message_text(self@));
        }
        assert(out@.subrange(0, out@.len() as int) =~= out@);
        string_from(&out, 0, out.len())
    }
}

} // verus!
