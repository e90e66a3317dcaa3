//! Chapter processing for a book build: chapters that hold an exercise
//! directive are replaced by the rendered exercise.

use crate::blocks::message_text;
use crate::exclusion::{excluded_ranges, markdown_events};
use crate::parser::{exercise_marker, parse_exercise, parse_spec};
use crate::render::{
    default_config, exercise_html, finish, push_str, render_exercise_with_config, ConfigV,
    RenderConfig, RenderError,
};
use crate::text::{chars_of, starts_with, string_from, trim, trim_window, window_starts_with};
use crate::lines::opt_view;
use vstd::prelude::*;

verus! {

/// Whether `p` occurs in `s`.
pub open spec fn contains(s: Seq<char>, p: Seq<char>) -> bool {
    exists|i: int| 0 <= i && i + p.len() <= s.len() && #[trigger] s.subrange(i, i + p.len()) == p
}

/// Whether `p` occurs in `s`.
pub fn str_contains(s: &str, p: &str) -> (r: bool)
    ensures
        r == contains(s@, p@),
{
    let cs = chars_of(s);
    let n = p.unicode_len();
    if n > cs.len() {
        return false;
    }
    if n == 0 {
        assert(s@.subrange(0int, 0int + p@.len()) =~= p@);
        return true;
    }
    let last = cs.len() - n;
    let mut i: usize = 0;
    while i <= last
        invariant
            cs@ == s@,
            n == p@.len(),
            0 < n <= cs@.len(),
            last == cs@.len() - n,
            i <= last + 1,
            forall|j: int| 0 <= j < i ==> #[trigger] cs@.subrange(j, j + n) != p@,
        decreases last + 1 - i,
    {
        if window_starts_with(&cs, i, cs.len(), p) {
            assert(cs@.subrange(i as int, cs@.len() as int).subrange(0, n as int) =~= cs@.subrange(
                i as int,
                i + n,
            ));
            return true;
        }
        assert(cs@.subrange(i as int, cs@.len() as int).subrange(0, n as int) =~= cs@.subrange(
            i as int,
            i + n,
        ));
        i = i + 1;
    }
    assert forall|j: int| 0 <= j && j + n <= cs@.len() implies #[trigger] cs@.subrange(j, j + n)
        != p@ by {
        assert(j < i);
    }
    false
}

/// What a chapter becomes: unchanged without an exercise directive; the
/// rendered exercise in a container when it parses; otherwise the chapter
/// behind a comment that gives the parse error's message (for a YAML error,
/// followed by the YAML parser's diagnostic).
pub open spec fn chapter_ok(content: Seq<char>, config: ConfigV, r: Seq<char>) -> bool {
    if !contains(content, exercise_marker()) {
        r == content
    } else {
        match parse_spec(content, excluded_ranges(markdown_events(content))) {
            Ok(ex) => r == "<div class=\"exercise-container\">\n"@ + exercise_html(ex, config)
                + "\n</div>\n"@,
            Err(e) => exists|m: Seq<char>|
                starts_with(m, message_text(e)) && (!(e is YamlError) ==> m == message_text(e))
                    && r == "<!-- Exercise parse error: "@ + m + " -->\n\n"@ + content,
        }
    }
}

/// The preprocessor for chapters that are exercises.
pub struct ExercisesPreprocessor;

impl ExercisesPreprocessor {
    /// Creates a preprocessor.
    pub fn new() -> (r: ExercisesPreprocessor) {
        ExercisesPreprocessor
    }

    /// Processes one chapter's content.
    pub fn process_chapter(content: &str, config: &RenderConfig) -> (r: Result<String, RenderError>)
        ensures
            r is Ok,
            chapter_ok(content@, config@, r->Ok_0@),
    {
        proof {
            reveal_strlit("::: exercise");
            assert("::: exercise"@ =~= exercise_marker());
        }
        if !str_contains(content, "::: exercise") {
            return Ok(content.to_owned());
        }
        let mut out: Vec<char> = Vec::new();
        match parse_exercise(content) {
            Ok(exercise) => {
                let html = match render_exercise_with_config(&exercise, config) {
                    Ok(h) => h,
                    Err(e) => return Err(e),
                };
                push_str(&mut out, "<div class=\"exercise-container\">\n");
                push_str(&mut out, html.as_str());
                push_str(&mut out, "\n</div>\n");
                assert(out@ =~= "<div class=\"exercise-container\">\n"@ + exercise_html(
                    exercise@,
                    config@,
                ) + "\n</div>\n"@);
            },
            Err(e) => {
                let m = e.message();
                push_str(&mut out, "<!-- Exercise parse error: ");
                push_str(&mut out, m.as_str());
                push_str(&mut out, " -->\n\n");
                push_str(&mut out, content);
                assert(out@ =~= "<!-- Exercise parse error: "@ + m@ + " -->\n\n"@ + content@);
            },
        }
        Ok(finish(out))
    }
}

/// The preprocessor that also expands `{{#exercise path}}` includes.
pub struct FullExercisesPreprocessor;

impl FullExercisesPreprocessor {
    /// Creates a preprocessor.
    pub fn new() -> (r: FullExercisesPreprocessor) {
        FullExercisesPreprocessor
    }
}

/// The render configuration from a book's settings: each setting that is
/// given replaces the default, and a setting of the wrong type counts as
/// `false` for the reveal settings and `true` for the others.
pub fn config_from_settings(
    reveal_hints: Option<Option<bool>>,
    reveal_solution: Option<Option<bool>>,
    playground: Option<Option<bool>>,
    playground_url: Option<Option<String>>,
    progress_tracking: Option<Option<bool>>,
) -> (r: RenderConfig)
    ensures
        r.reveal_hints == match reveal_hints {
            Some(v) => v == Some(true),
            None => false,
        },
        r.reveal_solution == match reveal_solution {
            Some(v) => v == Some(true),
            None => false,
        },
        r.enable_playground == match playground {
            Some(v) => v != Some(false),
            None => true,
        },
        r.playground_url@ == match playground_url {
            Some(Some(u)) => u@,
            _ => default_config().playground_url,
        },
        r.enable_progress == match progress_tracking {
            Some(v) => v != Some(false),
            None => true,
        },
{
    let mut config = RenderConfig::new();
    if let Some(v) = reveal_hints {
        config.reveal_hints = match v {
            Some(b) => b,
            None => false,
        };
    }
    if let Some(v) = reveal_solution {
        config.reveal_solution = match v {
            Some(b) => b,
            None => false,
        };
    }
    if let Some(v) = playground {
        config.enable_playground = match v {
            Some(b) => b,
            None => true,
        };
    }
    if let Some(Some(u)) = playground_url {
        config.playground_url = u;
    }
    if let Some(v) = progress_tracking {
        config.enable_progress = match v {
            Some(b) => b,
            None => true,
        };
    }
    config
}

/// For each match of the regular expression `pattern` in `text`, in order,
/// the text of the whole match and of its first group; `None` when the
/// pattern does not compile.
pub uninterp spec fn regex_captures(pattern: Seq<char>, text: Seq<char>) -> Option<Seq<(Option<Seq<char>>, Option<Seq<char>>)>>;

pub open spec fn captures_view(v: Seq<(Option<String>, Option<String>)>) -> Seq<(Option<Seq<char>>, Option<Seq<char>>)> {
    v.map_values(|c: (Option<String>, Option<String>)| (opt_view(c.0), opt_view(c.1)))
}

/// Relies on `regex::Regex::new` and `Regex::captures_iter`: the whole match
/// and the first group of each match, in order.
#[verifier::external_body]
fn captures(pattern: &str, text: &str) -> (r: Option<Vec<(Option<String>, Option<String>)>>)
    ensures
        match r {
            Some(v) => regex_captures(pattern@, text@) == Some(captures_view(v@)),
            None => regex_captures(pattern@, text@) is None,
        },
{
    match regex::Regex::new(pattern) {
        Ok(re) => {
            let mut out = Vec::new();
            for c in re.captures_iter(text) {
                out.push((c.get(0).map(|m| m.as_str().to_string()), c.get(1).map(|m| m.as_str().to_string())));
            }
            Some(out)
        },
        Err(_) => None,
    }
}

/// The pattern of an include directive `{{#exercise path}}`.
pub const INCLUDE_PATTERN: &'static str = "\\{\\{#exercise\\s+([^}]+)\\}\\}";

/// An include directive: its whole text and the path it names.
pub struct Include {
    pub directive: String,
    pub path: String,
}

/// The include directives that the captures `cs` describe: each whole match
/// with its first group trimmed.
pub open spec fn includes_of(cs: Seq<(Option<Seq<char>>, Option<Seq<char>>)>) -> Seq<(Seq<char>, Seq<char>)>
    decreases cs.len(),
{
    if cs.len() == 0 {
        seq![]
    } else {
        let rest = includes_of(cs.drop_last());
        match cs.last() {
            (Some(whole), Some(path)) => rest.push((whole, trim(path))),
            _ => rest,
        }
    }
}

pub open spec fn include_view(v: Seq<Include>) -> Seq<(Seq<char>, Seq<char>)> {
    v.map_values(|i: Include| (i.directive@, i.path@))
}

/// `s` with each occurrence of `from`, left to right and not overlapping,
/// replaced by `to`; an empty `from` replaces nothing.
pub open spec fn replace_all(s: Seq<char>, from: Seq<char>, to: Seq<char>) -> Seq<char>
    decreases s.len(),
{
    if s.len() == 0 {
        seq![]
    } else if from.len() > 0 && starts_with(s, from) {
        to + replace_all(s.subrange(from.len() as int, s.len() as int), from, to)
    } else {
        seq![s[0]] + replace_all(s.drop_first(), from, to)
    }
}

/// Replaces each occurrence of `from` in `s` by `to`.
pub fn replace_str(s: &str, from: &str, to: &str) -> (r: String)
    ensures
        r@ == replace_all(s@, from@, to@),
{
    let cs = chars_of(s);
    let n = from.unicode_len();
    let mut out: Vec<char> = Vec::new();
    let mut i: usize = 0;
    assert(cs@.subrange(0, cs@.len() as int) =~= cs@);
    assert(out@ + replace_all(cs@, from@, to@) =~= replace_all(cs@, from@, to@));
    while i < cs.len()
        invariant
            i <= cs@.len(),
            cs@ == s@,
            n == from@.len(),
            out@ + replace_all(cs@.subrange(i as int, cs@.len() as int), from@, to@) == replace_all(
                s@,
                from@,
                to@,
            ),
        decreases cs@.len() - i,
    {
        let ghost w = cs@.subrange(i as int, cs@.len() as int);
        if n > 0 && window_starts_with(&cs, i, cs.len(), from) {
            let ghost before = out@;
            push_str(&mut out, to);
            assert(w.subrange(n as int, w.len() as int) =~= cs@.subrange(i + n, cs@.len() as int));
            assert(before + (to@ + replace_all(cs@.subrange(i + n, cs@.len() as int), from@, to@))
                =~= out@ + replace_all(cs@.subrange(i + n, cs@.len() as int), from@, to@));
            i = i + n;
        } else {
            let ghost before = out@;
            out.push(cs[i]);
            assert(w.drop_first() =~= cs@.subrange(i + 1, cs@.len() as int));
            assert(before + (seq![w[0]] + replace_all(w.drop_first(), from@, to@)) =~= out@
                + replace_all(w.drop_first(), from@, to@));
            i = i + 1;
        }
    }
    assert(cs@.subrange(i as int, cs@.len() as int) =~= Seq::<char>::empty());
    assert(out@ + Seq::<char>::empty() =~= out@);
    finish(out)
}

/// Expands `{{#exercise path}}` includes: the files are read by the caller,
/// and each include is replaced by the rendered exercise or an error notice.
pub struct ExerciseIncludeProcessor {
    config: RenderConfig,
    book_root: String,
}

/// The notice that replaces an include that could not be turned into an exercise.
pub open spec fn error_notice(what: Seq<char>, message: Seq<char>, path: Seq<char>) -> Seq<char> {
    "<div class=\"exercise-error\">\n  <p><strong>"@ + what + ":</strong> "@ + message
        + "</p>\n  <p>File: "@ + path + "</p>\n</div>"@
}

fn render_error_notice(what: &str, message: &str, path: &str) -> (r: String)
    ensures
        r@ == error_notice(what@, message@, path@),
{
    let mut out: Vec<char> = Vec::new();
    push_str(&mut out, "<div class=\"exercise-error\">\n  <p><strong>");
    push_str(&mut out, what);
    push_str(&mut out, ":</strong> ");
    push_str(&mut out, message);
    push_str(&mut out, "</p>\n  <p>File: ");
    push_str(&mut out, path);
    push_str(&mut out, "</p>\n</div>");
    assert(out@ =~= error_notice(what@, message@, path@));
    finish(out)
}

impl ExerciseIncludeProcessor {
    /// Creates an include processor for the book whose sources are under `book_root`.
    pub fn new(book_root: &str, config: RenderConfig) -> (r: ExerciseIncludeProcessor)
        ensures
            r.spec_book_root() == book_root@,
            r.spec_config() == config@,
    {
        ExerciseIncludeProcessor { config, book_root: book_root.to_owned() }
    }

    /// The render configuration, as a view.
    pub closed spec fn spec_config(&self) -> ConfigV {
        self.config@
    }

    /// The book's source directory, as characters.
    pub closed spec fn spec_book_root(&self) -> Seq<char> {
        self.book_root@
    }

    /// The directory that include paths are relative to.
    pub fn book_root(&self) -> (r: &str)
        ensures
            r@ == self.spec_book_root(),
    {
        self.book_root.as_str()
    }

    /// The render configuration.
    pub fn config(&self) -> (r: &RenderConfig)
        ensures
            r@ == self.spec_config(),
    {
        &self.config
    }

    /// The include directives of `content`, in order; `Err` when the include
    /// pattern does not compile.
    pub fn includes(content: &str) -> (r: Result<Vec<Include>, String>)
        ensures
            match regex_captures(INCLUDE_PATTERN@, content@) {
                Some(cs) => r is Ok && include_view(r->Ok_0@) == includes_of(cs),
                None => r is Err,
            },
    {
        let caps = match captures(INCLUDE_PATTERN, content) {
            Some(c) => c,
            None => return Err("the include pattern does not compile".to_owned()),
        };
        let ghost cv = captures_view(caps@);
        let mut out: Vec<Include> = Vec::new();
        let mut i: usize = 0;
        while i < caps.len()
            invariant
                i <= caps@.len(),
                cv == captures_view(caps@),
                include_view(out@) == includes_of(cv.subrange(0, i as int)),
            decreases caps@.len() - i,
        {
            assert(cv.subrange(0, i + 1).drop_last() =~= cv.subrange(0, i as int));
            match &caps[i] {
                (Some(whole), Some(path)) => {
                    let pc = chars_of(path.as_str());
                    let (a, b) = trim_window(&pc, 0, pc.len());
                    assert(pc@.subrange(0, pc@.len() as int) =~= pc@);
                    let ghost before = include_view(out@);
                    out.push(Include { directive: whole.clone(), path: string_from(&pc, a, b) });
                    assert(include_view(out@) =~= before.push((whole@, trim(path@))));
                },
                _ => {},
            }
            i = i + 1;
        }
        assert(cv.subrange(0, i as int) =~= cv);
        Ok(out)
    }

    /// What replaces the include of `path`, whose file was read as `file` (or
    /// failed to be, with that message): the rendered exercise in a
    /// container, or a notice of the failure.
    pub fn replacement(&self, path: &str, file: &Result<String, String>) -> (r: String)
        ensures
            match file {
                Err(m) => r@ == error_notice("Error loading exercise file"@, m@, path@),
                Ok(text) => match parse_spec(text@, excluded_ranges(markdown_events(text@))) {
                    Ok(ex) => r@ == "<div class=\"exercise-container\">\n"@ + exercise_html(
                        ex,
                        self.spec_config(),
                    ) + "\n</div>"@,
                    Err(e) => exists|m: Seq<char>|
                        starts_with(m, message_text(e)) && (!(e is YamlError) ==> m
                            == message_text(e)) && r@ == error_notice(
                            "Error parsing exercise"@,
                            m,
                            path@,
                        ),
                },
            },
    {
        match file {
            Err(m) => render_error_notice("Error loading exercise file", m.as_str(), path),
            Ok(text) => match parse_exercise(text.as_str()) {
                Ok(exercise) => {
                    let html = match render_exercise_with_config(&exercise, &self.config) {
                        Ok(h) => h,
                        Err(_) => String::new(),
                    };
                    let mut out: Vec<char> = Vec::new();
                    push_str(&mut out, "<div class=\"exercise-container\">\n");
                    push_str(&mut out, html.as_str());
                    push_str(&mut out, "\n</div>");
                    assert(out@ =~= "<div class=\"exercise-container\">\n"@ + exercise_html(
                        exercise@,
                        self.config@,
                    ) + "\n</div>"@);
                    finish(out)
                },
                Err(e) => {
                    let m = e.message();
                    render_error_notice("Error parsing exercise", m.as_str(), path)
                },
            },
        }
    }
}

} // verus!
