//! HTML rendering of a parsed exercise.

use crate::lines::{opt_view, push_window, strings_view};
use crate::text::{chars_of, string_from};
use crate::types::{
    Difficulty, Exercise, ExerciseV, Hint, HintV, Objectives, ObjectivesV, Solution,
    SolutionReveal, SolutionV, StarterCode, StarterV, TestBlock, TestMode, TestsV, hints_view,
};
use vstd::prelude::*;

verus! {

/// Errors that can occur during rendering.
#[derive(Debug)]
pub enum RenderError {
    TemplateError(String),
    MissingField(String),
}

/// Configuration for rendering.
#[derive(Debug, Clone)]
pub struct RenderConfig {
    /// Show all hints expanded by default
    pub reveal_hints: bool,
    /// Show on-demand solutions expanded by default
    pub reveal_solution: bool,
    /// Offer running tests in a playground
    pub enable_playground: bool,
    /// Playground URL
    pub playground_url: String,
    /// Offer progress tracking
    pub enable_progress: bool,
}

pub struct ConfigV {
    pub reveal_hints: bool,
    pub reveal_solution: bool,
    pub enable_playground: bool,
    pub playground_url: Seq<char>,
    pub enable_progress: bool,
}

impl View for RenderConfig {
    type V = ConfigV;

    open spec fn view(&self) -> ConfigV {
        ConfigV {
            reveal_hints: self.reveal_hints,
            reveal_solution: self.reveal_solution,
            enable_playground: self.enable_playground,
            playground_url: self.playground_url@,
            enable_progress: self.enable_progress,
        }
    }
}

/// The default configuration: hints and solutions collapsed, playground and
/// progress tracking on.
pub open spec fn default_config() -> ConfigV {
    ConfigV {
        reveal_hints: false,
        reveal_solution: false,
        enable_playground: true,
        playground_url: "https://play.rust-lang.org"@,
        enable_progress: true,
    }
}

impl RenderConfig {
    /// The default configuration: hints and solutions collapsed, playground
    /// and progress tracking on.
    pub fn new() -> (r: RenderConfig)
        ensures
            r@ == default_config(),
    {
        RenderConfig {
            reveal_hints: false,
            reveal_solution: false,
            enable_playground: true,
            playground_url: "https://play.rust-lang.org".to_owned(),
            enable_progress: true,
        }
    }
}

impl Default for RenderConfig {
    fn default() -> (r: RenderConfig)
        ensures
            r@ == default_config(),
    {
        RenderConfig::new()
    }
}

/// The HTML that CommonMark rendering gives for the Markdown `md`.
pub uninterp spec fn markdown_to_html(md: Seq<char>) -> Seq<char>;

/// Relies on `pulldown_cmark::html::push_html` over `pulldown_cmark::Parser::new`:
/// the CommonMark rendering of `md`.
#[verifier::external_body]
fn markdown_html(md: &str) -> (r: String)
    ensures
        r@ == markdown_to_html(md@),
{
    let mut out = String::new();
    pulldown_cmark::html::push_html(&mut out, pulldown_cmark::Parser::new(md));
    out
}

/// The escape of one character for HTML text.
pub open spec fn esc_char(c: char) -> Seq<char> {
    if c == '&' {
        "&amp;"@
    } else if c == '<' {
        "&lt;"@
    } else if c == '>' {
        "&gt;"@
    } else if c == '"' {
        "&quot;"@
    } else if c == '\'' {
        "&#x27;"@
    } else {
        seq![c]
    }
}

/// The escape of one character for an attribute value, where line breaks are escaped too.
pub open spec fn esc_attr_char(c: char) -> Seq<char> {
    if c == '\n' {
        "&#10;"@
    } else if c == '\r' {
        "&#13;"@
    } else {
        esc_char(c)
    }
}

/// `s` with `&`, `<`, `>`, `"` and `'` replaced by their entities.
pub open spec fn esc(s: Seq<char>) -> Seq<char>
    decreases s.len(),
{
    if s.len() == 0 {
        seq![]
    } else {
        esc(s.drop_last()) + esc_char(s.last())
    }
}

/// `esc(s)`, with line breaks escaped too.
pub open spec fn esc_attr(s: Seq<char>) -> Seq<char>
    decreases s.len(),
{
    if s.len() == 0 {
        seq![]
    } else {
        esc_attr(s.drop_last()) + esc_attr_char(s.last())
    }
}

/// The ASCII digit for `d`.
pub open spec fn digit_char(d: u8) -> char {
    ((d + 48) as u8) as char
}

/// The decimal digits of `n`.
pub open spec fn decimal(n: nat) -> Seq<char>
    decreases n,
{
    if n < 10 {
        seq![digit_char(n as u8)]
    } else {
        decimal(n / 10) + seq![digit_char((n % 10) as u8)]
    }
}

pub fn push_str(out: &mut Vec<char>, s: &str)
    ensures
        final(out)@ == old(out)@ + s@,
{
    let cs = chars_of(s);
    push_window(out, &cs, 0, cs.len());
    assert(cs@.subrange(0, cs@.len() as int) =~= cs@);
}

fn push_escaped(out: &mut Vec<char>, s: &str, attr: bool)
    ensures
        final(out)@ == old(out)@ + if attr {
            esc_attr(s@)
        } else {
            esc(s@)
        },
{
    let cs = chars_of(s);
    let mut i: usize = 0;
    while i < cs.len()
        invariant
            i <= cs@.len(),
            cs@ == s@,
            out@ == old(out)@ + if attr {
                esc_attr(cs@.subrange(0, i as int))
            } else {
                esc(cs@.subrange(0, i as int))
            },
        decreases cs@.len() - i,
    {
        let c = cs[i];
        assert(cs@.subrange(0, i + 1).drop_last() =~= cs@.subrange(0, i as int));
        if attr && c == '\n' {
            push_str(out, "&#10;");
        } else if attr && c == '\r' {
            push_str(out, "&#13;");
        } else if c == '&' {
            push_str(out, "&amp;");
        } else if c == '<' {
            push_str(out, "&lt;");
        } else if c == '>' {
            push_str(out, "&gt;");
        } else if c == '"' {
            push_str(out, "&quot;");
        } else if c == '\'' {
            push_str(out, "&#x27;");
        } else {
            out.push(c);
        }
        proof {
            let pre = cs@.subrange(0, i + 1);
            assert(pre.last() == c);
            if attr {
                assert(esc_attr(pre) == esc_attr(cs@.subrange(0, i as int)) + esc_attr_char(c));
            } else {
                assert(esc(pre) == esc(cs@.subrange(0, i as int)) + esc_char(c));
            }
            assert(out@ =~= old(out)@ + if attr {
                esc_attr(pre)
            } else {
                esc(pre)
            });
        }
        i = i + 1;
    }
    assert(cs@.subrange(0, i as int) =~= cs@);
}

pub fn push_decimal(out: &mut Vec<char>, n: u64)
    ensures
        final(out)@ == old(out)@ + decimal(n as nat),
    decreases n,
{
    if n >= 10 {
        push_decimal(out, n / 10);
    }
    let d = (n % 10) as u8;
    out.push((d + 48) as char);
}

/// Escapes HTML special characters.
pub fn escape_html(s: &str) -> (r: String)
    ensures
        r@ == esc(s@),
{
    let mut out: Vec<char> = Vec::new();
    push_escaped(&mut out, s, false);
    assert(out@ =~= esc(s@));
    finish(out)
}

/// Escapes HTML for use in attribute values, line breaks included.
pub fn escape_html_attr(s: &str) -> (r: String)
    ensures
        r@ == esc_attr(s@),
{
    let mut out: Vec<char> = Vec::new();
    push_escaped(&mut out, s, true);
    assert(out@ =~= esc_attr(s@));
    finish(out)
}

pub fn finish(out: Vec<char>) -> (r: String)
    ensures
        r@ == out@,
{
    assert(out@.subrange(0, out@.len() as int) =~= out@);
    string_from(&out, 0, out.len())
}

/// `s` when `c` holds, else nothing.
pub open spec fn when(c: bool, s: Seq<char>) -> Seq<char> {
    if c {
        s
    } else {
        seq![]
    }
}

pub open spec fn difficulty_text(d: Difficulty) -> Seq<char> {
    match d {
        Difficulty::Beginner => "beginner"@,
        Difficulty::Intermediate => "intermediate"@,
        Difficulty::Advanced => "advanced"@,
    }
}

pub open spec fn difficulty_icon(d: Difficulty) -> Seq<char> {
    match d {
        Difficulty::Beginner => "⭐"@,
        Difficulty::Intermediate => "⭐⭐"@,
        Difficulty::Advanced => "⭐⭐⭐"@,
    }
}

pub open spec fn mode_text(m: TestMode) -> Seq<char> {
    match m {
        TestMode::Playground => "playground"@,
        TestMode::Local => "local"@,
    }
}

/// The lower-case name of a difficulty.
pub fn difficulty_name(d: Difficulty) -> (r: &'static str)
    ensures
        r@ == difficulty_text(d),
{
    match d {
        Difficulty::Beginner => "beginner",
        Difficulty::Intermediate => "intermediate",
        Difficulty::Advanced => "advanced",
    }
}

/// The lower-case name of a test mode.
pub fn mode_name(m: TestMode) -> (r: &'static str)
    ensures
        r@ == mode_text(m),
{
    match m {
        TestMode::Playground => "playground",
        TestMode::Local => "local",
    }
}

/// A time estimate for display: `1h 30m` from an hour on, else `45 min`.
pub open spec fn time_text(m: u32) -> Seq<char> {
    if m >= 60 {
        decimal((m / 60) as nat) + "h "@ + decimal((m % 60) as nat) + "m"@
    } else {
        decimal(m as nat) + " min"@
    }
}

pub open spec fn prereq_link(p: Seq<char>) -> Seq<char> {
    "<a href=\"#"@ + esc(p) + "\">"@ + esc(p) + "</a>"@
}

/// The prerequisite links, separated by commas.
pub open spec fn prereq_links(ps: Seq<Seq<char>>) -> Seq<char>
    decreases ps.len(),
{
    if ps.len() == 0 {
        seq![]
    } else if ps.len() == 1 {
        prereq_link(ps[0])
    } else {
        prereq_links(ps.drop_last()) + ", "@ + prereq_link(ps.last())
    }
}

#[verifier::opaque]
pub open spec fn title_html(t: Option<Seq<char>>) -> Seq<char> {
    match t {
        Some(t) => "  <h2 class=\"exercise-title\">"@ + esc(t) + "</h2>\n"@,
        None => seq![],
    }
}

#[verifier::opaque]
pub open spec fn badge_html(d: Difficulty) -> Seq<char> {
    "    <span class=\"badge difficulty "@ + difficulty_text(d) + "\">"@ + difficulty_icon(d) + " "@
        + difficulty_text(d) + "</span>\n"@
}

#[verifier::opaque]
pub open spec fn time_html(t: Option<u32>) -> Seq<char> {
    match t {
        Some(m) => "    <span class=\"badge time\">⏱️ "@ + time_text(m) + "</span>\n"@,
        None => seq![],
    }
}

#[verifier::opaque]
pub open spec fn prereqs_html(ps: Seq<Seq<char>>) -> Seq<char> {
    when(
        ps.len() > 0,
        "    <span class=\"badge prerequisites\">📚 Requires: "@ + prereq_links(ps) + "</span>\n"@,
    )
}

#[verifier::opaque]
pub open spec fn header_html(ex: ExerciseV) -> Seq<char> {
    "<header class=\"exercise-header\">\n"@ + title_html(ex.title)
        + "  <div class=\"exercise-meta\">\n"@ + badge_html(ex.metadata.difficulty) + time_html(
        ex.metadata.time_minutes,
    ) + prereqs_html(ex.metadata.prerequisites) + "  </div>\n</header>\n"@
}

fn render_title(out: &mut Vec<char>, title: &Option<String>)
    ensures
        final(out)@ == old(out)@ + title_html(opt_view(*title)),
{
    proof {
        reveal(title_html);
    }
    if let Some(t) = title {
        push_str(out, "  <h2 class=\"exercise-title\">");
        push_escaped(out, t.as_str(), false);
        push_str(out, "</h2>\n");
    }
    assert(out@ =~= old(out)@ + title_html(opt_view(*title)));
}

fn render_badge(out: &mut Vec<char>, d: Difficulty)
    ensures
        final(out)@ == old(out)@ + badge_html(d),
{
    proof {
        reveal(badge_html);
    }
    push_str(out, "    <span class=\"badge difficulty ");
    push_str(out, difficulty_name(d));
    push_str(out, "\">");
    let icon = match d {
        Difficulty::Beginner => "⭐",
        Difficulty::Intermediate => "⭐⭐",
        Difficulty::Advanced => "⭐⭐⭐",
    };
    push_str(out, icon);
    push_str(out, " ");
    push_str(out, difficulty_name(d));
    push_str(out, "</span>\n");
    assert(out@ =~= old(out)@ + badge_html(d));
}

fn render_time(out: &mut Vec<char>, t: Option<u32>)
    ensures
        final(out)@ == old(out)@ + time_html(t),
{
    proof {
        reveal(time_html);
    }
    if let Some(m) = t {
        push_str(out, "    <span class=\"badge time\">⏱️ ");
        let ghost a = out@;
        if m >= 60 {
            push_decimal(out, (m / 60) as u64);
            push_str(out, "h ");
            push_decimal(out, (m % 60) as u64);
            push_str(out, "m");
        } else {
            push_decimal(out, m as u64);
            push_str(out, " min");
        }
        assert(out@ =~= a + time_text(m));
        push_str(out, "</span>\n");
    }
    assert(out@ =~= old(out)@ + time_html(t));
}

fn render_prereqs(out: &mut Vec<char>, ps: &Vec<String>)
    ensures
        final(out)@ == old(out)@ + prereqs_html(strings_view(ps@)),
{
    proof {
        reveal(prereqs_html);
    }
    if ps.len() > 0 {
        push_str(out, "    <span class=\"badge prerequisites\">📚 Requires: ");
        let ghost start = out@;
        assert(prereq_links(strings_view(ps@).subrange(0, 0)) =~= Seq::<char>::empty());
        let mut i: usize = 0;
        while i < ps.len()
            invariant
                i <= ps@.len(),
                out@ == start + prereq_links(strings_view(ps@).subrange(0, i as int)),
            decreases ps@.len() - i,
        {
            let ghost pre = strings_view(ps@).subrange(0, i + 1);
            assert(pre.drop_last() =~= strings_view(ps@).subrange(0, i as int));
            if i > 0 {
                push_str(out, ", ");
            }
            let ghost mid = out@;
            push_str(out, "<a href=\"#");
            push_escaped(out, ps[i].as_str(), false);
            push_str(out, "\">");
            push_escaped(out, ps[i].as_str(), false);
            push_str(out, "</a>");
            assert(out@ =~= mid + prereq_link(pre.last()));
            assert(out@ =~= start + prereq_links(pre));
            i = i + 1;
        }
        assert(strings_view(ps@).subrange(0, i as int) =~= strings_view(ps@));
        push_str(out, "</span>\n");
        assert(out@ =~= old(out)@ + prereqs_html(strings_view(ps@)));
    } else {
        assert(out@ =~= old(out)@ + prereqs_html(strings_view(ps@)));
    }
}

fn render_header(out: &mut Vec<char>, ex: &Exercise)
    ensures
        final(out)@ == old(out)@ + header_html(ex@),
{
    proof {
        reveal(header_html);
    }
    push_str(out, "<header class=\"exercise-header\">\n");
    render_title(out, &ex.title);
    push_str(out, "  <div class=\"exercise-meta\">\n");
    render_badge(out, ex.metadata.difficulty);
    render_time(out, ex.metadata.time_minutes);
    render_prereqs(out, &ex.metadata.prerequisites);
    push_str(out, "  </div>\n</header>\n");
    assert(out@ =~= old(out)@ + header_html(ex@));
}

#[verifier::opaque]
pub open spec fn nav_item(id: Seq<char>, key: Seq<char>, label: Seq<char>) -> Seq<char> {
    "    <li><a href=\"#"@ + id + "-"@ + key + "\" data-section=\""@ + key + "\">"@ + label
        + "</a></li>\n"@
}

#[verifier::opaque]
pub open spec fn nav_first(id: Seq<char>, d: bool, o: bool, st: bool, h: bool) -> Seq<char> {
    when(d, nav_item(id, "description"@, "📖 Overview"@)) + when(
        o,
        nav_item(id, "objectives"@, "🎯 Objectives"@),
    ) + when(st, nav_item(id, "starter"@, "💻 Code"@)) + when(h, nav_item(id, "hints"@, "💡 Hints"@))
}

#[verifier::opaque]
pub open spec fn nav_second(id: Seq<char>, so: bool, t: bool, r: bool) -> Seq<char> {
    when(so, nav_item(id, "solution"@, "✅ Solution"@)) + when(t, nav_item(id, "tests"@, "🧪 Tests"@))
        + when(r, nav_item(id, "reflection"@, "🤔 Reflect"@))
}

#[verifier::opaque]
pub open spec fn nav_parts(
    id: Seq<char>,
    d: bool,
    o: bool,
    st: bool,
    h: bool,
    so: bool,
    t: bool,
    r: bool,
) -> Seq<char> {
    "<nav class=\"exercise-nav\" aria-label=\"Exercise sections\">\n  <ul>\n"@ + nav_first(
        id,
        d,
        o,
        st,
        h,
    ) + nav_second(id, so, t, r) + "  </ul>\n</nav>\n"@
}

#[verifier::opaque]
pub open spec fn nav_html(ex: ExerciseV) -> Seq<char> {
    nav_parts(
        ex.metadata.id,
        ex.description.len() > 0,
        ex.objectives is Some,
        ex.starter is Some,
        ex.hints.len() > 0,
        ex.solution is Some,
        ex.tests is Some,
        ex.reflection is Some,
    )
}

fn render_nav_item(out: &mut Vec<char>, show: bool, id: &str, key: &str, label: &str)
    ensures
        final(out)@ == old(out)@ + when(show, nav_item(id@, key@, label@)),
{
    proof {
        reveal(nav_item);
    }
    if show {
        push_str(out, "    <li><a href=\"#");
        push_str(out, id);
        push_str(out, "-");
        push_str(out, key);
        push_str(out, "\" data-section=\"");
        push_str(out, key);
        push_str(out, "\">");
        push_str(out, label);
        push_str(out, "</a></li>\n");
    }
    assert(out@ =~= old(out)@ + when(show, nav_item(id@, key@, label@)));
}

fn render_nav_first(out: &mut Vec<char>, id: &str, d: bool, o: bool, st: bool, h: bool)
    ensures
        final(out)@ == old(out)@ + nav_first(id@, d, o, st, h),
{
    proof {
        reveal(nav_first);
    }
    render_nav_item(out, d, id, "description", "📖 Overview");
    render_nav_item(out, o, id, "objectives", "🎯 Objectives");
    render_nav_item(out, st, id, "starter", "💻 Code");
    render_nav_item(out, h, id, "hints", "💡 Hints");
    assert(out@ =~= old(out)@ + nav_first(id@, d, o, st, h));
}

fn render_nav_second(out: &mut Vec<char>, id: &str, so: bool, t: bool, r: bool)
    ensures
        final(out)@ == old(out)@ + nav_second(id@, so, t, r),
{
    proof {
        reveal(nav_second);
    }
    render_nav_item(out, so, id, "solution", "✅ Solution");
    render_nav_item(out, t, id, "tests", "🧪 Tests");
    render_nav_item(out, r, id, "reflection", "🤔 Reflect");
    assert(out@ =~= old(out)@ + nav_second(id@, so, t, r));
}

fn render_nav_parts(
    out: &mut Vec<char>,
    id: &str,
    d: bool,
    o: bool,
    st: bool,
    h: bool,
    so: bool,
    t: bool,
    r: bool,
)
    ensures
        final(out)@ == old(out)@ + nav_parts(id@, d, o, st, h, so, t, r),
{
    proof {
        reveal(nav_parts);
    }
    push_str(out, "<nav class=\"exercise-nav\" aria-label=\"Exercise sections\">\n  <ul>\n");
    render_nav_first(out, id, d, o, st, h);
    render_nav_second(out, id, so, t, r);
    push_str(out, "  </ul>\n</nav>\n");
    assert(out@ =~= old(out)@ + nav_parts(id@, d, o, st, h, so, t, r));
}

fn render_navigation(out: &mut Vec<char>, ex: &Exercise)
    ensures
        final(out)@ == old(out)@ + nav_html(ex@),
{
    proof {
        reveal(nav_html);
    }
    let desc = chars_of(ex.description.as_str());
    assert(hints_view(ex.hints@).len() == ex.hints@.len());
    render_nav_parts(
        out,
        ex.metadata.id.as_str(),
        desc.len() > 0,
        ex.objectives.is_some(),
        ex.starter.is_some(),
        ex.hints.len() > 0,
        ex.solution.is_some(),
        ex.tests.is_some(),
        ex.reflection.is_some(),
    );
}

#[verifier::opaque]
pub open spec fn description_html(desc: Seq<char>, id: Seq<char>) -> Seq<char> {
    "<section class=\"exercise-description\" id=\""@ + id + "-description\">\n"@
        + markdown_to_html(desc) + "</section>\n"@
}

fn render_description(out: &mut Vec<char>, desc: &str, id: &str)
    ensures
        final(out)@ == old(out)@ + description_html(desc@, id@),
{
    proof {
        reveal(description_html);
    }
    push_str(out, "<section class=\"exercise-description\" id=\"");
    push_str(out, id);
    push_str(out, "-description\">\n");
    let html = markdown_html(desc);
    push_str(out, html.as_str());
    push_str(out, "</section>\n");
    assert(out@ =~= old(out)@ + description_html(desc@, id@));
}

#[verifier::opaque]
pub open spec fn objective_item(id: Seq<char>, kind: Seq<char>, i: nat, obj: Seq<char>) -> Seq<char> {
    let oid = id + "-"@ + kind + "-"@ + decimal(i);
    "        <li><input type=\"checkbox\" id=\""@ + oid + "\" class=\"objective-checkbox\"><label for=\""@
        + oid + "\">"@ + esc(obj) + "</label></li>\n"@
}

pub open spec fn objective_items(id: Seq<char>, kind: Seq<char>, objs: Seq<Seq<char>>) -> Seq<char>
    decreases objs.len(),
{
    if objs.len() == 0 {
        seq![]
    } else {
        objective_items(id, kind, objs.drop_last()) + objective_item(
            id,
            kind,
            (objs.len() - 1) as nat,
            objs.last(),
        )
    }
}

#[verifier::opaque]
pub open spec fn objective_group(
    id: Seq<char>,
    class: Seq<char>,
    heading: Seq<char>,
    kind: Seq<char>,
    objs: Seq<Seq<char>>,
) -> Seq<char> {
    when(
        objs.len() > 0,
        "    <div class=\""@ + class + "\">\n      <h4>"@ + heading + "</h4>\n      <ul>\n"@
            + objective_items(id, kind, objs) + "      </ul>\n    </div>\n"@,
    )
}

#[verifier::opaque]
pub open spec fn objectives_html(o: ObjectivesV, id: Seq<char>) -> Seq<char> {
    "<section class=\"exercise-objectives\" id=\""@ + id + "-objectives\">\n"@
        + "  <h3>🎯 Learning Objectives</h3>\n  <div class=\"objectives-grid\">\n"@ + objective_group(
        id,
        "objectives-thinking"@,
        "Thinking"@,
        "thinking"@,
        o.thinking,
    ) + objective_group(id, "objectives-doing"@, "Doing"@, "doing"@, o.doing)
        + "  </div>\n</section>\n"@
}

fn render_objective_item(out: &mut Vec<char>, id: &str, kind: &str, i: usize, obj: &str)
    ensures
        final(out)@ == old(out)@ + objective_item(id@, kind@, i as nat, obj@),
{
    proof {
        reveal(objective_item);
    }
    let mut oid: Vec<char> = Vec::new();
    push_str(&mut oid, id);
    push_str(&mut oid, "-");
    push_str(&mut oid, kind);
    push_str(&mut oid, "-");
    push_decimal(&mut oid, i as u64);
    let oid = finish(oid);
    push_str(out, "        <li><input type=\"checkbox\" id=\"");
    push_str(out, oid.as_str());
    push_str(out, "\" class=\"objective-checkbox\"><label for=\"");
    push_str(out, oid.as_str());
    push_str(out, "\">");
    push_escaped(out, obj, false);
    push_str(out, "</label></li>\n");
    assert(out@ =~= old(out)@ + objective_item(id@, kind@, i as nat, obj@));
}

fn render_objective_group(
    out: &mut Vec<char>,
    id: &str,
    class: &str,
    heading: &str,
    kind: &str,
    objs: &Vec<String>,
)
    ensures
        final(out)@ == old(out)@ + objective_group(id@, class@, heading@, kind@, strings_view(objs@)),
{
    proof {
        reveal(objective_group);
    }
    if objs.len() > 0 {
        push_str(out, "    <div class=\"");
        push_str(out, class);
        push_str(out, "\">\n      <h4>");
        push_str(out, heading);
        push_str(out, "</h4>\n      <ul>\n");
        let ghost start = out@;
        let ghost sv = strings_view(objs@);
        assert(objective_items(id@, kind@, sv.subrange(0, 0)) =~= Seq::<char>::empty());
        let mut i: usize = 0;
        while i < objs.len()
            invariant
                i <= objs@.len(),
                sv == strings_view(objs@),
                out@ == start + objective_items(id@, kind@, sv.subrange(0, i as int)),
            decreases objs@.len() - i,
        {
            let ghost pre = sv.subrange(0, i + 1);
            assert(pre.drop_last() =~= sv.subrange(0, i as int));
            render_objective_item(out, id, kind, i, objs[i].as_str());
            assert(out@ =~= start + objective_items(id@, kind@, pre));
            i = i + 1;
        }
        assert(sv.subrange(0, i as int) =~= sv);
        push_str(out, "      </ul>\n    </div>\n");
    }
    assert(out@ =~= old(out)@ + objective_group(id@, class@, heading@, kind@, strings_view(objs@)));
}

fn render_objectives(out: &mut Vec<char>, o: &Objectives, id: &str)
    ensures
        final(out)@ == old(out)@ + objectives_html(o@, id@),
{
    proof {
        reveal(objectives_html);
    }
    push_str(out, "<section class=\"exercise-objectives\" id=\"");
    push_str(out, id);
    push_str(out, "-objectives\">\n");
    push_str(out, "  <h3>🎯 Learning Objectives</h3>\n  <div class=\"objectives-grid\">\n");
    render_objective_group(out, id, "objectives-thinking", "Thinking", "thinking", &o.thinking);
    render_objective_group(out, id, "objectives-doing", "Doing", "doing", &o.doing);
    push_str(out, "  </div>\n</section>\n");
    assert(out@ =~= old(out)@ + objectives_html(o@, id@));
}

/// The items as `<li>` lines, escaped.
pub open spec fn list_html(items: Seq<Seq<char>>) -> Seq<char>
    decreases items.len(),
{
    if items.len() == 0 {
        seq![]
    } else {
        list_html(items.drop_last()) + "    <li>"@ + esc(items.last()) + "</li>\n"@
    }
}

fn render_list(out: &mut Vec<char>, items: &Vec<String>)
    ensures
        final(out)@ == old(out)@ + list_html(strings_view(items@)),
{
    let ghost sv = strings_view(items@);
    assert(list_html(sv.subrange(0, 0)) =~= Seq::<char>::empty());
    assert(out@ =~= old(out)@ + list_html(sv.subrange(0, 0)));
    let mut i: usize = 0;
    while i < items.len()
        invariant
            i <= items@.len(),
            sv == strings_view(items@),
            out@ == old(out)@ + list_html(sv.subrange(0, i as int)),
        decreases items@.len() - i,
    {
        let ghost pre = sv.subrange(0, i + 1);
        assert(pre.drop_last() =~= sv.subrange(0, i as int));
        push_str(out, "    <li>");
        push_escaped(out, items[i].as_str(), false);
        push_str(out, "</li>\n");
        assert(out@ =~= old(out)@ + list_html(pre));
        i = i + 1;
    }
    assert(sv.subrange(0, i as int) =~= sv);
}

#[verifier::opaque]
pub open spec fn discussion_html(items: Seq<Seq<char>>) -> Seq<char> {
    "<section class=\"exercise-discussion\">\n  <h3>💬 Discussion</h3>\n  <ul>\n"@ + list_html(items)
        + "  </ul>\n</section>\n"@
}

fn render_discussion(out: &mut Vec<char>, items: &Vec<String>)
    ensures
        final(out)@ == old(out)@ + discussion_html(strings_view(items@)),
{
    proof {
        reveal(discussion_html);
    }
    push_str(out, "<section class=\"exercise-discussion\">\n  <h3>💬 Discussion</h3>\n  <ul>\n");
    render_list(out, items);
    push_str(out, "  </ul>\n</section>\n");
    assert(out@ =~= old(out)@ + discussion_html(strings_view(items@)));
}

#[verifier::opaque]
pub open spec fn reflection_html(items: Seq<Seq<char>>, id: Seq<char>) -> Seq<char> {
    "<section class=\"exercise-reflection\" id=\""@ + id + "-reflection\">\n"@
        + "  <h3>🤔 Reflection</h3>\n  <ul>\n"@ + list_html(items) + "  </ul>\n</section>\n"@
}

fn render_reflection(out: &mut Vec<char>, items: &Vec<String>, id: &str)
    ensures
        final(out)@ == old(out)@ + reflection_html(strings_view(items@), id@),
{
    proof {
        reveal(reflection_html);
    }
    push_str(out, "<section class=\"exercise-reflection\" id=\"");
    push_str(out, id);
    push_str(out, "-reflection\">\n");
    push_str(out, "  <h3>🤔 Reflection</h3>\n  <ul>\n");
    render_list(out, items);
    push_str(out, "  </ul>\n</section>\n");
    assert(out@ =~= old(out)@ + reflection_html(strings_view(items@), id@));
}

#[verifier::opaque]
pub open spec fn footer_html(id: Seq<char>) -> Seq<char> {
    "<footer class=\"exercise-footer\">\n  <button class=\"btn btn-complete\" data-exercise-id=\""@
        + id + "\">✓ Mark Complete</button>\n</footer>\n"@
}

fn render_footer(out: &mut Vec<char>, id: &str)
    ensures
        final(out)@ == old(out)@ + footer_html(id@),
{
    proof {
        reveal(footer_html);
    }
    push_str(out, "<footer class=\"exercise-footer\">\n  <button class=\"btn btn-complete\" data-exercise-id=\"");
    push_str(out, id);
    push_str(out, "\">✓ Mark Complete</button>\n</footer>\n");
    assert(out@ =~= old(out)@ + footer_html(id@));
}

#[verifier::opaque]
pub open spec fn starter_html(st: StarterV, id: Seq<char>) -> Seq<char> {
    "<section class=\"exercise-starter\" id=\""@ + id + "-starter\">\n  <div class=\"code-header\">\n"@
        + match st.filename {
        Some(f) => "    <span class=\"filename\">"@ + esc(f) + "</span>\n"@,
        None => seq![],
    } + starter_actions(id) + "  <textarea class=\"code-editor\" id=\"code-"@ + id
        + "\" data-language=\""@ + esc(st.language) + "\" data-original=\""@ + esc_attr(st.code)
        + "\" spellcheck=\"false\"></textarea>\n</section>\n"@
}

#[verifier::opaque]
pub open spec fn starter_actions(id: Seq<char>) -> Seq<char> {
    "    <div class=\"code-actions\">\n      <button class=\"btn btn-copy\" data-target=\"code-"@ + id
        + "\" title=\"Copy code\">📋 Copy</button>\n      <button class=\"btn btn-reset\" data-target=\"code-"@
        + id + "\" title=\"Reset to original\">↺ Reset</button>\n    </div>\n  </div>\n"@
}

fn render_starter_actions(out: &mut Vec<char>, id: &str)
    ensures
        final(out)@ == old(out)@ + starter_actions(id@),
{
    proof {
        reveal(starter_actions);
    }
    push_str(out, "    <div class=\"code-actions\">\n      <button class=\"btn btn-copy\" data-target=\"code-");
    push_str(out, id);
    push_str(out, "\" title=\"Copy code\">📋 Copy</button>\n      <button class=\"btn btn-reset\" data-target=\"code-");
    push_str(out, id);
    push_str(out, "\" title=\"Reset to original\">↺ Reset</button>\n    </div>\n  </div>\n");
    assert(out@ =~= old(out)@ + starter_actions(id@));
}

fn render_starter(out: &mut Vec<char>, st: &StarterCode, id: &str)
    ensures
        final(out)@ == old(out)@ + starter_html(st@, id@),
{
    proof {
        reveal(starter_html);
    }
    push_str(out, "<section class=\"exercise-starter\" id=\"");
    push_str(out, id);
    push_str(out, "-starter\">\n  <div class=\"code-header\">\n");
    if let Some(f) = &st.filename {
        push_str(out, "    <span class=\"filename\">");
        push_escaped(out, f.as_str(), false);
        push_str(out, "</span>\n");
    }
    render_starter_actions(out, id);
    push_str(out, "  <textarea class=\"code-editor\" id=\"code-");
    push_str(out, id);
    push_str(out, "\" data-language=\"");
    push_escaped(out, st.language.as_str(), false);
    push_str(out, "\" data-original=\"");
    push_escaped(out, st.code.as_str(), true);
    push_str(out, "\" spellcheck=\"false\"></textarea>\n</section>\n");
    assert(out@ =~= old(out)@ + starter_html(st@, id@));
}

#[verifier::opaque]
pub open spec fn hint_html(h: HintV, open: bool) -> Seq<char> {
    "  <details class=\"hint\" data-level=\""@ + decimal(h.level as nat) + "\""@ + when(open, " open"@)
        + ">\n    <summary>Hint "@ + decimal(h.level as nat) + match h.title {
        Some(t) => ": "@ + esc(t),
        None => seq![],
    } + "</summary>\n    <div class=\"hint-content\">\n"@ + markdown_to_html(h.content)
        + "    </div>\n  </details>\n"@
}

pub open spec fn hints_items(hs: Seq<HintV>, open: bool) -> Seq<char>
    decreases hs.len(),
{
    if hs.len() == 0 {
        seq![]
    } else {
        hints_items(hs.drop_last(), open) + hint_html(hs.last(), open)
    }
}

#[verifier::opaque]
pub open spec fn hints_html(hs: Seq<HintV>, open: bool, id: Seq<char>) -> Seq<char> {
    "<section class=\"exercise-hints\" id=\""@ + id + "-hints\">\n  <h3>💡 Hints</h3>\n"@ + hints_items(
        hs,
        open,
    ) + "</section>\n"@
}

fn render_hint(out: &mut Vec<char>, h: &Hint, open: bool)
    ensures
        final(out)@ == old(out)@ + hint_html(h@, open),
{
    proof {
        reveal(hint_html);
    }
    push_str(out, "  <details class=\"hint\" data-level=\"");
    push_decimal(out, h.level as u64);
    push_str(out, "\"");
    if open {
        push_str(out, " open");
    }
    push_str(out, ">\n    <summary>Hint ");
    push_decimal(out, h.level as u64);
    if let Some(t) = &h.title {
        push_str(out, ": ");
        push_escaped(out, t.as_str(), false);
    }
    push_str(out, "</summary>\n    <div class=\"hint-content\">\n");
    let html = markdown_html(h.content.as_str());
    push_str(out, html.as_str());
    push_str(out, "    </div>\n  </details>\n");
    assert(out@ =~= old(out)@ + hint_html(h@, open));
}

fn render_hints(out: &mut Vec<char>, hints: &Vec<Hint>, open: bool, id: &str)
    ensures
        final(out)@ == old(out)@ + hints_html(hints_view(hints@), open, id@),
{
    proof {
        reveal(hints_html);
    }
    push_str(out, "<section class=\"exercise-hints\" id=\"");
    push_str(out, id);
    push_str(out, "-hints\">\n  <h3>💡 Hints</h3>\n");
    let ghost start = out@;
    let ghost hv = hints_view(hints@);
    assert(hints_items(hv.subrange(0, 0), open) =~= Seq::<char>::empty());
    let mut i: usize = 0;
    while i < hints.len()
        invariant
            i <= hints@.len(),
            hv == hints_view(hints@),
            out@ == start + hints_items(hv.subrange(0, i as int), open),
        decreases hints@.len() - i,
    {
        let ghost pre = hv.subrange(0, i + 1);
        assert(pre.drop_last() =~= hv.subrange(0, i as int));
        render_hint(out, &hints[i], open);
        assert(out@ =~= start + hints_items(pre, open));
        i = i + 1;
    }
    assert(hv.subrange(0, i as int) =~= hv);
    push_str(out, "</section>\n");
    assert(out@ =~= old(out)@ + hints_html(hints_view(hints@), open, id@));
}

/// Whether a solution is shown expanded: `always` and `never` decide, an
/// on-demand solution follows the configuration.
pub open spec fn solution_open(reveal: SolutionReveal, reveal_solution: bool) -> bool {
    match reveal {
        SolutionReveal::Always => true,
        SolutionReveal::Never => false,
        SolutionReveal::OnDemand => reveal_solution,
    }
}

#[verifier::opaque]
pub open spec fn solution_head(id: Seq<char>, open: bool) -> Seq<char> {
    "<section class=\"exercise-solution\" id=\""@ + id + "-solution\">\n  <details class=\"solution\""@
        + when(open, " open"@)
        + ">\n    <summary>\n      <span class=\"solution-warning\">⚠️ Try the exercise first!</span>\n      <span class=\"solution-toggle\">Show Solution</span>\n    </summary>\n    <div class=\"solution-content\">\n"@
}

#[verifier::opaque]
pub open spec fn solution_html(sol: SolutionV, open: bool, id: Seq<char>) -> Seq<char> {
    solution_head(id, open) + "      <pre><code class=\"language-"@ + esc(sol.language) + "\">"@
        + esc(sol.code) + "</code></pre>\n"@ + match sol.explanation {
        Some(e) => "      <div class=\"solution-explanation\">\n        <h4>Explanation</h4>\n"@
            + markdown_to_html(e) + "      </div>\n"@,
        None => seq![],
    } + "    </div>\n  </details>\n</section>\n"@
}

fn render_solution_head(out: &mut Vec<char>, id: &str, open: bool)
    ensures
        final(out)@ == old(out)@ + solution_head(id@, open),
{
    proof {
        reveal(solution_head);
    }
    push_str(out, "<section class=\"exercise-solution\" id=\"");
    push_str(out, id);
    push_str(out, "-solution\">\n  <details class=\"solution\"");
    if open {
        push_str(out, " open");
    }
    push_str(out, ">\n    <summary>\n      <span class=\"solution-warning\">⚠️ Try the exercise first!</span>\n      <span class=\"solution-toggle\">Show Solution</span>\n    </summary>\n    <div class=\"solution-content\">\n");
    assert(out@ =~= old(out)@ + solution_head(id@, open));
}

fn render_solution(out: &mut Vec<char>, sol: &Solution, reveal_solution: bool, id: &str)
    ensures
        final(out)@ == old(out)@ + solution_html(
            sol@,
            solution_open(sol.reveal, reveal_solution),
            id@,
        ),
{
    proof {
        reveal(solution_html);
    }
    let open = match sol.reveal {
        SolutionReveal::Always => true,
        SolutionReveal::Never => false,
        SolutionReveal::OnDemand => reveal_solution,
    };
    render_solution_head(out, id, open);
    push_str(out, "      <pre><code class=\"language-");
    push_escaped(out, sol.language.as_str(), false);
    push_str(out, "\">");
    push_escaped(out, sol.code.as_str(), false);
    push_str(out, "</code></pre>\n");
    if let Some(e) = &sol.explanation {
        push_str(out, "      <div class=\"solution-explanation\">\n        <h4>Explanation</h4>\n");
        let html = markdown_html(e.as_str());
        push_str(out, html.as_str());
        push_str(out, "      </div>\n");
    }
    push_str(out, "    </div>\n  </details>\n</section>\n");
    assert(out@ =~= old(out)@ + solution_html(sol@, open, id@));
}

#[verifier::opaque]
pub open spec fn test_actions(mode: TestMode, id: Seq<char>, enable_playground: bool, url: Seq<char>) -> Seq<char> {
    "  <div class=\"test-actions\">\n"@ + if mode == TestMode::Playground && enable_playground {
        "    <button class=\"btn btn-run-tests\" data-exercise-id=\""@ + id
            + "\" data-playground-url=\""@ + esc(url) + "\">▶ Run Tests</button>\n"@
    } else {
        "    <div class=\"local-test-info\">\n      <p>Run these tests locally with:</p>\n      <pre><code>cargo test</code></pre>\n    </div>\n"@
    } + "  </div>\n"@
}

#[verifier::opaque]
pub open spec fn tests_html(t: TestsV, id: Seq<char>, enable_playground: bool, url: Seq<char>) -> Seq<char> {
    "<section class=\"exercise-tests\" id=\""@ + id + "-tests\" data-mode=\""@ + mode_text(t.mode)
        + "\">\n  <h3>🧪 Tests</h3>\n"@ + test_actions(t.mode, id, enable_playground, url)
        + "  <div class=\"test-results\" id=\"results-"@ + id
        + "\" hidden></div>\n  <details class=\"tests-code\">\n    <summary>View Test Code</summary>\n    <pre><code class=\"language-"@
        + esc(t.language) + "\">"@ + esc(t.code) + "</code></pre>\n  </details>\n</section>\n"@
}

fn render_test_actions(out: &mut Vec<char>, mode: TestMode, id: &str, enable_playground: bool, url: &str)
    ensures
        final(out)@ == old(out)@ + test_actions(mode, id@, enable_playground, url@),
{
    proof {
        reveal(test_actions);
    }
    push_str(out, "  <div class=\"test-actions\">\n");
    if mode == TestMode::Playground && enable_playground {
        push_str(out, "    <button class=\"btn btn-run-tests\" data-exercise-id=\"");
        push_str(out, id);
        push_str(out, "\" data-playground-url=\"");
        push_escaped(out, url, false);
        push_str(out, "\">▶ Run Tests</button>\n");
    } else {
        push_str(out, "    <div class=\"local-test-info\">\n      <p>Run these tests locally with:</p>\n      <pre><code>cargo test</code></pre>\n    </div>\n");
    }
    push_str(out, "  </div>\n");
    assert(out@ =~= old(out)@ + test_actions(mode, id@, enable_playground, url@));
}

fn render_tests(out: &mut Vec<char>, t: &TestBlock, id: &str, enable_playground: bool, url: &str)
    ensures
        final(out)@ == old(out)@ + tests_html(t@, id@, enable_playground, url@),
{
    proof {
        reveal(tests_html);
    }
    push_str(out, "<section class=\"exercise-tests\" id=\"");
    push_str(out, id);
    push_str(out, "-tests\" data-mode=\"");
    push_str(out, mode_name(t.mode));
    push_str(out, "\">\n  <h3>🧪 Tests</h3>\n");
    render_test_actions(out, t.mode, id, enable_playground, url);
    push_str(out, "  <div class=\"test-results\" id=\"results-");
    push_str(out, id);
    push_str(out, "\" hidden></div>\n  <details class=\"tests-code\">\n    <summary>View Test Code</summary>\n    <pre><code class=\"language-");
    push_escaped(out, t.language.as_str(), false);
    push_str(out, "\">");
    push_escaped(out, t.code.as_str(), false);
    push_str(out, "</code></pre>\n  </details>\n</section>\n");
    assert(out@ =~= old(out)@ + tests_html(t@, id@, enable_playground, url@));
}

pub open spec fn opt_objectives_html(o: Option<ObjectivesV>, id: Seq<char>) -> Seq<char> {
    match o {
        Some(o) => objectives_html(o, id),
        None => seq![],
    }
}

pub open spec fn opt_starter_html(st: Option<StarterV>, id: Seq<char>) -> Seq<char> {
    match st {
        Some(st) => starter_html(st, id),
        None => seq![],
    }
}

pub open spec fn opt_solution_html(sol: Option<SolutionV>, reveal_solution: bool, id: Seq<char>) -> Seq<char> {
    match sol {
        Some(sol) => solution_html(sol, solution_open(sol.reveal, reveal_solution), id),
        None => seq![],
    }
}

pub open spec fn opt_tests_html(t: Option<TestsV>, id: Seq<char>, enable_playground: bool, url: Seq<char>) -> Seq<char> {
    match t {
        Some(t) => tests_html(t, id, enable_playground, url),
        None => seq![],
    }
}

#[verifier::opaque]
pub open spec fn article_open(id: Seq<char>, d: Difficulty) -> Seq<char> {
    "<article class=\"exercise\" data-exercise-id=\""@ + esc(id) + "\" data-difficulty=\""@
        + difficulty_text(d) + "\">\n"@
}

/// The article opening, header, navigation and description.
#[verifier::opaque]
pub open spec fn exercise_html_first(ex: ExerciseV) -> Seq<char> {
    article_open(ex.metadata.id, ex.metadata.difficulty) + header_html(ex) + nav_html(ex) + when(
        ex.description.len() > 0,
        description_html(ex.description, ex.metadata.id),
    )
}

/// The objectives, discussion, starter code and hints.
#[verifier::opaque]
pub open spec fn exercise_html_second(ex: ExerciseV, reveal_hints: bool) -> Seq<char> {
    opt_objectives_html(ex.objectives, ex.metadata.id) + match ex.discussion {
        Some(d) => discussion_html(d),
        None => seq![],
    } + opt_starter_html(ex.starter, ex.metadata.id) + when(
        ex.hints.len() > 0,
        hints_html(ex.hints, reveal_hints, ex.metadata.id),
    )
}

/// The solution, tests, reflection, footer and article closing.
#[verifier::opaque]
pub open spec fn exercise_html_third(ex: ExerciseV, config: ConfigV) -> Seq<char> {
    opt_solution_html(ex.solution, config.reveal_solution, ex.metadata.id) + opt_tests_html(
        ex.tests,
        ex.metadata.id,
        config.enable_playground,
        config.playground_url,
    ) + match ex.reflection {
        Some(r) => reflection_html(r, ex.metadata.id),
        None => seq![],
    } + when(config.enable_progress, footer_html(ex.metadata.id)) + "</article>\n"@
}

/// The HTML of an exercise under a render configuration.
#[verifier::opaque]
pub open spec fn exercise_html(ex: ExerciseV, config: ConfigV) -> Seq<char> {
    exercise_html_first(ex) + exercise_html_second(ex, config.reveal_hints) + exercise_html_third(
        ex,
        config,
    )
}

fn render_first(out: &mut Vec<char>, ex: &Exercise)
    ensures
        final(out)@ == old(out)@ + exercise_html_first(ex@),
{
    proof {
        reveal(article_open);
        reveal(exercise_html_first);
    }
    let id = ex.metadata.id.as_str();
    push_str(out, "<article class=\"exercise\" data-exercise-id=\"");
    push_escaped(out, id, false);
    push_str(out, "\" data-difficulty=\"");
    push_str(out, difficulty_name(ex.metadata.difficulty));
    push_str(out, "\">\n");
    let ghost a = out@;
    assert(a =~= old(out)@ + article_open(ex@.metadata.id, ex@.metadata.difficulty));
    render_header(out, ex);
    render_navigation(out, ex);
    let ghost b = out@;
    let desc = chars_of(ex.description.as_str());
    if desc.len() > 0 {
        render_description(out, ex.description.as_str(), id);
    }
    assert(out@ =~= b + when(
        ex@.description.len() > 0,
        description_html(ex@.description, ex@.metadata.id),
    ));
    assert(out@ =~= old(out)@ + exercise_html_first(ex@));
}

fn render_second(out: &mut Vec<char>, ex: &Exercise, reveal_hints: bool)
    ensures
        final(out)@ == old(out)@ + exercise_html_second(ex@, reveal_hints),
{
    proof {
        reveal(exercise_html_second);
    }
    let id = ex.metadata.id.as_str();
    if let Some(o) = &ex.objectives {
        render_objectives(out, o, id);
    }
    let ghost a = out@;
    assert(a =~= old(out)@ + opt_objectives_html(ex@.objectives, ex@.metadata.id));
    if let Some(d) = &ex.discussion {
        render_discussion(out, d);
    }
    let ghost b = out@;
    if let Some(st) = &ex.starter {
        render_starter(out, st, id);
    }
    let ghost c = out@;
    assert(c =~= b + opt_starter_html(ex@.starter, ex@.metadata.id));
    if ex.hints.len() > 0 {
        render_hints(out, &ex.hints, reveal_hints, id);
    }
    assert(hints_view(ex.hints@).len() == ex.hints@.len());
    assert(out@ =~= c + when(
        ex@.hints.len() > 0,
        hints_html(ex@.hints, reveal_hints, ex@.metadata.id),
    ));
    assert(out@ =~= old(out)@ + exercise_html_second(ex@, reveal_hints));
}

fn render_third(out: &mut Vec<char>, ex: &Exercise, config: &RenderConfig)
    ensures
        final(out)@ == old(out)@ + exercise_html_third(ex@, config@),
{
    proof {
        reveal(exercise_html_third);
    }
    let id = ex.metadata.id.as_str();
    if let Some(sol) = &ex.solution {
        render_solution(out, sol, config.reveal_solution, id);
    }
    let ghost a = out@;
    assert(a =~= old(out)@ + opt_solution_html(ex@.solution, config.reveal_solution, ex@.metadata.id));
    if let Some(t) = &ex.tests {
        render_tests(out, t, id, config.enable_playground, config.playground_url.as_str());
    }
    let ghost b = out@;
    assert(b =~= a + opt_tests_html(
        ex@.tests,
        ex@.metadata.id,
        config.enable_playground,
        config.playground_url@,
    ));
    if let Some(r) = &ex.reflection {
        render_reflection(out, r, id);
    }
    if config.enable_progress {
        render_footer(out, id);
    }
    push_str(out, "</article>\n");
    assert(out@ =~= old(out)@ + exercise_html_third(ex@, config@));
}

/// Renders an exercise to HTML with a render configuration.
pub fn render_exercise_with_config(exercise: &Exercise, config: &RenderConfig) -> (r: Result<String, RenderError>)
    ensures
        r is Ok,
        r->Ok_0@ == exercise_html(exercise@, config@),
{
    proof {
        reveal(exercise_html);
    }
    let mut out: Vec<char> = Vec::new();
    render_first(&mut out, exercise);
    render_second(&mut out, exercise, config.reveal_hints);
    render_third(&mut out, exercise, config);
    assert(out@ =~= exercise_html(exercise@, config@));
    Ok(finish(out))
}

/// Renders an exercise to HTML with the default configuration.
pub fn render_exercise(exercise: &Exercise) -> (r: Result<String, RenderError>)
    ensures
        r is Ok,
        r->Ok_0@ == exercise_html(exercise@, default_config()),
{
    let config = RenderConfig::new();
    render_exercise_with_config(exercise, &config)
}

} // verus!
