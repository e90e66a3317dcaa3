//! The directive scanner and block assembler: one forward pass over the
//! lines of a document that finds `::: name attrs` ... `:::` blocks outside
//! code, collects the title and description, and hands each closed block to
//! its interpreter.

use crate::attrs::{attrs_in_window, attrs_of, find_white, white_index, Attributes};
use crate::blocks::{
    apply_exercise_block, apply_hint_block, apply_objectives_block, apply_solution_block,
    apply_starter_block, apply_tests_block, list_field, outcome_is, parse_exercise_block,
    parse_hint_block, parse_list_block, parse_objectives_block, parse_solution_block,
    parse_starter_block, parse_tests_block, ParseError, ParseErrorV,
};
use crate::exclusion::{excluded_ranges, find_excluded_ranges, is_range_excluded, line_excluded, markdown_events};
use crate::lines::{opt_view, push_window};
use crate::text::{
    byte_len, chars_of, find_char, index_of, lemma_index_of_bound, starts_with, string_from,
    trim, trim_window, utf8_len_char, window_eq, window_starts_with,
};
use crate::types::{Difficulty, Exercise, ExerciseMetadata, ExerciseV, MetadataV};
use vstd::prelude::*;

verus! {

/// The language given to code whose block and fence name none.
pub const DEFAULT_LANGUAGE: &'static str = "rust";

/// An open directive: its name, its attributes and its 1-based line.
pub struct Directive {
    pub name: String,
    pub attributes: Attributes,
    pub line: usize,
}

/// A closed directive block: the directive and the character window of its body.
pub struct Block {
    pub directive: Directive,
    pub lo: usize,
    pub hi: usize,
}

pub struct OpenV {
    pub name: Seq<char>,
    pub attrs: Map<Seq<char>, Seq<char>>,
    pub line: nat,
    pub start: int,
}

pub struct BlockV {
    pub name: Seq<char>,
    pub attrs: Map<Seq<char>, Seq<char>>,
    pub line: nat,
    pub content: Seq<char>,
}

/// The scanner's state between lines.
pub struct ScanV {
    /// The directive whose body is being collected, if any
    pub open: Option<OpenV>,
    /// The blocks closed so far, in order
    pub blocks: Seq<BlockV>,
    /// The description collected so far
    pub desc: Seq<char>,
    /// Whether the description is still being collected
    pub in_desc: bool,
    /// The description, once frozen
    pub description: Seq<char>,
    /// The title, once found
    pub title: Option<Seq<char>>,
}

/// `s` without trailing `\n` and `\r` characters.
pub open spec fn strip_eol(s: Seq<char>) -> Seq<char>
    decreases s.len(),
{
    if s.len() > 0 && (s.last() == '\n' || s.last() == '\r') {
        strip_eol(s.drop_last())
    } else {
        s
    }
}

/// `s` without its leading `#` characters.
pub open spec fn strip_hashes(s: Seq<char>) -> Seq<char>
    decreases s.len(),
{
    if s.len() > 0 && s[0] == '#' {
        strip_hashes(s.drop_first())
    } else {
        s
    }
}

pub open spec fn directive_marker() -> Seq<char> {
    seq![':', ':', ':']
}

/// The name and attributes of a directive opening line `::: name attrs`;
/// `None` for any other line, a bare `:::` closer included.
pub open spec fn directive_start(line: Seq<char>) -> Option<(Seq<char>, Map<Seq<char>, Seq<char>>)> {
    let t = trim(line);
    if !starts_with(t, directive_marker()) {
        None
    } else {
        let rest = trim(t.subrange(3, t.len() as int));
        if rest.len() == 0 || starts_with(rest, directive_marker()) {
            None
        } else {
            let w = white_index(rest);
            let text = if w < rest.len() {
                rest.subrange(w + 1, rest.len() as int)
            } else {
                seq![]
            };
            Some((rest.subrange(0, w), attrs_of(text)))
        }
    }
}

/// The end of the line of `doc` that starts at `p`, its `\n` included.
pub open spec fn line_end(doc: Seq<char>, p: int) -> int {
    let i = index_of(doc.subrange(p, doc.len() as int), '\n');
    if p + i < doc.len() {
        p + i + 1
    } else {
        doc.len() as int
    }
}

/// `a + x`, or `usize::MAX` when that is larger.
pub open spec fn sat_add(a: int, x: int) -> int {
    if a + x > usize::MAX {
        usize::MAX as int
    } else {
        a + x
    }
}

pub open spec fn close_block(o: OpenV, doc: Seq<char>, end: int) -> BlockV {
    BlockV { name: o.name, attrs: o.attrs, line: o.line, content: doc.subrange(o.start, end) }
}

/// The state after the line `doc[p..q]`, number `n`, spanning the bytes `[b, bq)`.
pub open spec fn scan_line(
    doc: Seq<char>,
    rs: Seq<(usize, usize)>,
    p: int,
    q: int,
    b: int,
    bq: int,
    n: nat,
    meta: Seq<char>,
    st: ScanV,
) -> ScanV {
    let line = strip_eol(doc.subrange(p, q));
    let excl = line_excluded(rs, b, bq);
    if !excl && directive_start(line) is Some {
        let (name, attrs) = directive_start(line)->0;
        let blocks = match st.open {
            Some(o) => st.blocks.push(close_block(o, doc, p)),
            None => st.blocks,
        };
        let freeze = st.open is None && st.in_desc && name != meta;
        ScanV {
            open: Some(OpenV { name, attrs, line: n, start: q }),
            blocks,
            in_desc: if freeze {
                false
            } else {
                st.in_desc
            },
            description: if freeze {
                trim(st.desc)
            } else {
                st.description
            },
            ..st
        }
    } else if !excl && trim(line) == directive_marker() {
        match st.open {
            Some(o) => ScanV { open: None, blocks: st.blocks.push(close_block(o, doc, p)), ..st },
            None => st,
        }
    } else if st.open is Some || !st.in_desc {
        st
    } else {
        let heading = trim(strip_hashes(line));
        if st.title is None && line.len() > 0 && line[0] == '#' && !excl && heading.len() > 0 {
            ScanV { title: Some(heading), ..st }
        } else {
            ScanV { desc: st.desc + doc.subrange(p, q), ..st }
        }
    }
}

#[via_fn]
proof fn scan_decreases(
    doc: Seq<char>,
    rs: Seq<(usize, usize)>,
    p: int,
    b: int,
    n: nat,
    meta: Seq<char>,
    st: ScanV,
) {
    if 0 <= p < doc.len() {
        lemma_index_of_bound(doc.subrange(p, doc.len() as int), '\n');
    }
}

/// The scanner's state once the lines of `doc` from position `p` on are
/// read; `meta` names the metadata directive, which does not end the description.
pub open spec fn scan_from(
    doc: Seq<char>,
    rs: Seq<(usize, usize)>,
    p: int,
    b: int,
    n: nat,
    meta: Seq<char>,
    st: ScanV,
) -> ScanV
    decreases doc.len() - p,
    via scan_decreases
{
    if p < 0 || p >= doc.len() {
        st
    } else {
        let q = line_end(doc, p);
        let bq = sat_add(b, byte_len(doc.subrange(p, q)) as int);
        scan_from(doc, rs, q, bq, n + 1, meta, scan_line(doc, rs, p, q, b, bq, n, meta, st))
    }
}

pub open spec fn initial_scan() -> ScanV {
    ScanV {
        open: None,
        blocks: seq![],
        desc: seq![],
        in_desc: true,
        description: seq![],
        title: None,
    }
}

/// The scanner's state at the end of `doc`, whose excluded byte ranges are
/// `rs`, with `meta` the name of the metadata directive.
pub open spec fn scan_with(doc: Seq<char>, rs: Seq<(usize, usize)>, meta: Seq<char>) -> ScanV {
    scan_from(doc, rs, 0, 0, 1, meta, initial_scan())
}

/// The scan of a code exercise, whose metadata directive is `exercise`.
pub open spec fn scan(doc: Seq<char>, rs: Seq<(usize, usize)>) -> ScanV {
    scan_with(doc, rs, "exercise"@)
}

#[via_fn]
proof fn prefix_decreases(doc: Seq<char>, rs: Seq<(usize, usize)>, p: int, b: int, pre: Seq<char>) {
    if 0 <= p < doc.len() {
        lemma_index_of_bound(doc.subrange(p, doc.len() as int), '\n');
    }
}

/// Whether a line of `doc` from position `p` on, outside the ranges `rs`,
/// begins with `pre` once trimmed.
pub open spec fn has_line_from(doc: Seq<char>, rs: Seq<(usize, usize)>, p: int, b: int, pre: Seq<char>) -> bool
    decreases doc.len() - p,
    via prefix_decreases
{
    if p < 0 || p >= doc.len() {
        false
    } else {
        let q = line_end(doc, p);
        let bq = sat_add(b, byte_len(doc.subrange(p, q)) as int);
        if !line_excluded(rs, b, bq) && starts_with(trim(doc.subrange(p, q)), pre) {
            true
        } else {
            has_line_from(doc, rs, q, bq, pre)
        }
    }
}

pub open spec fn exercise_marker() -> Seq<char> {
    seq![':', ':', ':', ' ', 'e', 'x', 'e', 'r', 'c', 'i', 's', 'e']
}

/// Whether `doc` has a line outside the ranges `rs` that begins with `pre`.
pub open spec fn has_line(doc: Seq<char>, rs: Seq<(usize, usize)>, pre: Seq<char>) -> bool {
    has_line_from(doc, rs, 0, 0, pre)
}

/// The block `b` applied to `ex`; directives of other names leave `ex` as it is.
pub open spec fn apply_block(ex: ExerciseV, b: BlockV, dl: Seq<char>) -> Result<ExerciseV, ParseErrorV> {
    if b.name == "exercise"@ {
        apply_exercise_block(ex, b.content)
    } else if b.name == "objectives"@ {
        apply_objectives_block(ex, b.content)
    } else if b.name == "discussion"@ {
        Ok(
            match list_field(b.content) {
                Some(items) => ExerciseV { discussion: Some(items), ..ex },
                None => ex,
            },
        )
    } else if b.name == "starter"@ {
        Ok(apply_starter_block(ex, b.attrs, b.content, dl))
    } else if b.name == "hint"@ {
        apply_hint_block(ex, b.attrs, b.content)
    } else if b.name == "solution"@ {
        Ok(apply_solution_block(ex, b.attrs, b.content, dl))
    } else if b.name == "tests"@ {
        Ok(apply_tests_block(ex, b.attrs, b.content, dl))
    } else if b.name == "reflection"@ {
        Ok(
            match list_field(b.content) {
                Some(items) => ExerciseV { reflection: Some(items), ..ex },
                None => ex,
            },
        )
    } else {
        Ok(ex)
    }
}

/// The blocks `bs` applied to `ex` in order; the first error ends it.
pub open spec fn apply_blocks(ex: ExerciseV, bs: Seq<BlockV>, dl: Seq<char>) -> Result<ExerciseV, ParseErrorV>
    decreases bs.len(),
{
    if bs.len() == 0 {
        Ok(ex)
    } else {
        match apply_block(ex, bs[0], dl) {
            Err(e) => Err(e),
            Ok(ex2) => apply_blocks(ex2, bs.drop_first(), dl),
        }
    }
}

/// The record before any block is applied: the title and description of the
/// scan, and defaults elsewhere.
pub open spec fn initial_exercise(sc: ScanV) -> ExerciseV {
    ExerciseV {
        metadata: MetadataV {
            id: seq![],
            difficulty: Difficulty::Beginner,
            time_minutes: None,
            prerequisites: seq![],
        },
        title: sc.title,
        description: if sc.in_desc {
            trim(sc.desc)
        } else {
            sc.description
        },
        objectives: None,
        discussion: None,
        starter: None,
        hints: seq![],
        solution: None,
        tests: None,
        reflection: None,
    }
}

/// What parsing `doc`, whose excluded byte ranges are `rs`, yields.
pub open spec fn parse_spec(doc: Seq<char>, rs: Seq<(usize, usize)>) -> Result<ExerciseV, ParseErrorV> {
    if !has_line(doc, rs, exercise_marker()) {
        Err(ParseErrorV::UnknownExerciseType)
    } else {
        let sc = scan(doc, rs);
        match apply_blocks(initial_exercise(sc), sc.blocks, DEFAULT_LANGUAGE@) {
            Err(e) => Err(e),
            Ok(ex) => match sc.open {
                Some(o) => Err(ParseErrorV::UnclosedBlock(o.name, o.line)),
                None => Ok(ex),
            },
        }
    }
}

pub open spec fn result_view(r: Result<Exercise, ParseError>) -> Result<ExerciseV, ParseErrorV> {
    match r {
        Ok(e) => Ok(e@),
        Err(e) => Err(e@),
    }
}

pub open spec fn block_view(b: Block, doc: Seq<char>) -> BlockV {
    BlockV {
        name: b.directive.name@,
        attrs: b.directive.attributes@,
        line: b.directive.line as nat,
        content: doc.subrange(b.lo as int, b.hi as int),
    }
}

pub open spec fn blocks_view(bs: Seq<Block>, doc: Seq<char>) -> Seq<BlockV> {
    bs.map_values(|b: Block| block_view(b, doc))
}

/// The directive that the line `s[lo..hi]` opens, if it opens one.
pub fn parse_directive_start(s: &Vec<char>, lo: usize, hi: usize, line_number: usize) -> (r: Option<Directive>)
    requires
        lo <= hi <= s@.len(),
    ensures
        match directive_start(s@.subrange(lo as int, hi as int)) {
            Some((name, attrs)) => r is Some && r->0.name@ == name && r->0.attributes@ == attrs
                && r->0.line == line_number,
            None => r is None,
        },
{
    let (a, b) = trim_window(s, lo, hi);
    let ghost t = s@.subrange(a as int, b as int);
    proof {
        reveal_strlit(":::");
        assert(":::"@ =~= directive_marker());
    }
    if !window_starts_with(s, a, b, ":::") {
        return None;
    }
    let (c, d) = trim_window(s, a + 3, b);
    assert(t.subrange(3, t.len() as int) =~= s@.subrange(a + 3, b as int));
    if c == d || window_starts_with(s, c, d, ":::") {
        return None;
    }
    let ghost rest = s@.subrange(c as int, d as int);
    let w = find_white(s, c, d);
    proof {
        crate::attrs::lemma_white_index(rest);
        assert(rest.subrange(0, w - c) =~= s@.subrange(c as int, w as int));
    }
    let name = string_from(s, c, w);
    let attributes = if w < d {
        assert(rest.subrange(w - c + 1, rest.len() as int) =~= s@.subrange(w + 1, d as int));
        attrs_in_window(s, w + 1, d)
    } else {
        assert(s@.subrange(d as int, d as int) =~= Seq::<char>::empty());
        attrs_in_window(s, d, d)
    };
    Some(Directive { name, attributes, line: line_number })
}

/// `b` plus the UTF-8 length of `s[p..q]`, saturating at `usize::MAX`.
fn add_bytes(s: &Vec<char>, p: usize, q: usize, b: usize) -> (r: usize)
    requires
        p <= q <= s@.len(),
    ensures
        r == sat_add(b as int, byte_len(s@.subrange(p as int, q as int)) as int),
{
    let mut r = b;
    let mut i = p;
    assert(s@.subrange(p as int, p as int) =~= Seq::<char>::empty());
    while i < q
        invariant
            p <= i <= q <= s@.len(),
            r == sat_add(b as int, byte_len(s@.subrange(p as int, i as int)) as int),
        decreases q - i,
    {
        assert(s@.subrange(p as int, i + 1).drop_last() =~= s@.subrange(p as int, i as int));
        let u = utf8_len_char(s[i]);
        r = if r > usize::MAX - u {
            usize::MAX
        } else {
            r + u
        };
        i = i + 1;
    }
    r
}

/// The end of `s[p..q]` once trailing `\n` and `\r` are removed.
fn strip_eol_end(s: &Vec<char>, p: usize, q: usize) -> (r: usize)
    requires
        p <= q <= s@.len(),
    ensures
        p <= r <= q,
        s@.subrange(p as int, r as int) == strip_eol(s@.subrange(p as int, q as int)),
{
    let mut j = q;
    while j > p && (s[j - 1] == '\n' || s[j - 1] == '\r')
        invariant
            p <= j <= q <= s@.len(),
            strip_eol(s@.subrange(p as int, q as int)) == strip_eol(s@.subrange(p as int, j as int)),
        decreases j - p,
    {
        assert(s@.subrange(p as int, j as int).drop_last() =~= s@.subrange(p as int, j - 1));
        j = j - 1;
    }
    j
}

/// The end of the line that starts at `p`, its `\n` included.
fn line_end_exec(s: &Vec<char>, p: usize) -> (q: usize)
    requires
        p < s@.len(),
    ensures
        q == line_end(s@, p as int),
        p < q <= s@.len(),
{
    let e = find_char(s, p, s.len(), '\n');
    proof {
        lemma_index_of_bound(s@.subrange(p as int, s@.len() as int), '\n');
    }
    if e < s.len() {
        e + 1
    } else {
        s.len()
    }
}

/// Whether a line of `s`, outside the ranges `rs`, begins with `pre` once trimmed.
pub fn has_line_exec(s: &Vec<char>, rs: &Vec<(usize, usize)>, pre: &str) -> (r: bool)
    ensures
        r == has_line(s@, rs@, pre@),
{
    let mut p: usize = 0;
    let mut b: usize = 0;
    while p < s.len()
        invariant
            p <= s@.len(),
            has_line(s@, rs@, pre@) == has_line_from(s@, rs@, p as int, b as int, pre@),
        decreases s@.len() - p,
    {
        let q = line_end_exec(s, p);
        let bq = add_bytes(s, p, q, b);
        if !is_range_excluded((b, bq), rs) {
            let (a, c) = trim_window(s, p, q);
            if window_starts_with(s, a, c, pre) {
                return true;
            }
        }
        p = q;
        b = bq;
    }
    false
}

/// What a scan of a document collected.
pub struct Scanned {
    pub blocks: Vec<Block>,
    pub title: Option<String>,
    pub description: String,
    pub open: Option<Directive>,
}

pub open spec fn blocks_fit(bs: Seq<Block>, len: int) -> bool {
    forall|i: int| 0 <= i < bs.len() ==> #[trigger] bs[i].lo <= bs[i].hi && bs[i].hi <= len
}

/// Scans the lines of `s`, whose excluded byte ranges are `rs`; `meta` names
/// the metadata directive.
pub fn scan_document(s: &Vec<char>, rs: &Vec<(usize, usize)>, meta: &str) -> (r: Scanned)
    ensures
        blocks_view(r.blocks@, s@) == scan_with(s@, rs@, meta@).blocks,
        blocks_fit(r.blocks@, s@.len() as int),
        opt_view(r.title) == scan_with(s@, rs@, meta@).title,
        r.description@ == (if scan_with(s@, rs@, meta@).in_desc {
            trim(scan_with(s@, rs@, meta@).desc)
        } else {
            scan_with(s@, rs@, meta@).description
        }),
        match r.open {
            Some(d) => scan_with(s@, rs@, meta@).open is Some && d.name@ == scan_with(s@, rs@, meta@).open->0.name
                && d.line == scan_with(s@, rs@, meta@).open->0.line,
            None => scan_with(s@, rs@, meta@).open is None,
        },
{
    let ghost target = scan_with(s@, rs@, meta@);
    let ghost mut st = initial_scan();
    let mut blocks: Vec<Block> = Vec::new();
    let mut open: Option<Directive> = None;
    let mut open_start: usize = 0;
    let mut desc: Vec<char> = Vec::new();
    let mut in_desc = true;
    let mut description = String::new();
    let mut title: Option<String> = None;
    let mut p: usize = 0;
    let mut b: usize = 0;
    let mut done: usize = 0;
    assert(blocks_view(blocks@, s@) =~= st.blocks);
    while p < s.len()
        invariant
            p <= s@.len(),
            done <= p,
            scan_from(s@, rs@, p as int, b as int, (done + 1) as nat, meta@, st) == target,
            blocks_view(blocks@, s@) == st.blocks,
            blocks_fit(blocks@, s@.len() as int),
            desc@ == st.desc,
            in_desc == st.in_desc,
            description@ == st.description,
            opt_view(title) == st.title,
            match open {
                Some(d) => st.open == Some(
                    OpenV {
                        name: d.name@,
                        attrs: d.attributes@,
                        line: d.line as nat,
                        start: open_start as int,
                    },
                ) && open_start <= p,
                None => st.open is None,
            },
        decreases s@.len() - p,
    {
        let n = done + 1;
        let q = line_end_exec(s, p);
        let bq = add_bytes(s, p, q, b);
        let le = strip_eol_end(s, p, q);
        let excl = is_range_excluded((b, bq), rs);
        let ghost next = scan_line(s@, rs@, p as int, q as int, b as int, bq as int, n as nat, meta@, st);
        let start = if excl {
            None
        } else {
            parse_directive_start(s, p, le, n)
        };
        let closer = if excl {
            false
        } else {
            let (a, c) = trim_window(s, p, le);
            proof {
                reveal_strlit(":::");
                assert(":::"@ =~= directive_marker());
            }
            window_eq(s, a, c, ":::")
        };
        let ghost bv = blocks_view(blocks@, s@);
        match start {
            Some(d) => {
                let is_meta = d.name == meta.to_owned();
                match open {
                    Some(prev) => {
                        assert(open_start <= p);
                        assert(p <= s@.len());
                        let ghost pb = Block { directive: prev, lo: open_start, hi: p };
                        let ghost ob = blocks@;
                        blocks.push(Block { directive: prev, lo: open_start, hi: p });
                        assert(blocks_view(blocks@, s@) =~= bv.push(block_view(pb, s@)));
                        assert forall|i: int| 0 <= i < blocks@.len() implies #[trigger] blocks@[i].lo
                            <= blocks@[i].hi && blocks@[i].hi <= s@.len() by {
                            if i < ob.len() {
                                assert(blocks@[i] == ob[i]);
                            }
                        }
                    },
                    None => {
                        if in_desc && !is_meta {
                            let (a, c) = trim_window(&desc, 0, desc.len());
                            assert(desc@.subrange(0, desc@.len() as int) =~= desc@);
                            description = string_from(&desc, a, c);
                            in_desc = false;
                        }
                    },
                }
                open = Some(d);
                open_start = q;
            },
            None => {
                if closer {
                    match open {
                        Some(prev) => {
                            let ghost pb = Block { directive: prev, lo: open_start, hi: p };
                            let ghost ob = blocks@;
                            blocks.push(Block { directive: prev, lo: open_start, hi: p });
                            assert(blocks_view(blocks@, s@) =~= bv.push(block_view(pb, s@)));
                            assert forall|i: int| 0 <= i < blocks@.len() implies #[trigger] blocks@[i].lo
                                <= blocks@[i].hi && blocks@[i].hi <= s@.len() by {
                                if i < ob.len() {
                                    assert(blocks@[i] == ob[i]);
                                }
                            }
                        },
                        None => {},
                    }
                    open = None;
                } else if open.is_none() && in_desc {
                    let mut h = p;
                    while h < le && s[h] == '#'
                        invariant
                            p <= h <= le <= s@.len(),
                            strip_hashes(s@.subrange(p as int, le as int)) == strip_hashes(
                                s@.subrange(h as int, le as int),
                            ),
                        decreases le - h,
                    {
                        assert(s@.subrange(h as int, le as int).drop_first() =~= s@.subrange(
                            h + 1,
                            le as int,
                        ));
                        h = h + 1;
                    }
                    let (ta, tb) = trim_window(s, h, le);
                    if title.is_none() && le > p && s[p] == '#' && !excl && ta < tb {
                        title = Some(string_from(s, ta, tb));
                    } else {
                        push_window(&mut desc, s, p, q);
                    }
                }
            },
        }
        proof {
            st = next;
        }
        p = q;
        b = bq;
        done = done + 1;
    }
    let (a, c) = trim_window(&desc, 0, desc.len());
    assert(desc@.subrange(0, desc@.len() as int) =~= desc@);
    let final_description = if in_desc {
        string_from(&desc, a, c)
    } else {
        description
    };
    Scanned { blocks, title, description: final_description, open }
}

/// Applies the closed block `block` of the document `doc` to `exercise`.
pub fn process_block(exercise: &mut Exercise, doc: &Vec<char>, block: &Block) -> (r: Result<(), ParseError>)
    requires
        block.lo <= block.hi <= doc@.len(),
    ensures
        outcome_is(r, old(exercise)@, final(exercise)@, apply_block(old(exercise)@, block_view(*block, doc@), DEFAULT_LANGUAGE@)),
{
    let name = &block.directive.name;
    let attrs = &block.directive.attributes;
    let (lo, hi) = (block.lo, block.hi);
    if *name == "exercise".to_owned() {
        let content = string_from(doc, lo, hi);
        parse_exercise_block(exercise, content.as_str())
    } else if *name == "objectives".to_owned() {
        let content = string_from(doc, lo, hi);
        parse_objectives_block(exercise, content.as_str())
    } else if *name == "discussion".to_owned() {
        match parse_list_block(doc, lo, hi) {
            Some(items) => {
                exercise.discussion = Some(items);
            },
            None => {},
        }
        Ok(())
    } else if *name == "starter".to_owned() {
        parse_starter_block(exercise, attrs, doc, lo, hi, DEFAULT_LANGUAGE);
        Ok(())
    } else if *name == "hint".to_owned() {
        parse_hint_block(exercise, attrs, doc, lo, hi)
    } else if *name == "solution".to_owned() {
        parse_solution_block(exercise, attrs, doc, lo, hi, DEFAULT_LANGUAGE);
        Ok(())
    } else if *name == "tests".to_owned() {
        parse_tests_block(exercise, attrs, doc, lo, hi, DEFAULT_LANGUAGE);
        Ok(())
    } else if *name == "reflection".to_owned() {
        match parse_list_block(doc, lo, hi) {
            Some(items) => {
                exercise.reflection = Some(items);
            },
            None => {},
        }
        Ok(())
    } else {
        Ok(())
    }
}

/// Parses `markdown`, whose excluded byte ranges (code and raw HTML) are `ranges`.
pub fn parse_exercise_with_ranges(markdown: &str, ranges: &Vec<(usize, usize)>) -> (r: Result<Exercise, ParseError>)
    ensures
        result_view(r) == parse_spec(markdown@, ranges@),
{
    let doc = chars_of(markdown);
    proof {
        reveal_strlit("::: exercise");
        assert("::: exercise"@ =~= exercise_marker());
    }
    if !has_line_exec(&doc, ranges, "::: exercise") {
        return Err(ParseError::UnknownExerciseType);
    }
    let scanned = scan_document(&doc, ranges, "exercise");
    let Scanned { blocks, title, description, open } = scanned;
    let mut exercise = Exercise {
        metadata: ExerciseMetadata {
            id: String::new(),
            difficulty: Difficulty::Beginner,
            time_minutes: None,
            prerequisites: Vec::new(),
        },
        title,
        description,
        objectives: None,
        discussion: None,
        starter: None,
        hints: Vec::new(),
        solution: None,
        tests: None,
        reflection: None,
    };
    let ghost sc = scan(doc@, ranges@);
    let ghost bvs = blocks_view(blocks@, doc@);
    assert(exercise@.metadata.prerequisites =~= Seq::<Seq<char>>::empty());
    assert(exercise@.hints =~= Seq::<crate::types::HintV>::empty());
    assert(exercise@ == initial_exercise(sc));
    assert(bvs.subrange(0, bvs.len() as int) =~= bvs);
    let mut i: usize = 0;
    while i < blocks.len()
        invariant
            i <= blocks@.len(),
            doc@ == markdown@,
            has_line(doc@, ranges@, exercise_marker()),
            sc == scan(doc@, ranges@),
            bvs == blocks_view(blocks@, doc@),
            bvs == sc.blocks,
            blocks_fit(blocks@, doc@.len() as int),
            apply_blocks(initial_exercise(sc), sc.blocks, DEFAULT_LANGUAGE@) == apply_blocks(
                exercise@,
                bvs.subrange(i as int, bvs.len() as int),
                DEFAULT_LANGUAGE@,
            ),
        decreases blocks@.len() - i,
    {
        let ghost rest = bvs.subrange(i as int, bvs.len() as int);
        assert(rest.drop_first() =~= bvs.subrange(i + 1, bvs.len() as int));
        assert(rest[0] == block_view(blocks@[i as int], doc@));
        let ghost before = exercise@;
        match process_block(&mut exercise, &doc, &blocks[i]) {
            Ok(()) => {},
            Err(e) => {
                assert(apply_block(before, rest[0], DEFAULT_LANGUAGE@) is Err);
                assert(apply_blocks(before, rest, DEFAULT_LANGUAGE@) == Err::<ExerciseV, ParseErrorV>(e@));
                return Err(e);
            },
        }
        i = i + 1;
    }
    assert(bvs.subrange(i as int, bvs.len() as int) =~= Seq::<BlockV>::empty());
    match open {
        Some(d) => Err(ParseError::UnclosedBlock { block: d.name, line: d.line }),
        None => Ok(exercise),
    }
}

/// Parses a Markdown document with exercise directives into an exercise.
pub fn parse_exercise(markdown: &str) -> (r: Result<Exercise, ParseError>)
    ensures
        result_view(r) == parse_spec(markdown@, excluded_ranges(markdown_events(markdown@))),
{
    let ranges = find_excluded_ranges(markdown);
    parse_exercise_with_ranges(markdown, &ranges)
}

} // verus!
