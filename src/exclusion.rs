//! Byte ranges of a Markdown document that are code or raw HTML: directive
//! syntax inside them is an example, not a directive.

use pulldown_cmark::{Event, Tag, TagEnd};
use vstd::prelude::*;

verus! {

/// The CommonMark events that matter for exclusion, one per event kind of
/// the Markdown parser; every other event is `Other`.
#[derive(Debug, Clone, Copy, PartialEq, Eq, Structural)]
pub enum MarkEvent {
    CodeBlockStart,
    HtmlBlockStart,
    CodeBlockEnd,
    HtmlBlockEnd,
    Code,
    Html,
    InlineHtml,
    Other,
}

/// The events, with their byte ranges, of a CommonMark parse of `md`.
pub uninterp spec fn markdown_events(md: Seq<char>) -> Seq<(MarkEvent, usize, usize)>;

/// Relies on `pulldown_cmark::Parser::into_offset_iter`: the document's
/// events in order, each with the byte range of source it covers.
#[verifier::external_body]
fn offset_events(md: &str) -> (r: Vec<(MarkEvent, usize, usize)>)
    ensures
        r@ == markdown_events(md@),
{
    let mut out = Vec::new();
    for (event, range) in pulldown_cmark::Parser::new(md).into_offset_iter() {
        let kind = match event {
            Event::Start(Tag::CodeBlock(_)) => MarkEvent::CodeBlockStart,
            Event::Start(Tag::HtmlBlock) => MarkEvent::HtmlBlockStart,
            Event::End(TagEnd::CodeBlock) => MarkEvent::CodeBlockEnd,
            Event::End(TagEnd::HtmlBlock) => MarkEvent::HtmlBlockEnd,
            Event::Code(_) => MarkEvent::Code,
            Event::Html(_) => MarkEvent::Html,
            Event::InlineHtml(_) => MarkEvent::InlineHtml,
            _ => MarkEvent::Other,
        };
        out.push((kind, range.start, range.end));
    }
    out
}

pub open spec fn is_block_start(e: MarkEvent) -> bool {
    e == MarkEvent::CodeBlockStart || e == MarkEvent::HtmlBlockStart
}

pub open spec fn is_block_end(e: MarkEvent) -> bool {
    e == MarkEvent::CodeBlockEnd || e == MarkEvent::HtmlBlockEnd
}

pub open spec fn is_inline(e: MarkEvent) -> bool {
    e == MarkEvent::Code || e == MarkEvent::Html || e == MarkEvent::InlineHtml
}

/// The ranges that `evs` yields, given an open block that started at
/// `open` and the ranges `acc` found before: a code or HTML block spans from
/// the start of its opening event to the end of its closing one; inline code
/// and inline HTML outside such a block are ranges of their own.
pub open spec fn ranges_from(
    evs: Seq<(MarkEvent, usize, usize)>,
    open: Option<usize>,
    acc: Seq<(usize, usize)>,
) -> Seq<(usize, usize)>
    decreases evs.len(),
{
    if evs.len() == 0 {
        acc
    } else {
        let (e, s, t) = evs[0];
        let rest = evs.drop_first();
        if is_block_start(e) {
            ranges_from(rest, if open is None { Some(s) } else { open }, acc)
        } else if is_block_end(e) {
            match open {
                Some(b) => ranges_from(rest, None, acc.push((b, t))),
                None => ranges_from(rest, None, acc),
            }
        } else if is_inline(e) && open is None {
            ranges_from(rest, open, acc.push((s, t)))
        } else {
            ranges_from(rest, open, acc)
        }
    }
}

pub open spec fn excluded_ranges(evs: Seq<(MarkEvent, usize, usize)>) -> Seq<(usize, usize)> {
    ranges_from(evs, None, seq![])
}

/// The excluded byte ranges that a sequence of Markdown events yields.
pub fn ranges_of_events(evs: &Vec<(MarkEvent, usize, usize)>) -> (r: Vec<(usize, usize)>)
    ensures
        r@ == excluded_ranges(evs@),
{
    let mut ranges: Vec<(usize, usize)> = Vec::new();
    let mut open: Option<usize> = None;
    let mut i: usize = 0;
    assert(evs@.subrange(0, evs@.len() as int) =~= evs@);
    while i < evs.len()
        invariant
            i <= evs@.len(),
            ranges_from(evs@.subrange(i as int, evs@.len() as int), open, ranges@)
                == excluded_ranges(evs@),
        decreases evs@.len() - i,
    {
        let ghost rest = evs@.subrange(i as int, evs@.len() as int);
        assert(rest.drop_first() =~= evs@.subrange(i + 1, evs@.len() as int));
        let (e, s, t) = evs[i];
        match e {
            MarkEvent::CodeBlockStart | MarkEvent::HtmlBlockStart => {
                if open.is_none() {
                    open = Some(s);
                }
            },
            MarkEvent::CodeBlockEnd | MarkEvent::HtmlBlockEnd => {
                match open {
                    Some(b) => {
                        ranges.push((b, t));
                    },
                    None => {},
                }
                open = None;
            },
            MarkEvent::Code | MarkEvent::Html | MarkEvent::InlineHtml => {
                if open.is_none() {
                    ranges.push((s, t));
                }
            },
            MarkEvent::Other => {},
        }
        i = i + 1;
    }
    assert(evs@.subrange(i as int, evs@.len() as int) =~= seq![]);
    ranges
}

/// The byte ranges of `markdown` that are code blocks, HTML blocks, inline
/// code or inline HTML.
pub fn find_excluded_ranges(markdown: &str) -> (r: Vec<(usize, usize)>)
    ensures
        r@ == excluded_ranges(markdown_events(markdown@)),
{
    let evs = offset_events(markdown);
    ranges_of_events(&evs)
}

/// A line spanning the bytes `[start, end)` is excluded when a range holds
/// its start or covers the whole line.
pub open spec fn line_excluded(rs: Seq<(usize, usize)>, start: int, end: int) -> bool {
    exists|i: int|
        0 <= i < rs.len() && ((rs[i].0 <= start < rs[i].1) || (rs[i].0 <= start && rs[i].1
            >= end))
}

/// Whether the line spanning the bytes `[line.0, line.1)` is excluded.
pub fn is_range_excluded(line: (usize, usize), excluded: &Vec<(usize, usize)>) -> (r: bool)
    ensures
        r == line_excluded(excluded@, line.0 as int, line.1 as int),
{
    let mut i: usize = 0;
    while i < excluded.len()
        invariant
            i <= excluded@.len(),
            forall|j: int|
                0 <= j < i ==> !((excluded@[j].0 <= line.0 < excluded@[j].1) || (
                excluded@[j].0 <= line.0 && excluded@[j].1 >= line.1)),
        decreases excluded@.len() - i,
    {
        let (s, t) = excluded[i];
        if (s <= line.0 && line.0 < t) || (s <= line.0 && t >= line.1) {
            return true;
        }
        i = i + 1;
    }
    false
}

} // verus!
