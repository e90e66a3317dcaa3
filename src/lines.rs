//! Line-oriented readers of a block's text: the first fenced code block, the
//! explanation after it, Markdown list items, and numbers such as `30 minutes`.

use crate::text::{
    eq_ignore_case, find_char, index_of, is_ascii_digit, lemma_index_of_bound,
    starts_with, string_from, trim, trim_start, trim_window, window_eq_ignore_case,
    window_starts_with, skip_white,
};
use vstd::prelude::*;

verus! {

/// The first line of `s` as `str::lines` yields it: up to the first `\n`,
/// without the `\r` of a `\r\n` ending.
pub open spec fn first_line(s: Seq<char>) -> Seq<char> {
    let e = index_of(s, '\n');
    if e < s.len() && e > 0 && s[e - 1] == '\r' {
        s.subrange(0, e - 1)
    } else {
        s.subrange(0, e)
    }
}

/// What follows the first line of `s` and its line ending.
pub open spec fn rest_lines(s: Seq<char>) -> Seq<char> {
    let e = index_of(s, '\n');
    if e < s.len() {
        s.subrange(e + 1, s.len() as int)
    } else {
        seq![]
    }
}

#[via_fn]
proof fn lines_decreases(s: Seq<char>) {
    lemma_index_of_bound(s, '\n');
}

/// The lines of `s`, as `str::lines` yields them.
pub open spec fn lines(s: Seq<char>) -> Seq<Seq<char>>
    decreases s.len(),
    via lines_decreases
{
    if s.len() == 0 {
        seq![]
    } else {
        seq![first_line(s)] + lines(rest_lines(s))
    }
}

/// The lines joined with `\n` between them.
pub open spec fn join_lines(ls: Seq<Seq<char>>) -> Seq<char>
    decreases ls.len(),
{
    if ls.len() == 0 {
        seq![]
    } else if ls.len() == 1 {
        ls[0]
    } else {
        join_lines(ls.drop_last()) + seq!['\n'] + ls.last()
    }
}

pub open spec fn is_fence(l: Seq<char>) -> bool {
    starts_with(trim(l), seq!['`', '`', '`'])
}

/// `s` without its leading backticks.
pub open spec fn strip_ticks(s: Seq<char>) -> Seq<char>
    decreases s.len(),
{
    if s.len() > 0 && s[0] == '`' {
        strip_ticks(s.drop_first())
    } else {
        s
    }
}

/// The info string of a fence line.
pub open spec fn fence_info_of(l: Seq<char>) -> Seq<char> {
    trim(strip_ticks(trim(l)))
}

/// The language hint and the code lines of the first fenced block among `ls`,
/// given the state reached so far.
pub open spec fn code_scan(
    ls: Seq<Seq<char>>,
    in_code: bool,
    lang: Option<Seq<char>>,
    acc: Seq<Seq<char>>,
) -> (Option<Seq<char>>, Seq<Seq<char>>)
    decreases ls.len(),
{
    if ls.len() == 0 {
        (lang, acc)
    } else if is_fence(ls[0]) {
        if in_code {
            (lang, acc)
        } else {
            let info = fence_info_of(ls[0]);
            code_scan(
                ls.drop_first(),
                true,
                if info.len() > 0 {
                    Some(info)
                } else {
                    lang
                },
                acc,
            )
        }
    } else if in_code {
        code_scan(ls.drop_first(), true, lang, acc.push(ls[0]))
    } else {
        code_scan(ls.drop_first(), false, lang, acc)
    }
}

/// The language hint (the info string, when it is not empty) and the code of
/// the first fenced code block of `s`.
pub open spec fn code_block(s: Seq<char>) -> (Option<Seq<char>>, Seq<char>) {
    let r = code_scan(lines(s), false, None, seq![]);
    (r.0, join_lines(r.1))
}

/// The lines that follow the first closed fenced block of `ls`, outside any
/// later fenced block.
pub open spec fn explanation_scan(
    ls: Seq<Seq<char>>,
    in_code: bool,
    found: bool,
    acc: Seq<Seq<char>>,
) -> Seq<Seq<char>>
    decreases ls.len(),
{
    if ls.len() == 0 {
        acc
    } else if is_fence(ls[0]) {
        if in_code {
            explanation_scan(ls.drop_first(), false, true, acc)
        } else {
            explanation_scan(ls.drop_first(), true, found, acc)
        }
    } else if found && !in_code {
        explanation_scan(ls.drop_first(), in_code, found, acc.push(ls[0]))
    } else {
        explanation_scan(ls.drop_first(), in_code, found, acc)
    }
}

pub open spec fn explanation_heading() -> Seq<char> {
    seq!['#', '#', '#', ' ', 'E', 'x', 'p', 'l', 'a', 'n', 'a', 't', 'i', 'o', 'n']
}

/// The prose after the first fenced code block of `s`, trimmed, without a
/// leading `### Explanation` heading; `None` when nothing is left.
pub open spec fn explanation(s: Seq<char>) -> Option<Seq<char>> {
    let e = trim(join_lines(explanation_scan(lines(s), false, false, seq![])));
    let h = explanation_heading();
    let e2 = if starts_with(e, h) {
        trim(e.subrange(h.len() as int, e.len() as int))
    } else {
        e
    };
    if e2.len() == 0 {
        None
    } else {
        Some(e2)
    }
}

/// The number of ASCII digits at the start of `s`.
pub open spec fn digit_run(s: Seq<char>) -> int
    decreases s.len(),
{
    if s.len() > 0 && is_ascii_digit(s[0]) {
        1 + digit_run(s.drop_first())
    } else {
        0
    }
}

/// The text of a list item line, if the line is one: a line that begins,
/// once trimmed, with `-`, `*`, or one or more digits directly followed by
/// `.`; the text is what follows that marker, trimmed.
pub open spec fn list_item(l: Seq<char>) -> Option<Seq<char>> {
    let t = trim(l);
    let d = digit_run(t);
    if t.len() > 0 && (t[0] == '-' || t[0] == '*') {
        Some(trim(t.drop_first()))
    } else if 0 < d < t.len() && t[d] == '.' {
        Some(trim(t.subrange(d + 1, t.len() as int)))
    } else {
        None
    }
}

proof fn lemma_digit_run(s: Seq<char>)
    ensures
        0 <= digit_run(s) <= s.len(),
    decreases s.len(),
{
    if s.len() > 0 && is_ascii_digit(s[0]) {
        lemma_digit_run(s.drop_first());
    }
}

/// The non-empty list items among `ls`, in order.
pub open spec fn list_items(ls: Seq<Seq<char>>) -> Seq<Seq<char>>
    decreases ls.len(),
{
    if ls.len() == 0 {
        seq![]
    } else {
        let rest = list_items(ls.drop_first());
        match list_item(ls[0]) {
            Some(x) => if x.len() > 0 {
                seq![x] + rest
            } else {
                rest
            },
            None => rest,
        }
    }
}

pub open spec fn opt_view(o: Option<String>) -> Option<Seq<char>> {
    match o {
        Some(x) => Some(x@),
        None => None,
    }
}

pub open spec fn strings_view(v: Seq<String>) -> Seq<Seq<char>> {
    v.map_values(|x: String| x@)
}

/// The end of the first line of `s[p..hi]` without its line ending, and the
/// start of the next line.
pub fn next_line(s: &Vec<char>, p: usize, hi: usize) -> (r: (usize, usize))
    requires
        p < hi <= s@.len(),
    ensures
        p <= r.0 <= r.1 <= hi,
        p < r.1,
        s@.subrange(p as int, r.0 as int) == first_line(s@.subrange(p as int, hi as int)),
        s@.subrange(r.1 as int, hi as int) == rest_lines(s@.subrange(p as int, hi as int)),
        lines(s@.subrange(p as int, hi as int)) == seq![s@.subrange(p as int, r.0 as int)]
            + lines(s@.subrange(r.1 as int, hi as int)),
{
    let ghost w = s@.subrange(p as int, hi as int);
    let e = find_char(s, p, hi, '\n');
    proof {
        lemma_index_of_bound(w, '\n');
    }
    let le = if e < hi && e > p && s[e - 1] == '\r' {
        e - 1
    } else {
        e
    };
    let next = if e < hi {
        e + 1
    } else {
        hi
    };
    proof {
        assert(w.subrange(0, le - p) =~= s@.subrange(p as int, le as int));
        if e < hi {
            assert(w.subrange(e - p + 1, w.len() as int) =~= s@.subrange(next as int, hi as int));
        } else {
            assert(s@.subrange(next as int, hi as int) =~= seq![]);
        }
    }
    (le, next)
}

/// Appends the characters `s[lo..hi]` to `buf`.
pub fn push_window(buf: &mut Vec<char>, s: &Vec<char>, lo: usize, hi: usize)
    requires
        lo <= hi <= s@.len(),
    ensures
        final(buf)@ == old(buf)@ + s@.subrange(lo as int, hi as int),
{
    let mut i = lo;
    while i < hi
        invariant
            lo <= i <= hi <= s@.len(),
            buf@ == old(buf)@ + s@.subrange(lo as int, i as int),
        decreases hi - i,
    {
        buf.push(s[i]);
        assert(s@.subrange(lo as int, i + 1) =~= s@.subrange(lo as int, i as int).push(s@[i as int]));
        i = i + 1;
    }
}

proof fn lemma_join_push(ls: Seq<Seq<char>>, l: Seq<char>)
    ensures
        join_lines(ls.push(l)) == if ls.len() == 0 {
            l
        } else {
            join_lines(ls) + seq!['\n'] + l
        },
{
    assert(ls.push(l).drop_last() =~= ls);
}

/// Appends `s[lo..hi]` as one more line to `buf`, which holds `acc` joined.
fn push_line(buf: &mut Vec<char>, count: usize, s: &Vec<char>, lo: usize, hi: usize, acc: Ghost<Seq<Seq<char>>>)
    requires
        lo <= hi <= s@.len(),
        old(buf)@ == join_lines(acc@),
        count == acc@.len(),
    ensures
        final(buf)@ == join_lines(acc@.push(s@.subrange(lo as int, hi as int))),
{
    proof {
        lemma_join_push(acc@, s@.subrange(lo as int, hi as int));
    }
    if count > 0 {
        buf.push('\n');
    }
    push_window(buf, s, lo, hi);
    proof {
        if count == 0 {
            assert(final(buf)@ =~= s@.subrange(lo as int, hi as int));
        }
    }
}

/// Whether the line `s[lo..hi]` opens or closes a code fence.
fn is_fence_line(s: &Vec<char>, lo: usize, hi: usize) -> (r: bool)
    requires
        lo <= hi <= s@.len(),
    ensures
        r == is_fence(s@.subrange(lo as int, hi as int)),
{
    let (a, b) = trim_window(s, lo, hi);
    proof {
        reveal_strlit("```");
    }
    let r = window_starts_with(s, a, b, "```");
    assert("```"@ =~= seq!['`', '`', '`']);
    r
}

/// The info string of the fence line `s[lo..hi]`, as a window.
fn fence_info_window_of(s: &Vec<char>, lo: usize, hi: usize) -> (r: (usize, usize))
    requires
        lo <= hi <= s@.len(),
    ensures
        r.0 <= r.1 <= s@.len(),
        s@.subrange(r.0 as int, r.1 as int) == fence_info_of(s@.subrange(lo as int, hi as int)),
{
    let (a, b) = trim_window(s, lo, hi);
    let mut i = a;
    while i < b && s[i] == '`'
        invariant
            a <= i <= b <= s@.len(),
            strip_ticks(s@.subrange(a as int, b as int)) == strip_ticks(s@.subrange(i as int, b as int)),
        decreases b - i,
    {
        assert(s@.subrange(i as int, b as int).drop_first() =~= s@.subrange(i + 1, b as int));
        i = i + 1;
    }
    trim_window(s, i, b)
}

/// The language hint and code of the first fenced block of `s[lo..hi]`.
pub fn code_block_window(s: &Vec<char>, lo: usize, hi: usize) -> (r: (Option<String>, String))
    requires
        lo <= hi <= s@.len(),
    ensures
        opt_view(r.0) == code_block(s@.subrange(lo as int, hi as int)).0,
        r.1@ == code_block(s@.subrange(lo as int, hi as int)).1,
{
    let ghost target = code_scan(lines(s@.subrange(lo as int, hi as int)), false, None, seq![]);
    let ghost mut acc: Seq<Seq<char>> = seq![];
    let mut buf: Vec<char> = Vec::new();
    let mut count: usize = 0;
    let mut lang: Option<String> = None;
    let mut in_code = false;
    let mut p = lo;
    while p < hi
        invariant_except_break
            lo <= p <= hi <= s@.len(),
            code_scan(lines(s@.subrange(p as int, hi as int)), in_code, opt_view(lang), acc) == target,
        invariant
            buf@ == join_lines(acc),
            count == acc.len(),
            count <= p,
        ensures
            (opt_view(lang), acc) == target,
        decreases hi - p,
    {
        let (le, next) = next_line(s, p, hi);
        let ghost l = s@.subrange(p as int, le as int);
        let ghost rest = lines(s@.subrange(next as int, hi as int));
        let ghost old_lang = opt_view(lang);
        proof {
            assert((seq![l] + rest).drop_first() =~= rest);
            assert((seq![l] + rest)[0] == l);
            assert(code_scan(seq![l] + rest, in_code, old_lang, acc) == target);
        }
        if is_fence_line(s, p, le) {
            if in_code {
                break;
            }
            let (a, b) = fence_info_window_of(s, p, le);
            if a < b {
                lang = Some(string_from(s, a, b));
            }
            in_code = true;
        } else if in_code {
            push_line(&mut buf, count, s, p, le, Ghost(acc));
            proof {
                acc = acc.push(l);
            }
            count = count + 1;
        }
        p = next;
        if p == hi {
            assert(s@.subrange(p as int, hi as int) =~= seq![]);
        }
    }
    let code = string_from(&buf, 0, buf.len());
    assert(buf@.subrange(0, buf@.len() as int) =~= buf@);
    (lang, code)
}

/// The explanation after the first fenced block of `s[lo..hi]`.
pub fn explanation_window(s: &Vec<char>, lo: usize, hi: usize) -> (r: Option<String>)
    requires
        lo <= hi <= s@.len(),
    ensures
        opt_view(r) == explanation(s@.subrange(lo as int, hi as int)),
{
    let ghost target = explanation_scan(lines(s@.subrange(lo as int, hi as int)), false, false, seq![]);
    let ghost mut acc: Seq<Seq<char>> = seq![];
    let mut buf: Vec<char> = Vec::new();
    let mut count: usize = 0;
    let mut in_code = false;
    let mut found = false;
    let mut p = lo;
    while p < hi
        invariant
            lo <= p <= hi <= s@.len(),
            explanation_scan(lines(s@.subrange(p as int, hi as int)), in_code, found, acc) == target,
            buf@ == join_lines(acc),
            count == acc.len(),
            count <= p,
        decreases hi - p,
    {
        let (le, next) = next_line(s, p, hi);
        let ghost l = s@.subrange(p as int, le as int);
        let ghost rest = lines(s@.subrange(next as int, hi as int));
        proof {
            assert((seq![l] + rest).drop_first() =~= rest);
            assert((seq![l] + rest)[0] == l);
        }
        if is_fence_line(s, p, le) {
            if in_code {
                in_code = false;
                found = true;
            } else {
                in_code = true;
            }
        } else if found && !in_code {
            push_line(&mut buf, count, s, p, le, Ghost(acc));
            proof {
                acc = acc.push(l);
            }
            count = count + 1;
        }
        p = next;
    }
    assert(s@.subrange(p as int, hi as int) =~= seq![]);
    let (a, b) = trim_window(&buf, 0, buf.len());
    assert(buf@.subrange(0, buf@.len() as int) =~= buf@);
    let ghost e = buf@.subrange(a as int, b as int);
    proof {
        reveal_strlit("### Explanation");
        assert("### Explanation"@ =~= explanation_heading());
    }
    let (c, d) = if window_starts_with(&buf, a, b, "### Explanation") {
        assert(e.subrange(15, e.len() as int) =~= buf@.subrange(a + 15, b as int));
        trim_window(&buf, a + 15, b)
    } else {
        (a, b)
    };
    if c == d {
        None
    } else {
        Some(string_from(&buf, c, d))
    }
}

/// The list item of the line `s[lo..hi]`, as a window, if the line is one.
fn list_item_window(s: &Vec<char>, lo: usize, hi: usize) -> (r: Option<(usize, usize)>)
    requires
        lo <= hi <= s@.len(),
    ensures
        match r {
            Some((a, b)) => a <= b <= s@.len() && list_item(s@.subrange(lo as int, hi as int))
                == Some(s@.subrange(a as int, b as int)),
            None => list_item(s@.subrange(lo as int, hi as int)) is None,
        },
{
    let (a, b) = trim_window(s, lo, hi);
    let ghost t = s@.subrange(a as int, b as int);
    if a < b && (s[a] == '-' || s[a] == '*') {
        assert(t.drop_first() =~= s@.subrange(a + 1, b as int));
        Some(trim_window(s, a + 1, b))
    } else if a < b && '0' <= s[a] && s[a] <= '9' {
        let mut d = a;
        while d < b && '0' <= s[d] && s[d] <= '9'
            invariant
                a <= d <= b <= s@.len(),
                t == s@.subrange(a as int, b as int),
                digit_run(t) == (d - a) + digit_run(s@.subrange(d as int, b as int)),
            decreases b - d,
        {
            assert(s@.subrange(d as int, b as int).drop_first() =~= s@.subrange(d + 1, b as int));
            d = d + 1;
        }
        if d < b {
            assert(s@.subrange(d as int, b as int)[0] == s@[d as int]);
        } else {
            assert(s@.subrange(d as int, b as int) =~= Seq::<char>::empty());
        }
        assert(digit_run(t) == d - a);
        if d < b && s[d] == '.' {
            assert(t.subrange(d - a + 1, t.len() as int) =~= s@.subrange(d + 1, b as int));
            Some(trim_window(s, d + 1, b))
        } else {
            None
        }
    } else {
        None
    }
}

/// The non-empty list items among the lines of `s[lo..hi]`.
pub fn list_window(s: &Vec<char>, lo: usize, hi: usize) -> (r: Vec<String>)
    requires
        lo <= hi <= s@.len(),
    ensures
        strings_view(r@) == list_items(lines(s@.subrange(lo as int, hi as int))),
{
    let mut items: Vec<String> = Vec::new();
    let mut p = lo;
    while p < hi
        invariant
            lo <= p <= hi <= s@.len(),
            strings_view(items@) + list_items(lines(s@.subrange(p as int, hi as int)))
                == list_items(lines(s@.subrange(lo as int, hi as int))),
        decreases hi - p,
    {
        let (le, next) = next_line(s, p, hi);
        let ghost l = s@.subrange(p as int, le as int);
        let ghost rest = lines(s@.subrange(next as int, hi as int));
        proof {
            assert((seq![l] + rest).drop_first() =~= rest);
            assert((seq![l] + rest)[0] == l);
        }
        let ghost before = strings_view(items@);
        match list_item_window(s, p, le) {
            Some((a, b)) => {
                if a < b {
                    let item = string_from(s, a, b);
                    items.push(item);
                    assert(strings_view(items@) =~= before.push(s@.subrange(a as int, b as int)));
                    assert(before + (seq![s@.subrange(a as int, b as int)] + list_items(rest))
                        =~= before.push(s@.subrange(a as int, b as int)) + list_items(rest));
                }
            },
            None => {},
        }
        p = next;
    }
    assert(s@.subrange(p as int, hi as int) =~= seq![]);
    assert(strings_view(items@) + seq![] =~= strings_view(items@));
    items
}

/// The value of the decimal digits `ds`.
pub open spec fn digits_value(ds: Seq<char>) -> nat
    decreases ds.len(),
{
    if ds.len() == 0 {
        0
    } else {
        digits_value(ds.drop_last()) * 10 + ((ds.last() as u32) - ('0' as u32)) as nat
    }
}

/// `w` without one leading `+`.
pub open spec fn unsigned_digits(w: Seq<char>) -> Seq<char> {
    if w.len() > 0 && w[0] == '+' {
        w.drop_first()
    } else {
        w
    }
}

pub open spec fn all_digits(d: Seq<char>) -> bool {
    forall|i: int| 0 <= i < d.len() ==> is_ascii_digit(#[trigger] d[i])
}

/// The unsigned integer that `str::parse` reads from `w` (an optional `+`,
/// then one or more ASCII digits) when it is at most `max`.
pub open spec fn parse_uint(w: Seq<char>, max: nat) -> Option<nat> {
    let d = unsigned_digits(w);
    if d.len() > 0 && all_digits(d) && digits_value(d) <= max {
        Some(digits_value(d))
    } else {
        None
    }
}

proof fn lemma_digits_mono(d: Seq<char>, i: int)
    requires
        0 <= i <= d.len(),
        forall|j: int| 0 <= j < d.len() ==> is_ascii_digit(#[trigger] d[j]),
    ensures
        digits_value(d.subrange(0, i)) <= digits_value(d),
    decreases d.len() - i,
{
    if i < d.len() {
        lemma_digits_mono(d, i + 1);
        assert(d.subrange(0, i + 1).drop_last() =~= d.subrange(0, i));
    } else {
        assert(d.subrange(0, i) =~= d);
    }
}

/// The number that `str::parse` reads from `s[lo..hi]`, if it is at most `max`.
pub fn parse_uint_window(s: &Vec<char>, lo: usize, hi: usize, max: u32) -> (r: Option<u32>)
    requires
        lo <= hi <= s@.len(),
    ensures
        match parse_uint(s@.subrange(lo as int, hi as int), max as nat) {
            Some(n) => r == Some(n as u32),
            None => r is None,
        },
{
    let ghost w = s@.subrange(lo as int, hi as int);
    let start = if lo < hi && s[lo] == '+' {
        lo + 1
    } else {
        lo
    };
    let ghost d = s@.subrange(start as int, hi as int);
    assert(d =~= unsigned_digits(w));
    if start == hi {
        return None;
    }
    let mut value: u64 = 0;
    let mut i = start;
    while i < hi
        invariant
            start <= i <= hi <= s@.len(),
            d == s@.subrange(start as int, hi as int),
            w == s@.subrange(lo as int, hi as int),
            d == unsigned_digits(w),
            forall|j: int| 0 <= j < i - start ==> is_ascii_digit(#[trigger] d[j]),
            value == digits_value(d.subrange(0, i - start)),
            value <= max,
        decreases hi - i,
    {
        let c = s[i];
        if !('0' <= c && c <= '9') {
            assert(!is_ascii_digit(d[i - start]));
            assert(!all_digits(d));
            assert(parse_uint(w, max as nat) is None);
            return None;
        }
        let ghost pre = d.subrange(0, i - start + 1);
        assert(pre.drop_last() =~= d.subrange(0, i - start));
        let next = value * 10 + ((c as u32) - ('0' as u32)) as u64;
        if next > max as u64 {
            proof {
                assert(pre.last() == c);
                assert(digits_value(pre) == next);
                if all_digits(d) {
                    lemma_digits_mono(d, i - start + 1);
                }
                assert(parse_uint(w, max as nat) is None);
            }
            return None;
        }
        value = next;
        i = i + 1;
    }
    assert(d.subrange(0, i - start) =~= d);
    Some(value as u32)
}

/// The first whitespace-separated word of `s`.
pub open spec fn first_word(s: Seq<char>) -> Seq<char> {
    let t = trim_start(s);
    t.subrange(0, crate::attrs::white_index(t))
}

/// What follows the first whitespace-separated word of `s`.
pub open spec fn after_first_word(s: Seq<char>) -> Seq<char> {
    let t = trim_start(s);
    t.subrange(crate::attrs::white_index(t), t.len() as int)
}

pub open spec fn hour_word() -> Seq<char> {
    seq!['h', 'o', 'u', 'r']
}

/// Minutes in a time estimate such as `45`, `30 minutes` or `2 hours`: the
/// first word read as a number, times 60 when the second word begins with
/// `hour` in any case; `None` when the first word is not a number or the
/// minutes exceed `u32::MAX`.
pub open spec fn time_minutes(s: Seq<char>) -> Option<u32> {
    match parse_uint(first_word(s), u32::MAX as nat) {
        None => None,
        Some(n) => {
            let unit = first_word(after_first_word(s));
            if unit.len() >= 4 && eq_ignore_case(unit.subrange(0, 4), hour_word()) {
                if n * 60 <= u32::MAX {
                    Some((n * 60) as u32)
                } else {
                    None
                }
            } else {
                Some(n as u32)
            }
        }
    }
}

/// The first word of `s[lo..hi]`, as a window.
fn first_word_window(s: &Vec<char>, lo: usize, hi: usize) -> (r: (usize, usize))
    requires
        lo <= hi <= s@.len(),
    ensures
        lo <= r.0 <= r.1 <= hi,
        s@.subrange(r.0 as int, r.1 as int) == first_word(s@.subrange(lo as int, hi as int)),
        s@.subrange(r.1 as int, hi as int) == after_first_word(s@.subrange(lo as int, hi as int)),
{
    let a = skip_white(s, lo, hi);
    let b = crate::attrs::find_white(s, a, hi);
    let ghost t = s@.subrange(a as int, hi as int);
    assert(t.subrange(0, b - a) =~= s@.subrange(a as int, b as int));
    assert(t.subrange(b - a, t.len() as int) =~= s@.subrange(b as int, hi as int));
    (a, b)
}

/// Parses a time estimate such as `20 minutes` or `2 hours` into minutes.
pub fn parse_time_string(time: &str) -> (r: Option<u32>)
    ensures
        r == time_minutes(time@),
{
    let s = crate::text::chars_of(time);
    assert(s@.subrange(0, s@.len() as int) =~= s@);
    let (a, b) = first_word_window(&s, 0, s.len());
    let n = match parse_uint_window(&s, a, b, u32::MAX) {
        None => return None,
        Some(n) => n,
    };
    let (c, d) = first_word_window(&s, b, s.len());
    proof {
        reveal_strlit("hour");
        assert("hour"@ =~= hour_word());
    }
    if d - c >= 4 && window_eq_ignore_case(&s, c, c + 4, "hour") {
        assert(s@.subrange(c as int, d as int).subrange(0, 4) =~= s@.subrange(c as int, c + 4));
        n.checked_mul(60)
    } else {
        proof {
            if d - c >= 4 {
                assert(s@.subrange(c as int, d as int).subrange(0, 4) =~= s@.subrange(c as int, c + 4));
            }
        }
        Some(n)
    }
}

} // verus!
