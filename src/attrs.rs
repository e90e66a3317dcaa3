//! Directive attributes (`level=1 file="src/main.rs" readonly`) and code-fence
//! info strings (`rust,filename=src/main.rs,ignore`).

use crate::text::{
    chars_of, find_char, index_of, is_white, is_white_char, lemma_index_of_bound, skip_white,
    string_from, trim, trim_start, trim_window,
};
use vstd::prelude::*;

verus! {

/// The map that results from inserting the pairs in order: a later pair for
/// a key replaces an earlier one.
pub open spec fn pairs_map(ps: Seq<(Seq<char>, Seq<char>)>) -> Map<Seq<char>, Seq<char>>
    decreases ps.len(),
{
    if ps.len() == 0 {
        Map::empty()
    } else {
        pairs_map(ps.drop_last()).insert(ps.last().0, ps.last().1)
    }
}

pub open spec fn pairs_view(v: Seq<(String, String)>) -> Seq<(Seq<char>, Seq<char>)> {
    v.map_values(|p: (String, String)| (p.0@, p.1@))
}

/// Key-value attributes of a directive or a code fence.
#[derive(Debug, Clone)]
pub struct Attributes {
    entries: Vec<(String, String)>,
}

impl View for Attributes {
    type V = Map<Seq<char>, Seq<char>>;

    closed spec fn view(&self) -> Map<Seq<char>, Seq<char>> {
        pairs_map(pairs_view(self.entries@))
    }
}

proof fn lemma_pairs_map_suffix(ps: Seq<(Seq<char>, Seq<char>)>, i: int, k: Seq<char>)
    requires
        0 <= i <= ps.len(),
        forall|j: int| i <= j < ps.len() ==> (#[trigger] ps[j]).0 != k,
    ensures
        pairs_map(ps).contains_key(k) == pairs_map(ps.subrange(0, i)).contains_key(k),
        pairs_map(ps)[k] == pairs_map(ps.subrange(0, i))[k],
    decreases ps.len(),
{
    if ps.len() > i {
        assert(ps.drop_last().subrange(0, i) =~= ps.subrange(0, i));
        lemma_pairs_map_suffix(ps.drop_last(), i, k);
    } else {
        assert(ps.subrange(0, i) =~= ps);
    }
}

impl Attributes {
    pub fn new() -> (r: Attributes)
        ensures
            r@ == Map::<Seq<char>, Seq<char>>::empty(),
    {
        Attributes { entries: Vec::new() }
    }

    /// Sets `key` to `value`, replacing an earlier value.
    pub fn insert(&mut self, key: String, value: String)
        ensures
            final(self)@ == old(self)@.insert(key@, value@),
    {
        self.entries.push((key, value));
        assert(pairs_view(self.entries@).drop_last() =~= pairs_view(old(self).entries@));
    }

    /// The value of `key`, if it is set.
    pub fn get(&self, key: &str) -> (r: Option<&String>)
        ensures
            r is Some == self@.contains_key(key@),
            r is Some ==> r->0@ == self@[key@],
    {
        let k = key.to_owned();
        let ghost ps = pairs_view(self.entries@);
        let mut i = self.entries.len();
        while i > 0
            invariant
                i <= self.entries@.len(),
                ps == pairs_view(self.entries@),
                k@ == key@,
                forall|j: int| i <= j < ps.len() ==> (#[trigger] ps[j]).0 != k@,
            decreases i,
        {
            if self.entries[i - 1].0 == k {
                proof {
                    lemma_pairs_map_suffix(ps, i as int, k@);
                    assert(ps.subrange(0, i as int).drop_last() =~= ps.subrange(0, i - 1));
                }
                return Some(&self.entries[i - 1].1);
            }
            i = i - 1;
        }
        proof {
            lemma_pairs_map_suffix(ps, 0, k@);
        }
        None
    }
}

/// Position of the first `=` or whitespace character in `s`, or `s.len()`.
pub open spec fn key_len(s: Seq<char>) -> int
    decreases s.len(),
{
    if s.len() == 0 || s[0] == '=' || is_white(s[0]) {
        0
    } else {
        1 + key_len(s.drop_first())
    }
}

/// Position of the first whitespace character in `s`, or `s.len()`.
pub open spec fn white_index(s: Seq<char>) -> int
    decreases s.len(),
{
    if s.len() == 0 || is_white(s[0]) {
        0
    } else {
        1 + white_index(s.drop_first())
    }
}

proof fn lemma_key_len(s: Seq<char>)
    ensures
        0 <= key_len(s) <= s.len(),
        key_len(s) < s.len() ==> s[key_len(s)] == '=' || is_white(s[key_len(s)]),
        forall|j: int| 0 <= j < key_len(s) ==> s[j] != '=' && !is_white(s[j]),
    decreases s.len(),
{
    if !(s.len() == 0 || s[0] == '=' || is_white(s[0])) {
        lemma_key_len(s.drop_first());
        assert forall|j: int| 0 <= j < key_len(s) implies s[j] != '=' && !is_white(s[j]) by {
            if j > 0 {
                assert(s[j] == s.drop_first()[j - 1]);
            }
        }
    }
}

pub proof fn lemma_white_index(s: Seq<char>)
    ensures
        0 <= white_index(s) <= s.len(),
        white_index(s) < s.len() ==> is_white(s[white_index(s)]),
        forall|j: int| 0 <= j < white_index(s) ==> !is_white(s[j]),
    decreases s.len(),
{
    if !(s.len() == 0 || is_white(s[0])) {
        lemma_white_index(s.drop_first());
        assert forall|j: int| 0 <= j < white_index(s) implies !is_white(s[j]) by {
            if j > 0 {
                assert(s[j] == s.drop_first()[j - 1]);
            }
        }
    }
}

#[via_fn]
proof fn attr_tokens_decreases(s: Seq<char>) {
    lemma_key_len(s);
    if s.len() > 0 && !is_white(s[0]) {
        let k = key_len(s);
        let rest = s.subrange(k, s.len() as int);
        if rest.len() > 0 && rest[0] == '=' {
            let r1 = rest.drop_first();
            if r1.len() > 0 && r1[0] == '"' {
                lemma_index_of_bound(r1.drop_first(), '"');
            } else {
                lemma_white_index(r1);
            }
        }
    }
}

/// The `(key, value)` tokens of a directive's attribute text, in order: a key
/// runs to `=` or whitespace; after `=` comes a value, quoted (to the next `"`)
/// or bare (to the next whitespace); a key without `=` has the value `true`.
pub open spec fn attr_tokens(s: Seq<char>) -> Seq<(Seq<char>, Seq<char>)>
    decreases s.len(),
    via attr_tokens_decreases
{
    if s.len() == 0 {
        seq![]
    } else if is_white(s[0]) {
        attr_tokens(s.drop_first())
    } else {
        let k = key_len(s);
        let key = s.subrange(0, k);
        let rest = s.subrange(k, s.len() as int);
        if rest.len() > 0 && rest[0] == '=' {
            let r1 = rest.drop_first();
            if r1.len() > 0 && r1[0] == '"' {
                let r2 = r1.drop_first();
                let e = index_of(r2, '"');
                let next = if e < r2.len() {
                    r2.subrange(e + 1, r2.len() as int)
                } else {
                    seq![]
                };
                seq![(key, r2.subrange(0, e))] + attr_tokens(next)
            } else {
                let e = white_index(r1);
                seq![(key, r1.subrange(0, e))] + attr_tokens(r1.subrange(e, r1.len() as int))
            }
        } else {
            seq![(key, seq!['t', 'r', 'u', 'e'])] + attr_tokens(rest)
        }
    }
}

/// The attributes written in `s`.
pub open spec fn attrs_of(s: Seq<char>) -> Map<Seq<char>, Seq<char>> {
    pairs_map(attr_tokens(trim(s)))
}

proof fn lemma_attr_tokens_skip(s: Seq<char>)
    ensures
        attr_tokens(s) == attr_tokens(trim_start(s)),
    decreases s.len(),
{
    if s.len() > 0 && is_white(s[0]) {
        lemma_attr_tokens_skip(s.drop_first());
    }
}

proof fn lemma_pairs_map_push(ps: Seq<(Seq<char>, Seq<char>)>, k: Seq<char>, v: Seq<char>)
    ensures
        pairs_map(ps.push((k, v))) == pairs_map(ps).insert(k, v),
{
    assert(ps.push((k, v)).drop_last() =~= ps);
}

fn find_key_end(s: &Vec<char>, lo: usize, hi: usize) -> (r: usize)
    requires
        lo <= hi <= s@.len(),
    ensures
        lo <= r <= hi,
        r - lo == key_len(s@.subrange(lo as int, hi as int)),
{
    let mut i = lo;
    while i < hi
        invariant
            lo <= i <= hi <= s@.len(),
            key_len(s@.subrange(lo as int, hi as int)) == (i - lo) + key_len(
                s@.subrange(i as int, hi as int),
            ),
        decreases hi - i,
    {
        if s[i] == '=' || is_white_char(s[i]) {
            return i;
        }
        assert(s@.subrange(i as int, hi as int).drop_first() =~= s@.subrange(
            i + 1,
            hi as int,
        ));
        i = i + 1;
    }
    i
}

pub fn find_white(s: &Vec<char>, lo: usize, hi: usize) -> (r: usize)
    requires
        lo <= hi <= s@.len(),
    ensures
        lo <= r <= hi,
        r - lo == white_index(s@.subrange(lo as int, hi as int)),
{
    let mut i = lo;
    while i < hi
        invariant
            lo <= i <= hi <= s@.len(),
            white_index(s@.subrange(lo as int, hi as int)) == (i - lo) + white_index(
                s@.subrange(i as int, hi as int),
            ),
        decreases hi - i,
    {
        if is_white_char(s[i]) {
            return i;
        }
        assert(s@.subrange(i as int, hi as int).drop_first() =~= s@.subrange(
            i + 1,
            hi as int,
        ));
        i = i + 1;
    }
    i
}

/// The attributes written in the window `s[lo..hi]`.
pub fn attrs_in_window(s: &Vec<char>, lo: usize, hi: usize) -> (r: Attributes)
    requires
        lo <= hi <= s@.len(),
    ensures
        r@ == attrs_of(s@.subrange(lo as int, hi as int)),
{
    let (lo, hi) = trim_window(s, lo, hi);
    let ghost all = attr_tokens(s@.subrange(lo as int, hi as int));
    let ghost mut done: Seq<(Seq<char>, Seq<char>)> = seq![];
    let mut attrs = Attributes::new();
    let mut p = lo;
    while p < hi
        invariant
            lo <= p <= hi <= s@.len(),
            done + attr_tokens(s@.subrange(p as int, hi as int)) == all,
            attrs@ == pairs_map(done),
        ensures
            attrs@ == pairs_map(all),
        decreases hi - p,
    {
        let ghost before = s@.subrange(p as int, hi as int);
        proof {
            lemma_attr_tokens_skip(before);
        }
        p = skip_white(s, p, hi);
        if p == hi {
            assert(s@.subrange(p as int, hi as int) =~= seq![]);
            assert(done =~= all);
            break;
        }
        let ghost t = s@.subrange(p as int, hi as int);
        let k = find_key_end(s, p, hi);
        proof {
            lemma_key_len(t);
            assert(t.subrange(0, k - p) =~= s@.subrange(p as int, k as int));
            assert(t.subrange(k - p, t.len() as int) =~= s@.subrange(k as int, hi as int));
        }
        let key = string_from(s, p, k);
        let value;
        let next;
        if k < hi && s[k] == '=' {
            let v0 = k + 1;
            let ghost r1 = s@.subrange(k as int, hi as int).drop_first();
            assert(r1 =~= s@.subrange(v0 as int, hi as int));
            if v0 < hi && s[v0] == '"' {
                let q = find_char(s, v0 + 1, hi, '"');
                assert(r1.drop_first() =~= s@.subrange(v0 + 1, hi as int));
                assert(r1.drop_first().subrange(0, q - v0 - 1) =~= s@.subrange(
                    v0 + 1,
                    q as int,
                ));
                value = string_from(s, v0 + 1, q);
                if q < hi {
                    assert(r1.drop_first().subrange(q - v0, hi - v0 - 1) =~= s@.subrange(
                        q + 1,
                        hi as int,
                    ));
                    next = q + 1;
                } else {
                    assert(s@.subrange(hi as int, hi as int) =~= seq![]);
                    next = hi;
                }
            } else {
                let e = find_white(s, v0, hi);
                assert(r1.subrange(0, e - v0) =~= s@.subrange(v0 as int, e as int));
                assert(r1.subrange(e - v0, r1.len() as int) =~= s@.subrange(e as int, hi as int));
                value = string_from(s, v0, e);
                next = e;
            }
        } else {
            value = "true".to_owned();
            proof {
                reveal_strlit("true");
                assert(value@ =~= seq!['t', 'r', 'u', 'e']);
            }
            next = k;
        }
        proof {
            assert(attr_tokens(t) == seq![(key@, value@)] + attr_tokens(
                s@.subrange(next as int, hi as int),
            ));
            lemma_pairs_map_push(done, key@, value@);
            assert(done.push((key@, value@)) + attr_tokens(s@.subrange(next as int, hi as int))
                =~= done + attr_tokens(t));
            done = done.push((key@, value@));
        }
        attrs.insert(key, value);
        p = next;
        if p == hi {
            assert(s@.subrange(p as int, hi as int) =~= seq![]);
            assert(done =~= all);
        }
    }
    attrs
}

/// Parses the attribute text that follows a directive's name.
pub fn parse_inline_attributes(attrs_str: &str) -> (r: Attributes)
    ensures
        r@ == attrs_of(attrs_str@),
{
    let s = chars_of(attrs_str);
    let r = attrs_in_window(&s, 0, s.len());
    assert(s@.subrange(0, s@.len() as int) =~= s@);
    r
}

/// One comma-separated token of a fence info string as an attribute:
/// `key=value`, or a bare flag whose value is `true`.
pub open spec fn fence_pair(tok: Seq<char>) -> (Seq<char>, Seq<char>) {
    let e = index_of(tok, '=');
    if e < tok.len() {
        (trim(tok.subrange(0, e)), trim(tok.subrange(e + 1, tok.len() as int)))
    } else {
        (tok, seq!['t', 'r', 'u', 'e'])
    }
}

#[via_fn]
proof fn fence_tokens_decreases(s: Seq<char>, first: bool) {
    lemma_index_of_bound(s, ',');
}

/// The attribute tokens of a fence info string split on commas; empty tokens
/// are skipped, and so is a first token without `=` (the language).
pub open spec fn fence_tokens(s: Seq<char>, first: bool) -> Seq<(Seq<char>, Seq<char>)>
    decreases s.len(),
    via fence_tokens_decreases
{
    let c = index_of(s, ',');
    let tok = trim(s.subrange(0, c));
    let here = if tok.len() == 0 || (first && index_of(tok, '=') == tok.len()) {
        seq![]
    } else {
        seq![fence_pair(tok)]
    };
    if c < s.len() {
        here + fence_tokens(s.subrange(c + 1, s.len() as int), false)
    } else {
        here
    }
}

/// The language of a fence info string: its first token, unless that token
/// is empty or holds `=`.
pub open spec fn fence_lang(s: Seq<char>) -> Seq<char> {
    let tok = trim(s.subrange(0, index_of(s, ',')));
    if tok.len() > 0 && index_of(tok, '=') == tok.len() {
        tok
    } else {
        seq![]
    }
}

pub open spec fn fence_attrs(s: Seq<char>) -> Map<Seq<char>, Seq<char>> {
    pairs_map(fence_tokens(s, true))
}

/// The language and attributes of the fence info string `s[lo..hi]`.
pub fn fence_info_window(s: &Vec<char>, lo: usize, hi: usize) -> (r: (String, Attributes))
    requires
        lo <= hi <= s@.len(),
    ensures
        r.0@ == fence_lang(s@.subrange(lo as int, hi as int)),
        r.1@ == fence_attrs(s@.subrange(lo as int, hi as int)),
{
    let ghost all = fence_tokens(s@.subrange(lo as int, hi as int), true);
    let ghost mut done: Seq<(Seq<char>, Seq<char>)> = seq![];
    let mut lang = String::new();
    let mut attrs = Attributes::new();
    let mut p = lo;
    let mut first = true;
    loop
        invariant_except_break
            lo <= p <= hi <= s@.len(),
            done + fence_tokens(s@.subrange(p as int, hi as int), first) == all,
            attrs@ == pairs_map(done),
            first ==> p == lo && lang@ == Seq::<char>::empty(),
            !first ==> lang@ == fence_lang(s@.subrange(lo as int, hi as int)),
        ensures
            attrs@ == pairs_map(all),
            lang@ == fence_lang(s@.subrange(lo as int, hi as int)),
        decreases hi - p,
    {
        let ghost w = s@.subrange(p as int, hi as int);
        let c = find_char(s, p, hi, ',');
        proof {
            lemma_index_of_bound(w, ',');
            assert(w.subrange(0, c - p) =~= s@.subrange(p as int, c as int));
        }
        let (a, b) = trim_window(s, p, c);
        let ghost tok = s@.subrange(a as int, b as int);
        let e = find_char(s, a, b, '=');
        proof {
            lemma_index_of_bound(tok, '=');
        }
        let ghost here: Seq<(Seq<char>, Seq<char>)>;
        if a == b || (first && e == b) {
            if first && a < b {
                lang = string_from(s, a, b);
            }
            proof {
                here = seq![];
            }
        } else if e < b {
            let (ka, kb) = trim_window(s, a, e);
            let (va, vb) = trim_window(s, e + 1, b);
            assert(tok.subrange(0, e - a) =~= s@.subrange(a as int, e as int));
            assert(tok.subrange(e - a + 1, tok.len() as int) =~= s@.subrange(e + 1, b as int));
            let key = string_from(s, ka, kb);
            let value = string_from(s, va, vb);
            proof {
                here = seq![(key@, value@)];
                lemma_pairs_map_push(done, key@, value@);
            }
            attrs.insert(key, value);
        } else {
            let key = string_from(s, a, b);
            let value = "true".to_owned();
            proof {
                reveal_strlit("true");
                assert(value@ =~= seq!['t', 'r', 'u', 'e']);
                here = seq![(key@, value@)];
                lemma_pairs_map_push(done, key@, value@);
            }
            attrs.insert(key, value);
        }
        proof {
            if first {
                assert(p == lo);
                assert(w == s@.subrange(lo as int, hi as int));
                assert(tok == trim(w.subrange(0, index_of(w, ','))));
                if tok.len() > 0 && index_of(tok, '=') == tok.len() {
                    assert(lang@ == tok);
                } else {
                    assert(lang@ =~= seq![]);
                }
                assert(lang@ == fence_lang(s@.subrange(lo as int, hi as int)));
            }
            assert(here == (if tok.len() == 0 || (first && index_of(tok, '=') == tok.len()) {
                seq![]
            } else {
                seq![fence_pair(tok)]
            }));
        }
        if c == hi {
            proof {
                assert(done + here =~= all);
                if here.len() == 1 {
                    assert(done + here =~= done.push(here[0]));
                } else {
                    assert(done + here =~= done);
                }
                done = done + here;
            }
            break;
        }
        proof {
            assert(w.subrange(c - p + 1, w.len() as int) =~= s@.subrange(c + 1, hi as int));
            assert(done + here + fence_tokens(s@.subrange(c + 1, hi as int), false) =~= all);
            if here.len() == 1 {
                assert(done + here =~= done.push(here[0]));
            } else {
                assert(done + here =~= done);
            }
            done = done + here;
        }
        p = c + 1;
        first = false;
    }
    (lang, attrs)
}

/// Parses a fence info string into its language and its attributes.
pub fn parse_fence_info(info: &str) -> (r: (String, Attributes))
    ensures
        r.0@ == fence_lang(info@),
        r.1@ == fence_attrs(info@),
{
    let s = chars_of(info);
    assert(s@.subrange(0, s@.len() as int) =~= s@);
    fence_info_window(&s, 0, s.len())
}

} // verus!
