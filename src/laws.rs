//! Properties of parsing that hold for every document.

use crate::blocks::{
    apply_exercise_block, apply_hint_block, blank, difficulty_of, hint_of, lemma_sort_hints_permutes, lemma_sort_hints_sorted, sort_hints,
    ParseErrorV,
};
use crate::lines::code_block;
use crate::parser::{
    apply_block, apply_blocks, exercise_marker, directive_marker, has_line, has_line_from,
    initial_exercise, initial_scan, line_end, parse_spec, sat_add, scan, scan_from, scan_line,
    scan_with, directive_start, strip_eol, BlockV, ScanV, DEFAULT_LANGUAGE,
};
use crate::text::{byte_len, index_of, lemma_index_of_bound, starts_with, trim};
use crate::types::{hints_sorted, ExerciseV, HintV};
use crate::document::{document_spec, ParsedV};
use crate::usecase::{
    apply_usecase_block, apply_usecase_blocks, initial_usecase, parse_usecase_spec, usecase_marker,
    UseCaseV,
};
use crate::yaml::{yaml_accepts, yaml_str_at};
use vstd::multiset::Multiset;
use vstd::prelude::*;
use vstd::seq_lib::{lemma_multiset_commutative, to_multiset_build};

verus! {

proof fn lemma_marked_line_is_directive(
    doc: Seq<char>,
    rs: Seq<(usize, usize)>,
    p: int,
    b: int,
    pre: Seq<char>,
)
    requires
        has_line_from(doc, rs, p, b, pre),
        pre.len() >= 3,
        pre.subrange(0, 3) == directive_marker(),
    ensures
        has_line_from(doc, rs, p, b, directive_marker()),
    decreases doc.len() - p,
{
    if 0 <= p < doc.len() {
        lemma_index_of_bound(doc.subrange(p, doc.len() as int), '\n');
        let q = line_end(doc, p);
        let bq = sat_add(b, byte_len(doc.subrange(p, q)) as int);
        let t = trim(doc.subrange(p, q));
        if starts_with(t, pre) {
            assert(t.subrange(0, 3) =~= pre.subrange(0, 3));
        }
        if !has_line_from(doc, rs, q, bq, pre) {
        } else {
            lemma_marked_line_is_directive(doc, rs, q, bq, pre);
        }
    }
}

/// A document with no directive line (a line that begins with `:::`) outside
/// code and raw HTML is of no known exercise type.
pub proof fn law_no_directive_unknown_type(doc: Seq<char>, rs: Seq<(usize, usize)>)
    requires
        !has_line(doc, rs, directive_marker()),
    ensures
        parse_spec(doc, rs) == Err::<ExerciseV, ParseErrorV>(ParseErrorV::UnknownExerciseType),
        document_spec(doc, rs) == Err::<ParsedV, ParseErrorV>(ParseErrorV::UnknownExerciseType),
{
    assert(exercise_marker().subrange(0, 3) =~= directive_marker());
    assert(usecase_marker().subrange(0, 3) =~= directive_marker());
    if has_line(doc, rs, exercise_marker()) {
        lemma_marked_line_is_directive(doc, rs, 0, 0, exercise_marker());
    }
    if has_line(doc, rs, usecase_marker()) {
        lemma_marked_line_is_directive(doc, rs, 0, 0, usecase_marker());
    }
}

pub open spec fn names_no(bs: Seq<BlockV>, from: int, name: Seq<char>) -> bool {
    forall|j: int| from <= j < bs.len() ==> (#[trigger] bs[j]).name != name
}

proof fn lemma_id_kept(ex: ExerciseV, bs: Seq<BlockV>, dl: Seq<char>)
    requires
        apply_blocks(ex, bs, dl) is Ok,
        names_no(bs, 0, "exercise"@),
    ensures
        apply_blocks(ex, bs, dl)->Ok_0.metadata.id == ex.metadata.id,
    decreases bs.len(),
{
    if bs.len() > 0 {
        let ex2 = apply_block(ex, bs[0], dl)->Ok_0;
        assert(bs[0].name != "exercise"@);
        assert(ex2.metadata.id == ex.metadata.id);
        assert forall|j: int| 0 <= j < bs.drop_first().len() implies (#[trigger] bs.drop_first()[j]).name
            != "exercise"@ by {
            assert(bs.drop_first()[j] == bs[j + 1]);
        }
        lemma_id_kept(ex2, bs.drop_first(), dl);
    }
}

proof fn lemma_id_from_block(ex: ExerciseV, bs: Seq<BlockV>, dl: Seq<char>, k: int)
    requires
        apply_blocks(ex, bs, dl) is Ok,
        0 <= k < bs.len(),
        bs[k].name == "exercise"@,
        names_no(bs, k + 1, "exercise"@),
    ensures
        yaml_str_at(bs[k].content, "id"@) == Some(apply_blocks(ex, bs, dl)->Ok_0.metadata.id),
    decreases bs.len(),
{
    let ex2 = apply_block(ex, bs[0], dl)->Ok_0;
    let rest = bs.drop_first();
    assert forall|j: int| k <= j < rest.len() implies (#[trigger] rest[j]).name != "exercise"@ by {
        assert(rest[j] == bs[j + 1]);
    }
    if k == 0 {
        assert(apply_exercise_block(ex, bs[0].content) == Ok::<ExerciseV, ParseErrorV>(ex2));
        lemma_id_kept(ex2, rest, dl);
    } else {
        assert(rest[k - 1] == bs[k]);
        lemma_id_from_block(ex2, rest, dl, k - 1);
    }
}

/// When a parsed document has exactly one `exercise` block, the exercise's
/// identifier is that block's YAML `id` value, verbatim.
pub proof fn law_id_verbatim(doc: Seq<char>, rs: Seq<(usize, usize)>, k: int)
    requires
        parse_spec(doc, rs) is Ok,
        0 <= k < scan(doc, rs).blocks.len(),
        scan(doc, rs).blocks[k].name == "exercise"@,
        forall|j: int|
            0 <= j < scan(doc, rs).blocks.len() && j != k ==> (#[trigger] scan(doc, rs).blocks[j]).name
                != "exercise"@,
    ensures
        yaml_str_at(scan(doc, rs).blocks[k].content, "id"@) == Some(
            parse_spec(doc, rs)->Ok_0.metadata.id,
        ),
{
    let sc = scan(doc, rs);
    lemma_id_from_block(initial_exercise(sc), sc.blocks, DEFAULT_LANGUAGE@, k);
}

proof fn lemma_hints_stay_sorted(ex: ExerciseV, bs: Seq<BlockV>, dl: Seq<char>)
    requires
        apply_blocks(ex, bs, dl) is Ok,
        hints_sorted(ex.hints),
    ensures
        hints_sorted(apply_blocks(ex, bs, dl)->Ok_0.hints),
    decreases bs.len(),
{
    if bs.len() > 0 {
        let ex2 = apply_block(ex, bs[0], dl)->Ok_0;
        assert forall|hs: Seq<HintV>| #[trigger] hints_sorted(sort_hints(hs)) by {
            lemma_sort_hints_sorted(hs);
        }
        lemma_hints_stay_sorted(ex2, bs.drop_first(), dl);
    }
}

/// The hints of a parsed exercise are ordered by level, whatever order the
/// document gives them in.
pub proof fn law_hints_sorted(doc: Seq<char>, rs: Seq<(usize, usize)>)
    requires
        parse_spec(doc, rs) is Ok,
    ensures
        hints_sorted(parse_spec(doc, rs)->Ok_0.hints),
{
    let sc = scan(doc, rs);
    lemma_hints_stay_sorted(initial_exercise(sc), sc.blocks, DEFAULT_LANGUAGE@);
}

/// Every block named `name` has a blank code body.
pub open spec fn all_blank(bs: Seq<BlockV>, name: Seq<char>) -> bool {
    forall|j: int| 0 <= j < bs.len() && (#[trigger] bs[j]).name == name ==> blank(code_block(bs[j].content).1)
}

proof fn lemma_blank_starter_kept(ex: ExerciseV, bs: Seq<BlockV>, dl: Seq<char>)
    requires
        apply_blocks(ex, bs, dl) is Ok,
        all_blank(bs, "starter"@),
    ensures
        apply_blocks(ex, bs, dl)->Ok_0.starter == ex.starter,
    decreases bs.len(),
{
    if bs.len() > 0 {
        let ex2 = apply_block(ex, bs[0], dl)->Ok_0;
        assert(ex2.starter == ex.starter);
        assert forall|j: int| 0 <= j < bs.drop_first().len() && (#[trigger] bs.drop_first()[j]).name == "starter"@
            implies blank(code_block(bs.drop_first()[j].content).1) by {
            assert(bs.drop_first()[j] == bs[j + 1]);
        }
        lemma_blank_starter_kept(ex2, bs.drop_first(), dl);
    }
}

proof fn lemma_blank_solution_kept(ex: ExerciseV, bs: Seq<BlockV>, dl: Seq<char>)
    requires
        apply_blocks(ex, bs, dl) is Ok,
        all_blank(bs, "solution"@),
    ensures
        apply_blocks(ex, bs, dl)->Ok_0.solution == ex.solution,
    decreases bs.len(),
{
    if bs.len() > 0 {
        let ex2 = apply_block(ex, bs[0], dl)->Ok_0;
        assert(ex2.solution == ex.solution);
        assert forall|j: int| 0 <= j < bs.drop_first().len() && (#[trigger] bs.drop_first()[j]).name == "solution"@
            implies blank(code_block(bs.drop_first()[j].content).1) by {
            assert(bs.drop_first()[j] == bs[j + 1]);
        }
        lemma_blank_solution_kept(ex2, bs.drop_first(), dl);
    }
}

proof fn lemma_blank_tests_kept(ex: ExerciseV, bs: Seq<BlockV>, dl: Seq<char>)
    requires
        apply_blocks(ex, bs, dl) is Ok,
        all_blank(bs, "tests"@),
    ensures
        apply_blocks(ex, bs, dl)->Ok_0.tests == ex.tests,
    decreases bs.len(),
{
    if bs.len() > 0 {
        let ex2 = apply_block(ex, bs[0], dl)->Ok_0;
        assert(ex2.tests == ex.tests);
        assert forall|j: int| 0 <= j < bs.drop_first().len() && (#[trigger] bs.drop_first()[j]).name == "tests"@
            implies blank(code_block(bs.drop_first()[j].content).1) by {
            assert(bs.drop_first()[j] == bs[j + 1]);
        }
        lemma_blank_tests_kept(ex2, bs.drop_first(), dl);
    }
}

/// A `starter`, `solution` or `tests` block whose code body is empty or
/// whitespace never reaches the record: when every such block of a name is
/// blank, the parsed exercise has no field of that name.
pub proof fn law_blank_code_dropped(doc: Seq<char>, rs: Seq<(usize, usize)>)
    requires
        parse_spec(doc, rs) is Ok,
    ensures
        all_blank(scan(doc, rs).blocks, "starter"@) ==> parse_spec(doc, rs)->Ok_0.starter is None,
        all_blank(scan(doc, rs).blocks, "solution"@) ==> parse_spec(doc, rs)->Ok_0.solution is None,
        all_blank(scan(doc, rs).blocks, "tests"@) ==> parse_spec(doc, rs)->Ok_0.tests is None,
{
    let sc = scan(doc, rs);
    let ex = initial_exercise(sc);
    if all_blank(sc.blocks, "starter"@) {
        lemma_blank_starter_kept(ex, sc.blocks, DEFAULT_LANGUAGE@);
    }
    if all_blank(sc.blocks, "solution"@) {
        lemma_blank_solution_kept(ex, sc.blocks, DEFAULT_LANGUAGE@);
    }
    if all_blank(sc.blocks, "tests"@) {
        lemma_blank_tests_kept(ex, sc.blocks, DEFAULT_LANGUAGE@);
    }
}

proof fn lemma_usecase_hints_stay_sorted(uc: UseCaseV, bs: Seq<BlockV>)
    requires
        apply_usecase_blocks(uc, bs) is Ok,
        hints_sorted(uc.hints),
    ensures
        hints_sorted(apply_usecase_blocks(uc, bs)->Ok_0.hints),
    decreases bs.len(),
{
    if bs.len() > 0 {
        let u2 = apply_usecase_block(uc, bs[0].name, bs[0].attrs, bs[0].content)->Ok_0;
        assert forall|hs: Seq<HintV>| #[trigger] hints_sorted(sort_hints(hs)) by {
            lemma_sort_hints_sorted(hs);
        }
        lemma_usecase_hints_stay_sorted(u2, bs.drop_first());
    }
}

/// The hints of a parsed use case are ordered by level too.
pub proof fn law_usecase_hints_sorted(doc: Seq<char>, rs: Seq<(usize, usize)>)
    requires
        parse_usecase_spec(doc, rs) is Ok,
    ensures
        hints_sorted(parse_usecase_spec(doc, rs)->Ok_0.hints),
{
    let sc = scan_with(doc, rs, "usecase"@);
    lemma_usecase_hints_stay_sorted(initial_usecase(sc), sc.blocks);
}

/// The hints that the hint blocks among `bs` give, in order.
pub open spec fn block_hints(bs: Seq<BlockV>) -> Seq<HintV>
    decreases bs.len(),
{
    if bs.len() == 0 {
        seq![]
    } else if bs[0].name == "hint"@ && hint_of(bs[0].attrs, bs[0].content) is Ok {
        seq![hint_of(bs[0].attrs, bs[0].content)->Ok_0] + block_hints(bs.drop_first())
    } else {
        block_hints(bs.drop_first())
    }
}

proof fn lemma_hints_collected(ex: ExerciseV, bs: Seq<BlockV>, dl: Seq<char>)
    requires
        apply_blocks(ex, bs, dl) is Ok,
    ensures
        apply_blocks(ex, bs, dl)->Ok_0.hints.to_multiset() == ex.hints.to_multiset().add(
            block_hints(bs).to_multiset(),
        ),
    decreases bs.len(),
{
    broadcast use vstd::multiset::group_multiset_axioms, vstd::seq_lib::group_to_multiset_ensures;

    if bs.len() == 0 {
        assert(block_hints(bs).to_multiset() =~= Multiset::<HintV>::empty());
        assert(ex.hints.to_multiset().add(Multiset::<HintV>::empty()) =~= ex.hints.to_multiset());
    } else {
        let ex2 = apply_block(ex, bs[0], dl)->Ok_0;
        let rest = bs.drop_first();
        lemma_hints_collected(ex2, rest, dl);
        if bs[0].name == "hint"@ {
            let h = hint_of(bs[0].attrs, bs[0].content)->Ok_0;
            reveal_strlit("hint");
            reveal_strlit("exercise");
            reveal_strlit("objectives");
            reveal_strlit("discussion");
            reveal_strlit("starter");
            assert("hint"@ != "exercise"@ && "hint"@ != "objectives"@ && "hint"@ != "discussion"@
                && "hint"@ != "starter"@) by {
                assert("hint"@.len() != "exercise"@.len());
                assert("hint"@.len() != "objectives"@.len());
                assert("hint"@.len() != "discussion"@.len());
                assert("hint"@[0] != "starter"@[0]);
            }
            assert(apply_block(ex, bs[0], dl) == apply_hint_block(ex, bs[0].attrs, bs[0].content));
            assert(apply_hint_block(ex, bs[0].attrs, bs[0].content) is Ok);
            assert(ex2.hints == sort_hints(ex.hints.push(h)));
            lemma_sort_hints_permutes(ex.hints.push(h));
            to_multiset_build(ex.hints, h);
            lemma_multiset_commutative(seq![h], block_hints(rest));
            to_multiset_build(Seq::<HintV>::empty(), h);
            assert(seq![h] =~= Seq::<HintV>::empty().push(h));
            assert(Seq::<HintV>::empty().to_multiset() =~= Multiset::<HintV>::empty());
            assert(ex2.hints.to_multiset().add(block_hints(rest).to_multiset()) =~= ex.hints.to_multiset().add(
                block_hints(bs).to_multiset(),
            ));
        } else {
            assert(ex2.hints == ex.hints);
        }
    }
}

/// The hints of a parsed exercise are exactly those of its hint blocks, one
/// for each block, whatever their order in the document.
pub proof fn law_hints_from_blocks(doc: Seq<char>, rs: Seq<(usize, usize)>)
    requires
        parse_spec(doc, rs) is Ok,
    ensures
        parse_spec(doc, rs)->Ok_0.hints.to_multiset() == block_hints(scan(doc, rs).blocks).to_multiset(),
{
    broadcast use vstd::multiset::group_multiset_axioms, vstd::seq_lib::group_to_multiset_ensures;

    let sc = scan(doc, rs);
    lemma_hints_collected(initial_exercise(sc), sc.blocks, DEFAULT_LANGUAGE@);
    assert(initial_exercise(sc).hints.to_multiset() =~= Multiset::<HintV>::empty());
    assert(Multiset::<HintV>::empty().add(block_hints(sc.blocks).to_multiset()) =~= block_hints(
        sc.blocks,
    ).to_multiset());
}

/// A block is well-formed: its interpreter succeeds, whatever the record
/// before it. A metadata block is YAML with an `id` string and a known
/// difficulty, if any; an objectives block is YAML; a hint block has a
/// level from 0 to 255; every other block is well-formed.
pub open spec fn well_formed(b: BlockV) -> bool {
    if b.name == "exercise"@ {
        yaml_accepts(b.content) && yaml_str_at(b.content, "id"@) is Some && match yaml_str_at(
            b.content,
            "difficulty"@,
        ) {
            Some(d) => difficulty_of(d) is Some,
            None => true,
        }
    } else if b.name == "objectives"@ {
        yaml_accepts(b.content)
    } else if b.name == "hint"@ {
        hint_of(b.attrs, b.content) is Ok
    } else {
        true
    }
}

proof fn lemma_well_formed_apply(ex: ExerciseV, bs: Seq<BlockV>, dl: Seq<char>)
    requires
        forall|i: int| 0 <= i < bs.len() ==> well_formed(#[trigger] bs[i]),
    ensures
        apply_blocks(ex, bs, dl) is Ok,
    decreases bs.len(),
{
    if bs.len() > 0 {
        assert(well_formed(bs[0]));
        let ex2 = apply_block(ex, bs[0], dl)->Ok_0;
        assert forall|i: int| 0 <= i < bs.drop_first().len() implies well_formed(
            #[trigger] bs.drop_first()[i],
        ) by {
            assert(bs.drop_first()[i] == bs[i + 1]);
        }
        lemma_well_formed_apply(ex2, bs.drop_first(), dl);
    }
}

/// A document with an `exercise` line outside code, no directive left open,
/// well-formed blocks and exactly one `exercise` block parses, and its
/// identifier is that block's YAML `id` value, verbatim.
pub proof fn law_well_formed_id(doc: Seq<char>, rs: Seq<(usize, usize)>, k: int)
    requires
        has_line(doc, rs, exercise_marker()),
        scan(doc, rs).open is None,
        forall|i: int|
            0 <= i < scan(doc, rs).blocks.len() ==> well_formed(#[trigger] scan(doc, rs).blocks[i]),
        0 <= k < scan(doc, rs).blocks.len(),
        scan(doc, rs).blocks[k].name == "exercise"@,
        forall|j: int|
            0 <= j < scan(doc, rs).blocks.len() && j != k ==> (#[trigger] scan(doc, rs).blocks[j]).name
                != "exercise"@,
    ensures
        parse_spec(doc, rs) is Ok,
        yaml_str_at(scan(doc, rs).blocks[k].content, "id"@) == Some(
            parse_spec(doc, rs)->Ok_0.metadata.id,
        ),
{
    let sc = scan(doc, rs);
    lemma_well_formed_apply(initial_exercise(sc), sc.blocks, DEFAULT_LANGUAGE@);
    law_id_verbatim(doc, rs, k);
}

/// The number of line breaks in `s`.
pub open spec fn newlines(s: Seq<char>) -> nat
    decreases s.len(),
{
    if s.len() == 0 {
        0
    } else {
        newlines(s.drop_last()) + if s.last() == '\n' {
            1nat
        } else {
            0nat
        }
    }
}

/// The 1-based number of the line of `doc` that starts at `p`.
pub open spec fn line_number(doc: Seq<char>, p: int) -> nat {
    1 + newlines(doc.subrange(0, p))
}

/// `doc` has a line, number `n`, that opens a directive named `name`, and
/// the directive's body starts at `start`.
pub open spec fn opens_at(doc: Seq<char>, name: Seq<char>, n: nat, start: int) -> bool {
    exists|q: int|
        0 <= q < doc.len() && (q == 0 || doc[q - 1] == '\n') && start == line_end(doc, q)
            && n == line_number(doc, q) && #[trigger] directive_start(
            strip_eol(doc.subrange(q, line_end(doc, q))),
        ) is Some && (directive_start(strip_eol(doc.subrange(q, line_end(doc, q))))->0).0 == name
}

proof fn lemma_newlines_flat(doc: Seq<char>, p: int, k: int)
    requires
        0 <= p <= k <= doc.len(),
        forall|j: int| p <= j < k ==> doc[j] != '\n',
    ensures
        newlines(doc.subrange(0, k)) == newlines(doc.subrange(0, p)),
    decreases k - p,
{
    if k > p {
        lemma_newlines_flat(doc, p, k - 1);
        assert(doc.subrange(0, k).drop_last() =~= doc.subrange(0, k - 1));
    }
}

proof fn lemma_newlines_step(doc: Seq<char>, p: int)
    requires
        0 <= p < doc.len(),
        line_end(doc, p) < doc.len(),
    ensures
        doc[line_end(doc, p) - 1] == '\n',
        newlines(doc.subrange(0, line_end(doc, p))) == newlines(doc.subrange(0, p)) + 1,
{
    let w = doc.subrange(p, doc.len() as int);
    lemma_index_of_bound(w, '\n');
    let q = line_end(doc, p);
    assert forall|j: int| p <= j < q - 1 implies doc[j] != '\n' by {
        assert(w[j - p] == doc[j]);
    }
    lemma_newlines_flat(doc, p, q - 1);
    assert(doc.subrange(0, q).drop_last() =~= doc.subrange(0, q - 1));
    assert(w[q - 1 - p] == doc[q - 1]);
}

proof fn lemma_scan_opens(
    doc: Seq<char>,
    rs: Seq<(usize, usize)>,
    p: int,
    b: int,
    n: nat,
    meta: Seq<char>,
    st: ScanV,
)
    requires
        0 <= p <= doc.len(),
        p == 0 || p == doc.len() || doc[p - 1] == '\n',
        p < doc.len() ==> n == line_number(doc, p),
        st.open is Some ==> opens_at(doc, st.open->0.name, st.open->0.line, st.open->0.start),
    ensures
        scan_from(doc, rs, p, b, n, meta, st).open is Some ==> opens_at(
            doc,
            scan_from(doc, rs, p, b, n, meta, st).open->0.name,
            scan_from(doc, rs, p, b, n, meta, st).open->0.line,
            scan_from(doc, rs, p, b, n, meta, st).open->0.start,
        ),
    decreases doc.len() - p,
{
    if p < doc.len() {
        lemma_index_of_bound(doc.subrange(p, doc.len() as int), '\n');
        let q = line_end(doc, p);
        let bq = sat_add(b, byte_len(doc.subrange(p, q)) as int);
        let st2 = scan_line(doc, rs, p, q, b, bq, n, meta, st);
        let line = strip_eol(doc.subrange(p, q));
        if st2.open is Some && !(st.open is Some && st2.open == st.open) {
            assert(directive_start(line) is Some);
            assert(opens_at(doc, st2.open->0.name, st2.open->0.line, st2.open->0.start));
        }
        if q < doc.len() {
            lemma_newlines_step(doc, p);
        }
        lemma_scan_opens(doc, rs, q, bq, n + 1, meta, st2);
    }
}

/// A directive still open at the end of a document whose blocks all apply
/// gives `UnclosedBlock` with its name and the 1-based number of the line
/// that opened it.
pub proof fn law_unclosed_at_opening_line(doc: Seq<char>, rs: Seq<(usize, usize)>)
    requires
        has_line(doc, rs, exercise_marker()),
        apply_blocks(initial_exercise(scan(doc, rs)), scan(doc, rs).blocks, DEFAULT_LANGUAGE@) is Ok,
        scan(doc, rs).open is Some,
    ensures
        parse_spec(doc, rs) == Err::<ExerciseV, ParseErrorV>(
            ParseErrorV::UnclosedBlock(scan(doc, rs).open->0.name, scan(doc, rs).open->0.line),
        ),
        opens_at(doc, scan(doc, rs).open->0.name, scan(doc, rs).open->0.line, scan(doc, rs).open->0.start),
{
    if doc.len() > 0 {
        assert(doc.subrange(0, 0) =~= Seq::<char>::empty());
    }
    lemma_scan_opens(doc, rs, 0, 0, 1, "exercise"@, initial_scan());
}

} // verus!
