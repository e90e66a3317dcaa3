//! The choice between the two kinds of exercise a document can hold.

use crate::blocks::{ParseError, ParseErrorV};
use crate::exclusion::{excluded_ranges, find_excluded_ranges, markdown_events};
use crate::parser::{has_line, has_line_exec, parse_exercise_with_ranges, parse_spec};
use crate::text::chars_of;
use crate::types::{Exercise, ExerciseV};
use crate::usecase::{
    parse_usecase_spec, parse_usecase_with_ranges, usecase_marker, UseCaseExercise, UseCaseV,
};
use vstd::prelude::*;

verus! {

/// A parsed document: a code exercise or a use case, never both.
#[derive(Debug, Clone)]
pub enum ParsedExercise {
    Code(Exercise),
    UseCase(UseCaseExercise),
}

pub enum ParsedV {
    Code(ExerciseV),
    UseCase(UseCaseV),
}

impl View for ParsedExercise {
    type V = ParsedV;

    open spec fn view(&self) -> ParsedV {
        match self {
            ParsedExercise::Code(e) => ParsedV::Code(e@),
            ParsedExercise::UseCase(u) => ParsedV::UseCase(u@),
        }
    }
}

/// What parsing `doc`, with excluded byte ranges `rs`, yields: a use case
/// when a `::: usecase` line stands outside code, else a code exercise.
pub open spec fn document_spec(doc: Seq<char>, rs: Seq<(usize, usize)>) -> Result<ParsedV, ParseErrorV> {
    if has_line(doc, rs, usecase_marker()) {
        match parse_usecase_spec(doc, rs) {
            Ok(u) => Ok(ParsedV::UseCase(u)),
            Err(e) => Err(e),
        }
    } else {
        match parse_spec(doc, rs) {
            Ok(e) => Ok(ParsedV::Code(e)),
            Err(e) => Err(e),
        }
    }
}

pub open spec fn parsed_view(r: Result<ParsedExercise, ParseError>) -> Result<ParsedV, ParseErrorV> {
    match r {
        Ok(p) => Ok(p@),
        Err(e) => Err(e@),
    }
}

/// Parses `markdown`, whose excluded byte ranges are `ranges`, as whichever
/// kind of exercise it holds.
pub fn parse_document_with_ranges(markdown: &str, ranges: &Vec<(usize, usize)>) -> (r: Result<ParsedExercise, ParseError>)
    ensures
        parsed_view(r) == document_spec(markdown@, ranges@),
{
    let doc = chars_of(markdown);
    proof {
        reveal_strlit("::: usecase");
        assert("::: usecase"@ =~= usecase_marker());
    }
    if has_line_exec(&doc, ranges, "::: usecase") {
        match parse_usecase_with_ranges(markdown, ranges) {
            Ok(u) => Ok(ParsedExercise::UseCase(u)),
            Err(e) => Err(e),
        }
    } else {
        match parse_exercise_with_ranges(markdown, ranges) {
            Ok(e) => Ok(ParsedExercise::Code(e)),
            Err(e) => Err(e),
        }
    }
}

/// Parses a Markdown document as whichever kind of exercise it holds.
pub fn parse_document(markdown: &str) -> (r: Result<ParsedExercise, ParseError>)
    ensures
        parsed_view(r) == document_spec(markdown@, excluded_ranges(markdown_events(markdown@))),
{
    let ranges = find_excluded_ranges(markdown);
    parse_document_with_ranges(markdown, &ranges)
}

} // verus!
