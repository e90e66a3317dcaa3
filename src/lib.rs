//! Extraction of exercise records from Markdown documents annotated with
//! `::: name attr=value` directive blocks, and their rendering to HTML.
//!
//! - `parser`: the line scanner that assembles directive blocks outside code
//!   and raw HTML, and `parse_exercise` for code exercises.
//! - `blocks`: what each block of a code exercise contributes to the record.
//! - `usecase`: use-case exercises (scenario, prompt, rubric, sample answer).
//! - `document`: `parse_document`, which picks the kind of exercise.
//! - `attrs`, `lines`, `text`: directive attributes, fence info strings,
//!   code blocks, lists, numbers and the character helpers under them.
//! - `exclusion`: the byte ranges that CommonMark reads as code or HTML.
//! - `yaml`: the YAML payloads of blocks.
//! - `render`, `preprocessor`: HTML output and chapter processing.
//! - `laws`: properties proved of every document.

pub mod attrs;
pub mod document;
pub mod blocks;
pub mod exclusion;
pub mod laws;
pub mod lines;
pub mod parser;
pub mod preprocessor;
pub mod render;
pub mod text;
pub mod types;
pub mod usecase;
pub mod yaml;

pub use attrs::{parse_fence_info, parse_inline_attributes, Attributes};
pub use blocks::ParseError;
pub use document::{parse_document, ParsedExercise};
pub use parser::{parse_exercise, parse_exercise_with_ranges};
pub use preprocessor::{ExerciseIncludeProcessor, ExercisesPreprocessor, FullExercisesPreprocessor};
pub use render::{escape_html, render_exercise, render_exercise_with_config, RenderConfig, RenderError};
pub use types::{
    Difficulty, Exercise, ExerciseMetadata, Hint, Objectives, Solution, SolutionReveal,
    StarterCode, TestBlock, TestMode,
};
pub use usecase::{
    Criterion, Domain, EvaluationCriteria, SampleAnswer, Scenario, UseCaseExercise,
    UseCaseMetadata, UseCasePrompt,
};
