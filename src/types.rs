//! The exercise record and its parts, each with a mathematical view.

use crate::lines::{opt_view, strings_view};
use vstd::prelude::*;

verus! {

/// Difficulty level of an exercise.
#[derive(Debug, Clone, Copy, PartialEq, Eq, Structural)]
pub enum Difficulty {
    Beginner,
    Intermediate,
    Advanced,
}

/// When to reveal a solution in the UI.
#[derive(Debug, Clone, Copy, PartialEq, Eq, Structural)]
pub enum SolutionReveal {
    /// Hidden behind a toggle
    OnDemand,
    /// Shown expanded
    Always,
    /// Never revealed
    Never,
}

/// How tests should be executed.
#[derive(Debug, Clone, Copy, PartialEq, Eq, Structural)]
pub enum TestMode {
    /// Run in the browser through a playground
    Playground,
    /// Display only, run locally
    Local,
}

/// Metadata about an exercise.
#[derive(Debug, Clone)]
pub struct ExerciseMetadata {
    /// Unique identifier for the exercise
    pub id: String,
    /// Difficulty level
    pub difficulty: Difficulty,
    /// Estimated time in minutes
    pub time_minutes: Option<u32>,
    /// Prerequisite exercise identifiers
    pub prerequisites: Vec<String>,
}

/// Learning objectives for an exercise.
#[derive(Debug, Clone)]
pub struct Objectives {
    /// Conceptual understanding goals
    pub thinking: Vec<String>,
    /// Practical skill goals
    pub doing: Vec<String>,
}

/// Starter code for the student to complete.
#[derive(Debug, Clone)]
pub struct StarterCode {
    /// Suggested filename
    pub filename: Option<String>,
    /// Programming language for syntax highlighting
    pub language: String,
    /// The code content
    pub code: String,
}

/// A hint to help students who are stuck.
#[derive(Debug, Clone)]
pub struct Hint {
    /// Hint level (1, 2, 3, ...)
    pub level: u8,
    /// Optional title for the hint
    pub title: Option<String>,
    /// Hint content (Markdown)
    pub content: String,
}

/// The complete solution for an exercise.
#[derive(Debug, Clone)]
pub struct Solution {
    /// The solution code
    pub code: String,
    /// Programming language
    pub language: String,
    /// Optional explanation (Markdown)
    pub explanation: Option<String>,
    /// Reveal policy for this solution
    pub reveal: SolutionReveal,
}

/// Test code for verifying solutions.
#[derive(Debug, Clone)]
pub struct TestBlock {
    /// Programming language
    pub language: String,
    /// The test code
    pub code: String,
    /// Execution mode
    pub mode: TestMode,
}

/// A parsed exercise with all its components.
#[derive(Debug, Clone)]
pub struct Exercise {
    /// Exercise metadata
    pub metadata: ExerciseMetadata,
    /// Title taken from the first heading
    pub title: Option<String>,
    /// Description: the Markdown before the first content directive
    pub description: String,
    /// Learning objectives
    pub objectives: Option<Objectives>,
    /// Discussion prompts
    pub discussion: Option<Vec<String>>,
    /// Starter code
    pub starter: Option<StarterCode>,
    /// Progressive hints, ordered by level
    pub hints: Vec<Hint>,
    /// Complete solution
    pub solution: Option<Solution>,
    /// Test code
    pub tests: Option<TestBlock>,
    /// Reflection questions
    pub reflection: Option<Vec<String>>,
}

pub struct MetadataV {
    pub id: Seq<char>,
    pub difficulty: Difficulty,
    pub time_minutes: Option<u32>,
    pub prerequisites: Seq<Seq<char>>,
}

pub struct ObjectivesV {
    pub thinking: Seq<Seq<char>>,
    pub doing: Seq<Seq<char>>,
}

pub struct StarterV {
    pub filename: Option<Seq<char>>,
    pub language: Seq<char>,
    pub code: Seq<char>,
}

pub struct HintV {
    pub level: u8,
    pub title: Option<Seq<char>>,
    pub content: Seq<char>,
}

pub struct SolutionV {
    pub code: Seq<char>,
    pub language: Seq<char>,
    pub explanation: Option<Seq<char>>,
    pub reveal: SolutionReveal,
}

pub struct TestsV {
    pub language: Seq<char>,
    pub code: Seq<char>,
    pub mode: TestMode,
}

pub struct ExerciseV {
    pub metadata: MetadataV,
    pub title: Option<Seq<char>>,
    pub description: Seq<char>,
    pub objectives: Option<ObjectivesV>,
    pub discussion: Option<Seq<Seq<char>>>,
    pub starter: Option<StarterV>,
    pub hints: Seq<HintV>,
    pub solution: Option<SolutionV>,
    pub tests: Option<TestsV>,
    pub reflection: Option<Seq<Seq<char>>>,
}

impl View for ExerciseMetadata {
    type V = MetadataV;

    open spec fn view(&self) -> MetadataV {
        MetadataV {
            id: self.id@,
            difficulty: self.difficulty,
            time_minutes: self.time_minutes,
            prerequisites: strings_view(self.prerequisites@),
        }
    }
}

impl View for Objectives {
    type V = ObjectivesV;

    open spec fn view(&self) -> ObjectivesV {
        ObjectivesV { thinking: strings_view(self.thinking@), doing: strings_view(self.doing@) }
    }
}

impl View for StarterCode {
    type V = StarterV;

    open spec fn view(&self) -> StarterV {
        StarterV { filename: opt_view(self.filename), language: self.language@, code: self.code@ }
    }
}

impl View for Hint {
    type V = HintV;

    open spec fn view(&self) -> HintV {
        HintV { level: self.level, title: opt_view(self.title), content: self.content@ }
    }
}

impl View for Solution {
    type V = SolutionV;

    open spec fn view(&self) -> SolutionV {
        SolutionV {
            code: self.code@,
            language: self.language@,
            explanation: opt_view(self.explanation),
            reveal: self.reveal,
        }
    }
}

impl View for TestBlock {
    type V = TestsV;

    open spec fn view(&self) -> TestsV {
        TestsV { language: self.language@, code: self.code@, mode: self.mode }
    }
}

pub open spec fn hints_view(hs: Seq<Hint>) -> Seq<HintV> {
    hs.map_values(|h: Hint| h@)
}

pub open spec fn opt_strings_view(o: Option<Vec<String>>) -> Option<Seq<Seq<char>>> {
    match o {
        Some(v) => Some(strings_view(v@)),
        None => None,
    }
}

impl View for Exercise {
    type V = ExerciseV;

    open spec fn view(&self) -> ExerciseV {
        ExerciseV {
            metadata: self.metadata@,
            title: opt_view(self.title),
            description: self.description@,
            objectives: match self.objectives {
                Some(o) => Some(o@),
                None => None,
            },
            discussion: opt_strings_view(self.discussion),
            starter: match self.starter {
                Some(s) => Some(s@),
                None => None,
            },
            hints: hints_view(self.hints@),
            solution: match self.solution {
                Some(s) => Some(s@),
                None => None,
            },
            tests: match self.tests {
                Some(t) => Some(t@),
                None => None,
            },
            reflection: opt_strings_view(self.reflection),
        }
    }
}

/// Hints are ordered by level.
pub open spec fn hints_sorted(hs: Seq<HintV>) -> bool {
    forall|i: int, j: int| 0 <= i < j < hs.len() ==> hs[i].level <= hs[j].level
}

impl Default for Difficulty {
    fn default() -> (r: Difficulty)
        ensures
            r == Difficulty::Beginner,
    {
        Difficulty::Beginner
    }
}

impl Default for SolutionReveal {
    fn default() -> (r: SolutionReveal)
        ensures
            r == SolutionReveal::OnDemand,
    {
        SolutionReveal::OnDemand
    }
}

impl Default for TestMode {
    fn default() -> (r: TestMode)
        ensures
            r == TestMode::Playground,
    {
        TestMode::Playground
    }
}

impl Default for ExerciseMetadata {
    fn default() -> (r: ExerciseMetadata)
        ensures
            r@.id.len() == 0,
            r@.difficulty == Difficulty::Beginner,
            r@.time_minutes is None,
            r@.prerequisites.len() == 0,
    {
        ExerciseMetadata {
            id: String::new(),
            difficulty: Difficulty::Beginner,
            time_minutes: None,
            prerequisites: Vec::new(),
        }
    }
}

impl Default for Objectives {
    fn default() -> (r: Objectives)
        ensures
            r@.thinking.len() == 0,
            r@.doing.len() == 0,
    {
        Objectives { thinking: Vec::new(), doing: Vec::new() }
    }
}

impl Default for StarterCode {
    fn default() -> (r: StarterCode)
        ensures
            r@.filename is None,
            r@.language == "rust"@,
            r@.code.len() == 0,
    {
        StarterCode { filename: None, language: "rust".to_owned(), code: String::new() }
    }
}

impl Default for Solution {
    fn default() -> (r: Solution)
        ensures
            r@.code.len() == 0,
            r@.language == "rust"@,
            r@.explanation is None,
            r@.reveal == SolutionReveal::OnDemand,
    {
        Solution {
            code: String::new(),
            language: "rust".to_owned(),
            explanation: None,
            reveal: SolutionReveal::OnDemand,
        }
    }
}

impl Default for TestBlock {
    fn default() -> (r: TestBlock)
        ensures
            r@.language == "rust"@,
            r@.code.len() == 0,
            r@.mode == TestMode::Playground,
    {
        TestBlock { language: "rust".to_owned(), code: String::new(), mode: TestMode::Playground }
    }
}

impl Default for Exercise {
    fn default() -> (r: Exercise)
        ensures
            r@.metadata.id.len() == 0,
            r@.metadata.difficulty == Difficulty::Beginner,
            r@.metadata.time_minutes is None,
            r@.metadata.prerequisites.len() == 0,
            r@.title is None,
            r@.description.len() == 0,
            r@.objectives is None,
            r@.discussion is None,
            r@.starter is None,
            r@.hints.len() == 0,
            r@.solution is None,
            r@.tests is None,
            r@.reflection is None,
    {
        Exercise {
            metadata: ExerciseMetadata::default(),
            title: None,
            description: String::new(),
            objectives: None,
            discussion: None,
            starter: None,
            hints: Vec::new(),
            solution: None,
            tests: None,
            reflection: None,
        }
    }
}

} // verus!
