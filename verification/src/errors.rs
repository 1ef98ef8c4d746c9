use vstd::prelude::*;
use vstd::string::StrSliceExecFns;
use vstd::string::StringExecFns;
use crate::span::Span;

verus! {

/// The path of the text being evaluated and the text itself, kept so that
/// diagnostics can point into the source.
#[derive(Clone, Debug)]
pub struct Source {
    pub path: String,
    pub text: String,
}

impl Source {
    /// The machine bound every source must meet: positions into the text
    /// stay countable in a `usize`.
    pub open spec fn wf(self) -> bool {
        self.text@.len() < usize::MAX
    }
}

/// The stage a diagnostic was raised in. Contracts identify an error by its
/// stage and span; the prose of the message is presentation.
#[derive(Copy, Clone, PartialEq, Eq, Structural, Debug)]
pub enum Stage {
    Parsing,
    ReadingIdentifier,
    ParsingInteger,
    ParsingFloat,
    ParsingBoolean,
    ParsingMondaic,
    ParsingDyadic,
    EvaluatingDyadic,
    EvaluatingFunctionCall,
    EvaluatingIndex,
    FindingVariable,
    SettingVariable,
    AssigningVariable,
    CheckingTypes,
    Coercing,
    InvalidArgument,
    InvalidArgumentCount,
}

/// The label each stage is reported under.
pub open spec fn spec_stage_label(stage: Stage) -> Seq<char> {
    match stage {
        Stage::Parsing => "parsing input"@,
        Stage::ReadingIdentifier => "reading identifier"@,
        Stage::ParsingInteger => "parsing integer"@,
        Stage::ParsingFloat => "parsing float"@,
        Stage::ParsingBoolean => "parsing boolean"@,
        Stage::ParsingMondaic => "parsing mondaic"@,
        Stage::ParsingDyadic => "parsing dyadic"@,
        Stage::EvaluatingDyadic => "evaluating dyadic"@,
        Stage::EvaluatingFunctionCall => "evaluating function call"@,
        Stage::EvaluatingIndex => "evaluating index"@,
        Stage::FindingVariable => "finding variable"@,
        Stage::SettingVariable => "setting variable"@,
        Stage::AssigningVariable => "assigning variable"@,
        Stage::CheckingTypes => "checking types"@,
        Stage::Coercing => "coercing"@,
        Stage::InvalidArgument => "Invalid argument"@,
        Stage::InvalidArgumentCount => "Invalid number of arguments"@,
    }
}

impl Stage {
    /// The label this stage is reported under.
    pub fn label(&self) -> (r: &'static str)
        ensures
            r@ == spec_stage_label(*self),
    {
        match self {
            Stage::Parsing => "parsing input",
            Stage::ReadingIdentifier => "reading identifier",
            Stage::ParsingInteger => "parsing integer",
            Stage::ParsingFloat => "parsing float",
            Stage::ParsingBoolean => "parsing boolean",
            Stage::ParsingMondaic => "parsing mondaic",
            Stage::ParsingDyadic => "parsing dyadic",
            Stage::EvaluatingDyadic => "evaluating dyadic",
            Stage::EvaluatingFunctionCall => "evaluating function call",
            Stage::EvaluatingIndex => "evaluating index",
            Stage::FindingVariable => "finding variable",
            Stage::SettingVariable => "setting variable",
            Stage::AssigningVariable => "assigning variable",
            Stage::CheckingTypes => "checking types",
            Stage::Coercing => "coercing",
            Stage::InvalidArgument => "Invalid argument",
            Stage::InvalidArgumentCount => "Invalid number of arguments",
        }
    }
}

/// What a diagnostic is, mathematically: its stage and the span it points at.
pub struct ErrView {
    pub stage: Stage,
    pub span: Span,
}

/// A rich error record: stage label, message, optional hint, the source it
/// points into, and the position of the offending span.
#[derive(Debug)]
pub struct Error {
    pub stage: Stage,
    pub error: String,
    pub hint: Option<String>,
    pub source_path: String,
    pub source_code: String,
    pub span: Span,
    /// Line and column, both starting at one.
    pub position: (usize, usize),
    pub length: usize,
}

impl View for Error {
    type V = ErrView;

    open spec fn view(&self) -> ErrView {
        ErrView { stage: self.stage, span: self.span }
    }
}

/// The line, starting at one, that character position `pos` of `text` falls
/// on: one more than the number of line breaks before it.
pub open spec fn spec_line(text: Seq<char>, pos: int) -> int
    decreases pos,
{
    if pos <= 0 {
        1
    } else {
        spec_line(text, pos - 1) + if text[pos - 1] == '\n' {
            1int
        } else {
            0int
        }
    }
}

/// The column, starting at one, of character position `pos` of `text`: the
/// distance to the line break before it.
pub open spec fn spec_col(text: Seq<char>, pos: int) -> int
    decreases pos,
{
    if pos <= 0 {
        1
    } else if text[pos - 1] == '\n' {
        1
    } else {
        spec_col(text, pos - 1) + 1
    }
}

/// Position `pos`, clamped into `text`.
pub open spec fn spec_clamp(text: Seq<char>, pos: int) -> int {
    if pos <= text.len() {
        pos
    } else {
        text.len() as int
    }
}

/// The line and column of a character position in a text.
pub fn line_col(text: &str, pos: usize) -> (r: (usize, usize))
    requires
        text@.len() < usize::MAX,
    ensures
        r.0 == spec_line(text@, spec_clamp(text@, pos as int)),
        r.1 == spec_col(text@, spec_clamp(text@, pos as int)),
{
    let len = text.unicode_len();
    let stop = if pos <= len {
        pos
    } else {
        len
    };
    let mut line: usize = 1;
    let mut col: usize = 1;
    let mut i: usize = 0;
    while i < stop
        invariant
            text@.len() < usize::MAX,
            0 <= i <= stop <= text@.len(),
            line == spec_line(text@, i as int),
            col == spec_col(text@, i as int),
            line <= i + 1,
            col <= i + 1,
        decreases stop - i,
    {
        if text.get_char(i) == '\n' {
            line += 1;
            col = 1;
        } else {
            col += 1;
        }
        i += 1;
    }
    (line, col)
}

impl Error {
    /// Build a diagnostic for a stage, message and optional hint, pointing
    /// at `span` of the given source.
    pub fn new(stage: Stage, error: String, hint: Option<String>, span: Span, src: &Source) -> (r:
        Error)
        requires
            src.wf(),
        ensures
            r@ == (ErrView { stage, span }),
            r.position.0 == spec_line(src.text@, spec_clamp(src.text@, span.start as int)),
            r.position.1 == spec_col(src.text@, spec_clamp(src.text@, span.start as int)),
            r.length == if span.end >= span.start {
                span.end - span.start
            } else {
                0
            },
            r.source_path@ == src.path@,
            r.source_code@ == src.text@,
            r.error@ == error@,
    {
        let position = line_col(src.text.as_str(), span.start);
        let length = if span.end >= span.start {
            span.end - span.start
        } else {
            0
        };
        Error {
            stage,
            error,
            hint,
            source_path: src.path.clone(),
            source_code: src.text.clone(),
            span,
            position,
            length,
        }
    }

    /// The stage label under its reporting prefix.
    pub fn during_process(&self) -> (r: String)
        ensures
            r@ == "Failed while "@ + spec_stage_label(self.stage),
    {
        let s = String::from_str("Failed while ");
        proof {
            assert(s@ == "Failed while "@);
        }
        s.concat(self.stage.label())
    }
}

} // verus!
