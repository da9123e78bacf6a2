//! Unified error taxonomy across the parse, validate, and interpret phases.

use vstd::prelude::*;
use crate::text::{chars_to_string, dec_chars, spec_dec};

verus! {

/// Error kind categories.
#[derive(Debug, Clone, Copy, PartialEq, Eq, Structural)]
pub enum ApexErrorKind {
    /// Lexer encountered invalid token
    LexError,
    /// Parser encountered unexpected structure
    ParseError,
    /// TASK block missing (required)
    MissingTask,
    /// Multiple TASK blocks found
    MultipleTasks,
    /// Required block is empty
    EmptyRequiredBlock,
    /// Unknown block identifier
    UnknownBlock,
    /// Invalid tool name syntax
    InvalidToolName,
    /// Constraint violation during execution
    ConstraintViolation,
    /// Validation condition failed
    ValidationFailure,
    /// Internal error (should not happen)
    InternalError,
}

impl ApexErrorKind {
    /// The name of the error category.
    pub open spec fn spec_name(self) -> Seq<char> {
        match self {
            ApexErrorKind::LexError => "LexError"@,
            ApexErrorKind::ParseError => "ParseError"@,
            ApexErrorKind::MissingTask => "MissingTask"@,
            ApexErrorKind::MultipleTasks => "MultipleTasks"@,
            ApexErrorKind::EmptyRequiredBlock => "EmptyRequiredBlock"@,
            ApexErrorKind::UnknownBlock => "UnknownBlock"@,
            ApexErrorKind::InvalidToolName => "InvalidToolName"@,
            ApexErrorKind::ConstraintViolation => "ConstraintViolation"@,
            ApexErrorKind::ValidationFailure => "ValidationFailure"@,
            ApexErrorKind::InternalError => "InternalError"@,
        }
    }

    /// The name of the error category.
    pub fn as_str(&self) -> (r: &'static str)
        ensures
            r@ == self.spec_name(),
    {
        match self {
            ApexErrorKind::LexError => "LexError",
            ApexErrorKind::ParseError => "ParseError",
            ApexErrorKind::MissingTask => "MissingTask",
            ApexErrorKind::MultipleTasks => "MultipleTasks",
            ApexErrorKind::EmptyRequiredBlock => "EmptyRequiredBlock",
            ApexErrorKind::UnknownBlock => "UnknownBlock",
            ApexErrorKind::InvalidToolName => "InvalidToolName",
            ApexErrorKind::ConstraintViolation => "ConstraintViolation",
            ApexErrorKind::ValidationFailure => "ValidationFailure",
            ApexErrorKind::InternalError => "InternalError",
        }
    }
}

/// Mathematical model of an [`ApexError`].
pub struct ErrV {
    pub kind: ApexErrorKind,
    pub message: Seq<char>,
    pub line: Option<usize>,
    pub column: Option<usize>,
}

/// An error with its category, a human-readable message, and an optional
/// source location.
#[derive(Debug, Clone)]
pub struct ApexError {
    /// Error category
    pub kind: ApexErrorKind,
    /// Human-readable message
    pub message: String,
    /// Line number where error occurred (1-indexed)
    pub line: Option<usize>,
    /// Column number (1-indexed)
    pub column: Option<usize>,
}

impl View for ApexError {
    type V = ErrV;

    open spec fn view(&self) -> ErrV {
        ErrV { kind: self.kind, message: self.message@, line: self.line, column: self.column }
    }
}

/// The rendered form of an error: `[Kind] message (line N)`.
pub open spec fn spec_render(e: ErrV) -> Seq<char> {
    let head = "["@ + e.kind.spec_name() + "] "@ + e.message;
    match e.line {
        Some(n) => head + " (line "@ + spec_dec(n as int) + ")"@,
        None => head,
    }
}

impl ApexError {
    /// Create a new error with no location.
    pub fn new(kind: ApexErrorKind, message: String) -> (r: ApexError)
        ensures
            r@ == (ErrV { kind, message: message@, line: None, column: None }),
    {
        ApexError { kind, message, line: None, column: None }
    }

    /// The same error, at the given line.
    pub fn with_line(self, line: usize) -> (r: ApexError)
        ensures
            r@ == (ErrV { line: Some(line), ..self@ }),
    {
        ApexError { line: Some(line), ..self }
    }

    /// The same error, at the given column.
    pub fn with_column(self, column: usize) -> (r: ApexError)
        ensures
            r@ == (ErrV { column: Some(column), ..self@ }),
    {
        ApexError { column: Some(column), ..self }
    }

    /// Parse error at an optional line.
    pub fn parse(msg: String, line: Option<usize>) -> (r: ApexError)
        ensures
            r@ == (ErrV { kind: ApexErrorKind::ParseError, message: msg@, line, column: None }),
    {
        ApexError { kind: ApexErrorKind::ParseError, message: msg, line, column: None }
    }

    /// Lex error at an optional line.
    pub fn lex(msg: String, line: Option<usize>) -> (r: ApexError)
        ensures
            r@ == (ErrV { kind: ApexErrorKind::LexError, message: msg@, line, column: None }),
    {
        ApexError { kind: ApexErrorKind::LexError, message: msg, line, column: None }
    }

    /// The error reported when no TASK block exists.
    pub fn missing_task() -> (r: ApexError)
        ensures
            r@ == (ErrV {
                kind: ApexErrorKind::MissingTask,
                message: "APEX document must contain exactly one TASK block"@,
                line: None,
                column: None,
            }),
    {
        ApexError::new(
            ApexErrorKind::MissingTask,
            String::from_str("APEX document must contain exactly one TASK block"),
        )
    }

    /// The error reported when a second TASK block starts at `line`.
    pub fn multiple_tasks(line: usize) -> (r: ApexError)
        ensures
            r@ == (ErrV {
                kind: ApexErrorKind::MultipleTasks,
                message: "APEX document contains multiple TASK blocks"@,
                line: Some(line),
                column: None,
            }),
    {
        ApexError::new(
            ApexErrorKind::MultipleTasks,
            String::from_str("APEX document contains multiple TASK blocks"),
        ).with_line(line)
    }

    /// The message of [`ApexError::empty_block`] for a block named `name`.
    pub open spec fn spec_empty_block_msg(name: Seq<char>) -> Seq<char> {
        name + " block cannot be empty"@
    }

    /// The error reported when a required block has no content.
    pub fn empty_block(name: &str, line: Option<usize>) -> (r: ApexError)
        ensures
            r@ == (ErrV {
                kind: ApexErrorKind::EmptyRequiredBlock,
                message: Self::spec_empty_block_msg(name@),
                line,
                column: None,
            }),
    {
        let msg = String::from_str(name).concat(" block cannot be empty");
        ApexError { kind: ApexErrorKind::EmptyRequiredBlock, message: msg, line, column: None }
    }

    /// The message of [`ApexError::unknown_block`] for a block named `name`.
    pub open spec fn spec_unknown_block_msg(name: Seq<char>) -> Seq<char> {
        "Unknown block identifier: "@ + name
    }

    /// The error reported for an unknown block identifier.
    pub fn unknown_block(name: &str, line: Option<usize>) -> (r: ApexError)
        ensures
            r@ == (ErrV {
                kind: ApexErrorKind::UnknownBlock,
                message: Self::spec_unknown_block_msg(name@),
                line,
                column: None,
            }),
    {
        let msg = String::from_str("Unknown block identifier: ").concat(name);
        ApexError { kind: ApexErrorKind::UnknownBlock, message: msg, line, column: None }
    }

    /// The message of [`ApexError::constraint_violation`].
    pub open spec fn spec_constraint_violation_msg(
        constraint: Seq<char>,
        reason: Seq<char>,
    ) -> Seq<char> {
        "Constraint '"@ + constraint + "' violated: "@ + reason
    }

    /// The error reported when an execution constraint is violated.
    pub fn constraint_violation(constraint: &str, reason: &str) -> (r: ApexError)
        ensures
            r@ == (ErrV {
                kind: ApexErrorKind::ConstraintViolation,
                message: Self::spec_constraint_violation_msg(constraint@, reason@),
                line: None,
                column: None,
            }),
    {
        let msg = String::from_str("Constraint '").concat(constraint).concat(
            "' violated: ",
        ).concat(reason);
        ApexError::new(ApexErrorKind::ConstraintViolation, msg)
    }

    /// The message of [`ApexError::validation_failure`].
    pub open spec fn spec_validation_failure_msg(condition: Seq<char>) -> Seq<char> {
        "Validation failed: "@ + condition
    }

    /// The error reported when a validation condition fails.
    pub fn validation_failure(condition: &str) -> (r: ApexError)
        ensures
            r@ == (ErrV {
                kind: ApexErrorKind::ValidationFailure,
                message: Self::spec_validation_failure_msg(condition@),
                line: None,
                column: None,
            }),
    {
        let msg = String::from_str("Validation failed: ").concat(condition);
        ApexError::new(ApexErrorKind::ValidationFailure, msg)
    }

    /// Render the error as `[Kind] message`, with ` (line N)` appended when a
    /// line is known.
    pub fn render(&self) -> (r: String)
        ensures
            r@ == spec_render(self@),
    {
        let mut s = String::from_str("[");
        s.append(self.kind.as_str());
        s.append("] ");
        s.append(self.message.as_str());
        if let Some(n) = self.line {
            s.append(" (line ");
            let digits = dec_chars(n as u64);
            let ds = chars_to_string(&digits);
            s.append(ds.as_str());
            s.append(")");
        }
        s
    }
}

/// Result type alias for APEX operations.
pub type ApexResult<T> = Result<T, ApexError>;

} // verus!
