use crate::text::push_char;
use vstd::prelude::*;
use vstd::string::*;

verus! {

/// What went wrong, as a mathematical value.
pub enum ErrorKindView {
    UnexpectedCharacter(char),
    UnterminatedString(Seq<char>),
    UnterminatedComment,
    Unknown,
}

/// The lexical errors.
#[derive(Debug, Clone, PartialEq)]
pub enum ErrorKind {
    /// A character that starts no token.
    UnexpectedCharacter(char),
    /// A string literal without a closing quote; carries the text from the
    /// opening quote to the end of input.
    UnterminatedString(String),
    /// A block comment that is still open at the end of input.
    UnterminatedComment,
    /// No error has been recorded.
    Unknown,
}

impl View for ErrorKind {
    type V = ErrorKindView;

    open spec fn view(&self) -> ErrorKindView {
        match self {
            ErrorKind::UnexpectedCharacter(c) => ErrorKindView::UnexpectedCharacter(*c),
            ErrorKind::UnterminatedString(s) => ErrorKindView::UnterminatedString(s@),
            ErrorKind::UnterminatedComment => ErrorKindView::UnterminatedComment,
            ErrorKind::Unknown => ErrorKindView::Unknown,
        }
    }
}

impl ErrorKindView {
    /// The description shown to the user.
    pub open spec fn message(self) -> Seq<char> {
        match self {
            ErrorKindView::UnexpectedCharacter(c) => "Unexpected character: "@.push(c),
            ErrorKindView::UnterminatedString(s) => "Unterminated string: "@ + s,
            ErrorKindView::UnterminatedComment => "Unterminated comment"@,
            ErrorKindView::Unknown => "Unknown error"@,
        }
    }
}

impl ErrorKind {
    /// The description shown to the user.
    pub fn message(&self) -> (r: String)
        ensures
            r@ == self@.message(),
    {
        match self {
            ErrorKind::UnexpectedCharacter(c) => {
                let mut text = String::from_str("Unexpected character: ");
                push_char(&mut text, *c);
                text
            },
            ErrorKind::UnterminatedString(s) => {
                String::from_str("Unterminated string: ").concat(s.as_str())
            },
            ErrorKind::UnterminatedComment => String::from_str("Unterminated comment"),
            ErrorKind::Unknown => String::from_str("Unknown error"),
        }
    }
}

/// An error slot as a mathematical value.
pub struct InterpreterErrorView {
    pub kind: ErrorKindView,
    pub had_err: bool,
}

/// An error slot: whether an error occurred, and which.
#[derive(Debug, Clone, PartialEq)]
pub struct InterpreterError {
    kind: ErrorKind,
    had_err: bool,
}

impl View for InterpreterError {
    type V = InterpreterErrorView;

    closed spec fn view(&self) -> InterpreterErrorView {
        InterpreterErrorView { kind: self.kind@, had_err: self.had_err }
    }
}

impl InterpreterError {
    /// The empty slot: no error has occurred.
    pub fn new() -> (r: Self)
        ensures
            r@ == (InterpreterErrorView { kind: ErrorKindView::Unknown, had_err: false }),
    {
        Self { kind: ErrorKind::Unknown, had_err: false }
    }

    /// Records that `e` occurred, in place of whatever the slot held.
    pub fn occur(self, e: ErrorKind) -> (r: Self)
        ensures
            r@ == (InterpreterErrorView { kind: e@, had_err: true }),
    {
        Self { kind: e, had_err: true }
    }

    /// The recorded error, `Unknown` while none occurred.
    pub fn kind(&self) -> (r: &ErrorKind)
        ensures
            r@ == self@.kind,
    {
        &self.kind
    }

    /// Whether an error was recorded.
    pub fn had_err(&self) -> (r: bool)
        ensures
            r == self@.had_err,
    {
        self.had_err
    }

    /// The description of the recorded error.
    pub fn message(&self) -> (r: String)
        ensures
            r@ == self@.kind.message(),
    {
        self.kind.message()
    }
}

/// A diagnostic as a mathematical value: the line and the error found there.
pub struct DiagnosticView {
    pub line: nat,
    pub error: InterpreterErrorView,
}

/// One entry for the error sink: a line and the error detected on it.
#[derive(Debug, Clone, PartialEq)]
pub struct Diagnostic {
    line: usize,
    error: InterpreterError,
}

impl View for Diagnostic {
    type V = DiagnosticView;

    closed spec fn view(&self) -> DiagnosticView {
        DiagnosticView { line: self.line as nat, error: self.error@ }
    }
}

impl Diagnostic {
    /// The 1-based line on which the error was detected.
    pub fn line(&self) -> (r: usize)
        ensures
            r as nat == self@.line,
    {
        self.line
    }

    /// The error.
    pub fn error(&self) -> (r: &InterpreterError)
        ensures
            r@ == self@.error,
    {
        &self.error
    }

    /// The description of the error.
    pub fn message(&self) -> (r: String)
        ensures
            r@ == self@.error.kind.message(),
    {
        self.error.message()
    }
}

/// The diagnostic for an error detected on `line`.
pub fn error(line: usize, err: InterpreterError) -> (r: Diagnostic)
    ensures
        r@ == (DiagnosticView { line: line as nat, error: err@ }),
{
    Diagnostic { line, error: err }
}

/// The diagnostic that scanning records for an error of the given kind.
pub open spec fn diagnostic_of(line: nat, kind: ErrorKindView) -> DiagnosticView {
    DiagnosticView { line, error: InterpreterErrorView { kind, had_err: true } }
}

/// The views of a sequence of diagnostics, in order.
pub open spec fn diagnostic_views(diagnostics: Seq<Diagnostic>) -> Seq<DiagnosticView> {
    diagnostics.map_values(|d: Diagnostic| d@)
}

} // verus!
