//! Errors returned by the library.
use crate::chars::{decimal, push_decimal};
use vstd::prelude::*;

verus! {

/// What went wrong while reading a document.
#[non_exhaustive]
#[derive(Debug, PartialEq, Eq, Clone, Copy, Structural)]
pub enum ParseErrorKind {
    KeyBoundaryNotFound,
    SeparatorBoundaryNotFound,
    SeparatorHasMoreThanOneEqual,
    ExpectedFieldValue,
    UnclosedDoubleQuote,
    UnterminatedCRLF,
    InvalidParserUse,
}

/// Every error of the library.
#[non_exhaustive]
#[derive(Debug, PartialEq)]
pub enum Error {
    Parse { line: usize, col: usize, kind: ParseErrorKind },
    InvalidIndent(String),
    InvalidSeparator(String),
    InvalidComment(String),
    InvalidKey(String),
    InvalidValue(String),
    InvalidLineEnding(String),
    NotASelector(String),
    UnexpectedSelector(String),
    NotCumulative(String),
    EmptyKey,
    EmptyValue,
}

/// The mathematical value of an [`Error`]: texts become character sequences.
pub enum ErrorView {
    Parse { line: int, col: int, kind: ParseErrorKind },
    InvalidIndent(Seq<char>),
    InvalidSeparator(Seq<char>),
    InvalidComment(Seq<char>),
    InvalidKey(Seq<char>),
    InvalidValue(Seq<char>),
    InvalidLineEnding(Seq<char>),
    NotASelector(Seq<char>),
    UnexpectedSelector(Seq<char>),
    NotCumulative(Seq<char>),
    EmptyKey,
    EmptyValue,
}

impl View for Error {
    type V = ErrorView;

    open spec fn view(&self) -> ErrorView {
        match self {
            Error::Parse { line, col, kind } => ErrorView::Parse {
                line: *line as int,
                col: *col as int,
                kind: *kind,
            },
            Error::InvalidIndent(s) => ErrorView::InvalidIndent(s@),
            Error::InvalidSeparator(s) => ErrorView::InvalidSeparator(s@),
            Error::InvalidComment(s) => ErrorView::InvalidComment(s@),
            Error::InvalidKey(s) => ErrorView::InvalidKey(s@),
            Error::InvalidValue(s) => ErrorView::InvalidValue(s@),
            Error::InvalidLineEnding(s) => ErrorView::InvalidLineEnding(s@),
            Error::NotASelector(s) => ErrorView::NotASelector(s@),
            Error::UnexpectedSelector(s) => ErrorView::UnexpectedSelector(s@),
            Error::NotCumulative(s) => ErrorView::NotCumulative(s@),
            Error::EmptyKey => ErrorView::EmptyKey,
            Error::EmptyValue => ErrorView::EmptyValue,
        }
    }
}

/// The `Result` of the library.
pub type Result<T> = core::result::Result<T, Error>;

/// The message of a [`ParseErrorKind`].
pub open spec fn kind_text(k: ParseErrorKind) -> Seq<char> {
    match k {
        ParseErrorKind::KeyBoundaryNotFound => "key boundary not found"@,
        ParseErrorKind::SeparatorBoundaryNotFound => "separator boundary not found"@,
        ParseErrorKind::SeparatorHasMoreThanOneEqual => "separator has more than one '='"@,
        ParseErrorKind::ExpectedFieldValue => "field value not found"@,
        ParseErrorKind::UnclosedDoubleQuote => "unclosed double quote"@,
        ParseErrorKind::UnterminatedCRLF => "unterminated CRLF, expected LF"@,
        ParseErrorKind::InvalidParserUse => "unexpected input data"@,
    }
}

impl ParseErrorKind {
    /// The message of this kind of error.
    pub fn as_str(&self) -> (s: &'static str)
        ensures
            s@ == kind_text(*self),
    {
        match self {
            ParseErrorKind::KeyBoundaryNotFound => "key boundary not found",
            ParseErrorKind::SeparatorBoundaryNotFound => "separator boundary not found",
            ParseErrorKind::SeparatorHasMoreThanOneEqual => "separator has more than one '='",
            ParseErrorKind::ExpectedFieldValue => "field value not found",
            ParseErrorKind::UnclosedDoubleQuote => "unclosed double quote",
            ParseErrorKind::UnterminatedCRLF => "unterminated CRLF, expected LF",
            ParseErrorKind::InvalidParserUse => "unexpected input data",
        }
    }

    /// The message of this kind of error, as a `String`.
    pub fn to_string(&self) -> (s: String)
        ensures
            s@ == kind_text(*self),
    {
        self.as_str().to_owned()
    }
}

/// The text that `{:?}` writes for a string: the characters between double
/// quotes, escaped as Rust escapes them.
pub uninterp spec fn debug_text(s: Seq<char>) -> Seq<char>;

/// `format!("{:?}", s)` on a `&str`: the Debug writing of `s`, which the
/// contract names without stating.
#[verifier::external_body]
fn debug_quoted(s: &str) -> (r: String)
    ensures
        r@ == debug_text(s@),
{
    format!("{:?}", s)
}

/// The message of an error.
pub open spec fn error_text(e: ErrorView) -> Seq<char> {
    match e {
        ErrorView::Parse { line, col, kind } => kind_text(kind) + " at ln:"@ + decimal(line as nat)
            + " col:"@ + decimal(col as nat),
        ErrorView::InvalidIndent(s) => "invalid indent: "@ + debug_text(s),
        ErrorView::InvalidSeparator(s) => "invalid separator: "@ + debug_text(s),
        ErrorView::InvalidComment(s) => "invalid comment: "@ + debug_text(s),
        ErrorView::InvalidKey(s) => "invalid key: "@ + debug_text(s),
        ErrorView::InvalidValue(s) => "invalid value: "@ + debug_text(s),
        ErrorView::InvalidLineEnding(s) => "invalid line ending: "@ + debug_text(s),
        ErrorView::NotASelector(s) => "invalid key, not a selector: "@ + debug_text(s),
        ErrorView::UnexpectedSelector(s) => "unexpected selector: "@ + debug_text(s),
        ErrorView::NotCumulative(s) => "FieldKey already exist and is not cumulative: "@ + debug_text(s),
        ErrorView::EmptyKey => "empty key"@,
        ErrorView::EmptyValue => "empty value"@,
    }
}

impl Error {
    /// The message of the error.
    pub fn to_string(&self) -> (s: String)
        ensures
            s@ == error_text(self@),
    {
        let mut out = String::new();
        match self {
            Error::Parse { line, col, kind } => {
                out.append(kind.as_str());
                out.append(" at ln:");
                push_decimal(&mut out, *line as u64);
                out.append(" col:");
                push_decimal(&mut out, *col as u64);
            },
            Error::InvalidIndent(s) => {
                out.append("invalid indent: ");
                out.append(debug_quoted(s.as_str()).as_str());
            },
            Error::InvalidSeparator(s) => {
                out.append("invalid separator: ");
                out.append(debug_quoted(s.as_str()).as_str());
            },
            Error::InvalidComment(s) => {
                out.append("invalid comment: ");
                out.append(debug_quoted(s.as_str()).as_str());
            },
            Error::InvalidKey(s) => {
                out.append("invalid key: ");
                out.append(debug_quoted(s.as_str()).as_str());
            },
            Error::InvalidValue(s) => {
                out.append("invalid value: ");
                out.append(debug_quoted(s.as_str()).as_str());
            },
            Error::InvalidLineEnding(s) => {
                out.append("invalid line ending: ");
                out.append(debug_quoted(s.as_str()).as_str());
            },
            Error::NotASelector(s) => {
                out.append("invalid key, not a selector: ");
                out.append(debug_quoted(s.as_str()).as_str());
            },
            Error::UnexpectedSelector(s) => {
                out.append("unexpected selector: ");
                out.append(debug_quoted(s.as_str()).as_str());
            },
            Error::NotCumulative(s) => {
                out.append("FieldKey already exist and is not cumulative: ");
                out.append(debug_quoted(s.as_str()).as_str());
            },
            Error::EmptyKey => {
                out.append("empty key");
            },
            Error::EmptyValue => {
                out.append("empty value");
            },
        }
        assert(out@ =~= error_text(self@));
        out
    }
}

} // verus!
