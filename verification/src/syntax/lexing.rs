//! Errors of the Pkl lexer, and identifiers with their span.
use vstd::prelude::*;
use std::ops::Range;

verus! {

/// An error found while cutting the source into tokens.
#[derive(Debug, Clone, PartialEq, Eq, PartialOrd, Ord)]
pub enum LexingError {
    InvalidInteger(String),
    InvalidFloat(String),
    ExpectedNewLineBeforeMultilineStringEnd,
    ExpectedNewLineAfterMultilineStringStart,
    DefaultLexingError,
}

/// What a lexing error holds, with its texts as character sequences.
pub enum LexFault {
    InvalidInteger(Seq<char>),
    InvalidFloat(Seq<char>),
    ExpectedNewLineBeforeMultilineStringEnd,
    ExpectedNewLineAfterMultilineStringStart,
    DefaultLexingError,
}

impl View for LexingError {
    type V = LexFault;

    open spec fn view(&self) -> LexFault {
        match self {
            LexingError::InvalidInteger(s) => LexFault::InvalidInteger(s@),
            LexingError::InvalidFloat(s) => LexFault::InvalidFloat(s@),
            LexingError::ExpectedNewLineBeforeMultilineStringEnd => LexFault::ExpectedNewLineBeforeMultilineStringEnd,
            LexingError::ExpectedNewLineAfterMultilineStringStart => LexFault::ExpectedNewLineAfterMultilineStringStart,
            LexingError::DefaultLexingError => LexFault::DefaultLexingError,
        }
    }
}

impl LexingError {
    /// The error's message, as its `Display` form shows it.
    pub open spec fn spec_message(&self) -> Seq<char> {
        match self {
            LexingError::InvalidInteger(s) => "Invalid integer: "@ + s@,
            LexingError::InvalidFloat(s) => "Invalid float: "@ + s@,
            LexingError::ExpectedNewLineBeforeMultilineStringEnd => "Expected a newline before the end of the multiline string"@,
            LexingError::ExpectedNewLineAfterMultilineStringStart => "Expected a newline after the start of the multiline string"@,
            LexingError::DefaultLexingError => "An unspecified lexing error occurred"@,
        }
    }

    /// The error's message.
    pub fn message(&self) -> (r: String)
        ensures
            r@ == self.spec_message(),
    {
        match self {
            LexingError::InvalidInteger(s) => {
                let mut m = "Invalid integer: ".to_string();
                m.append(s.as_str());
                m
            },
            LexingError::InvalidFloat(s) => {
                let mut m = "Invalid float: ".to_string();
                m.append(s.as_str());
                m
            },
            LexingError::ExpectedNewLineBeforeMultilineStringEnd => "Expected a newline before the end of the multiline string".to_string(),
            LexingError::ExpectedNewLineAfterMultilineStringStart => "Expected a newline after the start of the multiline string".to_string(),
            LexingError::DefaultLexingError => "An unspecified lexing error occurred".to_string(),
        }
    }

    /// The unspecified error, which is the default.
    pub fn default_error() -> (r: LexingError)
        ensures
            r == LexingError::DefaultLexingError,
    {
        LexingError::DefaultLexingError
    }
}

/// An identifier: its text and the byte range it covers in the source.
#[derive(Debug)]
pub struct Identifier<'a>(pub &'a str, pub Range<usize>);

impl<'a> Identifier<'a> {
    /// The byte range the identifier covers.
    pub fn span(&self) -> (r: Range<usize>)
        ensures
            r.start == self.1.start,
            r.end == self.1.end,
    {
        Range { start: self.1.start, end: self.1.end }
    }

    /// The identifier's text.
    pub fn value(&self) -> (r: &str)
        ensures
            r@ == self.0@,
    {
        self.0
    }
}

} // verus!
