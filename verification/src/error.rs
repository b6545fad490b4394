//! The error type of the evaluator side of the library.
use vstd::prelude::*;

verus! {

/// Top-level error type for all Pkl operations.
#[derive(Debug, PartialEq, Eq)]
pub enum PklError {
    /// Pkl CLI exited with a non-zero status or sent an error response.
    EvalError(String),
    /// Failed to decode the binary response from Pkl.
    DecodeError(String),
    /// I/O error talking to the Pkl subprocess (its message).
    IoError(String),
    /// The Pkl CLI binary was not found or could not be executed.
    CliError(String),
    /// Type mismatch during decoding.
    TypeMismatch { expected: String, actual: String },
    /// A required property was missing.
    MissingProperty(String),
    /// Unknown Pkl object code encountered.
    UnknownObjectCode(u8),
    /// Custom error context.
    Custom(String),
}

/// The model of an error: its variant and its message.
pub enum PklErrorModel {
    EvalError(Seq<char>),
    DecodeError(Seq<char>),
    IoError(Seq<char>),
    CliError(Seq<char>),
    TypeMismatch(Seq<char>, Seq<char>),
    MissingProperty(Seq<char>),
    UnknownObjectCode(u8),
    Custom(Seq<char>),
}

impl View for PklError {
    type V = PklErrorModel;

    open spec fn view(&self) -> PklErrorModel {
        match self {
            PklError::EvalError(m) => PklErrorModel::EvalError(m@),
            PklError::DecodeError(m) => PklErrorModel::DecodeError(m@),
            PklError::IoError(m) => PklErrorModel::IoError(m@),
            PklError::CliError(m) => PklErrorModel::CliError(m@),
            PklError::TypeMismatch { expected, actual } => PklErrorModel::TypeMismatch(
                expected@,
                actual@,
            ),
            PklError::MissingProperty(m) => PklErrorModel::MissingProperty(m@),
            PklError::UnknownObjectCode(c) => PklErrorModel::UnknownObjectCode(*c),
            PklError::Custom(m) => PklErrorModel::Custom(m@),
        }
    }
}

impl PklError {
    /// The message of this error, as its `Display` form would show it.
    pub fn message(&self) -> (r: String)
        ensures
            r@ == spec_error_message(self@),
    {
        let mut s = String::new();
        match self {
            PklError::EvalError(m) => {
                s.append("Pkl evaluation error: ");
                s.append(m.as_str());
            },
            PklError::DecodeError(m) => {
                s.append("Decode error: ");
                s.append(m.as_str());
            },
            PklError::IoError(m) => {
                s.append("I/O error: ");
                s.append(m.as_str());
            },
            PklError::CliError(m) => {
                s.append("Pkl CLI error: ");
                s.append(m.as_str());
            },
            PklError::TypeMismatch { expected, actual } => {
                s.append("Type mismatch: expected ");
                s.append(expected.as_str());
                s.append(", got ");
                s.append(actual.as_str());
            },
            PklError::MissingProperty(m) => {
                s.append("Missing property `");
                s.append(m.as_str());
                s.append("`");
            },
            PklError::UnknownObjectCode(c) => {
                s.append("Unknown Pkl object code: 0x");
                let h = crate::format::hex_min2(*c as u64);
                s.append(h.as_str());
            },
            PklError::Custom(m) => {
                s.append(m.as_str());
            },
        }
        s
    }
}

/// The text of an error message.
pub open spec fn spec_error_message(e: PklErrorModel) -> Seq<char> {
    match e {
        PklErrorModel::EvalError(m) => "Pkl evaluation error: "@ + m,
        PklErrorModel::DecodeError(m) => "Decode error: "@ + m,
        PklErrorModel::IoError(m) => "I/O error: "@ + m,
        PklErrorModel::CliError(m) => "Pkl CLI error: "@ + m,
        PklErrorModel::TypeMismatch(x, a) => "Type mismatch: expected "@ + x + ", got "@ + a,
        PklErrorModel::MissingProperty(m) => "Missing property `"@ + m + "`"@,
        PklErrorModel::UnknownObjectCode(c) => "Unknown Pkl object code: 0x"@
            + crate::format::spec_hex_min2(c as nat),
        PklErrorModel::Custom(m) => m,
    }
}

} // verus!
