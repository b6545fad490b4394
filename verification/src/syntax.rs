//! The Pkl language front end: the lexer and the values of its literals,
//! expressions over the token stream, operators and their precedence,
//! identifiers with their source span, lexing errors, taking string literals
//! out of source text, and the measures used to point at the next element of
//! the input in error reports.
pub mod operator;
pub mod locating;
pub mod lexing;
pub mod sanitize;
pub mod literals;
pub mod lexer;
pub mod expr;
