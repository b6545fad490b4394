//! Build-time code generation for Pkl schemas: a Pkl source text is read into
//! classes, type aliases and properties, from which Rust declarations with
//! `PklDecode` derives are generated.
pub mod schema;
pub mod parse;
pub mod types;
pub mod generate;
