//! Rust bindings support for the Pkl configuration language: a schema reader
//! and Rust code generator, the host side of the Pkl server protocol, and
//! project descriptions.
pub mod text;
pub mod codegen;
pub mod format;
pub mod error;
pub mod ordered;
pub mod msgapi;
pub mod project;
pub mod module_source;
pub mod reader;
pub mod util;
pub mod cli_evaluator;
pub mod server;
pub mod syntax;
pub mod derive_plan;
pub mod store;
