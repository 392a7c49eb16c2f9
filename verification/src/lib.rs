//! A lint pass over HTML source text: it parses the document, walks the
//! parsed tree, and reports rule violations and syntax errors as
//! position-anchored diagnostics.

pub mod analyze;
pub mod diagnostic;
pub mod engine;
pub mod parse;
pub mod position;
pub mod tree;
