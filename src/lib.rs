//! Extracts documentation written in marked comment lines of a source file and
//! assembles it into markdown documents with verbatim excerpts of the code.
//!
//! The pipeline has three verified stages: [`lex`] keeps the annotation lines and
//! checks their markers, [`parse`] checks that code regions are balanced, and
//! [`generate`] renders the documents.

pub mod text;
pub mod lexer;
pub mod regions;
pub mod generation;

pub use lexer::{lex, validate_tokens, LexError};
pub use regions::{parse, RegionError};
pub use generation::{generate, get_code_snippet, GenerateError};
