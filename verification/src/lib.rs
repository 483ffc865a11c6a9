//! A small ahead-of-time compiler that lowers SPP source text to x86-64
//! assembly text.
//!
//! The pipeline runs one way: [`lexer`] turns text into tokens, [`parser`]
//! turns tokens into statements as [`grammar`] describes, and [`codegen`]
//! walks the statements once, folding constants with [`eval`] and writing
//! the three regions of the document as [`lowering`] describes.
//! [`compiler`] runs the three stages in a row.
//!
//! Every stage either yields its whole result or stops with a
//! [`error::CompileError`]; nothing is ever produced in part.
//!
//! Arithmetic on 64-bit floats is not done here: it is asked of a
//! [`float::FloatTable`] that the caller fills in.
//!
//! [`literals`], [`laws`], [`invariants`], [`coverage`] and [`progress`]
//! hold what is proved about the stages together.

pub mod ast;
pub mod codegen;
pub mod compiler;
pub mod coverage;
pub mod error;
pub mod eval;
pub mod float;
pub mod grammar;
pub mod invariants;
pub mod labels;
pub mod laws;
pub mod lexer;
pub mod literals;
pub mod lowering;
pub mod parser;
pub mod progress;
pub mod templates;
pub mod text;
pub mod value;
