//! The whole pipeline: source text to tokens, tokens to statements,
//! statements to the assembly document.

use vstd::prelude::*;
use crate::codegen::generate_nasm;
use crate::error::CompileError;
use crate::float::{FloatFactView, FloatTable};
use crate::grammar::program;
use crate::lexer::{lex, lex_spec};
use crate::lowering::{generate, generation_matches, Code};
use crate::parser::parse_program;

verus! {

/// The assembly document of a source text: the text is lexed, the tokens
/// are parsed as a program, and the program is lowered. The first stage
/// that fails decides the outcome.
pub open spec fn compiled(source: Seq<char>, floats: Seq<FloatFactView>) -> Code {
    match lex_spec(source) {
        Err(e) => Err(e),
        Ok(tokens) => match program(tokens, 0, Seq::empty()) {
            Err(e) => Err(e),
            Ok(stmts) => generate(stmts, floats),
        },
    }
}

/// Compiles a source text to its assembly document.
///
/// Where the outcome is a pending float query, recording the answer in
/// the table and compiling again gets further:
///
/// ```text
/// let mut floats = FloatTable::new();
/// let outcome = loop {
///     match compile(source, &floats) {
///         Err(CompileError::FloatPending(query)) => {
///             let answer = /* computed with 64-bit floats */;
///             floats.record(query, answer);
///         }
///         outcome => break outcome,
///     }
/// };
/// ```
pub fn compile(source: &str, floats: &FloatTable) -> (r: Result<String, CompileError>)
    ensures
        generation_matches(r, compiled(source@, floats@)),
{
    let tokens = lex(source)?;
    let stmts = parse_program(tokens)?;
    generate_nasm(&stmts, floats)
}

} // verus!
