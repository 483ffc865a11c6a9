//! The ways in which a compilation stops.

use vstd::prelude::*;
use crate::float::{FloatQuery, FloatQueryView};

verus! {

/// Why a compilation was abandoned. Every variant is final: no output is
/// produced for a program that runs into one.
#[derive(Debug, PartialEq)]
pub enum CompileError {
    /// Lexical: a string literal is still open at the end of the source.
    UnterminatedString,
    /// Syntactic: no statement form matches at this token position.
    Syntax { position: usize },
    /// Name: a name is used that was never declared.
    UndefinedName,
    /// Name: a declaration reuses a name that is already taken.
    Redeclaration,
    /// Name: an assignment targets a constant.
    ConstantReassigned,
    /// Type: an operator meets kinds of values that it does not support.
    TypeMismatch,
    /// Type: an expression stands where only one that reduces to a
    /// compile-time value can be lowered.
    NotConstant,
    /// Arithmetic: a division by zero while folding constants.
    DivisionByZero,
    /// Arithmetic: the one integer quotient that does not fit 32 bits.
    IntegerOverflow,
    /// The counter that mints labels has run out.
    LabelsExhausted,
    /// A fact about floats is missing from the table that was supplied.
    FloatPending(FloatQuery),
}

pub enum CompileErrorView {
    UnterminatedString,
    Syntax { position: int },
    UndefinedName,
    Redeclaration,
    ConstantReassigned,
    TypeMismatch,
    NotConstant,
    DivisionByZero,
    IntegerOverflow,
    LabelsExhausted,
    FloatPending(FloatQueryView),
}

impl View for CompileError {
    type V = CompileErrorView;

    open spec fn view(&self) -> CompileErrorView {
        match self {
            CompileError::UnterminatedString => CompileErrorView::UnterminatedString,
            CompileError::Syntax { position } => CompileErrorView::Syntax { position: *position as int },
            CompileError::UndefinedName => CompileErrorView::UndefinedName,
            CompileError::Redeclaration => CompileErrorView::Redeclaration,
            CompileError::ConstantReassigned => CompileErrorView::ConstantReassigned,
            CompileError::TypeMismatch => CompileErrorView::TypeMismatch,
            CompileError::NotConstant => CompileErrorView::NotConstant,
            CompileError::DivisionByZero => CompileErrorView::DivisionByZero,
            CompileError::IntegerOverflow => CompileErrorView::IntegerOverflow,
            CompileError::LabelsExhausted => CompileErrorView::LabelsExhausted,
            CompileError::FloatPending(query) => CompileErrorView::FloatPending(query@),
        }
    }
}

} // verus!
