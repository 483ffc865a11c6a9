//! Laws that relate the stages to one another.

use vstd::prelude::*;
use crate::ast::ExprView;
use crate::error::{CompileError, CompileErrorView};
use crate::eval::{evaluate, evaluate_all, folded_view};
use crate::float::{float_value, FloatFactView, FloatQueryView};
use crate::lowering::{generate, generation_matches};
use crate::value::{Bindings, ConstValue, ValueView};

verus! {

/// Folding is repeatable: whatever two runs of the evaluator hand back
/// for one expression, one pair of tables and one table of float facts is
/// the same value, or the same error.
pub proof fn lemma_folding_is_repeatable(
    expr: ExprView,
    constants: Bindings,
    variables: Bindings,
    floats: Seq<FloatFactView>,
    first: Result<ConstValue, CompileError>,
    second: Result<ConstValue, CompileError>,
)
    requires
        folded_view(first) == evaluate(expr, constants, variables, floats),
        folded_view(second) == evaluate(expr, constants, variables, floats),
    ensures
        folded_view(first) == folded_view(second),
{
}

/// Whether a node is a literal: a number, a float, a string, a truth
/// value, null, or an array of literals.
pub open spec fn is_literal(e: ExprView) -> bool
    decreases e,
{
    match e {
        ExprView::Number(_) => true,
        ExprView::Float(_) => true,
        ExprView::StringLiteral(_) => true,
        ExprView::Boolean(_) => true,
        ExprView::Null => true,
        ExprView::Array(items) => forall|i: int|
            0 <= i < items.len() ==> is_literal(#[trigger] items[i]),
        _ => false,
    }
}

/// Whether the facts say what every float literal of a node denotes.
pub open spec fn floats_known(e: ExprView, floats: Seq<FloatFactView>) -> bool
    decreases e,
{
    match e {
        ExprView::Float(text) => float_value(floats, FloatQueryView::Literal(text)) is Some,
        ExprView::Array(items) => forall|i: int|
            0 <= i < items.len() ==> floats_known(#[trigger] items[i], floats),
        _ => true,
    }
}

/// The value that a literal node denotes: the value of the same kind with
/// the same content. A float denotes what the facts give for its text; an
/// array denotes the array of what its elements denote, in their order.
pub open spec fn literal_value(e: ExprView, floats: Seq<FloatFactView>) -> ValueView
    decreases e,
{
    match e {
        ExprView::Number(n) => ValueView::Number(n),
        ExprView::Float(text) => ValueView::Float(
            float_value(floats, FloatQueryView::Literal(text))->0,
        ),
        ExprView::StringLiteral(s) => ValueView::Text(s),
        ExprView::Boolean(b) => ValueView::Boolean(b),
        ExprView::Array(items) => ValueView::Array(
            Seq::new(
                items.len(),
                |i: int|
                    if 0 <= i < items.len() {
                        literal_value(items[i], floats)
                    } else {
                        ValueView::Null
                    },
            ),
        ),
        _ => ValueView::Null,
    }
}

/// Whether an outcome is a pending query for a float literal that the
/// facts say nothing of.
pub open spec fn waits_for_literal<T>(
    outcome: Result<T, CompileErrorView>,
    floats: Seq<FloatFactView>,
) -> bool {
    outcome matches Err(CompileErrorView::FloatPending(FloatQueryView::Literal(text)))
        && float_value(floats, FloatQueryView::Literal(text)) is None
}

/// Literals fold to what they denote, whatever the tables of names hold:
/// a literal node folds to the value of the same kind with the same
/// content, an array of literals to the array of its elements' values,
/// with the same length and in the same order. The one thing that can
/// stand in the way is a float literal that the facts say nothing of:
/// then the outcome is the pending query for such a literal.
pub proof fn lemma_literal_folds_to_its_value(
    e: ExprView,
    constants: Bindings,
    variables: Bindings,
    floats: Seq<FloatFactView>,
)
    requires
        is_literal(e),
    ensures
        floats_known(e, floats) ==> evaluate(e, constants, variables, floats) == Ok::<
            ValueView,
            CompileErrorView,
        >(literal_value(e, floats)),
        !floats_known(e, floats) ==> waits_for_literal(
            evaluate(e, constants, variables, floats),
            floats,
        ),
    decreases e, 1nat,
{
    match e {
        ExprView::Array(items) => {
            lemma_literals_fold_to_their_values(items, items.len(), constants, variables, floats);
            let values = literal_value(e, floats)->Array_0;
            assert(values.take(items.len() as int) =~= values);
        },
        _ => {},
    }
}

/// The first `n` literals of a list fold to what they denote, in their
/// order, unless one of them waits for a float literal.
pub proof fn lemma_literals_fold_to_their_values(
    items: Seq<ExprView>,
    n: nat,
    constants: Bindings,
    variables: Bindings,
    floats: Seq<FloatFactView>,
)
    requires
        n <= items.len(),
        forall|i: int| 0 <= i < items.len() ==> is_literal(#[trigger] items[i]),
    ensures
        (forall|i: int| 0 <= i < n ==> floats_known(#[trigger] items[i], floats)) ==> evaluate_all(
            items,
            n,
            constants,
            variables,
            floats,
        ) == Ok::<Seq<ValueView>, CompileErrorView>(
            literal_value(ExprView::Array(items), floats)->Array_0.take(n as int),
        ),
        !(forall|i: int| 0 <= i < n ==> floats_known(#[trigger] items[i], floats))
            ==> waits_for_literal(evaluate_all(items, n, constants, variables, floats), floats),
    decreases items, n,
{
    let values = literal_value(ExprView::Array(items), floats)->Array_0;
    if n == 0 {
        assert(values.take(0) =~= Seq::<ValueView>::empty());
    } else {
        lemma_literals_fold_to_their_values(items, (n - 1) as nat, constants, variables, floats);
        assert(is_literal(items[n - 1]));
        lemma_literal_folds_to_its_value(items[n - 1], constants, variables, floats);
        assert(values[n - 1] == literal_value(items[n - 1], floats));
        assert(values.take(n as int) =~= values.take(n - 1).push(values[n - 1]));
    }
}

/// Whether the facts give, for the text of every float in a value, that
/// float. A value without floats asks nothing of the facts.
pub open spec fn faithful(v: ValueView, floats: Seq<FloatFactView>) -> bool
    decreases v,
{
    match v {
        ValueView::Float(f) => float_value(floats, FloatQueryView::Literal(f.text)) == Some(f),
        ValueView::Array(items) => forall|i: int|
            0 <= i < items.len() ==> faithful(#[trigger] items[i], floats),
        _ => true,
    }
}

/// The literal expression that denotes a resolved value. A float is
/// denoted by its text.
pub open spec fn literal_of(v: ValueView) -> ExprView
    decreases v,
{
    match v {
        ValueView::Number(n) => ExprView::Number(n),
        ValueView::Float(f) => ExprView::Float(f.text),
        ValueView::Text(s) => ExprView::StringLiteral(s),
        ValueView::Boolean(b) => ExprView::Boolean(b),
        ValueView::Array(items) => ExprView::Array(
            Seq::new(
                items.len(),
                |i: int|
                    if 0 <= i < items.len() {
                        literal_of(items[i])
                    } else {
                        ExprView::Null
                    },
            ),
        ),
        ValueView::Null => ExprView::Null,
    }
}

/// Folding is idempotent: a value written back as a literal folds to
/// itself, whatever the tables of names hold, as long as the facts still
/// give its floats for their texts.
pub proof fn lemma_folding_is_idempotent(
    v: ValueView,
    constants: Bindings,
    variables: Bindings,
    floats: Seq<FloatFactView>,
)
    requires
        faithful(v, floats),
    ensures
        evaluate(literal_of(v), constants, variables, floats) == Ok::<ValueView, CompileErrorView>(
            v,
        ),
    decreases v, 1nat,
{
    match v {
        ValueView::Array(items) => {
            let literals = literal_of(v)->Array_0;
            assert(literals.len() == items.len());
            lemma_folding_items(items, items.len(), constants, variables, floats);
            assert(items.take(items.len() as int) =~= items);
        },
        _ => {},
    }
}

/// The literals of the first `n` values of a list fold to those values.
pub proof fn lemma_folding_items(
    items: Seq<ValueView>,
    n: nat,
    constants: Bindings,
    variables: Bindings,
    floats: Seq<FloatFactView>,
)
    requires
        n <= items.len(),
        forall|i: int| 0 <= i < items.len() ==> faithful(#[trigger] items[i], floats),
    ensures
        evaluate_all(literal_of(ValueView::Array(items))->Array_0, n, constants, variables, floats)
            == Ok::<Seq<ValueView>, CompileErrorView>(items.take(n as int)),
    decreases items, n,
{
    let literals = literal_of(ValueView::Array(items))->Array_0;
    if n == 0 {
        assert(items.take(0) =~= Seq::<ValueView>::empty());
    } else {
        lemma_folding_items(items, (n - 1) as nat, constants, variables, floats);
        assert(faithful(items[n - 1], floats));
        lemma_folding_is_idempotent(items[n - 1], constants, variables, floats);
        assert(literals[n - 1] == literal_of(items[n - 1]));
        assert(items.take(n as int) =~= items.take(n - 1).push(items[n - 1]));
    }
}

/// Generation yields a document or an error, never both and never a part
/// of a document: what two runs hand back for one program and one table
/// of float facts is the same.
pub proof fn lemma_generation_is_repeatable(
    stmts: Seq<ExprView>,
    floats: Seq<FloatFactView>,
    first: Result<String, CompileError>,
    second: Result<String, CompileError>,
)
    requires
        generation_matches(first, generate(stmts, floats)),
        generation_matches(second, generate(stmts, floats)),
    ensures
        first is Ok <==> second is Ok,
        first is Ok ==> first->Ok_0@ == second->Ok_0@,
        first is Err ==> first->Err_0@ == second->Err_0@,
{
}

} // verus!
