//! Progress of the float protocol: a query that stops a compilation is one
//! that the table does not answer, so a query that has been answered is
//! never asked again.

use vstd::prelude::*;
use crate::ast::{BinOp, ExprView};
use crate::compiler::compiled;
use crate::error::CompileErrorView;
use crate::eval::{apply_binary, evaluate, evaluate_all};
use crate::float::{
    float_truth,
    float_value,
    lemma_recorded_fact_answers,
    FloatAnswerView,
    FloatFactView,
    FloatQueryView,
};
use crate::grammar::lemma_program_fails_on_syntax_only;
use crate::lexer::{lemma_lexer_fails_on_open_string_only, lex_spec};
use crate::lowering::{
    array_element,
    array_elements,
    assign,
    collect,
    collect_list,
    concat,
    declare_const,
    declare_let,
    else_start,
    expression_code,
    generate,
    initial_state,
    is_concat,
    lower,
    lower_block,
    lower_exit,
    lower_print,
    minted,
    then_start,
    GenState,
};
use crate::templates::{numbered, ARRAY_OPEN, BUFFER_RESET, ELEMENT_NOTE, NESTED_OPEN};
use crate::value::{Bindings, ValueView};

verus! {

/// Whether the facts answer a query with an answer of the kind that the
/// query asks for: a truth value for a comparison, a float for the rest.
pub open spec fn answered(facts: Seq<FloatFactView>, query: FloatQueryView) -> bool {
    match query {
        FloatQueryView::Compare(_, _, _) => float_truth(facts, query) is Some,
        _ => float_value(facts, query) is Some,
    }
}

/// Whether an answer is of the kind that a query asks for.
pub open spec fn fits(query: FloatQueryView, answer: FloatAnswerView) -> bool {
    match query {
        FloatQueryView::Compare(_, _, _) => answer is Truth,
        _ => answer is Value,
    }
}

/// Whether an outcome, if it is a pending query, is a query that the
/// facts do not answer.
pub open spec fn honest<T>(outcome: Result<T, CompileErrorView>, facts: Seq<FloatFactView>)
    -> bool {
    match outcome {
        Err(CompileErrorView::FloatPending(query)) => !answered(facts, query),
        _ => true,
    }
}

/// An operator asks only for what the facts do not answer.
pub proof fn lemma_apply_binary_is_honest(
    op: BinOp,
    left: ValueView,
    right: ValueView,
    floats: Seq<FloatFactView>,
)
    ensures
        honest(apply_binary(op, left, right, floats), floats),
{
}

/// Folding asks only for what the facts do not answer.
pub proof fn lemma_evaluate_is_honest(
    e: ExprView,
    constants: Bindings,
    variables: Bindings,
    floats: Seq<FloatFactView>,
)
    ensures
        honest(evaluate(e, constants, variables, floats), floats),
    decreases e, 0nat,
{
    match e {
        ExprView::Array(items) => {
            lemma_evaluate_all_is_honest(items, items.len(), constants, variables, floats);
        },
        ExprView::BinaryOp { op, left, right } => {
            lemma_evaluate_is_honest(*left, constants, variables, floats);
            lemma_evaluate_is_honest(*right, constants, variables, floats);
            match (
                evaluate(*left, constants, variables, floats),
                evaluate(*right, constants, variables, floats),
            ) {
                (Ok(l), Ok(r)) => lemma_apply_binary_is_honest(op, l, r, floats),
                _ => {},
            }
        },
        _ => {},
    }
}

/// Folding a list asks only for what the facts do not answer.
pub proof fn lemma_evaluate_all_is_honest(
    items: Seq<ExprView>,
    n: nat,
    constants: Bindings,
    variables: Bindings,
    floats: Seq<FloatFactView>,
)
    ensures
        honest(evaluate_all(items, n, constants, variables, floats), floats),
    decreases items, n,
{
    if 0 < n <= items.len() {
        lemma_evaluate_all_is_honest(items, (n - 1) as nat, constants, variables, floats);
        lemma_evaluate_is_honest(items[n - 1], constants, variables, floats);
    }
}

/// Lowering a numeric expression asks only for what the facts do not
/// answer.
pub proof fn lemma_expression_code_is_honest(
    e: ExprView,
    constants: Bindings,
    variables: Bindings,
    floats: Seq<FloatFactView>,
)
    ensures
        honest(expression_code(e, constants, variables, floats), floats),
    decreases e,
{
    match e {
        ExprView::BinaryOp { op, left, right } => {
            lemma_expression_code_is_honest(*left, constants, variables, floats);
            lemma_expression_code_is_honest(*right, constants, variables, floats);
        },
        _ => {},
    }
}

/// Appending an operand asks only for what the facts do not answer.
pub proof fn lemma_concat_is_honest(e: ExprView, st: GenState, floats: Seq<FloatFactView>)
    ensures
        honest(concat(e, st, floats), floats),
    decreases e,
{
    match e {
        ExprView::BinaryOp { op, left, right } => {
            if is_concat(op, *left, *right, st.constants, st.variables) {
                lemma_concat_is_honest(*left, st, floats);
                match concat(*left, st, floats) {
                    Ok(st1) => lemma_concat_is_honest(*right, st1, floats),
                    Err(_) => {},
                }
            } else {
                lemma_expression_code_is_honest(e, st.constants, st.variables, floats);
            }
        },
        _ => {},
    }
}

/// Writing out an array element asks only for what the facts do not
/// answer.
pub proof fn lemma_array_element_is_honest(e: ExprView, st: GenState, floats: Seq<FloatFactView>)
    ensures
        honest(array_element(e, st, floats), floats),
    decreases e, 0nat,
{
    match e {
        ExprView::Array(items) => {
            lemma_array_elements_are_honest(
                items,
                items.len(),
                GenState { text: st.text + NESTED_OPEN@, ..st },
                floats,
            );
        },
        ExprView::BinaryOp { .. } => {
            lemma_concat_is_honest(
                e,
                GenState { text: st.text + ELEMENT_NOTE@ + BUFFER_RESET@, ..st },
                floats,
            );
        },
        _ => {},
    }
}

/// Writing out array elements asks only for what the facts do not answer.
pub proof fn lemma_array_elements_are_honest(
    items: Seq<ExprView>,
    n: nat,
    st: GenState,
    floats: Seq<FloatFactView>,
)
    ensures
        honest(array_elements(items, n, st, floats), floats),
    decreases items, n,
{
    if 0 < n <= items.len() {
        lemma_array_elements_are_honest(items, (n - 1) as nat, st, floats);
        match array_elements(items, (n - 1) as nat, st, floats) {
            Ok(st1) => lemma_array_element_is_honest(items[n - 1], st1, floats),
            Err(_) => {},
        }
    }
}

/// Lowering a print statement asks only for what the facts do not answer.
pub proof fn lemma_print_is_honest(inner: ExprView, st: GenState, floats: Seq<FloatFactView>)
    ensures
        honest(lower_print(inner, st, floats), floats),
{
    match inner {
        ExprView::Array(items) => {
            lemma_array_elements_are_honest(
                items,
                items.len(),
                GenState { text: st.text + ARRAY_OPEN@, ..st },
                floats,
            );
        },
        ExprView::BinaryOp { op, left, right } => {
            if is_concat(op, *left, *right, st.constants, st.variables) {
                let reset = GenState { text: st.text + BUFFER_RESET@, ..st };
                lemma_concat_is_honest(*left, reset, floats);
                match concat(*left, reset, floats) {
                    Ok(st1) => lemma_concat_is_honest(*right, st1, floats),
                    Err(_) => {},
                }
            } else {
                lemma_expression_code_is_honest(inner, st.constants, st.variables, floats);
            }
        },
        _ => {},
    }
}

/// Lowering an exit, a declaration or an assignment asks only for what
/// the facts do not answer.
pub proof fn lemma_plain_statements_are_honest(
    name: Seq<char>,
    value: ExprView,
    st: GenState,
    floats: Seq<FloatFactView>,
)
    ensures
        honest(lower_exit(value, st, floats), floats),
        honest(declare_const(name, value, st, floats), floats),
        honest(declare_let(name, value, st, floats), floats),
        honest(assign(name, value, st, floats), floats),
{
    lemma_expression_code_is_honest(value, st.constants, st.variables, floats);
    lemma_evaluate_is_honest(value, st.constants, st.variables, floats);
}

/// Lowering a statement asks only for what the facts do not answer.
pub proof fn lemma_lower_is_honest(e: ExprView, st: GenState, floats: Seq<FloatFactView>)
    ensures
        honest(lower(e, st, floats), floats),
    decreases e, 0nat,
{
    match e {
        ExprView::Print(inner) => lemma_print_is_honest(*inner, st, floats),
        ExprView::Exit(code) => lemma_plain_statements_are_honest(Seq::empty(), *code, st, floats),
        ExprView::Const { name, value } => lemma_plain_statements_are_honest(
            name,
            *value,
            st,
            floats,
        ),
        ExprView::Let { name, value } => lemma_plain_statements_are_honest(
            name,
            *value,
            st,
            floats,
        ),
        ExprView::Assign { name, value } => lemma_plain_statements_are_honest(
            name,
            *value,
            st,
            floats,
        ),
        ExprView::If { condition, then_branch, else_branch } => {
            lemma_expression_code_is_honest(*condition, st.constants, st.variables, floats);
            match (
                minted(st, "if_end"@),
                expression_code(*condition, st.constants, st.variables, floats),
            ) {
                (Ok((end_label, st1)), Ok(code)) => {
                    let else_label = numbered("if_else"@, st.counter);
                    let target = if else_branch is Some {
                        else_label
                    } else {
                        end_label
                    };
                    let st2 = then_start(st1, code, target);
                    lemma_lower_block_is_honest(then_branch, then_branch.len(), st2, floats);
                    match (lower_block(then_branch, then_branch.len(), st2, floats), else_branch) {
                        (Ok(st3), Some(stmts)) => {
                            lemma_lower_block_is_honest(
                                stmts,
                                stmts.len(),
                                else_start(st3, end_label, else_label),
                                floats,
                            );
                        },
                        _ => {},
                    }
                },
                _ => {},
            }
        },
        _ => {},
    }
}

/// Lowering a list of statements asks only for what the facts do not
/// answer.
pub proof fn lemma_lower_block_is_honest(
    stmts: Seq<ExprView>,
    n: nat,
    st: GenState,
    floats: Seq<FloatFactView>,
)
    ensures
        honest(lower_block(stmts, n, st, floats), floats),
    decreases stmts, n,
{
    if 0 < n <= stmts.len() {
        lemma_lower_block_is_honest(stmts, (n - 1) as nat, st, floats);
        match lower_block(stmts, (n - 1) as nat, st, floats) {
            Ok(st1) => lemma_lower_is_honest(stmts[n - 1], st1, floats),
            Err(_) => {},
        }
    }
}

/// Giving string literals their labels asks for nothing.
pub proof fn lemma_collect_is_honest(e: ExprView, st: GenState, floats: Seq<FloatFactView>)
    ensures
        honest(collect(e, st), floats),
    decreases e, 0nat,
{
    match e {
        ExprView::Print(inner) => lemma_collect_is_honest(*inner, st, floats),
        ExprView::Exit(inner) => lemma_collect_is_honest(*inner, st, floats),
        ExprView::Const { value, .. } => lemma_collect_is_honest(*value, st, floats),
        ExprView::Let { value, .. } => lemma_collect_is_honest(*value, st, floats),
        ExprView::Assign { value, .. } => lemma_collect_is_honest(*value, st, floats),
        ExprView::BinaryOp { left, right, .. } => {
            lemma_collect_is_honest(*left, st, floats);
            match collect(*left, st) {
                Ok(st1) => lemma_collect_is_honest(*right, st1, floats),
                Err(_) => {},
            }
        },
        ExprView::Array(items) => lemma_collect_list_is_honest(items, items.len(), st, floats),
        ExprView::If { condition, then_branch, else_branch } => {
            lemma_collect_is_honest(*condition, st, floats);
            match collect(*condition, st) {
                Ok(st1) => {
                    lemma_collect_list_is_honest(then_branch, then_branch.len(), st1, floats);
                    match (collect_list(then_branch, then_branch.len(), st1), else_branch) {
                        (Ok(st2), Some(stmts)) => {
                            lemma_collect_list_is_honest(stmts, stmts.len(), st2, floats);
                        },
                        _ => {},
                    }
                },
                Err(_) => {},
            }
        },
        _ => {},
    }
}

/// Giving the string literals of a list their labels asks for nothing.
pub proof fn lemma_collect_list_is_honest(
    items: Seq<ExprView>,
    n: nat,
    st: GenState,
    floats: Seq<FloatFactView>,
)
    ensures
        honest(collect_list(items, n, st), floats),
    decreases items, n,
{
    if 0 < n <= items.len() {
        lemma_collect_list_is_honest(items, (n - 1) as nat, st, floats);
        match collect_list(items, (n - 1) as nat, st) {
            Ok(st1) => lemma_collect_is_honest(items[n - 1], st1, floats),
            Err(_) => {},
        }
    }
}

/// A compilation that stops at a float query stops at one that the table
/// does not answer.
pub proof fn lemma_compilation_is_honest(source: Seq<char>, floats: Seq<FloatFactView>)
    ensures
        honest(compiled(source, floats), floats),
        forall|stmts: Seq<ExprView>| honest(#[trigger] generate(stmts, floats), floats),
{
    lemma_lexer_fails_on_open_string_only(source, 0, Seq::empty());
    match lex_spec(source) {
        Ok(tokens) => lemma_program_fails_on_syntax_only(tokens, 0, Seq::empty()),
        Err(_) => {},
    }
    assert forall|stmts: Seq<ExprView>| honest(#[trigger] generate(stmts, floats), floats) by {
        lemma_collect_list_is_honest(stmts, stmts.len(), initial_state(), floats);
        match collect_list(stmts, stmts.len(), initial_state()) {
            Ok(st1) => lemma_lower_block_is_honest(stmts, stmts.len(), st1, floats),
            Err(_) => {},
        }
    }
}

/// The float protocol makes progress: once the answer to the query that
/// stopped a compilation is recorded, with an answer of the kind that the
/// query asks for, no compilation with the larger table stops at that
/// query again.
pub proof fn lemma_answered_query_is_not_asked_again(
    source: Seq<char>,
    floats: Seq<FloatFactView>,
    query: FloatQueryView,
    answer: FloatAnswerView,
)
    requires
        fits(query, answer),
    ensures
        compiled(source, floats.push(FloatFactView { query, answer })) != Err::<
            Seq<char>,
            CompileErrorView,
        >(CompileErrorView::FloatPending(query)),
{
    let more = floats.push(FloatFactView { query, answer });
    lemma_recorded_fact_answers(floats, query, answer, query);
    lemma_compilation_is_honest(source, more);
}

} // verus!
