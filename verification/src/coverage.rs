//! Labels of string literals: once the literals of a program have their
//! labels, lowering the program finds every label it looks for and gives
//! out none.

use vstd::prelude::*;
use crate::ast::ExprView;
use crate::float::FloatFactView;
use crate::invariants::{extends, lemma_collect_extends, lemma_collect_list_extends};
use crate::lowering::{
    array_element,
    array_elements,
    assign,
    collect,
    collect_list,
    concat,
    declare_const,
    declare_let,
    else_start,
    expression_code,
    initial_state,
    is_concat,
    lower,
    lower_block,
    lower_exit,
    lower_print,
    minted,
    then_start,
    GenState,
};
use crate::templates::{numbered, ARRAY_OPEN, BUFFER_RESET, ELEMENT_NOTE, NESTED_OPEN};

verus! {

/// The labels of string literals.
pub type Labels = Map<Seq<char>, Seq<char>>;

/// Whether every string literal of a node has its label.
pub open spec fn covered(e: ExprView, labels: Labels) -> bool
    decreases e, 0nat,
{
    match e {
        ExprView::StringLiteral(s) => labels.contains_key(s),
        ExprView::Print(inner) => covered(*inner, labels),
        ExprView::Exit(inner) => covered(*inner, labels),
        ExprView::Const { value, .. } => covered(*value, labels),
        ExprView::Let { value, .. } => covered(*value, labels),
        ExprView::Assign { value, .. } => covered(*value, labels),
        ExprView::BinaryOp { left, right, .. } => covered(*left, labels) && covered(
            *right,
            labels,
        ),
        ExprView::Array(items) => covered_list(items, items.len(), labels),
        ExprView::If { condition, then_branch, else_branch } => covered(*condition, labels)
            && covered_list(then_branch, then_branch.len(), labels) && match else_branch {
            Some(stmts) => covered_list(stmts, stmts.len(), labels),
            None => true,
        },
        _ => true,
    }
}

/// Whether every string literal in the first `n` nodes of a list has its
/// label.
pub open spec fn covered_list(items: Seq<ExprView>, n: nat, labels: Labels) -> bool
    decreases items, n,
{
    n == 0 || n > items.len() || (covered_list(items, (n - 1) as nat, labels) && covered(
        items[n - 1],
        labels,
    ))
}

/// Whether a table of labels holds every label of another, unchanged.
pub open spec fn includes(later: Labels, earlier: Labels) -> bool {
    forall|literal: Seq<char>| #[trigger]
        earlier.contains_key(literal) ==> later.contains_key(literal) && later[literal]
            == earlier[literal]
}

/// A state that extends another holds all of its labels.
pub proof fn lemma_extends_includes(before: GenState, after: GenState)
    requires
        extends(before, after),
    ensures
        includes(after.labels, before.labels),
{
    reveal(extends);
}

/// Literals that have their labels keep them in a larger table.
pub proof fn lemma_covered_stays(e: ExprView, earlier: Labels, later: Labels)
    requires
        covered(e, earlier),
        includes(later, earlier),
    ensures
        covered(e, later),
    decreases e, 0nat,
{
    match e {
        ExprView::Print(inner) => lemma_covered_stays(*inner, earlier, later),
        ExprView::Exit(inner) => lemma_covered_stays(*inner, earlier, later),
        ExprView::Const { value, .. } => lemma_covered_stays(*value, earlier, later),
        ExprView::Let { value, .. } => lemma_covered_stays(*value, earlier, later),
        ExprView::Assign { value, .. } => lemma_covered_stays(*value, earlier, later),
        ExprView::BinaryOp { left, right, .. } => {
            lemma_covered_stays(*left, earlier, later);
            lemma_covered_stays(*right, earlier, later);
        },
        ExprView::Array(items) => lemma_covered_list_stays(items, items.len(), earlier, later),
        ExprView::If { condition, then_branch, else_branch } => {
            lemma_covered_stays(*condition, earlier, later);
            lemma_covered_list_stays(then_branch, then_branch.len(), earlier, later);
            match else_branch {
                Some(stmts) => lemma_covered_list_stays(stmts, stmts.len(), earlier, later),
                None => {},
            }
        },
        _ => {},
    }
}

/// Literals of a list that have their labels keep them in a larger table.
pub proof fn lemma_covered_list_stays(
    items: Seq<ExprView>,
    n: nat,
    earlier: Labels,
    later: Labels,
)
    requires
        covered_list(items, n, earlier),
        includes(later, earlier),
    ensures
        covered_list(items, n, later),
    decreases items, n,
{
    if 0 < n <= items.len() {
        lemma_covered_list_stays(items, (n - 1) as nat, earlier, later);
        lemma_covered_stays(items[n - 1], earlier, later);
    }
}

/// After the literals of a node are collected, each has its label.
pub proof fn lemma_collect_covers(e: ExprView, st: GenState)
    ensures
        collect(e, st) matches Ok(after) ==> covered(e, after.labels),
    decreases e, 0nat,
{
    match collect(e, st) {
        Ok(after) => match e {
            ExprView::Print(inner) => lemma_collect_covers(*inner, st),
            ExprView::Exit(inner) => lemma_collect_covers(*inner, st),
            ExprView::Const { value, .. } => lemma_collect_covers(*value, st),
            ExprView::Let { value, .. } => lemma_collect_covers(*value, st),
            ExprView::Assign { value, .. } => lemma_collect_covers(*value, st),
            ExprView::BinaryOp { left, right, .. } => {
                lemma_collect_covers(*left, st);
                let st1 = collect(*left, st)->Ok_0;
                lemma_collect_covers(*right, st1);
                lemma_collect_extends(*right, st1);
                lemma_extends_includes(st1, after);
                lemma_covered_stays(*left, st1.labels, after.labels);
            },
            ExprView::Array(items) => lemma_collect_list_covers(items, items.len(), st),
            ExprView::If { condition, then_branch, else_branch } => {
                lemma_collect_covers(*condition, st);
                let st1 = collect(*condition, st)->Ok_0;
                lemma_collect_list_covers(then_branch, then_branch.len(), st1);
                let st2 = collect_list(then_branch, then_branch.len(), st1)->Ok_0;
                lemma_collect_list_extends(then_branch, then_branch.len(), st1);
                lemma_extends_includes(st1, st2);
                lemma_covered_stays(*condition, st1.labels, st2.labels);
                match else_branch {
                    Some(stmts) => {
                        lemma_collect_list_covers(stmts, stmts.len(), st2);
                        lemma_collect_list_extends(stmts, stmts.len(), st2);
                        lemma_extends_includes(st2, after);
                        lemma_covered_stays(*condition, st2.labels, after.labels);
                        lemma_covered_list_stays(
                            then_branch,
                            then_branch.len(),
                            st2.labels,
                            after.labels,
                        );
                    },
                    None => {},
                }
            },
            _ => {},
        },
        Err(_) => {},
    }
}

/// After the literals of a list are collected, each has its label.
pub proof fn lemma_collect_list_covers(items: Seq<ExprView>, n: nat, st: GenState)
    ensures
        collect_list(items, n, st) matches Ok(after) ==> covered_list(items, n, after.labels),
    decreases items, n,
{
    if 0 < n <= items.len() {
        match collect_list(items, n, st) {
            Ok(after) => {
                lemma_collect_list_covers(items, (n - 1) as nat, st);
                let st1 = collect_list(items, (n - 1) as nat, st)->Ok_0;
                lemma_collect_covers(items[n - 1], st1);
                lemma_collect_extends(items[n - 1], st1);
                lemma_extends_includes(st1, after);
                lemma_covered_list_stays(items, (n - 1) as nat, st1.labels, after.labels);
            },
            Err(_) => {},
        }
    }
}

/// Appending an operand whose literals have their labels gives out no
/// label.
pub proof fn lemma_concat_keeps_labels(e: ExprView, st: GenState, floats: Seq<FloatFactView>)
    requires
        covered(e, st.labels),
    ensures
        concat(e, st, floats) matches Ok(after) ==> after.labels == st.labels,
    decreases e,
{
    match concat(e, st, floats) {
        Ok(after) => match e {
            ExprView::BinaryOp { op, left, right } => {
                if is_concat(op, *left, *right, st.constants, st.variables) {
                    lemma_concat_keeps_labels(*left, st, floats);
                    let st1 = concat(*left, st, floats)->Ok_0;
                    lemma_concat_keeps_labels(*right, st1, floats);
                }
            },
            _ => {},
        },
        Err(_) => {},
    }
}

/// Writing out an array element whose literals have their labels gives
/// out no label.
pub proof fn lemma_array_element_keeps_labels(
    e: ExprView,
    st: GenState,
    floats: Seq<FloatFactView>,
)
    requires
        covered(e, st.labels),
    ensures
        array_element(e, st, floats) matches Ok(after) ==> after.labels == st.labels,
    decreases e, 0nat,
{
    match array_element(e, st, floats) {
        Ok(after) => match e {
            ExprView::Array(items) => {
                lemma_array_elements_keep_labels(
                    items,
                    items.len(),
                    GenState { text: st.text + NESTED_OPEN@, ..st },
                    floats,
                );
            },
            ExprView::BinaryOp { .. } => {
                lemma_concat_keeps_labels(
                    e,
                    GenState { text: st.text + ELEMENT_NOTE@ + BUFFER_RESET@, ..st },
                    floats,
                );
            },
            _ => {},
        },
        Err(_) => {},
    }
}

/// Writing out array elements whose literals have their labels gives out
/// no label.
pub proof fn lemma_array_elements_keep_labels(
    items: Seq<ExprView>,
    n: nat,
    st: GenState,
    floats: Seq<FloatFactView>,
)
    requires
        covered_list(items, items.len(), st.labels),
        n <= items.len(),
    ensures
        array_elements(items, n, st, floats) matches Ok(after) ==> after.labels == st.labels,
    decreases items, n,
{
    if 0 < n {
        lemma_array_elements_keep_labels(items, (n - 1) as nat, st, floats);
        lemma_covered_at(items, items.len(), (n - 1) as int, st.labels);
        match array_elements(items, (n - 1) as nat, st, floats) {
            Ok(st1) => lemma_array_element_keeps_labels(items[n - 1], st1, floats),
            Err(_) => {},
        }
    }
}

/// Where the literals of a list have their labels, those of each node of
/// the list have theirs.
pub proof fn lemma_covered_at(items: Seq<ExprView>, n: nat, i: int, labels: Labels)
    requires
        covered_list(items, n, labels),
        0 <= i < n <= items.len(),
    ensures
        covered(items[i], labels),
    decreases n,
{
    if i < n - 1 {
        lemma_covered_at(items, (n - 1) as nat, i, labels);
    }
}

/// Lowering a print statement whose literals have their labels gives out
/// no label.
pub proof fn lemma_print_keeps_labels(inner: ExprView, st: GenState, floats: Seq<FloatFactView>)
    requires
        covered(inner, st.labels),
    ensures
        lower_print(inner, st, floats) matches Ok(after) ==> after.labels == st.labels,
{
    match lower_print(inner, st, floats) {
        Ok(after) => match inner {
            ExprView::Array(items) => {
                lemma_array_elements_keep_labels(
                    items,
                    items.len(),
                    GenState { text: st.text + ARRAY_OPEN@, ..st },
                    floats,
                );
            },
            ExprView::BinaryOp { op, left, right } => {
                if is_concat(op, *left, *right, st.constants, st.variables) {
                    let reset = GenState { text: st.text + BUFFER_RESET@, ..st };
                    lemma_concat_keeps_labels(*left, reset, floats);
                    let st1 = concat(*left, reset, floats)->Ok_0;
                    lemma_concat_keeps_labels(*right, st1, floats);
                }
            },
            _ => {},
        },
        Err(_) => {},
    }
}

/// Lowering an exit, a declaration or an assignment gives out no label.
pub proof fn lemma_plain_statements_keep_labels(
    name: Seq<char>,
    value: ExprView,
    st: GenState,
    floats: Seq<FloatFactView>,
)
    ensures
        lower_exit(value, st, floats) matches Ok(after) ==> after.labels == st.labels,
        declare_const(name, value, st, floats) matches Ok(after) ==> after.labels == st.labels,
        declare_let(name, value, st, floats) matches Ok(after) ==> after.labels == st.labels,
        assign(name, value, st, floats) matches Ok(after) ==> after.labels == st.labels,
{
}

/// Lowering a statement whose literals have their labels gives out no
/// label: every label it looks for is there.
pub proof fn lemma_lower_keeps_labels(e: ExprView, st: GenState, floats: Seq<FloatFactView>)
    requires
        covered(e, st.labels),
    ensures
        lower(e, st, floats) matches Ok(after) ==> after.labels == st.labels,
    decreases e, 0nat,
{
    match e {
        ExprView::Print(inner) => lemma_print_keeps_labels(*inner, st, floats),
        ExprView::Exit(code) => lemma_plain_statements_keep_labels(Seq::empty(), *code, st, floats),
        ExprView::Const { name, value } => lemma_plain_statements_keep_labels(
            name,
            *value,
            st,
            floats,
        ),
        ExprView::Let { name, value } => lemma_plain_statements_keep_labels(
            name,
            *value,
            st,
            floats,
        ),
        ExprView::Assign { name, value } => lemma_plain_statements_keep_labels(
            name,
            *value,
            st,
            floats,
        ),
        ExprView::If { condition, then_branch, else_branch } => {
            match lower(e, st, floats) {
                Ok(after) => {
                    let (end_label, st1) = minted(st, "if_end"@)->Ok_0;
                    let code = expression_code(
                        *condition,
                        st.constants,
                        st.variables,
                        floats,
                    )->Ok_0;
                    let else_label = numbered("if_else"@, st.counter);
                    let target = if else_branch is Some {
                        else_label
                    } else {
                        end_label
                    };
                    let st2 = then_start(st1, code, target);
                    lemma_lower_block_keeps_labels(then_branch, then_branch.len(), st2, floats);
                    match else_branch {
                        Some(stmts) => {
                            let st3 = lower_block(
                                then_branch,
                                then_branch.len(),
                                st2,
                                floats,
                            )->Ok_0;
                            let st4 = else_start(st3, end_label, else_label);
                            lemma_lower_block_keeps_labels(stmts, stmts.len(), st4, floats);
                        },
                        None => {},
                    }
                },
                Err(_) => {},
            }
        },
        _ => {},
    }
}

/// Lowering statements whose literals have their labels gives out no
/// label.
pub proof fn lemma_lower_block_keeps_labels(
    stmts: Seq<ExprView>,
    n: nat,
    st: GenState,
    floats: Seq<FloatFactView>,
)
    requires
        covered_list(stmts, stmts.len(), st.labels),
        n <= stmts.len(),
    ensures
        lower_block(stmts, n, st, floats) matches Ok(after) ==> after.labels == st.labels,
    decreases stmts, n,
{
    if 0 < n {
        lemma_lower_block_keeps_labels(stmts, (n - 1) as nat, st, floats);
        match lower_block(stmts, (n - 1) as nat, st, floats) {
            Ok(st1) => {
                lemma_covered_at(stmts, stmts.len(), (n - 1) as int, st.labels);
                lemma_lower_keeps_labels(stmts[n - 1], st1, floats);
            },
            Err(_) => {},
        }
    }
}

/// Once the string literals of a program have their labels, lowering the
/// program gives out none: the table of labels stays as the collection
/// left it, and every lookup finds its label.
pub proof fn lemma_pass_keeps_labels(stmts: Seq<ExprView>, n: nat, floats: Seq<FloatFactView>)
    requires
        n <= stmts.len(),
    ensures
        collect_list(stmts, stmts.len(), initial_state()) matches Ok(collected) ==> (lower_block(
            stmts,
            n,
            collected,
            floats,
        ) matches Ok(after) ==> after.labels == collected.labels),
{
    match collect_list(stmts, stmts.len(), initial_state()) {
        Ok(collected) => {
            lemma_collect_list_covers(stmts, stmts.len(), initial_state());
            lemma_lower_block_keeps_labels(stmts, n, collected, floats);
        },
        Err(_) => {},
    }
}

} // verus!
