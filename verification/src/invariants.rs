//! What holds of the generator's state whatever it lowers: nothing that
//! was written, bound or minted is ever taken back.

use vstd::prelude::*;
use crate::ast::ExprView;
use crate::error::CompileErrorView;
use crate::eval::{evaluate, resolve};
use crate::float::FloatFactView;
use crate::lowering::{
    append_lead,
    appended,
    array_element,
    array_elements,
    assign,
    assigned,
    collect,
    collect_list,
    concat,
    declare_const,
    declare_let,
    else_start,
    expression_code,
    initial_state,
    is_concat,
    labelled,
    lower,
    lower_block,
    lower_exit,
    lower_print,
    minted,
    named_element,
    then_start,
    GenState,
};
use crate::templates::{
    line,
    mark,
    numbered,
    ARRAY_CLOSE,
    ARRAY_OPEN,
    ARRAY_SEPARATOR,
    BUFFER_FLUSH,
    BUFFER_RESET,
    ELEMENT_FLUSH,
    ELEMENT_NOTE,
    ELSE_NOTE,
    IF_NOTE,
    NESTED_CLOSE,
    NESTED_OPEN,
    TEST_CONDITION,
    THEN_NOTE,
};
use crate::text::{decimal, decimal_nat, lemma_decimal_digits};
use crate::value::ValueView;

verus! {

/// Whether a region has only grown at its end: the earlier text is the
/// start of the later one.
#[verifier::opaque]
pub open spec fn grown(before: Seq<char>, after: Seq<char>) -> bool {
    before.is_prefix_of(after)
}

/// A region that has not changed has only grown.
pub broadcast proof fn lemma_grown_same(s: Seq<char>)
    ensures
        #[trigger] grown(s, s),
{
    reveal(grown);
}

/// A region that has only grown still has after something is written at
/// its end.
pub broadcast proof fn lemma_grown_more(s: Seq<char>, t: Seq<char>, tail: Seq<char>)
    requires
        grown(s, t),
    ensures
        #[trigger] grown(s, t + tail),
{
    reveal(grown);
}

/// Growth carries over: the start of a start is a start.
pub proof fn lemma_grown_transitive(a: Seq<char>, b: Seq<char>, c: Seq<char>)
    requires
        grown(a, b),
        grown(b, c),
    ensures
        grown(a, c),
{
    reveal(grown);
}

/// Whether no name is both a constant and a variable.
pub open spec fn names_apart(st: GenState) -> bool {
    forall|name: Seq<char>|
        !(#[trigger] st.constants.contains_key(name) && st.variables.contains_key(name))
}

/// Whether a later state keeps everything of an earlier one: the counter
/// has not gone back, the three regions have only grown at their ends,
/// every constant still has its value, every variable is still declared,
/// every string literal still has its label, every cell for a float's
/// text is still reserved, and the two tables share no name if they
/// shared none before.
#[verifier::opaque]
pub open spec fn extends(before: GenState, after: GenState) -> bool {
    &&& before.counter <= after.counter
    &&& grown(before.data, after.data)
    &&& grown(before.bss, after.bss)
    &&& grown(before.text, after.text)
    &&& forall|name: Seq<char>| #[trigger]
        before.constants.contains_key(name) ==> after.constants.contains_key(name)
            && after.constants[name] == before.constants[name]
    &&& forall|name: Seq<char>| #[trigger]
        before.variables.contains_key(name) ==> after.variables.contains_key(name)
    &&& forall|literal: Seq<char>| #[trigger]
        before.labels.contains_key(literal) ==> after.labels.contains_key(literal)
            && after.labels[literal] == before.labels[literal]
    &&& before.float_cells.subset_of(after.float_cells)
    &&& names_apart(before) ==> names_apart(after)
}

/// Every state extends itself.
pub proof fn lemma_extends_reflexive(st: GenState)
    ensures
        extends(st, st),
{
    reveal(extends);
    broadcast use lemma_grown_same;
}

/// A state that extends a state that extends a third extends the third.
pub proof fn lemma_extends_transitive(a: GenState, b: GenState, c: GenState)
    requires
        extends(a, b),
        extends(b, c),
    ensures
        extends(a, c),
{
    reveal(extends);
    lemma_grown_transitive(a.data, b.data, c.data);
    lemma_grown_transitive(a.bss, b.bss, c.bss);
    lemma_grown_transitive(a.text, b.text, c.text);
}

/// Writing at the end of the instruction region keeps everything.
pub proof fn lemma_text_grows(st: GenState, tail: Seq<char>)
    ensures
        extends(st, GenState { text: st.text + tail, ..st }),
{
    reveal(extends);
    broadcast use {lemma_grown_same, lemma_grown_more};
}

/// Minting a label advances the counter and changes nothing else.
pub proof fn lemma_minted_extends(st: GenState, prefix: Seq<char>)
    ensures
        minted(st, prefix) matches Ok((_, after)) ==> extends(st, after) && after.counter
            == st.counter + 1,
{
    reveal(extends);
    broadcast use {lemma_grown_same, lemma_grown_more};
}

/// Giving a string literal its label keeps everything.
pub proof fn lemma_labelled_extends(st: GenState, literal: Seq<char>)
    ensures
        labelled(st, literal) matches Ok((_, after)) ==> extends(st, after),
{
    reveal(extends);
    broadcast use {lemma_grown_same, lemma_grown_more};
}

/// Appending a name keeps everything.
pub proof fn lemma_appended_extends(name: Seq<char>, value: ValueView, st: GenState)
    ensures
        appended(name, value, st) matches Ok((_, after)) ==> extends(st, after),
{
    reveal(extends);
    broadcast use {lemma_grown_same, lemma_grown_more};
}

/// Appending an operand of a concatenation keeps everything.
pub proof fn lemma_concat_extends(e: ExprView, st: GenState, floats: Seq<FloatFactView>)
    ensures
        concat(e, st, floats) matches Ok(after) ==> extends(st, after),
    decreases e,
{
    match concat(e, st, floats) {
        Ok(after) => match e {
            ExprView::BinaryOp { op, left, right } => {
                if is_concat(op, *left, *right, st.constants, st.variables) {
                    lemma_concat_extends(*left, st, floats);
                    let st1 = concat(*left, st, floats)->Ok_0;
                    lemma_concat_extends(*right, st1, floats);
                    lemma_extends_transitive(st, st1, after);
                } else {
                    reveal(extends);
                    broadcast use {lemma_grown_same, lemma_grown_more};
                }
            },
            ExprView::Variable(name) => {
                let v = resolve(name, st.constants, st.variables)->0;
                lemma_appended_extends(name, v, st);
                let (code, st1) = appended(name, v, st)->Ok_0;
                lemma_text_grows(st1, line(append_lead(v), name) + code);
                assert(after.text =~= st1.text + (line(
                    append_lead(v),
                    name,
                ) + code));
                lemma_extends_transitive(st, st1, after);
            },
            ExprView::StringLiteral(s) => {
                lemma_labelled_extends(st, s);
                reveal(extends);
                broadcast use {lemma_grown_same, lemma_grown_more};
            },
            _ => {
                reveal(extends);
                broadcast use {lemma_grown_same, lemma_grown_more};
            },
        },
        Err(_) => {},
    }
}

/// Writing out an array element that is a name keeps everything.
pub proof fn lemma_named_element_extends(name: Seq<char>, v: ValueView, st: GenState)
    ensures
        named_element(name, v, st) matches Ok(after) ==> extends(st, after),
{
    match named_element(name, v, st) {
        Ok(after) => {
            if st.constants.contains_key(name) {
                reveal(extends);
                broadcast use {lemma_grown_same, lemma_grown_more};
            } else {
                lemma_appended_extends(name, v, st);
                let (code, st1) = appended(name, v, st)->Ok_0;
                let tail = line("    ; Print array element (variable): "@, name) + BUFFER_RESET@
                    + code + ELEMENT_FLUSH@;
                lemma_text_grows(st1, tail);
                assert(after.text =~= st1.text + tail);
                lemma_extends_transitive(st, st1, after);
            }
        },
        Err(_) => {},
    }
}

/// Writing out an array element keeps everything.
pub proof fn lemma_array_element_extends(e: ExprView, st: GenState, floats: Seq<FloatFactView>)
    ensures
        array_element(e, st, floats) matches Ok(after) ==> extends(st, after),
    decreases e, 0nat,
{
    match array_element(e, st, floats) {
        Ok(after) => match e {
            ExprView::Array(items) => {
                let opened = GenState { text: st.text + NESTED_OPEN@, ..st };
                lemma_text_grows(st, NESTED_OPEN@);
                lemma_array_elements_extend(items, items.len(), opened, floats);
                let st1 = array_elements(items, items.len(), opened, floats)->Ok_0;
                lemma_text_grows(st1, NESTED_CLOSE@);
                lemma_extends_transitive(st, opened, st1);
                lemma_extends_transitive(st, st1, after);
            },
            ExprView::BinaryOp { .. } => {
                let reset = GenState { text: st.text + ELEMENT_NOTE@ + BUFFER_RESET@, ..st };
                lemma_text_grows(st, ELEMENT_NOTE@ + BUFFER_RESET@);
                assert(reset.text =~= st.text + (ELEMENT_NOTE@ + BUFFER_RESET@));
                lemma_concat_extends(e, reset, floats);
                let st1 = concat(e, reset, floats)->Ok_0;
                lemma_text_grows(st1, ELEMENT_FLUSH@);
                lemma_extends_transitive(st, reset, st1);
                lemma_extends_transitive(st, st1, after);
            },
            ExprView::Variable(name) => {
                let v = resolve(name, st.constants, st.variables)->0;
                lemma_named_element_extends(name, v, st);
            },
            _ => {
                reveal(extends);
                broadcast use {lemma_grown_same, lemma_grown_more};
            },
        },
        Err(_) => {},
    }
}

/// Writing out the elements of an array keeps everything.
pub proof fn lemma_array_elements_extend(
    items: Seq<ExprView>,
    n: nat,
    st: GenState,
    floats: Seq<FloatFactView>,
)
    ensures
        array_elements(items, n, st, floats) matches Ok(after) ==> extends(st, after),
    decreases items, n,
{
    if 0 < n <= items.len() {
        match array_elements(items, n, st, floats) {
            Ok(after) => {
                lemma_array_elements_extend(items, (n - 1) as nat, st, floats);
                let st1 = array_elements(items, (n - 1) as nat, st, floats)->Ok_0;
                lemma_array_element_extends(items[n - 1], st1, floats);
                let st2 = array_element(items[n - 1], st1, floats)->Ok_0;
                lemma_extends_transitive(st, st1, st2);
                if n < items.len() {
                    lemma_text_grows(st2, ARRAY_SEPARATOR@);
                    lemma_extends_transitive(st, st2, after);
                }
            },
            Err(_) => {},
        }
    } else {
        lemma_extends_reflexive(st);
    }
}

/// Lowering a print statement keeps everything.
pub proof fn lemma_print_extends(inner: ExprView, st: GenState, floats: Seq<FloatFactView>)
    ensures
        lower_print(inner, st, floats) matches Ok(after) ==> extends(st, after),
{
    match lower_print(inner, st, floats) {
        Ok(after) => match inner {
            ExprView::Array(items) => {
                let opened = GenState { text: st.text + ARRAY_OPEN@, ..st };
                lemma_text_grows(st, ARRAY_OPEN@);
                lemma_array_elements_extend(items, items.len(), opened, floats);
                let st1 = array_elements(items, items.len(), opened, floats)->Ok_0;
                lemma_text_grows(st1, ARRAY_CLOSE@);
                lemma_extends_transitive(st, opened, st1);
                lemma_extends_transitive(st, st1, after);
            },
            ExprView::BinaryOp { op, left, right } => {
                if is_concat(op, *left, *right, st.constants, st.variables) {
                    let reset = GenState { text: st.text + BUFFER_RESET@, ..st };
                    lemma_text_grows(st, BUFFER_RESET@);
                    lemma_concat_extends(*left, reset, floats);
                    let st1 = concat(*left, reset, floats)->Ok_0;
                    lemma_concat_extends(*right, st1, floats);
                    let st2 = concat(*right, st1, floats)->Ok_0;
                    lemma_text_grows(st2, BUFFER_FLUSH@);
                    lemma_extends_transitive(st, reset, st1);
                    lemma_extends_transitive(st, st1, st2);
                    lemma_extends_transitive(st, st2, after);
                } else {
                    reveal(extends);
                    broadcast use {lemma_grown_same, lemma_grown_more};
                }
            },
            ExprView::Variable(name) => {
                let v = resolve(name, st.constants, st.variables)->0;
                lemma_appended_extends(name, v, st);
                let (code, st1) = appended(name, v, st)->Ok_0;
                let tail = line("    ; Print variable: "@, name)
                    + BUFFER_RESET@ + code + BUFFER_FLUSH@;
                lemma_text_grows(st1, tail);
                assert(after.text =~= st1.text + tail);
                lemma_extends_transitive(st, st1, after);
            },
            ExprView::StringLiteral(s) => {
                lemma_labelled_extends(st, s);
                reveal(extends);
                broadcast use {lemma_grown_same, lemma_grown_more};
            },
            _ => {
                reveal(extends);
                broadcast use {lemma_grown_same, lemma_grown_more};
            },
        },
        Err(_) => {},
    }
}

/// Lowering an exit statement keeps everything.
pub proof fn lemma_exit_extends(code: ExprView, st: GenState, floats: Seq<FloatFactView>)
    ensures
        lower_exit(code, st, floats) matches Ok(after) ==> extends(st, after),
{
    reveal(extends);
    broadcast use {lemma_grown_same, lemma_grown_more};
}

/// Declaring a constant keeps everything, and binds the name in the
/// table of constants only.
pub proof fn lemma_declare_const_extends(
    name: Seq<char>,
    value: ExprView,
    st: GenState,
    floats: Seq<FloatFactView>,
)
    ensures
        declare_const(name, value, st, floats) matches Ok(after) ==> extends(st, after)
            && after.constants.contains_key(name) && !after.variables.contains_key(name),
{
    reveal(extends);
    broadcast use {lemma_grown_same, lemma_grown_more};
}

/// Declaring a variable keeps everything, and binds the name in the
/// table of variables only.
pub proof fn lemma_declare_let_extends(
    name: Seq<char>,
    value: ExprView,
    st: GenState,
    floats: Seq<FloatFactView>,
)
    ensures
        declare_let(name, value, st, floats) matches Ok(after) ==> extends(st, after)
            && after.variables.contains_key(name) && !after.constants.contains_key(name),
{
    reveal(extends);
    broadcast use {lemma_grown_same, lemma_grown_more};
}

/// Assigning to a variable keeps everything but the variable's value,
/// which is the value assigned.
pub proof fn lemma_assign_extends(
    name: Seq<char>,
    value: ExprView,
    st: GenState,
    floats: Seq<FloatFactView>,
)
    ensures
        assign(name, value, st, floats) matches Ok(after) ==> extends(st, after)
            && after.variables.contains_key(name) && Ok::<
            ValueView,
            CompileErrorView,
        >(after.variables[name]) == evaluate(
            value,
            st.constants,
            st.variables,
            floats,
        ),
{
    reveal(extends);
    broadcast use {lemma_grown_same, lemma_grown_more};
}

/// Lowering a statement keeps everything: constants are never changed,
/// regions are never rewritten, the counter never goes back.
pub proof fn lemma_lower_extends(e: ExprView, st: GenState, floats: Seq<FloatFactView>)
    ensures
        lower(e, st, floats) matches Ok(after) ==> extends(st, after),
    decreases e, 0nat,
{
    match e {
        ExprView::Print(inner) => lemma_print_extends(*inner, st, floats),
        ExprView::Exit(code) => lemma_exit_extends(*code, st, floats),
        ExprView::Const { name, value } => lemma_declare_const_extends(name, *value, st, floats),
        ExprView::Let { name, value } => lemma_declare_let_extends(name, *value, st, floats),
        ExprView::Assign { name, value } => lemma_assign_extends(name, *value, st, floats),
        ExprView::If { condition, then_branch, else_branch } => {
            match lower(e, st, floats) {
                Ok(after) => {
                    lemma_minted_extends(st, "if_end"@);
                    let st1 = minted(st, "if_end"@)->Ok_0.1;
                    let code = expression_code(
                        *condition,
                        st.constants,
                        st.variables,
                        floats,
                    )->Ok_0;
                    let end_label = numbered("if_end"@, st.counter);
                    let else_label = numbered("if_else"@, st.counter);
                    let target = if else_branch is Some {
                        else_label
                    } else {
                        end_label
                    };
                    let st2 = then_start(st1, code, target);
                    lemma_text_grows(
                        st1,
                        IF_NOTE@ + code + TEST_CONDITION@ + line("    jz "@, target) + THEN_NOTE@,
                    );
                    assert(st2.text =~= st1.text + (IF_NOTE@ + code + TEST_CONDITION@ + line(
                        "    jz "@,
                        target,
                    ) + THEN_NOTE@));
                    lemma_extends_transitive(st, st1, st2);
                    lemma_lower_block_extends(then_branch, then_branch.len(), st2, floats);
                    let st3 = lower_block(then_branch, then_branch.len(), st2, floats)->Ok_0;
                    lemma_extends_transitive(st, st2, st3);
                    match else_branch {
                        Some(stmts) => {
                            let st4 = else_start(st3, end_label, else_label);
                            lemma_text_grows(
                                st3,
                                line("    jmp "@, end_label) + mark(else_label) + ELSE_NOTE@,
                            );
                            assert(st4.text =~= st3.text + (line("    jmp "@, end_label) + mark(
                                else_label,
                            ) + ELSE_NOTE@));
                            lemma_extends_transitive(st, st3, st4);
                            lemma_lower_block_extends(stmts, stmts.len(), st4, floats);
                            let st5 = lower_block(stmts, stmts.len(), st4, floats)->Ok_0;
                            lemma_extends_transitive(st, st4, st5);
                            lemma_text_grows(st5, mark(end_label));
                            lemma_extends_transitive(st, st5, after);
                        },
                        None => {
                            lemma_text_grows(st3, mark(end_label));
                            lemma_extends_transitive(st, st3, after);
                        },
                    }
                },
                Err(_) => {},
            }
        },
        _ => {
            lemma_extends_reflexive(st);
        },
    }
}

/// Lowering a list of statements keeps everything.
pub proof fn lemma_lower_block_extends(
    stmts: Seq<ExprView>,
    n: nat,
    st: GenState,
    floats: Seq<FloatFactView>,
)
    ensures
        lower_block(stmts, n, st, floats) matches Ok(after) ==> extends(st, after),
    decreases stmts, n,
{
    if 0 < n <= stmts.len() {
        lemma_lower_block_extends(stmts, (n - 1) as nat, st, floats);
        match lower_block(stmts, (n - 1) as nat, st, floats) {
            Ok(st1) => {
                lemma_lower_extends(stmts[n - 1], st1, floats);
                match lower(stmts[n - 1], st1, floats) {
                    Ok(after) => lemma_extends_transitive(st, st1, after),
                    Err(_) => {},
                }
            },
            Err(_) => {},
        }
    } else {
        lemma_extends_reflexive(st);
    }
}

/// Giving the string literals of a node their labels keeps everything.
pub proof fn lemma_collect_extends(e: ExprView, st: GenState)
    ensures
        collect(e, st) matches Ok(after) ==> extends(st, after),
    decreases e, 0nat,
{
    match collect(e, st) {
        Ok(after) => match e {
            ExprView::StringLiteral(s) => lemma_labelled_extends(st, s),
            ExprView::Print(inner) => lemma_collect_extends(*inner, st),
            ExprView::Exit(inner) => lemma_collect_extends(*inner, st),
            ExprView::Const { value, .. } => lemma_collect_extends(*value, st),
            ExprView::Let { value, .. } => lemma_collect_extends(*value, st),
            ExprView::Assign { value, .. } => lemma_collect_extends(*value, st),
            ExprView::BinaryOp { left, right, .. } => {
                lemma_collect_extends(*left, st);
                let st1 = collect(*left, st)->Ok_0;
                lemma_collect_extends(*right, st1);
                lemma_extends_transitive(st, st1, after);
            },
            ExprView::Array(items) => lemma_collect_list_extends(items, items.len(), st),
            ExprView::If { condition, then_branch, else_branch } => {
                lemma_collect_extends(*condition, st);
                let st1 = collect(*condition, st)->Ok_0;
                lemma_collect_list_extends(then_branch, then_branch.len(), st1);
                let st2 = collect_list(then_branch, then_branch.len(), st1)->Ok_0;
                lemma_extends_transitive(st, st1, st2);
                match else_branch {
                    Some(stmts) => {
                        lemma_collect_list_extends(stmts, stmts.len(), st2);
                        lemma_extends_transitive(st, st2, after);
                    },
                    None => {},
                }
            },
            _ => lemma_extends_reflexive(st),
        },
        Err(_) => {},
    }
}

/// Giving the string literals of a list their labels keeps everything.
pub proof fn lemma_collect_list_extends(items: Seq<ExprView>, n: nat, st: GenState)
    ensures
        collect_list(items, n, st) matches Ok(after) ==> extends(st, after),
    decreases items, n,
{
    if 0 < n <= items.len() {
        lemma_collect_list_extends(items, (n - 1) as nat, st);
        match collect_list(items, (n - 1) as nat, st) {
            Ok(st1) => {
                lemma_collect_extends(items[n - 1], st1);
                match collect(items[n - 1], st1) {
                    Ok(after) => lemma_extends_transitive(st, st1, after),
                    Err(_) => {},
                }
            },
            Err(_) => {},
        }
    } else {
        lemma_extends_reflexive(st);
    }
}

/// Throughout a pass no name is both a constant and a variable: the state
/// reached from the initial state by giving the string literals of a
/// program their labels and lowering its first statements keeps the two
/// tables apart, and keeps the fixed openings of the three regions.
pub proof fn lemma_pass_keeps_names_apart(
    stmts: Seq<ExprView>,
    n: nat,
    floats: Seq<FloatFactView>,
)
    ensures
        collect_list(stmts, stmts.len(), initial_state()) matches Ok(collected) ==> (lower_block(
            stmts,
            n,
            collected,
            floats,
        ) matches Ok(after) ==> names_apart(after) && extends(initial_state(), after)),
{
    lemma_collect_list_extends(stmts, stmts.len(), initial_state());
    match collect_list(stmts, stmts.len(), initial_state()) {
        Ok(collected) => {
            lemma_lower_block_extends(stmts, n, collected, floats);
            match lower_block(stmts, n, collected, floats) {
                Ok(after) => {
                    lemma_extends_transitive(initial_state(), collected, after);
                    reveal(extends);
                },
                Err(_) => {},
            }
        },
        Err(_) => {},
    }
}

/// The decimal digits of two different numbers differ.
pub proof fn lemma_decimal_tells_numbers_apart(a: nat, b: nat)
    requires
        decimal_nat(a) == decimal_nat(b),
    ensures
        a == b,
{
    lemma_decimal_digits(a);
    lemma_decimal_digits(b);
}

/// A label tells the number it was minted with: two labels that are the
/// same carry the same number, whatever their prefixes are.
pub proof fn lemma_label_tells_its_number(p1: Seq<char>, a: u64, p2: Seq<char>, b: u64)
    requires
        numbered(p1, a) == numbered(p2, b),
    ensures
        a == b,
{
    let da = decimal_nat(a as nat);
    let db = decimal_nat(b as nat);
    let label = numbered(p1, a);
    lemma_decimal_digits(a as nat);
    lemma_decimal_digits(b as nat);
    reveal_strlit("_");
    assert(label == p1 + "_"@ + da);
    if da.len() < db.len() {
        let at = p1.len() as int;
        assert(label[at] == '_');
        assert(label[at] == db[at - p2.len() - 1]);
    } else if db.len() < da.len() {
        let at = p2.len() as int;
        assert(label[at] == '_');
        assert(label[at] == da[at - p1.len() - 1]);
    } else {
        assert(da =~= db) by {
            assert forall|i: int| 0 <= i < da.len() implies da[i] == db[i] by {
                assert((p1 + "_"@ + da)[p1.len() + 1 + i] == da[i]);
            }
        }
        lemma_decimal_tells_numbers_apart(a as nat, b as nat);
    }
}

/// Labels are never minted twice: a label minted in a state that extends
/// the state left by an earlier minting differs from the label minted
/// then, whatever the two prefixes are.
pub proof fn lemma_minted_labels_differ(
    first: GenState,
    p1: Seq<char>,
    second: GenState,
    p2: Seq<char>,
)
    requires
        minted(first, p1) is Ok,
        minted(second, p2) is Ok,
        extends(minted(first, p1)->Ok_0.1, second),
    ensures
        minted(first, p1)->Ok_0.0 != minted(second, p2)->Ok_0.0,
{
    reveal(extends);
    if minted(first, p1)->Ok_0.0 == minted(second, p2)->Ok_0.0 {
        lemma_label_tells_its_number(p1, first.counter, p2, second.counter);
    }
}

} // verus!
