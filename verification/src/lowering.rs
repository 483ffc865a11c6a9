//! What lowering means: the state of a generation pass and, for every
//! statement form, the state that follows it.

use vstd::prelude::*;
use crate::ast::{BinOp, ExprView};
use crate::error::{CompileError, CompileErrorView};
use crate::eval::{bool_text, evaluate, resolve};
use crate::float::{float_value, FloatFactView, FloatQueryView};
use crate::templates::{
    array_note,
    bare_blob,
    cell,
    float_cell,
    float_storage,
    float_store,
    line,
    line_blob,
    load_number,
    load_source,
    load_status,
    mark,
    numbered,
    operator_code,
    runtime_truth,
    storage,
    store,
    truth_digit,
    truth_line,
    truth_number,
    truth_source,
    truth_word,
    var_label,
    write_call,
    APPEND_NULL,
    APPEND_NUMBER,
    APPEND_RESULT_HEAD,
    APPEND_RESULT_TAIL,
    APPEND_TEXT,
    ARRAY_CLOSE,
    ARRAY_OPEN,
    ARRAY_SEPARATOR,
    BSS_HEAD,
    BUFFER_FLUSH,
    BUFFER_RESET,
    DATA_HEAD,
    DEFAULT_EXIT,
    DEFAULT_STATUS,
    ELEMENT_FLUSH,
    ELEMENT_NOTE,
    ELSE_NOTE,
    EXIT_HEAD,
    EXIT_NOTE,
    EXIT_RESULT,
    IF_NOTE,
    NESTED_CLOSE,
    NESTED_OPEN,
    NULL_SOURCE,
    PRINT_NULL,
    PRINT_NULL_ELEMENT,
    PRINT_NUMERIC_NOTE,
    PRINT_RESULT,
    SELECT_EXIT,
    SYSCALL,
    TEST_CONDITION,
    TEXT_HEAD,
    THEN_NOTE,
    WRITE_HEAD,
};
use crate::text::{byte_len, decimal};
use crate::value::{Bindings, ValueView};

verus! {

/// The state of a generation pass: the two symbol tables, the labels given
/// to string literals, the variables that have a cell for a float's text,
/// the three regions written so far, and the counter from which labels
/// are minted.
pub struct GenState {
    pub constants: Bindings,
    pub variables: Bindings,
    pub labels: Map<Seq<char>, Seq<char>>,
    pub float_cells: Set<Seq<char>>,
    pub data: Seq<char>,
    pub bss: Seq<char>,
    pub text: Seq<char>,
    pub counter: u64,
}

/// The outcome of lowering: the state that follows, or the reason why the
/// compilation stops.
pub type Lowered = Result<GenState, CompileErrorView>;

/// The state in which every pass starts: empty tables, each region holding
/// its fixed opening, the counter at zero.
pub open spec fn initial_state() -> GenState {
    GenState {
        constants: Map::empty(),
        variables: Map::empty(),
        labels: Map::empty(),
        float_cells: Set::empty(),
        data: DATA_HEAD@,
        bss: BSS_HEAD@,
        text: TEXT_HEAD@,
        counter: 0,
    }
}

/// Whether what a lowering step returned and left behind is the outcome
/// expected of it.
pub open spec fn lowering_matches(r: Result<(), CompileError>, after: GenState, expected: Lowered)
    -> bool {
    match expected {
        Ok(st) => r is Ok && after == st,
        Err(e) => r matches Err(found) && found@ == e,
    }
}

/// Whether a step that also hands back a label or a piece of code did
/// what is expected of it.
pub open spec fn labelling_matches(
    r: Result<String, CompileError>,
    after: GenState,
    expected: Result<(Seq<char>, GenState), CompileErrorView>,
) -> bool {
    match expected {
        Ok((label, st)) => r matches Ok(found) && found@ == label && after == st,
        Err(e) => r matches Err(found) && found@ == e,
    }
}

/// A fresh label with the given prefix, and the state with the counter
/// advanced.
pub open spec fn minted(st: GenState, prefix: Seq<char>) -> Result<
    (Seq<char>, GenState),
    CompileErrorView,
> {
    if st.counter == u64::MAX {
        Err(CompileErrorView::LabelsExhausted)
    } else {
        Ok((numbered(prefix, st.counter), GenState { counter: (st.counter + 1) as u64, ..st }))
    }
}

/// The label of a string literal. A literal that has none yet gets a fresh
/// one, together with its blob in the literal region.
pub open spec fn labelled(st: GenState, literal: Seq<char>) -> Result<
    (Seq<char>, GenState),
    CompileErrorView,
> {
    if st.labels.contains_key(literal) {
        Ok((st.labels[literal], st))
    } else {
        match minted(st, "str"@) {
            Err(e) => Err(e),
            Ok((label, st1)) => Ok(
                (
                    label,
                    GenState {
                        labels: st1.labels.insert(literal, label),
                        data: st1.data + line_blob(label, literal),
                        ..st1
                    },
                ),
            ),
        }
    }
}

/// The state after every string literal of a node has its label.
pub open spec fn collect(e: ExprView, st: GenState) -> Lowered
    decreases e, 0nat,
{
    match e {
        ExprView::StringLiteral(s) => match labelled(st, s) {
            Ok((_, st1)) => Ok(st1),
            Err(e) => Err(e),
        },
        ExprView::Print(inner) => collect(*inner, st),
        ExprView::Exit(inner) => collect(*inner, st),
        ExprView::Const { value, .. } => collect(*value, st),
        ExprView::Let { value, .. } => collect(*value, st),
        ExprView::Assign { value, .. } => collect(*value, st),
        ExprView::BinaryOp { left, right, .. } => match collect(*left, st) {
            Err(e) => Err(e),
            Ok(st1) => collect(*right, st1),
        },
        ExprView::Array(items) => collect_list(items, items.len(), st),
        ExprView::If { condition, then_branch, else_branch } => match collect(*condition, st) {
            Err(e) => Err(e),
            Ok(st1) => match collect_list(then_branch, then_branch.len(), st1) {
                Err(e) => Err(e),
                Ok(st2) => match else_branch {
                    Some(stmts) => collect_list(stmts, stmts.len(), st2),
                    None => Ok(st2),
                },
            },
        },
        _ => Ok(st),
    }
}

/// The state after every string literal in the first `n` nodes of a list
/// has its label.
pub open spec fn collect_list(items: Seq<ExprView>, n: nat, st: GenState) -> Lowered
    decreases items, n,
{
    if n == 0 || n > items.len() {
        Ok(st)
    } else {
        match collect_list(items, (n - 1) as nat, st) {
            Err(e) => Err(e),
            Ok(st1) => collect(items[n - 1], st1),
        }
    }
}

/// Once a prefix of a list fails, every longer prefix fails the same way.
pub proof fn lemma_collect_list_stops(items: Seq<ExprView>, k: nat, n: nat, st: GenState)
    requires
        k <= n <= items.len(),
        collect_list(items, k, st) is Err,
    ensures
        collect_list(items, n, st) == collect_list(items, k, st),
    decreases n,
{
    if k < n {
        lemma_collect_list_stops(items, k, (n - 1) as nat, st);
    }
}

/// The outcome of lowering that yields text and changes no state.
pub type Code = Result<Seq<char>, CompileErrorView>;

/// Whether an expression is known to be a string before the program
/// runs: a string literal, a name bound to a string, or a sum with such an
/// operand.
pub open spec fn is_string(e: ExprView, constants: Bindings, variables: Bindings) -> bool
    decreases e,
{
    match e {
        ExprView::StringLiteral(_) => true,
        ExprView::Variable(name) => resolve(name, constants, variables) matches Some(
            ValueView::Text(_),
        ),
        ExprView::BinaryOp { op, left, right } => op == BinOp::Add && (is_string(
            *left,
            constants,
            variables,
        ) || is_string(*right, constants, variables)),
        _ => false,
    }
}

/// Whether a binary expression is lowered as a string concatenation.
pub open spec fn is_concat(
    op: BinOp,
    left: ExprView,
    right: ExprView,
    constants: Bindings,
    variables: Bindings,
) -> bool {
    op == BinOp::Add && (is_string(left, constants, variables) || is_string(
        right,
        constants,
        variables,
    ))
}

/// Code that loads the numeric value of a name into `rax`. A constant is
/// loaded as an immediate, a variable from its cell.
pub open spec fn variable_code(name: Seq<char>, constants: Bindings, variables: Bindings) -> Code {
    if constants.contains_key(name) {
        match constants[name] {
            ValueView::Number(n) => Ok(
                line("    ; Load numeric constant: "@, name) + load_number(decimal(n as int)),
            ),
            ValueView::Float(f) => Ok(
                "    ; Load float constant: "@ + name + " (scaled as integer)\n"@ + load_number(
                    decimal(f.scaled as int),
                ),
            ),
            ValueView::Boolean(b) => Ok(
                line("    ; Load boolean constant: "@, name) + truth_number(b),
            ),
            _ => Err(CompileErrorView::TypeMismatch),
        }
    } else if variables.contains_key(name) {
        match variables[name] {
            ValueView::Number(_) => Ok(
                line("    ; Load numeric variable: "@, name) + load_number(cell(name)),
            ),
            ValueView::Float(_) => Ok(
                "    ; Load float variable: "@ + name + " (scaled as integer)\n"@ + load_number(
                    cell(name),
                ),
            ),
            ValueView::Boolean(_) => Ok(
                line("    ; Load boolean variable: "@, name) + load_number(cell(name)),
            ),
            _ => Err(CompileErrorView::TypeMismatch),
        }
    } else {
        Err(CompileErrorView::UndefinedName)
    }
}

/// Code that leaves the numeric value of an expression in `rax`. For a
/// binary expression the right operand is computed first and saved, then
/// the left, then the two are combined.
pub open spec fn expression_code(
    e: ExprView,
    constants: Bindings,
    variables: Bindings,
    floats: Seq<FloatFactView>,
) -> Code
    decreases e,
{
    match e {
        ExprView::Number(n) => Ok(
            line("    ; Load number: "@, decimal(n as int)) + load_number(decimal(n as int)),
        ),
        ExprView::Float(text) => match float_value(floats, FloatQueryView::Literal(text)) {
            None => Err(CompileErrorView::FloatPending(FloatQueryView::Literal(text))),
            Some(v) => Ok(
                "    ; Load float: "@ + v.text + " (scaled as integer)\n"@ + load_number(
                    decimal(v.scaled as int),
                ),
            ),
        },
        ExprView::Boolean(b) => Ok(line("    ; Load boolean: "@, bool_text(b)) + truth_number(b)),
        ExprView::Variable(name) => variable_code(name, constants, variables),
        ExprView::BinaryOp { op, left, right } => if is_concat(
            op,
            *left,
            *right,
            constants,
            variables,
        ) {
            Err(CompileErrorView::TypeMismatch)
        } else {
            match expression_code(*right, constants, variables, floats) {
                Err(e) => Err(e),
                Ok(r) => match expression_code(*left, constants, variables, floats) {
                    Err(e) => Err(e),
                    Ok(l) => Ok(r + "    push rax\n"@ + l + "    pop rbx\n"@ + operator_code(op)),
                },
            }
        },
        ExprView::StringLiteral(_) => Err(CompileErrorView::TypeMismatch),
        ExprView::Null => Err(CompileErrorView::TypeMismatch),
        ExprView::Array(_) => Err(CompileErrorView::TypeMismatch),
        _ => Err(CompileErrorView::NotConstant),
    }
}

/// The model of what a text-producing lowering returns.
pub open spec fn code_view(r: Result<String, CompileError>) -> Code {
    match r {
        Ok(s) => Ok(s@),
        Err(e) => Err(e@),
    }
}

/// Code that appends the value of a name to the concatenation buffer. A
/// constant is appended from its immediate or its blob, a variable from
/// its cell; the truth value of a variable is told at run time, by a
/// branch whose targets carry `number`.
pub open spec fn append_value(name: Seq<char>, value: ValueView, constant: bool, number: u64)
    -> Seq<char> {
    match value {
        ValueView::Number(n) => load_number(
            if constant {
                decimal(n as int)
            } else {
                cell(name)
            },
        ) + APPEND_NUMBER@,
        ValueView::Float(_) => load_source(
            if constant {
                var_label(name, Some("_float"@))
            } else {
                float_cell(name)
            },
        ) + APPEND_TEXT@,
        ValueView::Text(_) => load_source(
            if constant {
                var_label(name, None)
            } else {
                cell(name)
            },
        ) + APPEND_TEXT@,
        ValueView::Boolean(b) => (if constant {
            truth_source(b)
        } else {
            runtime_truth(name, number)
        }) + APPEND_TEXT@,
        ValueView::Array(_) => load_source(
            if constant {
                var_label(name, Some("_label"@))
            } else {
                cell(name)
            },
        ) + APPEND_TEXT@,
        ValueView::Null => NULL_SOURCE@ + APPEND_TEXT@,
    }
}

/// Whether appending a value takes a branch at run time.
pub open spec fn branches(value: ValueView, constant: bool) -> bool {
    value is Boolean && !constant
}

/// The code that appends a name to the concatenation buffer, and the
/// state that follows: a branch takes one number from the counter.
pub open spec fn appended(name: Seq<char>, value: ValueView, st: GenState) -> Result<
    (Seq<char>, GenState),
    CompileErrorView,
> {
    let constant = st.constants.contains_key(name);
    if branches(value, constant) {
        match minted(st, ".false_"@ + name) {
            Err(e) => Err(e),
            Ok((_, st1)) => Ok((append_value(name, value, constant, st.counter), st1)),
        }
    } else {
        Ok((append_value(name, value, constant, 0), st))
    }
}

/// The lead of the comment that announces the appending of a name.
pub open spec fn append_lead(value: ValueView) -> Seq<char> {
    match value {
        ValueView::Number(_) => "    ; Append numeric variable: "@,
        ValueView::Float(_) => "    ; Append float variable: "@,
        ValueView::Text(_) => "    ; Append string variable: "@,
        ValueView::Boolean(_) => "    ; Append boolean variable: "@,
        ValueView::Array(_) => "    ; Append array constant: "@,
        ValueView::Null => "    ; Append null constant: "@,
    }
}

/// The state after an operand of a concatenation is appended to the
/// buffer. The operands of a nested concatenation are appended left to
/// right; any other binary expression is computed first and appended as a
/// number.
pub open spec fn concat(e: ExprView, st: GenState, floats: Seq<FloatFactView>) -> Lowered
    decreases e,
{
    match e {
        ExprView::StringLiteral(s) => match labelled(st, s) {
            Err(e) => Err(e),
            Ok((label, st1)) => Ok(
                GenState {
                    text: st1.text + line("    ; Append string: "@, s) + load_source(label)
                        + APPEND_TEXT@,
                    ..st1
                },
            ),
        },
        ExprView::Number(n) => Ok(
            GenState {
                text: st.text + line("    ; Append number: "@, decimal(n as int)) + load_number(
                    decimal(n as int),
                ) + APPEND_NUMBER@,
                ..st
            },
        ),
        ExprView::Float(text) => match float_value(floats, FloatQueryView::Literal(text)) {
            None => Err(CompileErrorView::FloatPending(FloatQueryView::Literal(text))),
            Some(v) => match minted(st, "float_concat"@) {
                Err(e) => Err(e),
                Ok((label, st1)) => Ok(
                    GenState {
                        data: st1.data + bare_blob(label, v.text),
                        text: st1.text + line("    ; Append float: "@, v.text) + load_source(label)
                            + APPEND_TEXT@,
                        ..st1
                    },
                ),
            },
        },
        ExprView::Boolean(b) => Ok(
            GenState {
                text: st.text + line("    ; Append boolean: "@, bool_text(b)) + truth_source(b)
                    + APPEND_TEXT@,
                ..st
            },
        ),
        ExprView::Null => Ok(GenState { text: st.text + APPEND_NULL@, ..st }),
        ExprView::Variable(name) => match resolve(name, st.constants, st.variables) {
            None => Err(CompileErrorView::UndefinedName),
            Some(v) => match appended(name, v, st) {
                Err(e) => Err(e),
                Ok((code, st1)) => Ok(
                    GenState { text: st1.text + line(append_lead(v), name) + code, ..st1 },
                ),
            },
        },
        ExprView::BinaryOp { op, left, right } => if is_concat(
            op,
            *left,
            *right,
            st.constants,
            st.variables,
        ) {
            match concat(*left, st, floats) {
                Err(e) => Err(e),
                Ok(st1) => concat(*right, st1, floats),
            }
        } else {
            match expression_code(e, st.constants, st.variables, floats) {
                Err(e) => Err(e),
                Ok(code) => Ok(
                    GenState {
                        text: st.text + APPEND_RESULT_HEAD@ + code + APPEND_RESULT_TAIL@,
                        ..st
                    },
                ),
            }
        },
        _ => Err(CompileErrorView::NotConstant),
    }
}

/// The state after one element of a printed array is written out,
/// without a line break behind it. An element is printed as it would be
/// on a line of its own: a literal from its blob, an array between its
/// brackets with its own elements separated, a name by its value, and
/// any other expression through the concatenation buffer.
pub open spec fn array_element(e: ExprView, st: GenState, floats: Seq<FloatFactView>) -> Lowered
    decreases e, 0nat,
{
    match e {
        ExprView::StringLiteral(s) => match labelled(st, s) {
            Err(e) => Err(e),
            Ok((label, st1)) => Ok(
                GenState {
                    text: st1.text + line("    ; Print array element (string): "@, s) + write_call(
                        label,
                        byte_len(s),
                    ),
                    ..st1
                },
            ),
        },
        ExprView::Number(n) => match minted(st, "num"@) {
            Err(e) => Err(e),
            Ok((label, st1)) => Ok(
                GenState {
                    data: st1.data + bare_blob(label, decimal(n as int)),
                    text: st1.text + line("    ; Print array element (number): "@, decimal(n as int))
                        + write_call(label, byte_len(decimal(n as int))),
                    ..st1
                },
            ),
        },
        ExprView::Float(text) => match float_value(floats, FloatQueryView::Literal(text)) {
            None => Err(CompileErrorView::FloatPending(FloatQueryView::Literal(text))),
            Some(v) => match minted(st, "float"@) {
                Err(e) => Err(e),
                Ok((label, st1)) => Ok(
                    GenState {
                        data: st1.data + bare_blob(label, v.text),
                        text: st1.text + line("    ; Print array element (float): "@, v.text)
                            + write_call(label, byte_len(v.text)),
                        ..st1
                    },
                ),
            },
        },
        ExprView::Boolean(b) => Ok(
            GenState {
                text: st.text + line("    ; Print array element (boolean): "@, bool_text(b))
                    + WRITE_HEAD@ + truth_word(b) + SYSCALL@,
                ..st
            },
        ),
        ExprView::Null => Ok(GenState { text: st.text + PRINT_NULL_ELEMENT@, ..st }),
        ExprView::Array(items) => match array_elements(
            items,
            items.len(),
            GenState { text: st.text + NESTED_OPEN@, ..st },
            floats,
        ) {
            Err(e) => Err(e),
            Ok(st1) => Ok(GenState { text: st1.text + NESTED_CLOSE@, ..st1 }),
        },
        ExprView::Variable(name) => match resolve(name, st.constants, st.variables) {
            None => Err(CompileErrorView::UndefinedName),
            Some(v) => named_element(name, v, st),
        },
        ExprView::BinaryOp { .. } => match concat(
            e,
            GenState { text: st.text + ELEMENT_NOTE@ + BUFFER_RESET@, ..st },
            floats,
        ) {
            Err(e) => Err(e),
            Ok(st1) => Ok(GenState { text: st1.text + ELEMENT_FLUSH@, ..st1 }),
        },
        _ => Err(CompileErrorView::NotConstant),
    }
}

/// The state after an array element that is a name is written out. A
/// constant is written from its blob, with the length of its printable
/// text; a variable is read from its cell into the concatenation buffer,
/// which is then written without a line break.
pub open spec fn named_element(name: Seq<char>, v: ValueView, st: GenState) -> Lowered {
    let note = line("    ; Print array element (variable): "@, name);
    if st.constants.contains_key(name) {
        Ok(
            GenState {
                text: st.text + note + write_call(blob_label(name, v), byte_len(printable(v))),
                ..st
            },
        )
    } else {
        match appended(name, v, st) {
            Err(e) => Err(e),
            Ok((code, st1)) => Ok(
                GenState { text: st1.text + note + BUFFER_RESET@ + code + ELEMENT_FLUSH@, ..st1 },
            ),
        }
    }
}

/// The state after the first `n` elements of a printed array are written
/// out, a separator after each but the array's last.
pub open spec fn array_elements(
    items: Seq<ExprView>,
    n: nat,
    st: GenState,
    floats: Seq<FloatFactView>,
) -> Lowered
    decreases items, n,
{
    if n == 0 || n > items.len() {
        Ok(st)
    } else {
        match array_elements(items, (n - 1) as nat, st, floats) {
            Err(e) => Err(e),
            Ok(st1) => match array_element(items[n - 1], st1, floats) {
                Err(e) => Err(e),
                Ok(st2) => if n < items.len() {
                    Ok(GenState { text: st2.text + ARRAY_SEPARATOR@, ..st2 })
                } else {
                    Ok(st2)
                },
            },
        }
    }
}

/// Once a prefix of an array fails, every longer prefix fails the same
/// way.
pub proof fn lemma_array_elements_stop(
    items: Seq<ExprView>,
    k: nat,
    n: nat,
    st: GenState,
    floats: Seq<FloatFactView>,
)
    requires
        k <= n <= items.len(),
        array_elements(items, k, st, floats) is Err,
    ensures
        array_elements(items, n, st, floats) == array_elements(items, k, st, floats),
    decreases n,
{
    if k < n {
        lemma_array_elements_stop(items, k, (n - 1) as nat, st, floats);
    }
}

/// The state after a print statement is lowered.
pub open spec fn lower_print(inner: ExprView, st: GenState, floats: Seq<FloatFactView>) -> Lowered {
    match inner {
        ExprView::StringLiteral(s) => match labelled(st, s) {
            Err(e) => Err(e),
            Ok((label, st1)) => Ok(
                GenState {
                    text: st1.text + line("    ; Print: "@, s) + write_call(
                        label,
                        byte_len(s) + 1,
                    ),
                    ..st1
                },
            ),
        },
        ExprView::Boolean(b) => Ok(
            GenState {
                text: st.text + line("    ; Print boolean: "@, bool_text(b)) + WRITE_HEAD@
                    + truth_line(b) + SYSCALL@,
                ..st
            },
        ),
        ExprView::Null => Ok(GenState { text: st.text + PRINT_NULL@, ..st }),
        ExprView::Array(items) => match array_elements(
            items,
            items.len(),
            GenState { text: st.text + ARRAY_OPEN@, ..st },
            floats,
        ) {
            Err(e) => Err(e),
            Ok(st1) => Ok(GenState { text: st1.text + ARRAY_CLOSE@, ..st1 }),
        },
        ExprView::Variable(name) => match resolve(name, st.constants, st.variables) {
            None => Err(CompileErrorView::UndefinedName),
            Some(v) => match appended(name, v, st) {
                Err(e) => Err(e),
                Ok((code, st1)) => Ok(
                    GenState {
                        text: st1.text + line("    ; Print variable: "@, name) + BUFFER_RESET@
                            + code + BUFFER_FLUSH@,
                        ..st1
                    },
                ),
            },
        },
        ExprView::Number(n) => match minted(st, "num"@) {
            Err(e) => Err(e),
            Ok((label, st1)) => Ok(
                GenState {
                    data: st1.data + line_blob(label, decimal(n as int)),
                    text: st1.text + line("    ; Print number: "@, decimal(n as int)) + write_call(
                        label,
                        byte_len(decimal(n as int)) + 1,
                    ),
                    ..st1
                },
            ),
        },
        ExprView::Float(text) => match float_value(floats, FloatQueryView::Literal(text)) {
            None => Err(CompileErrorView::FloatPending(FloatQueryView::Literal(text))),
            Some(v) => match minted(st, "float"@) {
                Err(e) => Err(e),
                Ok((label, st1)) => Ok(
                    GenState {
                        data: st1.data + line_blob(label, v.text),
                        text: st1.text + line("    ; Print float: "@, v.text) + write_call(
                            label,
                            byte_len(v.text) + 1,
                        ),
                        ..st1
                    },
                ),
            },
        },
        ExprView::BinaryOp { op, left, right } => if is_concat(
            op,
            *left,
            *right,
            st.constants,
            st.variables,
        ) {
            match concat(*left, GenState { text: st.text + BUFFER_RESET@, ..st }, floats) {
                Err(e) => Err(e),
                Ok(st1) => match concat(*right, st1, floats) {
                    Err(e) => Err(e),
                    Ok(st2) => Ok(GenState { text: st2.text + BUFFER_FLUSH@, ..st2 }),
                },
            }
        } else {
            match expression_code(inner, st.constants, st.variables, floats) {
                Err(e) => Err(e),
                Ok(code) => Ok(
                    GenState { text: st.text + PRINT_NUMERIC_NOTE@ + code + PRINT_RESULT@, ..st },
                ),
            }
        },
        _ => Err(CompileErrorView::NotConstant),
    }
}

/// Code that loads `rdi` with the exit status that a name stands for.
pub open spec fn exit_status(name: Seq<char>, v: ValueView, constant: bool) -> Seq<char> {
    match v {
        ValueView::Number(n) => load_status(
            if constant {
                decimal(n as int)
            } else {
                cell(name)
            },
        ),
        ValueView::Boolean(b) => load_status(
            if constant {
                truth_digit(b)
            } else {
                cell(name)
            },
        ),
        _ => DEFAULT_STATUS@,
    }
}

/// The state after an exit statement is lowered.
pub open spec fn lower_exit(code: ExprView, st: GenState, floats: Seq<FloatFactView>) -> Lowered {
    match code {
        ExprView::Number(n) => Ok(
            GenState {
                text: st.text + EXIT_HEAD@ + load_status(decimal(n as int)) + SYSCALL@,
                ..st
            },
        ),
        ExprView::Variable(name) => match resolve(name, st.constants, st.variables) {
            None => Err(CompileErrorView::UndefinedName),
            Some(v) => Ok(
                GenState {
                    text: st.text + line("    ; Exit program with identifier "@, name) + SELECT_EXIT@
                        + line("    ; Load value of "@, name) + exit_status(
                        name,
                        v,
                        st.constants.contains_key(name),
                    ) + SYSCALL@,
                    ..st
                },
            ),
        },
        _ => match expression_code(code, st.constants, st.variables, floats) {
            Err(e) => Err(e),
            Ok(c) => Ok(GenState { text: st.text + EXIT_NOTE@ + c + EXIT_RESULT@, ..st }),
        },
    }
}

/// How a value reads in the comment that records a declaration.
pub open spec fn shown(v: ValueView) -> Seq<char> {
    match v {
        ValueView::Number(n) => decimal(n as int),
        ValueView::Float(f) => f.text,
        ValueView::Text(s) => "\""@ + s + "\""@,
        ValueView::Boolean(b) => bool_text(b),
        ValueView::Array(items) => array_note(items.len()),
        ValueView::Null => "null"@,
    }
}

/// The printable text that is stored for a declared value.
pub open spec fn printable(v: ValueView) -> Seq<char> {
    match v {
        ValueView::Number(n) => decimal(n as int),
        ValueView::Float(f) => f.text,
        ValueView::Text(s) => s,
        ValueView::Boolean(b) => bool_text(b),
        ValueView::Array(_) => "[Array]"@,
        ValueView::Null => "null"@,
    }
}

/// The label of the blob that holds a declared value's printable text.
pub open spec fn blob_label(name: Seq<char>, v: ValueView) -> Seq<char> {
    match v {
        ValueView::Array(_) => var_label(name, Some("_label"@)),
        _ => var_label(name, None),
    }
}

/// The blobs that a declaration adds to the literal region. A float gets
/// a second blob under the label that concatenation reads.
pub open spec fn declared_data(name: Seq<char>, v: ValueView) -> Seq<char> {
    match v {
        ValueView::Float(f) => line_blob(var_label(name, None), f.text) + line_blob(
            var_label(name, Some("_float"@)),
            f.text,
        ),
        _ => line_blob(blob_label(name, v), printable(v)),
    }
}

/// What is written into the cell of a variable for a value: a number as
/// it is, a float scaled, a truth value as one or zero, null as zero, a
/// string or an array as the address of its blob.
pub open spec fn stored(name: Seq<char>, v: ValueView) -> Seq<char> {
    match v {
        ValueView::Number(n) => decimal(n as int),
        ValueView::Float(f) => decimal(f.scaled as int),
        ValueView::Text(_) => var_label(name, None),
        ValueView::Boolean(b) => truth_digit(b),
        ValueView::Array(_) => var_label(name, Some("_label"@)),
        ValueView::Null => "0"@,
    }
}

/// The comment that records a declaration or an assignment.
pub open spec fn note(lead: Seq<char>, name: Seq<char>, v: ValueView) -> Seq<char> {
    lead + name + " = "@ + shown(v) + "\n"@
}

/// The cells that a variable declaration reserves.
pub open spec fn declared_storage(name: Seq<char>, v: ValueView) -> Seq<char> {
    match v {
        ValueView::Float(_) => float_storage(name) + storage(name),
        _ => storage(name),
    }
}

/// The instructions that a variable declaration emits.
pub open spec fn declared_code(name: Seq<char>, v: ValueView) -> Seq<char> {
    match v {
        ValueView::Float(_) => float_store(name, var_label(name, Some("_float"@))) + note(
            "    ; Variable "@,
            name,
            v,
        ) + store(name, stored(name, v)),
        _ => note("    ; Variable "@, name, v) + store(name, stored(name, v)),
    }
}

/// The state after a constant declaration is lowered. The name must be
/// new to both tables.
pub open spec fn declare_const(
    name: Seq<char>,
    value: ExprView,
    st: GenState,
    floats: Seq<FloatFactView>,
) -> Lowered {
    if st.constants.contains_key(name) || st.variables.contains_key(name) {
        Err(CompileErrorView::Redeclaration)
    } else {
        match evaluate(value, st.constants, st.variables, floats) {
            Err(e) => Err(e),
            Ok(v) => Ok(
                GenState {
                    constants: st.constants.insert(name, v),
                    data: st.data + declared_data(name, v),
                    text: st.text + note("    ; Constant "@, name, v),
                    ..st
                },
            ),
        }
    }
}

/// The state after a variable declaration is lowered. The name must be
/// new to both tables.
pub open spec fn declare_let(
    name: Seq<char>,
    value: ExprView,
    st: GenState,
    floats: Seq<FloatFactView>,
) -> Lowered {
    if st.constants.contains_key(name) || st.variables.contains_key(name) {
        Err(CompileErrorView::Redeclaration)
    } else {
        match evaluate(value, st.constants, st.variables, floats) {
            Err(e) => Err(e),
            Ok(v) => Ok(
                GenState {
                    variables: st.variables.insert(name, v),
                    float_cells: if v is Float {
                        st.float_cells.insert(name)
                    } else {
                        st.float_cells
                    },
                    data: st.data + declared_data(name, v),
                    bss: st.bss + declared_storage(name, v),
                    text: st.text + declared_code(name, v),
                    ..st
                },
            ),
        }
    }
}

/// The state after a value is assigned to a variable. A number, a truth
/// value or null is written into the cell; a string or an array gets a
/// fresh blob first, and the cell is pointed at it. A float is written
/// into the cell scaled, and gets a fresh blob for its text, at which the
/// variable's second cell is pointed; that cell is reserved the first
/// time the variable holds a float.
pub open spec fn assigned(name: Seq<char>, v: ValueView, st: GenState) -> Lowered {
    match v {
        ValueView::Float(f) => match minted(st, var_label(name, Some("_float"@)) + "_updated"@) {
            Err(e) => Err(e),
            Ok((label, st1)) => Ok(
                GenState {
                    variables: st1.variables.insert(name, v),
                    float_cells: st1.float_cells.insert(name),
                    data: st1.data + line_blob(label, f.text),
                    bss: if st1.float_cells.contains(name) {
                        st1.bss
                    } else {
                        st1.bss + float_storage(name)
                    },
                    text: st1.text + note("    ; Assign "@, name, v) + store(name, stored(name, v))
                        + float_store(name, label),
                    ..st1
                },
            ),
        },
        ValueView::Text(_) => reassigned_blob(name, v, st),
        ValueView::Array(_) => reassigned_blob(name, v, st),
        _ => Ok(
            GenState {
                variables: st.variables.insert(name, v),
                text: st.text + note("    ; Assign "@, name, v) + store(name, stored(name, v)),
                ..st
            },
        ),
    }
}

/// The state after a string or an array is assigned to a variable. The
/// blob of the value that the variable held before stays where it is:
/// the literal region only grows.
pub open spec fn reassigned_blob(name: Seq<char>, v: ValueView, st: GenState) -> Lowered {
    match minted(st, blob_label(name, v) + "_updated"@) {
        Err(e) => Err(e),
        Ok((label, st1)) => Ok(
            GenState {
                variables: st1.variables.insert(name, v),
                data: st1.data + line_blob(label, printable(v)),
                text: st1.text + note("    ; Assign "@, name, v) + store(name, label),
                ..st1
            },
        ),
    }
}

/// The state after an assignment is lowered. The name must be a variable.
pub open spec fn assign(name: Seq<char>, value: ExprView, st: GenState, floats: Seq<FloatFactView>)
    -> Lowered {
    if st.constants.contains_key(name) {
        Err(CompileErrorView::ConstantReassigned)
    } else if !st.variables.contains_key(name) {
        Err(CompileErrorView::UndefinedName)
    } else {
        match evaluate(value, st.constants, st.variables, floats) {
            Err(e) => Err(e),
            Ok(v) => assigned(name, v, st),
        }
    }
}

/// The state in which the first branch of a conditional is lowered: the
/// condition has been computed and tested, and a jump leads past the
/// branch when it is zero.
pub open spec fn then_start(st: GenState, code: Seq<char>, target: Seq<char>) -> GenState {
    GenState {
        text: st.text + IF_NOTE@ + code + TEST_CONDITION@ + line("    jz "@, target) + THEN_NOTE@,
        ..st
    }
}

/// The state in which the second branch of a conditional is lowered: a
/// jump leads from the end of the first branch past the second, whose
/// target follows.
pub open spec fn else_start(st: GenState, end_label: Seq<char>, else_label: Seq<char>)
    -> GenState {
    GenState {
        text: st.text + line("    jmp "@, end_label) + mark(else_label) + ELSE_NOTE@,
        ..st
    }
}

/// The state after a statement is lowered.
///
/// A conditional computes its condition, jumps past the first branch when
/// the condition is zero, and lowers its branches in place; both of its
/// labels carry the number of one minted label. A node that is no
/// statement leaves the state as it is.
pub open spec fn lower(e: ExprView, st: GenState, floats: Seq<FloatFactView>) -> Lowered
    decreases e, 0nat,
{
    match e {
        ExprView::Print(inner) => lower_print(*inner, st, floats),
        ExprView::Exit(code) => lower_exit(*code, st, floats),
        ExprView::Const { name, value } => declare_const(name, *value, st, floats),
        ExprView::Let { name, value } => declare_let(name, *value, st, floats),
        ExprView::Assign { name, value } => assign(name, *value, st, floats),
        ExprView::If { condition, then_branch, else_branch } => match minted(st, "if_end"@) {
            Err(e) => Err(e),
            Ok((end_label, st1)) => match expression_code(
                *condition,
                st.constants,
                st.variables,
                floats,
            ) {
                Err(e) => Err(e),
                Ok(code) => {
                    let else_label = numbered("if_else"@, st.counter);
                    let target = if else_branch is Some {
                        else_label
                    } else {
                        end_label
                    };
                    match lower_block(
                        then_branch,
                        then_branch.len(),
                        then_start(st1, code, target),
                        floats,
                    ) {
                        Err(e) => Err(e),
                        Ok(st2) => match else_branch {
                            None => Ok(GenState { text: st2.text + mark(end_label), ..st2 }),
                            Some(stmts) => match lower_block(
                                stmts,
                                stmts.len(),
                                else_start(st2, end_label, else_label),
                                floats,
                            ) {
                                Err(e) => Err(e),
                                Ok(st3) => Ok(
                                    GenState { text: st3.text + mark(end_label), ..st3 },
                                ),
                            },
                        },
                    }
                },
            },
        },
        _ => Ok(st),
    }
}

/// The state after the first `n` statements of a list are lowered, in
/// order. Declarations made inside the list stay visible after it.
pub open spec fn lower_block(
    stmts: Seq<ExprView>,
    n: nat,
    st: GenState,
    floats: Seq<FloatFactView>,
) -> Lowered
    decreases stmts, n,
{
    if n == 0 || n > stmts.len() {
        Ok(st)
    } else {
        match lower_block(stmts, (n - 1) as nat, st, floats) {
            Err(e) => Err(e),
            Ok(st1) => lower(stmts[n - 1], st1, floats),
        }
    }
}

/// Once a prefix of a list fails, every longer prefix fails the same way.
pub proof fn lemma_lower_block_stops(
    stmts: Seq<ExprView>,
    k: nat,
    n: nat,
    st: GenState,
    floats: Seq<FloatFactView>,
)
    requires
        k <= n <= stmts.len(),
        lower_block(stmts, k, st, floats) is Err,
    ensures
        lower_block(stmts, n, st, floats) == lower_block(stmts, k, st, floats),
    decreases n,
{
    if k < n {
        lemma_lower_block_stops(stmts, k, (n - 1) as nat, st, floats);
    }
}

/// Whether a statement is an exit or holds one in a branch.
pub open spec fn holds_exit(e: ExprView) -> bool
    decreases e, 0nat,
{
    match e {
        ExprView::Exit(_) => true,
        ExprView::If { then_branch, else_branch, .. } => any_exit(then_branch, then_branch.len())
            || match else_branch {
            Some(stmts) => any_exit(stmts, stmts.len()),
            None => false,
        },
        _ => false,
    }
}

/// Whether one of the first `n` statements of a list holds an exit.
pub open spec fn any_exit(stmts: Seq<ExprView>, n: nat) -> bool
    decreases stmts, n,
{
    0 < n <= stmts.len() && (any_exit(stmts, (n - 1) as nat) || holds_exit(stmts[n - 1]))
}

/// The document: the literal region, the storage region and the
/// instruction region, one empty line between them.
pub open spec fn document(st: GenState) -> Seq<char> {
    st.data + "\n"@ + st.bss + "\n"@ + st.text
}

/// The assembly document of a program: every string literal gets its
/// label, the statements are lowered in order, and a program without an
/// exit statement gets an exit with status zero at its end.
pub open spec fn generate(stmts: Seq<ExprView>, floats: Seq<FloatFactView>) -> Code {
    match collect_list(stmts, stmts.len(), initial_state()) {
        Err(e) => Err(e),
        Ok(st1) => match lower_block(stmts, stmts.len(), st1, floats) {
            Err(e) => Err(e),
            Ok(st2) => Ok(
                document(
                    if any_exit(stmts, stmts.len()) {
                        st2
                    } else {
                        GenState { text: st2.text + DEFAULT_EXIT@, ..st2 }
                    },
                ),
            ),
        },
    }
}

/// An exit among the first statements of a list is an exit of the list.
pub proof fn lemma_any_exit_grows(stmts: Seq<ExprView>, k: nat, n: nat)
    requires
        k <= n <= stmts.len(),
        any_exit(stmts, k),
    ensures
        any_exit(stmts, n),
    decreases n,
{
    if k < n {
        lemma_any_exit_grows(stmts, k, (n - 1) as nat);
    }
}

/// Whether what the generator returned is the outcome expected of it.
pub open spec fn generation_matches(r: Result<String, CompileError>, expected: Code) -> bool {
    match expected {
        Ok(text) => r matches Ok(found) && found@ == text,
        Err(e) => r matches Err(found) && found@ == e,
    }
}

} // verus!
