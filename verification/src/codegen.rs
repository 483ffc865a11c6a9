//! The code generator: one pass over the statements that fills the three
//! regions of the assembly document.

use vstd::prelude::*;
use vstd::string::*;
use crate::ast::{expr_list_view, exprs_view, lemma_expr_list_view, BinOp, Expr};
use crate::error::{CompileError, CompileErrorView};
use crate::eval::{bool_word, evaluate_constant_expr, lookup};
use crate::float::{FloatQuery, FloatTable};
use crate::labels::{LabelTable, NameSet};
use crate::lowering::{
    any_exit,
    append_lead,
    append_value,
    appended,
    array_element,
    array_elements,
    assign,
    assigned,
    blob_label,
    branches,
    code_view,
    collect,
    collect_list,
    concat,
    declare_const,
    declare_let,
    declared_code,
    declared_data,
    declared_storage,
    document,
    exit_status,
    expression_code,
    generate,
    generation_matches,
    holds_exit,
    initial_state,
    is_string,
    labelled,
    labelling_matches,
    lemma_any_exit_grows,
    lemma_array_elements_stop,
    lemma_collect_list_stops,
    lemma_lower_block_stops,
    lower,
    lower_block,
    lower_exit,
    lower_print,
    lowering_matches,
    minted,
    named_element,
    note,
    printable,
    reassigned_blob,
    shown,
    stored,
    variable_code,
    Code,
    GenState,
};
use crate::templates::{
    array_note_of,
    bare_blob_of,
    cell,
    cell_of,
    float_cell_of,
    float_storage_of,
    float_store_of,
    join3,
    join5,
    line_blob_of,
    line_of,
    load_number_of,
    load_source_of,
    load_status_of,
    mark_of,
    numbered_of,
    operator_code_of,
    runtime_truth_of,
    storage_of,
    store_of,
    truth_digit_of,
    truth_line_of,
    truth_number_of,
    truth_source_of,
    truth_word_of,
    write_call_of,
    APPEND_NULL,
    APPEND_NUMBER,
    APPEND_RESULT_HEAD,
    APPEND_RESULT_TAIL,
    APPEND_TEXT,
    ARRAY_CLOSE,
    ARRAY_OPEN,
    ARRAY_SEPARATOR,
    BSS_HEAD,
    BUFFER_FLUSH,
    BUFFER_RESET,
    DATA_HEAD,
    DEFAULT_EXIT,
    DEFAULT_STATUS,
    ELEMENT_FLUSH,
    ELEMENT_NOTE,
    ELSE_NOTE,
    EXIT_HEAD,
    EXIT_NOTE,
    EXIT_RESULT,
    IF_NOTE,
    NESTED_CLOSE,
    NESTED_OPEN,
    NULL_SOURCE,
    PRINT_NULL,
    PRINT_NULL_ELEMENT,
    PRINT_NUMERIC_NOTE,
    PRINT_RESULT,
    SELECT_EXIT,
    SYSCALL,
    TEST_CONDITION,
    TEXT_HEAD,
    THEN_NOTE,
    WRITE_HEAD,
};
use crate::text::{byte_count, decimal_text};
use crate::value::{value_list_view, SymbolTable, ValueView};
pub use crate::templates::{get_string_label, get_var_label};
pub use crate::value::ConstValue;

verus! {

/// The executable counterpart of [`GenState`].
pub struct Generator {
    pub constants: SymbolTable,
    pub variables: SymbolTable,
    pub labels: LabelTable,
    pub float_cells: NameSet,
    pub data: String,
    pub bss: String,
    pub text: String,
    pub counter: u64,
}

impl View for Generator {
    type V = GenState;

    open spec fn view(&self) -> GenState {
        GenState {
            constants: self.constants@,
            variables: self.variables@,
            labels: self.labels@,
            float_cells: self.float_cells@,
            data: self.data@,
            bss: self.bss@,
            text: self.text@,
            counter: self.counter,
        }
    }
}

/// Code that loads `rdi` with the exit status that a name stands for.
pub(crate) fn exit_status_of(name: &str, value: &ConstValue, constant: bool) -> (r: String)
    ensures
        r@ == exit_status(name@, value@, constant),
{
    match value {
        ConstValue::Number(n) => {
            let operand = if constant {
                decimal_text(*n as i128)
            } else {
                cell_of(name)
            };
            load_status_of(operand.as_str())
        },
        ConstValue::Boolean(b) => {
            let operand = if constant {
                String::from_str(truth_digit_of(*b))
            } else {
                cell_of(name)
            };
            load_status_of(operand.as_str())
        },
        _ => String::from_str(DEFAULT_STATUS),
    }
}

/// How a value reads in the comment that records a declaration.
pub(crate) fn shown_of(value: &ConstValue) -> (r: String)
    ensures
        r@ == shown(value@),
{
    match value {
        ConstValue::Number(n) => decimal_text(*n as i128),
        ConstValue::Float(f) => f.text.clone(),
        ConstValue::String(s) => join3("\"", s.as_str(), "\""),
        ConstValue::Boolean(b) => String::from_str(bool_word(*b)),
        ConstValue::Array(items) => {
            proof {
                assert(value@ == ValueView::Array(value_list_view(items@)));
            }
            array_note_of(items.len())
        },
        ConstValue::Null => String::from_str("null"),
    }
}

/// The printable text that is stored for a declared value.
pub(crate) fn printable_of(value: &ConstValue) -> (r: String)
    ensures
        r@ == printable(value@),
{
    match value {
        ConstValue::Number(n) => decimal_text(*n as i128),
        ConstValue::Float(f) => f.text.clone(),
        ConstValue::String(s) => s.clone(),
        ConstValue::Boolean(b) => String::from_str(bool_word(*b)),
        ConstValue::Array(_) => String::from_str("[Array]"),
        ConstValue::Null => String::from_str("null"),
    }
}

/// The label of the blob that holds a declared value's printable text.
pub(crate) fn blob_label_of(name: &str, value: &ConstValue) -> (r: String)
    ensures
        r@ == blob_label(name@, value@),
{
    match value {
        ConstValue::Array(_) => get_var_label(name, Some("_label")),
        _ => get_var_label(name, None),
    }
}

/// The blobs that a declaration adds to the literal region.
pub(crate) fn declared_data_of(name: &str, value: &ConstValue) -> (r: String)
    ensures
        r@ == declared_data(name@, value@),
{
    match value {
        ConstValue::Float(f) => {
            let mut r = line_blob_of(get_var_label(name, None).as_str(), f.text.as_str());
            r.append(
                line_blob_of(get_var_label(name, Some("_float")).as_str(), f.text.as_str()).as_str(),
            );
            r
        },
        _ => line_blob_of(blob_label_of(name, value).as_str(), printable_of(value).as_str()),
    }
}

/// What is written into the cell of a variable for a value.
pub(crate) fn stored_of(name: &str, value: &ConstValue) -> (r: String)
    ensures
        r@ == stored(name@, value@),
{
    match value {
        ConstValue::Number(n) => decimal_text(*n as i128),
        ConstValue::Float(f) => decimal_text(f.scaled as i128),
        ConstValue::String(_) => get_var_label(name, None),
        ConstValue::Boolean(b) => String::from_str(truth_digit_of(*b)),
        ConstValue::Array(_) => get_var_label(name, Some("_label")),
        ConstValue::Null => String::from_str("0"),
    }
}

/// The comment that records a declaration or an assignment.
pub(crate) fn note_of(lead: &str, name: &str, value: &ConstValue) -> (r: String)
    ensures
        r@ == note(lead@, name@, value@),
{
    join5(lead, name, " = ", shown_of(value).as_str(), "\n")
}

/// The cells that a variable declaration reserves.
pub(crate) fn declared_storage_of(name: &str, value: &ConstValue) -> (r: String)
    ensures
        r@ == declared_storage(name@, value@),
{
    match value {
        ConstValue::Float(_) => {
            let mut r = float_storage_of(name);
            r.append(storage_of(name).as_str());
            r
        },
        _ => storage_of(name),
    }
}

/// The instructions that a variable declaration emits.
pub(crate) fn declared_code_of(name: &str, value: &ConstValue) -> (r: String)
    ensures
        r@ == declared_code(name@, value@),
{
    match value {
        ConstValue::Float(_) => {
            let mut r = float_store_of(name, get_var_label(name, Some("_float")).as_str());
            r.append(note_of("    ; Variable ", name, value).as_str());
            r.append(store_of(name, stored_of(name, value).as_str()).as_str());
            r
        },
        _ => {
            let mut r = note_of("    ; Variable ", name, value);
            r.append(store_of(name, stored_of(name, value).as_str()).as_str());
            r
        },
    }
}

/// Whether a statement is an exit or holds one in a branch.
pub fn has_exit(stmt: &Expr) -> (r: bool)
    ensures
        r == holds_exit(stmt@),
    decreases stmt, 0nat,
{
    match stmt {
        Expr::Exit(_) => true,
        Expr::If { then_branch, else_branch, .. } => {
            if any_exit_in(then_branch) {
                true
            } else {
                match else_branch {
                    Some(stmts) => any_exit_in(stmts),
                    None => false,
                }
            }
        },
        _ => false,
    }
}

/// Whether a statement of a list holds an exit.
pub(crate) fn any_exit_in(items: &Vec<Box<Expr>>) -> (r: bool)
    ensures
        r == any_exit(expr_list_view(items@), items@.len()),
    decreases items, 1nat,
{
    let ghost models = expr_list_view(items@);
    proof {
        lemma_expr_list_view(items@);
    }
    let mut i: usize = 0;
    while i < items.len()
        invariant
            i <= items.len(),
            models == expr_list_view(items@),
            models.len() == items.len(),
            forall|k: int| 0 <= k < items.len() ==> #[trigger] models[k] == (*items@[k])@,
            !any_exit(models, i as nat),
        decreases items.len() - i,
    {
        if has_exit(&items[i]) {
            proof {
                lemma_any_exit_grows(models, i as nat + 1, items.len() as nat);
            }
            return true;
        }
        i += 1;
    }
    false
}

/// Code that appends the value of a name to the concatenation buffer.
pub(crate) fn append_value_of(name: &str, value: &ConstValue, constant: bool, number: u64) -> (r:
    String)
    ensures
        r@ == append_value(name@, value@, constant, number),
{
    match value {
        ConstValue::Number(n) => {
            let operand = if constant {
                decimal_text(*n as i128)
            } else {
                cell_of(name)
            };
            let mut r = load_number_of(operand.as_str());
            r.append(APPEND_NUMBER);
            r
        },
        ConstValue::Float(_) => {
            let operand = if constant {
                get_var_label(name, Some("_float"))
            } else {
                float_cell_of(name)
            };
            let mut r = load_source_of(operand.as_str());
            r.append(APPEND_TEXT);
            r
        },
        ConstValue::String(_) => {
            let operand = if constant {
                get_var_label(name, None)
            } else {
                cell_of(name)
            };
            let mut r = load_source_of(operand.as_str());
            r.append(APPEND_TEXT);
            r
        },
        ConstValue::Boolean(b) => {
            let mut r = if constant {
                String::from_str(truth_source_of(*b))
            } else {
                runtime_truth_of(name, number)
            };
            r.append(APPEND_TEXT);
            r
        },
        ConstValue::Array(_) => {
            let operand = if constant {
                get_var_label(name, Some("_label"))
            } else {
                cell_of(name)
            };
            let mut r = load_source_of(operand.as_str());
            r.append(APPEND_TEXT);
            r
        },
        ConstValue::Null => {
            let mut r = String::from_str(NULL_SOURCE);
            r.append(APPEND_TEXT);
            r
        },
    }
}

/// The lead of the comment that announces the appending of a name.
pub(crate) fn append_lead_of(value: &ConstValue) -> (r: &'static str)
    ensures
        r@ == append_lead(value@),
{
    match value {
        ConstValue::Number(_) => "    ; Append numeric variable: ",
        ConstValue::Float(_) => "    ; Append float variable: ",
        ConstValue::String(_) => "    ; Append string variable: ",
        ConstValue::Boolean(_) => "    ; Append boolean variable: ",
        ConstValue::Array(_) => "    ; Append array constant: ",
        ConstValue::Null => "    ; Append null constant: ",
    }
}

/// Whether an expression is known to be a string before the program runs.
pub fn is_string_expr(expr: &Expr, constants: &SymbolTable, variables: &SymbolTable) -> (r: bool)
    ensures
        r == is_string(expr@, constants@, variables@),
    decreases expr,
{
    match expr {
        Expr::StringLiteral(_) => true,
        Expr::Variable(name) => match lookup(name.as_str(), constants, variables) {
            Some(ConstValue::String(_)) => true,
            _ => false,
        },
        Expr::BinaryOp { op, left, right } => *op == BinOp::Add && (is_string_expr(
            left,
            constants,
            variables,
        ) || is_string_expr(right, constants, variables)),
        _ => false,
    }
}

/// Code that loads the numeric value of a name into `rax`.
fn variable_code_of(name: &str, constants: &SymbolTable, variables: &SymbolTable) -> (r: Result<
    String,
    CompileError,
>)
    ensures
        code_view(r) == variable_code(name@, constants@, variables@),
{
    match constants.get(name) {
        Some(value) => match value {
            ConstValue::Number(n) => {
                let mut r = line_of("    ; Load numeric constant: ", name);
                r.append(load_number_of(decimal_text(*n as i128).as_str()).as_str());
                Ok(r)
            },
            ConstValue::Float(f) => {
                let mut r = join3("    ; Load float constant: ", name, " (scaled as integer)\n");
                r.append(load_number_of(decimal_text(f.scaled as i128).as_str()).as_str());
                Ok(r)
            },
            ConstValue::Boolean(b) => {
                let mut r = line_of("    ; Load boolean constant: ", name);
                r.append(truth_number_of(*b));
                Ok(r)
            },
            _ => Err(CompileError::TypeMismatch),
        },
        None => match variables.get(name) {
            Some(value) => match value {
                ConstValue::Number(_) => {
                    let mut r = line_of("    ; Load numeric variable: ", name);
                    r.append(load_number_of(cell_of(name).as_str()).as_str());
                    Ok(r)
                },
                ConstValue::Float(_) => {
                    let mut r = join3("    ; Load float variable: ", name, " (scaled as integer)\n");
                    r.append(load_number_of(cell_of(name).as_str()).as_str());
                    Ok(r)
                },
                ConstValue::Boolean(_) => {
                    let mut r = line_of("    ; Load boolean variable: ", name);
                    r.append(load_number_of(cell_of(name).as_str()).as_str());
                    Ok(r)
                },
                _ => Err(CompileError::TypeMismatch),
            },
            None => Err(CompileError::UndefinedName),
        },
    }
}

/// Code that leaves the numeric value of an expression in `rax`.
pub fn generate_expression_code(
    expr: &Expr,
    constants: &SymbolTable,
    variables: &SymbolTable,
    floats: &FloatTable,
) -> (r: Result<String, CompileError>)
    ensures
        code_view(r) == expression_code(expr@, constants@, variables@, floats@),
    decreases expr,
{
    match expr {
        Expr::Number(n) => {
            let digits = decimal_text(*n as i128);
            let mut r = line_of("    ; Load number: ", digits.as_str());
            r.append(load_number_of(digits.as_str()).as_str());
            Ok(r)
        },
        Expr::Float(text) => match floats.value(FloatQuery::Literal(text.clone())) {
            Err(query) => Err(CompileError::FloatPending(query)),
            Ok(v) => {
                let mut r = join3("    ; Load float: ", v.text.as_str(), " (scaled as integer)\n");
                r.append(load_number_of(decimal_text(v.scaled as i128).as_str()).as_str());
                Ok(r)
            },
        },
        Expr::Boolean(b) => {
            let mut r = line_of("    ; Load boolean: ", bool_word(*b));
            r.append(truth_number_of(*b));
            Ok(r)
        },
        Expr::Variable(name) => variable_code_of(name.as_str(), constants, variables),
        Expr::BinaryOp { op, left, right } => {
            if *op == BinOp::Add && (is_string_expr(left, constants, variables) || is_string_expr(
                right,
                constants,
                variables,
            )) {
                return Err(CompileError::TypeMismatch);
            }
            let mut r = generate_expression_code(right, constants, variables, floats)?;
            let l = generate_expression_code(left, constants, variables, floats)?;
            r.append("    push rax\n");
            r.append(l.as_str());
            r.append("    pop rbx\n");
            r.append(operator_code_of(*op));
            Ok(r)
        },
        Expr::StringLiteral(_) => Err(CompileError::TypeMismatch),
        Expr::Null => Err(CompileError::TypeMismatch),
        Expr::Array(_) => Err(CompileError::TypeMismatch),
        _ => Err(CompileError::NotConstant),
    }
}

impl Generator {
    /// A generator in the initial state.
    pub fn new() -> (r: Generator)
        ensures
            r@ == initial_state(),
    {
        Generator {
            constants: SymbolTable::new(),
            variables: SymbolTable::new(),
            labels: LabelTable::new(),
            float_cells: NameSet::new(),
            data: String::from_str(DATA_HEAD),
            bss: String::from_str(BSS_HEAD),
            text: String::from_str(TEXT_HEAD),
            counter: 0,
        }
    }

    /// Mints a fresh label.
    pub fn mint(&mut self, prefix: &str) -> (r: Result<String, CompileError>)
        ensures
            labelling_matches(r, final(self)@, minted(old(self)@, prefix@)),
    {
        get_string_label(&mut self.counter, prefix)
    }

    /// The label of a string literal, minted with its blob where the
    /// literal has none yet.
    pub fn label_for(&mut self, literal: &String) -> (r: Result<String, CompileError>)
        ensures
            labelling_matches(r, final(self)@, labelled(old(self)@, literal@)),
    {
        match self.labels.get(literal.as_str()) {
            Some(label) => {
                return Ok(label.clone());
            },
            None => {},
        }
        let label = self.mint("str")?;
        self.labels.insert(literal.clone(), label.clone());
        self.data.append(line_blob_of(label.as_str(), literal.as_str()).as_str());
        Ok(label)
    }

    /// Code that appends the value of a name to the concatenation buffer;
    /// takes a number from the counter where the code branches.
    pub fn append_name(&mut self, name: &str, value: &ConstValue) -> (r: Result<
        String,
        CompileError,
    >)
        ensures
            labelling_matches(r, final(self)@, appended(name@, value@, old(self)@)),
    {
        let constant = self.constants.contains_key(name);
        let branching = match value {
            ConstValue::Boolean(_) => !constant,
            _ => false,
        };
        if branching {
            let number = self.counter;
            let prefix = String::from_str(".false_").concat(name);
            self.mint(prefix.as_str())?;
            Ok(append_value_of(name, value, constant, number))
        } else {
            Ok(append_value_of(name, value, constant, 0))
        }
    }

    /// Appends an operand of a concatenation to the buffer.
    pub fn generate_string_concat(&mut self, expr: &Expr, floats: &FloatTable) -> (r: Result<
        (),
        CompileError,
    >)
        ensures
            lowering_matches(r, final(self)@, concat(expr@, old(self)@, floats@)),
        decreases expr,
    {
        match expr {
            Expr::StringLiteral(s) => {
                let label = self.label_for(s)?;
                self.text.append(line_of("    ; Append string: ", s.as_str()).as_str());
                self.text.append(load_source_of(label.as_str()).as_str());
                self.text.append(APPEND_TEXT);
                Ok(())
            },
            Expr::Number(n) => {
                let digits = decimal_text(*n as i128);
                self.text.append(line_of("    ; Append number: ", digits.as_str()).as_str());
                self.text.append(load_number_of(digits.as_str()).as_str());
                self.text.append(APPEND_NUMBER);
                Ok(())
            },
            Expr::Float(text) => {
                let v = match floats.value(FloatQuery::Literal(text.clone())) {
                    Ok(v) => v,
                    Err(query) => {
                        return Err(CompileError::FloatPending(query));
                    },
                };
                let label = self.mint("float_concat")?;
                self.data.append(bare_blob_of(label.as_str(), v.text.as_str()).as_str());
                self.text.append(line_of("    ; Append float: ", v.text.as_str()).as_str());
                self.text.append(load_source_of(label.as_str()).as_str());
                self.text.append(APPEND_TEXT);
                Ok(())
            },
            Expr::Boolean(b) => {
                self.text.append(line_of("    ; Append boolean: ", bool_word(*b)).as_str());
                self.text.append(truth_source_of(*b));
                self.text.append(APPEND_TEXT);
                Ok(())
            },
            Expr::Null => {
                self.text.append(APPEND_NULL);
                Ok(())
            },
            Expr::Variable(name) => {
                let value = match lookup(name.as_str(), &self.constants, &self.variables) {
                    None => {
                        return Err(CompileError::UndefinedName);
                    },
                    Some(v) => v.clone(),
                };
                let code = self.append_name(name.as_str(), &value)?;
                self.text.append(line_of(append_lead_of(&value), name.as_str()).as_str());
                self.text.append(code.as_str());
                Ok(())
            },
            Expr::BinaryOp { op, left, right } => {
                if *op == BinOp::Add && (is_string_expr(left, &self.constants, &self.variables)
                    || is_string_expr(right, &self.constants, &self.variables)) {
                    self.generate_string_concat(left, floats)?;
                    self.generate_string_concat(right, floats)
                } else {
                    let code = generate_expression_code(
                        expr,
                        &self.constants,
                        &self.variables,
                        floats,
                    )?;
                    self.text.append(APPEND_RESULT_HEAD);
                    self.text.append(code.as_str());
                    self.text.append(APPEND_RESULT_TAIL);
                    Ok(())
                }
            },
            _ => Err(CompileError::NotConstant),
        }
    }

    /// Writes out one element of a printed array, without a line break.
    pub fn print_array_element(&mut self, elem: &Expr, floats: &FloatTable) -> (r: Result<
        (),
        CompileError,
    >)
        ensures
            lowering_matches(r, final(self)@, array_element(elem@, old(self)@, floats@)),
        decreases elem, 0nat,
    {
        match elem {
            Expr::StringLiteral(s) => {
                let label = self.label_for(s)?;
                self.text.append(
                    line_of("    ; Print array element (string): ", s.as_str()).as_str(),
                );
                self.text.append(
                    write_call_of(label.as_str(), byte_count(s.as_str()) as u128).as_str(),
                );
                Ok(())
            },
            Expr::Number(n) => {
                let label = self.mint("num")?;
                let digits = decimal_text(*n as i128);
                self.data.append(bare_blob_of(label.as_str(), digits.as_str()).as_str());
                self.text.append(
                    line_of("    ; Print array element (number): ", digits.as_str()).as_str(),
                );
                self.text.append(
                    write_call_of(label.as_str(), byte_count(digits.as_str()) as u128).as_str(),
                );
                Ok(())
            },
            Expr::Float(text) => {
                let v = match floats.value(FloatQuery::Literal(text.clone())) {
                    Ok(v) => v,
                    Err(query) => {
                        return Err(CompileError::FloatPending(query));
                    },
                };
                let label = self.mint("float")?;
                self.data.append(bare_blob_of(label.as_str(), v.text.as_str()).as_str());
                self.text.append(
                    line_of("    ; Print array element (float): ", v.text.as_str()).as_str(),
                );
                self.text.append(
                    write_call_of(label.as_str(), byte_count(v.text.as_str()) as u128).as_str(),
                );
                Ok(())
            },
            Expr::Boolean(b) => {
                self.text.append(
                    line_of("    ; Print array element (boolean): ", bool_word(*b)).as_str(),
                );
                self.text.append(WRITE_HEAD);
                self.text.append(truth_word_of(*b));
                self.text.append(SYSCALL);
                Ok(())
            },
            Expr::Null => {
                self.text.append(PRINT_NULL_ELEMENT);
                Ok(())
            },
            Expr::Array(items) => {
                self.text.append(NESTED_OPEN);
                self.print_array_elements(items, floats)?;
                self.text.append(NESTED_CLOSE);
                Ok(())
            },
            Expr::Variable(name) => {
                let value = match lookup(name.as_str(), &self.constants, &self.variables) {
                    None => {
                        return Err(CompileError::UndefinedName);
                    },
                    Some(v) => v.clone(),
                };
                self.print_named_element(name.as_str(), &value)
            },
            Expr::BinaryOp { .. } => {
                self.text.append(ELEMENT_NOTE);
                self.text.append(BUFFER_RESET);
                self.generate_string_concat(elem, floats)?;
                self.text.append(ELEMENT_FLUSH);
                Ok(())
            },
            _ => Err(CompileError::NotConstant),
        }
    }

    /// Writes out an array element that is a name.
    fn print_named_element(&mut self, name: &str, value: &ConstValue) -> (r: Result<
        (),
        CompileError,
    >)
        ensures
            lowering_matches(r, final(self)@, named_element(name@, value@, old(self)@)),
    {
        let note = line_of("    ; Print array element (variable): ", name);
        if self.constants.contains_key(name) {
            let label = blob_label_of(name, value);
            let shown = printable_of(value);
            self.text.append(note.as_str());
            self.text.append(
                write_call_of(label.as_str(), byte_count(shown.as_str()) as u128).as_str(),
            );
            Ok(())
        } else {
            let code = self.append_name(name, value)?;
            self.text.append(note.as_str());
            self.text.append(BUFFER_RESET);
            self.text.append(code.as_str());
            self.text.append(ELEMENT_FLUSH);
            Ok(())
        }
    }

    /// Writes out the elements of a printed array, separated.
    fn print_array_elements(&mut self, items: &Vec<Box<Expr>>, floats: &FloatTable) -> (r: Result<
        (),
        CompileError,
    >)
        ensures
            lowering_matches(
                r,
                final(self)@,
                array_elements(expr_list_view(items@), items@.len(), old(self)@, floats@),
            ),
        decreases items, 1nat,
    {
        let ghost models = expr_list_view(items@);
        let ghost start = self@;
        proof {
            lemma_expr_list_view(items@);
        }
        let mut i: usize = 0;
        while i < items.len()
            invariant
                i <= items.len(),
                models == expr_list_view(items@),
                start == old(self)@,
                models.len() == items.len(),
                forall|k: int| 0 <= k < items.len() ==> #[trigger] models[k] == (*items@[k])@,
                array_elements(models, i as nat, start, floats@) == Ok::<
                    GenState,
                    CompileErrorView,
                >(self@),
            decreases items.len() - i,
        {
            match self.print_array_element(&items[i], floats) {
                Ok(_) => {},
                Err(e) => {
                    proof {
                        assert(array_elements(models, (i + 1) as nat, start, floats@) is Err);
                        lemma_array_elements_stop(
                            models,
                            i as nat + 1,
                            items.len() as nat,
                            start,
                            floats@,
                        );
                    }
                    return Err(e);
                },
            }
            if i + 1 < items.len() {
                self.text.append(ARRAY_SEPARATOR);
            }
            i += 1;
        }
        Ok(())
    }

    /// Lowers a print statement.
    pub fn lower_print(&mut self, inner: &Expr, floats: &FloatTable) -> (r: Result<
        (),
        CompileError,
    >)
        ensures
            lowering_matches(r, final(self)@, lower_print(inner@, old(self)@, floats@)),
    {
        match inner {
            Expr::StringLiteral(s) => {
                let label = self.label_for(s)?;
                self.text.append(line_of("    ; Print: ", s.as_str()).as_str());
                self.text.append(
                    write_call_of(label.as_str(), byte_count(s.as_str()) as u128 + 1).as_str(),
                );
                Ok(())
            },
            Expr::Boolean(b) => {
                self.text.append(line_of("    ; Print boolean: ", bool_word(*b)).as_str());
                self.text.append(WRITE_HEAD);
                self.text.append(truth_line_of(*b));
                self.text.append(SYSCALL);
                Ok(())
            },
            Expr::Null => {
                self.text.append(PRINT_NULL);
                Ok(())
            },
            Expr::Array(items) => {
                self.text.append(ARRAY_OPEN);
                self.print_array_elements(items, floats)?;
                self.text.append(ARRAY_CLOSE);
                Ok(())
            },
            Expr::Variable(name) => {
                let value = match lookup(name.as_str(), &self.constants, &self.variables) {
                    None => {
                        return Err(CompileError::UndefinedName);
                    },
                    Some(v) => v.clone(),
                };
                let code = self.append_name(name.as_str(), &value)?;
                self.text.append(line_of("    ; Print variable: ", name.as_str()).as_str());
                self.text.append(BUFFER_RESET);
                self.text.append(code.as_str());
                self.text.append(BUFFER_FLUSH);
                Ok(())
            },
            Expr::Number(n) => {
                let label = self.mint("num")?;
                let digits = decimal_text(*n as i128);
                self.data.append(line_blob_of(label.as_str(), digits.as_str()).as_str());
                self.text.append(line_of("    ; Print number: ", digits.as_str()).as_str());
                self.text.append(
                    write_call_of(label.as_str(), byte_count(digits.as_str()) as u128 + 1).as_str(),
                );
                Ok(())
            },
            Expr::Float(text) => {
                let v = match floats.value(FloatQuery::Literal(text.clone())) {
                    Ok(v) => v,
                    Err(query) => {
                        return Err(CompileError::FloatPending(query));
                    },
                };
                let label = self.mint("float")?;
                self.data.append(line_blob_of(label.as_str(), v.text.as_str()).as_str());
                self.text.append(line_of("    ; Print float: ", v.text.as_str()).as_str());
                self.text.append(
                    write_call_of(label.as_str(), byte_count(v.text.as_str()) as u128 + 1).as_str(),
                );
                Ok(())
            },
            Expr::BinaryOp { op, left, right } => {
                if *op == BinOp::Add && (is_string_expr(left, &self.constants, &self.variables)
                    || is_string_expr(right, &self.constants, &self.variables)) {
                    self.text.append(BUFFER_RESET);
                    self.generate_string_concat(left, floats)?;
                    self.generate_string_concat(right, floats)?;
                    self.text.append(BUFFER_FLUSH);
                    Ok(())
                } else {
                    let code = generate_expression_code(
                        inner,
                        &self.constants,
                        &self.variables,
                        floats,
                    )?;
                    self.text.append(PRINT_NUMERIC_NOTE);
                    self.text.append(code.as_str());
                    self.text.append(PRINT_RESULT);
                    Ok(())
                }
            },
            _ => Err(CompileError::NotConstant),
        }
    }

    /// Lowers an exit statement.
    pub fn lower_exit(&mut self, code: &Expr, floats: &FloatTable) -> (r: Result<(), CompileError>)
        ensures
            lowering_matches(r, final(self)@, lower_exit(code@, old(self)@, floats@)),
    {
        match code {
            Expr::Number(n) => {
                self.text.append(EXIT_HEAD);
                self.text.append(load_status_of(decimal_text(*n as i128).as_str()).as_str());
                self.text.append(SYSCALL);
                Ok(())
            },
            Expr::Variable(name) => {
                let constant = self.constants.contains_key(name.as_str());
                let status = match lookup(name.as_str(), &self.constants, &self.variables) {
                    None => {
                        return Err(CompileError::UndefinedName);
                    },
                    Some(v) => exit_status_of(name.as_str(), v, constant),
                };
                self.text.append(
                    line_of("    ; Exit program with identifier ", name.as_str()).as_str(),
                );
                self.text.append(SELECT_EXIT);
                self.text.append(line_of("    ; Load value of ", name.as_str()).as_str());
                self.text.append(status.as_str());
                self.text.append(SYSCALL);
                Ok(())
            },
            _ => {
                let c = generate_expression_code(
                    code,
                    &self.constants,
                    &self.variables,
                    floats,
                )?;
                self.text.append(EXIT_NOTE);
                self.text.append(c.as_str());
                self.text.append(EXIT_RESULT);
                Ok(())
            },
        }
    }

    /// Lowers a constant declaration.
    pub fn declare_const(&mut self, name: &String, value: &Expr, floats: &FloatTable) -> (r: Result<
        (),
        CompileError,
    >)
        ensures
            lowering_matches(
                r,
                final(self)@,
                declare_const(name@, value@, old(self)@, floats@),
            ),
    {
        if self.constants.contains_key(name.as_str()) || self.variables.contains_key(
            name.as_str(),
        ) {
            return Err(CompileError::Redeclaration);
        }
        let v = evaluate_constant_expr(value, &self.constants, &self.variables, floats)?;
        self.data.append(declared_data_of(name.as_str(), &v).as_str());
        self.text.append(note_of("    ; Constant ", name.as_str(), &v).as_str());
        self.constants.insert(name.clone(), v);
        Ok(())
    }

    /// Lowers a variable declaration.
    pub fn declare_let(&mut self, name: &String, value: &Expr, floats: &FloatTable) -> (r: Result<
        (),
        CompileError,
    >)
        ensures
            lowering_matches(r, final(self)@, declare_let(name@, value@, old(self)@, floats@)),
    {
        if self.constants.contains_key(name.as_str()) || self.variables.contains_key(
            name.as_str(),
        ) {
            return Err(CompileError::Redeclaration);
        }
        let v = evaluate_constant_expr(value, &self.constants, &self.variables, floats)?;
        self.data.append(declared_data_of(name.as_str(), &v).as_str());
        self.bss.append(declared_storage_of(name.as_str(), &v).as_str());
        self.text.append(declared_code_of(name.as_str(), &v).as_str());
        match &v {
            ConstValue::Float(_) => {
                self.float_cells.insert(name.clone());
            },
            _ => {},
        }
        self.variables.insert(name.clone(), v);
        Ok(())
    }

    /// Assigns a resolved value to a variable.
    fn assign_value(&mut self, name: &String, v: ConstValue) -> (r: Result<(), CompileError>)
        ensures
            lowering_matches(r, final(self)@, assigned(name@, v@, old(self)@)),
    {
        let comment = note_of("    ; Assign ", name.as_str(), &v);
        match &v {
            ConstValue::Float(f) => {
                let prefix = get_var_label(name.as_str(), Some("_float")).concat("_updated");
                let label = self.mint(prefix.as_str())?;
                self.data.append(line_blob_of(label.as_str(), f.text.as_str()).as_str());
                if !self.float_cells.contains(name.as_str()) {
                    self.bss.append(float_storage_of(name.as_str()).as_str());
                }
                self.float_cells.insert(name.clone());
                self.text.append(comment.as_str());
                self.text.append(
                    store_of(name.as_str(), stored_of(name.as_str(), &v).as_str()).as_str(),
                );
                self.text.append(float_store_of(name.as_str(), label.as_str()).as_str());
            },
            ConstValue::String(_) => {
                return self.assign_blob(name, v);
            },
            ConstValue::Array(_) => {
                return self.assign_blob(name, v);
            },
            _ => {
                self.text.append(comment.as_str());
                self.text.append(
                    store_of(name.as_str(), stored_of(name.as_str(), &v).as_str()).as_str(),
                );
            },
        }
        self.variables.insert(name.clone(), v);
        Ok(())
    }

    /// Assigns a string or an array to a variable.
    fn assign_blob(&mut self, name: &String, v: ConstValue) -> (r: Result<(), CompileError>)
        ensures
            lowering_matches(r, final(self)@, reassigned_blob(name@, v@, old(self)@)),
    {
        let prefix = blob_label_of(name.as_str(), &v).concat("_updated");
        let label = self.mint(prefix.as_str())?;
        self.data.append(line_blob_of(label.as_str(), printable_of(&v).as_str()).as_str());
        self.text.append(note_of("    ; Assign ", name.as_str(), &v).as_str());
        self.text.append(store_of(name.as_str(), label.as_str()).as_str());
        self.variables.insert(name.clone(), v);
        Ok(())
    }

    /// Lowers an assignment.
    pub fn assign(&mut self, name: &String, value: &Expr, floats: &FloatTable) -> (r: Result<
        (),
        CompileError,
    >)
        ensures
            lowering_matches(r, final(self)@, assign(name@, value@, old(self)@, floats@)),
    {
        if self.constants.contains_key(name.as_str()) {
            return Err(CompileError::ConstantReassigned);
        }
        if !self.variables.contains_key(name.as_str()) {
            return Err(CompileError::UndefinedName);
        }
        let v = evaluate_constant_expr(value, &self.constants, &self.variables, floats)?;
        self.assign_value(name, v)
    }

    /// Lowers a statement.
    pub fn lower_statement(&mut self, stmt: &Expr, floats: &FloatTable) -> (r: Result<
        (),
        CompileError,
    >)
        ensures
            lowering_matches(r, final(self)@, lower(stmt@, old(self)@, floats@)),
        decreases stmt, 0nat,
    {
        match stmt {
            Expr::Print(inner) => self.lower_print(inner, floats),
            Expr::Exit(code) => self.lower_exit(code, floats),
            Expr::Const { name, value } => self.declare_const(name, value, floats),
            Expr::Let { name, value } => self.declare_let(name, value, floats),
            Expr::Assign { name, value } => self.assign(name, value, floats),
            Expr::If { condition, then_branch, else_branch } => {
                let number = self.counter;
                let end_label = self.mint("if_end")?;
                let code = generate_expression_code(
                    condition,
                    &self.constants,
                    &self.variables,
                    floats,
                )?;
                let else_label = numbered_of("if_else", number);
                self.text.append(IF_NOTE);
                self.text.append(code.as_str());
                self.text.append(TEST_CONDITION);
                self.text.append(
                    line_of(
                        "    jz ",
                        if else_branch.is_some() {
                            else_label.as_str()
                        } else {
                            end_label.as_str()
                        },
                    ).as_str(),
                );
                self.text.append(THEN_NOTE);
                self.lower_block(then_branch, floats)?;
                match else_branch {
                    None => {},
                    Some(stmts) => {
                        self.text.append(line_of("    jmp ", end_label.as_str()).as_str());
                        self.text.append(mark_of(else_label.as_str()).as_str());
                        self.text.append(ELSE_NOTE);
                        self.lower_block(stmts, floats)?;
                    },
                }
                self.text.append(mark_of(end_label.as_str()).as_str());
                Ok(())
            },
            _ => Ok(()),
        }
    }

    /// Lowers the statements of a list, in order.
    pub fn lower_block(&mut self, items: &Vec<Box<Expr>>, floats: &FloatTable) -> (r: Result<
        (),
        CompileError,
    >)
        ensures
            lowering_matches(
                r,
                final(self)@,
                lower_block(expr_list_view(items@), items@.len(), old(self)@, floats@),
            ),
        decreases items, 1nat,
    {
        let ghost models = expr_list_view(items@);
        let ghost start = self@;
        proof {
            lemma_expr_list_view(items@);
        }
        let mut i: usize = 0;
        while i < items.len()
            invariant
                i <= items.len(),
                models == expr_list_view(items@),
                start == old(self)@,
                models.len() == items.len(),
                forall|k: int| 0 <= k < items.len() ==> #[trigger] models[k] == (*items@[k])@,
                lower_block(models, i as nat, start, floats@) == Ok::<GenState, CompileErrorView>(
                    self@,
                ),
            decreases items.len() - i,
        {
            let ghost prev = self@;
            assert(lower_block(models, (i + 1) as nat, start, floats@) == lower(
                models[i as int],
                prev,
                floats@,
            ));
            match self.lower_statement(&items[i], floats) {
                Ok(_) => {},
                Err(e) => {
                    proof {
                        lemma_lower_block_stops(
                            models,
                            i as nat + 1,
                            items.len() as nat,
                            start,
                            floats@,
                        );
                    }
                    return Err(e);
                },
            }
            i += 1;
        }
        Ok(())
    }

    /// Gives every string literal of a node its label.
    pub fn collect_string_literals(&mut self, expr: &Expr) -> (r: Result<(), CompileError>)
        ensures
            lowering_matches(r, final(self)@, collect(expr@, old(self)@)),
        decreases expr, 0nat,
    {
        match expr {
            Expr::StringLiteral(s) => match self.label_for(s) {
                Ok(_) => Ok(()),
                Err(e) => Err(e),
            },
            Expr::Print(inner) => self.collect_string_literals(inner),
            Expr::Exit(inner) => self.collect_string_literals(inner),
            Expr::Const { value, .. } => self.collect_string_literals(value),
            Expr::Let { value, .. } => self.collect_string_literals(value),
            Expr::Assign { value, .. } => self.collect_string_literals(value),
            Expr::BinaryOp { left, right, .. } => {
                self.collect_string_literals(left)?;
                self.collect_string_literals(right)
            },
            Expr::Array(items) => self.collect_literals_in(items),
            Expr::If { condition, then_branch, else_branch } => {
                self.collect_string_literals(condition)?;
                self.collect_literals_in(then_branch)?;
                match else_branch {
                    Some(stmts) => self.collect_literals_in(stmts),
                    None => Ok(()),
                }
            },
            _ => Ok(()),
        }
    }

    /// Gives every string literal in a list of nodes its label.
    pub fn collect_literals_in(&mut self, items: &Vec<Box<Expr>>) -> (r: Result<(), CompileError>)
        ensures
            lowering_matches(
                r,
                final(self)@,
                collect_list(expr_list_view(items@), items@.len(), old(self)@),
            ),
        decreases items, 1nat,
    {
        let ghost models = expr_list_view(items@);
        let ghost start = self@;
        proof {
            lemma_expr_list_view(items@);
        }
        let mut i: usize = 0;
        while i < items.len()
            invariant
                i <= items.len(),
                models == expr_list_view(items@),
                start == old(self)@,
                models.len() == items.len(),
                forall|k: int| 0 <= k < items.len() ==> #[trigger] models[k] == (*items@[k])@,
                collect_list(models, i as nat, start) == Ok::<GenState, CompileErrorView>(self@),
            decreases items.len() - i,
        {
            let ghost prev = self@;
            assert(collect_list(models, (i + 1) as nat, start) == collect(models[i as int], prev));
            match self.collect_string_literals(&items[i]) {
                Ok(_) => {},
                Err(e) => {
                    proof {
                        lemma_collect_list_stops(models, i as nat + 1, items.len() as nat, start);
                    }
                    return Err(e);
                },
            }
            i += 1;
        }
        Ok(())
    }
}

/// Generates the assembly document of a program.
///
/// The outcome is `Ok` exactly when no statement runs into an error, and
/// then it is the whole document; otherwise it is the first error met, in
/// the order in which the statements are collected and lowered.
pub fn generate_nasm(exprs: &Vec<Expr>, floats: &FloatTable) -> (r: Result<String, CompileError>)
    ensures
        generation_matches(r, generate(exprs_view(exprs@), floats@)),
{
    let ghost models = exprs_view(exprs@);
    let mut gen = Generator::new();
    let mut i: usize = 0;
    while i < exprs.len()
        invariant
            i <= exprs.len(),
            models == exprs_view(exprs@),
            collect_list(models, i as nat, initial_state()) == Ok::<GenState, CompileErrorView>(
                gen@,
            ),
        decreases exprs.len() - i,
    {
        let ghost prev = gen@;
        assert(collect_list(models, (i + 1) as nat, initial_state()) == collect(
            models[i as int],
            prev,
        ));
        match gen.collect_string_literals(&exprs[i]) {
            Ok(_) => {},
            Err(e) => {
                proof {
                    lemma_collect_list_stops(
                        models,
                        i as nat + 1,
                        exprs.len() as nat,
                        initial_state(),
                    );
                }
                return Err(e);
            },
        }
        i += 1;
    }
    let ghost collected = gen@;
    let mut exits = false;
    let mut j: usize = 0;
    while j < exprs.len()
        invariant
            j <= exprs.len(),
            models == exprs_view(exprs@),
            collect_list(models, models.len(), initial_state()) == Ok::<
                GenState,
                CompileErrorView,
            >(collected),
            lower_block(models, j as nat, collected, floats@) == Ok::<GenState, CompileErrorView>(
                gen@,
            ),
            exits == any_exit(models, j as nat),
        decreases exprs.len() - j,
    {
        let ghost prev = gen@;
        assert(lower_block(models, (j + 1) as nat, collected, floats@) == lower(
            models[j as int],
            prev,
            floats@,
        ));
        match gen.lower_statement(&exprs[j], floats) {
            Ok(_) => {},
            Err(e) => {
                proof {
                    lemma_lower_block_stops(
                        models,
                        j as nat + 1,
                        exprs.len() as nat,
                        collected,
                        floats@,
                    );
                }
                return Err(e);
            },
        }
        if has_exit(&exprs[j]) {
            exits = true;
        }
        j += 1;
    }
    if !exits {
        gen.text.append(DEFAULT_EXIT);
    }
    let mut out = gen.data;
    out.append("\n");
    out.append(gen.bss.as_str());
    out.append("\n");
    out.append(gen.text.as_str());
    Ok(out)
}

} // verus!
