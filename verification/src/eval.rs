//! The constant evaluator: folds an expression to a resolved value.

use vstd::prelude::*;
use vstd::string::*;
use crate::ast::{lemma_expr_list_view, BinOp, Expr, ExprView};
use crate::error::{CompileError, CompileErrorView};
use crate::float::{
    float_truth,
    float_value,
    is_zero_bits,
    zero_bits,
    FloatFactView,
    FloatQuery,
    FloatQueryView,
    FloatTable,
    FloatValue,
    FloatView,
};
use crate::text::{decimal, decimal_text, same_text};
use crate::value::{value_list_view, Bindings, ConstValue, SymbolTable, ValueView};

verus! {

/// The outcome of folding: a value, or the reason why there is none.
pub type Folded = Result<ValueView, CompileErrorView>;

/// The value that a name refers to: constants are consulted first, then
/// variables.
pub open spec fn resolve(name: Seq<char>, constants: Bindings, variables: Bindings) -> Option<
    ValueView,
> {
    if constants.contains_key(name) {
        Some(constants[name])
    } else if variables.contains_key(name) {
        Some(variables[name])
    } else {
        None
    }
}

pub open spec fn bool_text(b: bool) -> Seq<char> {
    if b {
        "true"@
    } else {
        "false"@
    }
}

/// The text that a value turns into when it is added to a string. Strings
/// and arrays have none: a string is joined as it is, an array is refused.
pub open spec fn coerced_text(v: ValueView) -> Option<Seq<char>> {
    match v {
        ValueView::Number(n) => Some(decimal(n as int)),
        ValueView::Float(f) => Some(f.text),
        ValueView::Boolean(b) => Some(bool_text(b)),
        ValueView::Null => Some("null"@),
        _ => None,
    }
}

/// A comparison of two integers.
pub open spec fn integer_compare(op: BinOp, a: int, b: int) -> bool {
    match op {
        BinOp::Equal => a == b,
        BinOp::NotEqual => a != b,
        BinOp::Lt => a < b,
        BinOp::Gt => a > b,
        BinOp::Lte => a <= b,
        _ => a >= b,
    }
}

/// An operator applied to two integers. Sums, differences and products
/// wrap around at 32 bits; quotients truncate toward zero.
pub open spec fn integer_binary(op: BinOp, a: i32, b: i32) -> Folded {
    match op {
        BinOp::Add => Ok(ValueView::Number(a.wrapping_add(b))),
        BinOp::Sub => Ok(ValueView::Number(a.wrapping_sub(b))),
        BinOp::Mul => Ok(ValueView::Number(a.wrapping_mul(b))),
        BinOp::Div => if b == 0 {
            Err(CompileErrorView::DivisionByZero)
        } else {
            match a.checked_div(b) {
                Some(q) => Ok(ValueView::Number(q)),
                None => Err(CompileErrorView::IntegerOverflow),
            }
        },
        _ => Ok(ValueView::Boolean(integer_compare(op, a as int, b as int))),
    }
}

/// Whether a number, integer or float, is zero.
pub open spec fn is_zero(v: ValueView) -> bool {
    match v {
        ValueView::Number(n) => n == 0,
        ValueView::Float(f) => is_zero_bits(f.bits),
        _ => false,
    }
}

/// A number as a float: a float is itself, an integer is promoted.
pub open spec fn promoted(v: ValueView, floats: Seq<FloatFactView>) -> Result<
    FloatView,
    CompileErrorView,
> {
    match v {
        ValueView::Float(f) => Ok(f),
        ValueView::Number(n) => match float_value(floats, FloatQueryView::FromInt(n)) {
            Some(f) => Ok(f),
            None => Err(CompileErrorView::FloatPending(FloatQueryView::FromInt(n))),
        },
        _ => Err(CompileErrorView::TypeMismatch),
    }
}

/// An operator applied to two floats.
pub open spec fn float_operation(op: BinOp, a: FloatView, b: FloatView, floats: Seq<FloatFactView>)
    -> Folded {
    if op.is_arithmetic() {
        let query = FloatQueryView::Arith(op, a.bits, b.bits);
        match float_value(floats, query) {
            Some(v) => Ok(ValueView::Float(v)),
            None => Err(CompileErrorView::FloatPending(query)),
        }
    } else {
        let query = FloatQueryView::Compare(op, a.bits, b.bits);
        match float_truth(floats, query) {
            Some(t) => Ok(ValueView::Boolean(t)),
            None => Err(CompileErrorView::FloatPending(query)),
        }
    }
}

/// An operator applied to two numbers of which at least one is a float.
/// A zero divisor is refused before anything is asked of the table.
pub open spec fn float_binary(op: BinOp, left: ValueView, right: ValueView, floats: Seq<FloatFactView>)
    -> Folded {
    if op == BinOp::Div && is_zero(right) {
        Err(CompileErrorView::DivisionByZero)
    } else {
        match promoted(left, floats) {
            Err(e) => Err(e),
            Ok(a) => match promoted(right, floats) {
                Err(e) => Err(e),
                Ok(b) => float_operation(op, a, b, floats),
            },
        }
    }
}

/// An operator applied to two strings.
pub open spec fn text_binary(op: BinOp, a: Seq<char>, b: Seq<char>) -> Folded {
    match op {
        BinOp::Add => Ok(ValueView::Text(a + b)),
        BinOp::Equal => Ok(ValueView::Boolean(a == b)),
        BinOp::NotEqual => Ok(ValueView::Boolean(a != b)),
        _ => Err(CompileErrorView::TypeMismatch),
    }
}

/// An operator applied to two truth values.
pub open spec fn bool_binary(op: BinOp, a: bool, b: bool) -> Folded {
    match op {
        BinOp::Equal => Ok(ValueView::Boolean(a == b)),
        BinOp::NotEqual => Ok(ValueView::Boolean(a != b)),
        _ => Err(CompileErrorView::TypeMismatch),
    }
}

/// A string joined with the text of a value of another kind, the string
/// on the left.
pub open spec fn text_then(op: BinOp, a: Seq<char>, other: ValueView) -> Folded {
    match coerced_text(other) {
        Some(t) if op == BinOp::Add => Ok(ValueView::Text(a + t)),
        _ => Err(CompileErrorView::TypeMismatch),
    }
}

/// A string joined with the text of a value of another kind, the string
/// on the right.
pub open spec fn then_text(op: BinOp, other: ValueView, b: Seq<char>) -> Folded {
    match coerced_text(other) {
        Some(t) if op == BinOp::Add => Ok(ValueView::Text(t + b)),
        _ => Err(CompileErrorView::TypeMismatch),
    }
}

/// An operator applied to two resolved values.
pub open spec fn apply_binary(op: BinOp, left: ValueView, right: ValueView, floats: Seq<FloatFactView>)
    -> Folded {
    match (left, right) {
        (ValueView::Number(a), ValueView::Number(b)) => integer_binary(op, a, b),
        (ValueView::Float(_), ValueView::Float(_)) => float_binary(op, left, right, floats),
        (ValueView::Number(_), ValueView::Float(_)) => float_binary(op, left, right, floats),
        (ValueView::Float(_), ValueView::Number(_)) => float_binary(op, left, right, floats),
        (ValueView::Text(a), ValueView::Text(b)) => text_binary(op, a, b),
        (ValueView::Text(a), _) => text_then(op, a, right),
        (_, ValueView::Text(b)) => then_text(op, left, b),
        (ValueView::Boolean(a), ValueView::Boolean(b)) => bool_binary(op, a, b),
        _ => Err(CompileErrorView::TypeMismatch),
    }
}

/// The resolved value of an expression. Operands are folded left to right
/// and the first failure is the outcome.
pub open spec fn evaluate(
    e: ExprView,
    constants: Bindings,
    variables: Bindings,
    floats: Seq<FloatFactView>,
) -> Folded
    decreases e, 0nat,
{
    match e {
        ExprView::Number(n) => Ok(ValueView::Number(n)),
        ExprView::Float(text) => match float_value(floats, FloatQueryView::Literal(text)) {
            Some(v) => Ok(ValueView::Float(v)),
            None => Err(CompileErrorView::FloatPending(FloatQueryView::Literal(text))),
        },
        ExprView::StringLiteral(s) => Ok(ValueView::Text(s)),
        ExprView::Boolean(b) => Ok(ValueView::Boolean(b)),
        ExprView::Null => Ok(ValueView::Null),
        ExprView::Array(items) => match evaluate_all(
            items,
            items.len(),
            constants,
            variables,
            floats,
        ) {
            Ok(values) => Ok(ValueView::Array(values)),
            Err(e) => Err(e),
        },
        ExprView::Variable(name) => match resolve(name, constants, variables) {
            Some(v) => Ok(v),
            None => Err(CompileErrorView::UndefinedName),
        },
        ExprView::BinaryOp { op, left, right } => match evaluate(
            *left,
            constants,
            variables,
            floats,
        ) {
            Err(e) => Err(e),
            Ok(l) => match evaluate(*right, constants, variables, floats) {
                Err(e) => Err(e),
                Ok(r) => apply_binary(op, l, r, floats),
            },
        },
        _ => Err(CompileErrorView::NotConstant),
    }
}

/// The resolved values of the first `n` expressions of a list.
pub open spec fn evaluate_all(
    items: Seq<ExprView>,
    n: nat,
    constants: Bindings,
    variables: Bindings,
    floats: Seq<FloatFactView>,
) -> Result<Seq<ValueView>, CompileErrorView>
    decreases items, n,
{
    if n == 0 || n > items.len() {
        Ok(Seq::empty())
    } else {
        match evaluate_all(items, (n - 1) as nat, constants, variables, floats) {
            Err(e) => Err(e),
            Ok(values) => match evaluate(items[n - 1], constants, variables, floats) {
                Err(e) => Err(e),
                Ok(v) => Ok(values.push(v)),
            },
        }
    }
}

/// Once a prefix of a list fails to fold, every longer prefix fails the
/// same way.
pub proof fn lemma_evaluate_all_stops(
    items: Seq<ExprView>,
    k: nat,
    n: nat,
    constants: Bindings,
    variables: Bindings,
    floats: Seq<FloatFactView>,
)
    requires
        k <= n <= items.len(),
        evaluate_all(items, k, constants, variables, floats) is Err,
    ensures
        evaluate_all(items, n, constants, variables, floats) == evaluate_all(
            items,
            k,
            constants,
            variables,
            floats,
        ),
    decreases n,
{
    if k < n {
        lemma_evaluate_all_stops(items, k, (n - 1) as nat, constants, variables, floats);
    }
}

/// The model of what the evaluator returns.
pub open spec fn folded_view(r: Result<ConstValue, CompileError>) -> Folded {
    match r {
        Ok(v) => Ok(v@),
        Err(e) => Err(e@),
    }
}

fn compare_integers(op: BinOp, a: i32, b: i32) -> (r: bool)
    ensures
        r == integer_compare(op, a as int, b as int),
{
    match op {
        BinOp::Equal => a == b,
        BinOp::NotEqual => a != b,
        BinOp::Lt => a < b,
        BinOp::Gt => a > b,
        BinOp::Lte => a <= b,
        _ => a >= b,
    }
}

fn fold_integers(op: BinOp, a: i32, b: i32) -> (r: Result<ConstValue, CompileError>)
    ensures
        folded_view(r) == integer_binary(op, a, b),
{
    match op {
        BinOp::Add => Ok(ConstValue::Number(a.wrapping_add(b))),
        BinOp::Sub => Ok(ConstValue::Number(a.wrapping_sub(b))),
        BinOp::Mul => Ok(ConstValue::Number(a.wrapping_mul(b))),
        BinOp::Div => {
            if b == 0 {
                Err(CompileError::DivisionByZero)
            } else {
                match a.checked_div(b) {
                    Some(q) => Ok(ConstValue::Number(q)),
                    None => Err(CompileError::IntegerOverflow),
                }
            }
        },
        _ => Ok(ConstValue::Boolean(compare_integers(op, a, b))),
    }
}

fn value_is_zero(v: &ConstValue) -> (r: bool)
    ensures
        r == is_zero(v@),
{
    match v {
        ConstValue::Number(n) => *n == 0,
        ConstValue::Float(f) => zero_bits(f.bits),
        _ => false,
    }
}

fn promote(v: &ConstValue, floats: &FloatTable) -> (r: Result<FloatValue, CompileError>)
    ensures
        match promoted(v@, floats@) {
            Ok(f) => r matches Ok(found) && found@ == f,
            Err(e) => r matches Err(found) && found@ == e,
        },
{
    match v {
        ConstValue::Float(f) => Ok(f.clone()),
        ConstValue::Number(n) => match floats.value(FloatQuery::FromInt(*n)) {
            Ok(f) => Ok(f),
            Err(query) => Err(CompileError::FloatPending(query)),
        },
        _ => Err(CompileError::TypeMismatch),
    }
}

fn is_arithmetic(op: BinOp) -> (r: bool)
    ensures
        r == op.is_arithmetic(),
{
    op == BinOp::Add || op == BinOp::Sub || op == BinOp::Mul || op == BinOp::Div
}

fn fold_floats(op: BinOp, left: &ConstValue, right: &ConstValue, floats: &FloatTable) -> (r: Result<
    ConstValue,
    CompileError,
>)
    ensures
        folded_view(r) == float_binary(op, left@, right@, floats@),
{
    if op == BinOp::Div && value_is_zero(right) {
        return Err(CompileError::DivisionByZero);
    }
    let a = promote(left, floats)?;
    let b = promote(right, floats)?;
    if is_arithmetic(op) {
        match floats.value(FloatQuery::Arith(op, a.bits, b.bits)) {
            Ok(v) => Ok(ConstValue::Float(v)),
            Err(query) => Err(CompileError::FloatPending(query)),
        }
    } else {
        match floats.truth(FloatQuery::Compare(op, a.bits, b.bits)) {
            Ok(t) => Ok(ConstValue::Boolean(t)),
            Err(query) => Err(CompileError::FloatPending(query)),
        }
    }
}

/// The text of a truth value.
pub fn bool_word(b: bool) -> (r: &'static str)
    ensures
        r@ == bool_text(b),
{
    if b {
        "true"
    } else {
        "false"
    }
}

fn coerce_text(v: &ConstValue) -> (r: Option<String>)
    ensures
        match coerced_text(v@) {
            Some(t) => r matches Some(s) && s@ == t,
            None => r is None,
        },
{
    match v {
        ConstValue::Number(n) => Some(decimal_text(*n as i128)),
        ConstValue::Float(f) => Some(f.text.clone()),
        ConstValue::Boolean(b) => Some(String::from_str(bool_word(*b))),
        ConstValue::Null => Some(String::from_str("null")),
        _ => None,
    }
}

fn join(a: &String, b: &String) -> (r: String)
    ensures
        r@ == a@ + b@,
{
    let mut r = a.clone();
    r.append(b.as_str());
    r
}

fn fold_texts(op: BinOp, a: &String, b: &String) -> (r: Result<ConstValue, CompileError>)
    ensures
        folded_view(r) == text_binary(op, a@, b@),
{
    match op {
        BinOp::Add => Ok(ConstValue::String(join(a, b))),
        BinOp::Equal => Ok(ConstValue::Boolean(same_text(a.as_str(), b.as_str()))),
        BinOp::NotEqual => Ok(ConstValue::Boolean(!same_text(a.as_str(), b.as_str()))),
        _ => Err(CompileError::TypeMismatch),
    }
}

fn fold_bools(op: BinOp, a: bool, b: bool) -> (r: Result<ConstValue, CompileError>)
    ensures
        folded_view(r) == bool_binary(op, a, b),
{
    match op {
        BinOp::Equal => Ok(ConstValue::Boolean(a == b)),
        BinOp::NotEqual => Ok(ConstValue::Boolean(a != b)),
        _ => Err(CompileError::TypeMismatch),
    }
}

/// Applies an operator to two resolved values.
pub fn apply_operator(op: BinOp, left: &ConstValue, right: &ConstValue, floats: &FloatTable) -> (r:
    Result<ConstValue, CompileError>)
    ensures
        folded_view(r) == apply_binary(op, left@, right@, floats@),
{
    match left {
        ConstValue::Number(a) => match right {
            ConstValue::Number(b) => fold_integers(op, *a, *b),
            ConstValue::Float(_) => fold_floats(op, left, right, floats),
            ConstValue::String(b) => match coerce_text(left) {
                Some(t) => if op == BinOp::Add {
                    Ok(ConstValue::String(join(&t, b)))
                } else {
                    Err(CompileError::TypeMismatch)
                },
                None => Err(CompileError::TypeMismatch),
            },
            _ => Err(CompileError::TypeMismatch),
        },
        ConstValue::Float(_) => match right {
            ConstValue::Number(_) => fold_floats(op, left, right, floats),
            ConstValue::Float(_) => fold_floats(op, left, right, floats),
            ConstValue::String(b) => match coerce_text(left) {
                Some(t) => if op == BinOp::Add {
                    Ok(ConstValue::String(join(&t, b)))
                } else {
                    Err(CompileError::TypeMismatch)
                },
                None => Err(CompileError::TypeMismatch),
            },
            _ => Err(CompileError::TypeMismatch),
        },
        ConstValue::String(a) => match right {
            ConstValue::String(b) => fold_texts(op, a, b),
            _ => match coerce_text(right) {
                Some(t) => if op == BinOp::Add {
                    Ok(ConstValue::String(join(a, &t)))
                } else {
                    Err(CompileError::TypeMismatch)
                },
                None => Err(CompileError::TypeMismatch),
            },
        },
        ConstValue::Boolean(a) => match right {
            ConstValue::Boolean(b) => fold_bools(op, *a, *b),
            ConstValue::String(b) => match coerce_text(left) {
                Some(t) => if op == BinOp::Add {
                    Ok(ConstValue::String(join(&t, b)))
                } else {
                    Err(CompileError::TypeMismatch)
                },
                None => Err(CompileError::TypeMismatch),
            },
            _ => Err(CompileError::TypeMismatch),
        },
        _ => match right {
            ConstValue::String(b) => match coerce_text(left) {
                Some(t) => if op == BinOp::Add {
                    Ok(ConstValue::String(join(&t, b)))
                } else {
                    Err(CompileError::TypeMismatch)
                },
                None => Err(CompileError::TypeMismatch),
            },
            _ => Err(CompileError::TypeMismatch),
        },
    }
}

/// The value that a name refers to, constants first.
pub fn lookup<'a>(name: &str, constants: &'a SymbolTable, variables: &'a SymbolTable) -> (r: Option<
    &'a ConstValue,
>)
    ensures
        match resolve(name@, constants@, variables@) {
            Some(v) => r matches Some(found) && found@ == v,
            None => r is None,
        },
{
    match constants.get(name) {
        Some(v) => Some(v),
        None => variables.get(name),
    }
}

/// Folds an expression to its resolved value.
#[verifier::loop_isolation(false)]
pub fn evaluate_constant_expr(
    expr: &Expr,
    constants: &SymbolTable,
    variables: &SymbolTable,
    floats: &FloatTable,
) -> (r: Result<ConstValue, CompileError>)
    ensures
        folded_view(r) == evaluate(expr@, constants@, variables@, floats@),
    decreases expr,
{
    match expr {
        Expr::Number(n) => Ok(ConstValue::Number(*n)),
        Expr::Float(text) => match floats.value(FloatQuery::Literal(text.clone())) {
            Ok(v) => Ok(ConstValue::Float(v)),
            Err(query) => Err(CompileError::FloatPending(query)),
        },
        Expr::StringLiteral(s) => Ok(ConstValue::String(s.clone())),
        Expr::Boolean(b) => Ok(ConstValue::Boolean(*b)),
        Expr::Null => Ok(ConstValue::Null),
        Expr::Array(items) => {
            let mut values: Vec<ConstValue> = Vec::new();
            let mut i: usize = 0;
            proof {
                lemma_expr_list_view(items@);
                assert(value_list_view(values@) =~= Seq::<ValueView>::empty());
            }
            while i < items.len()
                invariant
                    i <= items.len(),
                    evaluate_all(
                        expr_items(expr@),
                        i as nat,
                        constants@,
                        variables@,
                        floats@,
                    ) == Ok::<Seq<ValueView>, CompileErrorView>(value_list_view(values@)),
                decreases items.len() - i,
            {
                match evaluate_constant_expr(&items[i], constants, variables, floats) {
                    Ok(v) => {
                        let ghost before = values@;
                        values.push(v);
                        proof {
                            assert(value_list_view(values@) =~= value_list_view(before).push(v@));
                        }
                    },
                    Err(e) => {
                        proof {
                            lemma_evaluate_all_stops(
                                expr_items(expr@),
                                i as nat + 1,
                                items.len() as nat,
                                constants@,
                                variables@,
                                floats@,
                            );
                        }
                        return Err(e);
                    },
                }
                i += 1;
            }
            Ok(ConstValue::Array(values))
        },
        Expr::Variable(name) => match lookup(name.as_str(), constants, variables) {
            Some(v) => Ok(v.clone()),
            None => Err(CompileError::UndefinedName),
        },
        Expr::BinaryOp { op, left, right } => {
            let l = evaluate_constant_expr(left, constants, variables, floats)?;
            let r = evaluate_constant_expr(right, constants, variables, floats)?;
            apply_operator(*op, &l, &r, floats)
        },
        _ => Err(CompileError::NotConstant),
    }
}

/// The elements of an array node; empty for any other node.
pub open spec fn expr_items(e: ExprView) -> Seq<ExprView> {
    match e {
        ExprView::Array(items) => items,
        _ => Seq::empty(),
    }
}

} // verus!
