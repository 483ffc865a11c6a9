use spp::ast::{BinOp, Expr};
use spp::error::CompileError;
use spp::eval::{apply_operator, evaluate_constant_expr, lookup};
use spp::float::{FloatAnswer, FloatQuery, FloatTable, FloatValue};
use spp::lexer::lex;
use spp::parser::Parser;
use spp::value::{ConstValue, SymbolTable};

fn answer(query: &FloatQuery) -> FloatAnswer {
    fn value(f: f64) -> FloatAnswer {
        FloatAnswer::Value(FloatValue {
            bits: f.to_bits(),
            text: f.to_string(),
            scaled: (f * 100.0) as i64,
        })
    }
    match query {
        FloatQuery::Literal(text) => value(text.parse::<f64>().unwrap()),
        FloatQuery::FromInt(n) => value(*n as f64),
        FloatQuery::Arith(op, a, b) => {
            let (x, y) = (f64::from_bits(*a), f64::from_bits(*b));
            value(match op {
                BinOp::Add => x + y,
                BinOp::Sub => x - y,
                BinOp::Mul => x * y,
                _ => x / y,
            })
        }
        FloatQuery::Compare(op, a, b) => {
            let (x, y) = (f64::from_bits(*a), f64::from_bits(*b));
            FloatAnswer::Truth(match op {
                BinOp::Equal => x == y,
                BinOp::NotEqual => x != y,
                BinOp::Lt => x < y,
                BinOp::Gt => x > y,
                BinOp::Lte => x <= y,
                _ => x >= y,
            })
        }
    }
}

fn float(f: f64) -> ConstValue {
    match answer(&FloatQuery::Arith(BinOp::Add, f.to_bits(), 0f64.to_bits())) {
        FloatAnswer::Value(v) => ConstValue::Float(v),
        FloatAnswer::Truth(_) => unreachable!(),
    }
}

fn parse(source: &str) -> Expr {
    let mut p = Parser::new(lex(source).unwrap());
    let e = p.parse_expression().unwrap();
    assert!(p.is_finished());
    e
}

fn eval_in(
    source: &str,
    constants: &SymbolTable,
    variables: &SymbolTable,
) -> Result<ConstValue, CompileError> {
    let expr = parse(source);
    let mut floats = FloatTable::new();
    loop {
        match evaluate_constant_expr(&expr, constants, variables, &floats) {
            Err(CompileError::FloatPending(query)) => {
                let a = answer(&query);
                floats.record(query, a);
            }
            other => return other,
        }
    }
}

fn eval(source: &str) -> Result<ConstValue, CompileError> {
    eval_in(source, &SymbolTable::new(), &SymbolTable::new())
}

fn text(s: &str) -> ConstValue {
    ConstValue::String(s.to_string())
}

#[test]
fn literals_evaluate_to_themselves() {
    assert_eq!(eval("42"), Ok(ConstValue::Number(42)));
    assert_eq!(eval("'hi'"), Ok(text("hi")));
    assert_eq!(eval("true"), Ok(ConstValue::Boolean(true)));
    assert_eq!(eval("false"), Ok(ConstValue::Boolean(false)));
    assert_eq!(eval("null"), Ok(ConstValue::Null));
    assert_eq!(eval("2.5"), Ok(float(2.5)));
}

#[test]
fn arrays_evaluate_element_by_element() {
    assert_eq!(
        eval("[1, 'a', true, null, [2 + 3]]"),
        Ok(ConstValue::Array(vec![
            ConstValue::Number(1),
            text("a"),
            ConstValue::Boolean(true),
            ConstValue::Null,
            ConstValue::Array(vec![ConstValue::Number(5)]),
        ]))
    );
    assert_eq!(eval("[]"), Ok(ConstValue::Array(vec![])));
}

#[test]
fn first_failing_element_decides() {
    assert_eq!(eval("[1, x, 1 / 0]"), Err(CompileError::UndefinedName));
    assert_eq!(eval("[1 / 0, x]"), Err(CompileError::DivisionByZero));
}

#[test]
fn precedence_decides_the_value() {
    assert_eq!(eval("1 + 2 * 3"), Ok(ConstValue::Number(7)));
    assert_eq!(eval("(1 + 2) * 3"), Ok(ConstValue::Number(9)));
}

#[test]
fn integer_arithmetic() {
    assert_eq!(eval("7 + 5"), Ok(ConstValue::Number(12)));
    assert_eq!(eval("7 - 5"), Ok(ConstValue::Number(2)));
    assert_eq!(eval("5 - 7"), Ok(ConstValue::Number(-2)));
    assert_eq!(eval("7 * 5"), Ok(ConstValue::Number(35)));
    assert_eq!(eval("7 / 2"), Ok(ConstValue::Number(3)));
    assert_eq!(eval("(0 - 7) / 2"), Ok(ConstValue::Number(-3)));
    assert_eq!(eval("7 / (0 - 2)"), Ok(ConstValue::Number(-3)));
    assert_eq!(eval("(0 - 7) / (0 - 2)"), Ok(ConstValue::Number(3)));
}

#[test]
fn integer_arithmetic_wraps_around() {
    assert_eq!(eval("2147483647 + 1"), Ok(ConstValue::Number(i32::MIN)));
    assert_eq!(eval("0 - 2147483647 - 2"), Ok(ConstValue::Number(i32::MAX)));
    assert_eq!(eval("65536 * 65536"), Ok(ConstValue::Number(0)));
    assert_eq!(eval("2147483647 * 2"), Ok(ConstValue::Number(-2)));
}

#[test]
fn integer_division_by_zero() {
    assert_eq!(eval("10 / 0"), Err(CompileError::DivisionByZero));
    assert_eq!(eval("0 / 0"), Err(CompileError::DivisionByZero));
    assert_eq!(eval("1 + 10 / (5 - 5)"), Err(CompileError::DivisionByZero));
}

#[test]
fn the_one_quotient_that_does_not_fit() {
    assert_eq!(
        eval("(0 - 2147483647 - 1) / (0 - 1)"),
        Err(CompileError::IntegerOverflow)
    );
}

#[test]
fn integer_comparisons() {
    assert_eq!(eval("1 == 1"), Ok(ConstValue::Boolean(true)));
    assert_eq!(eval("1 == 2"), Ok(ConstValue::Boolean(false)));
    assert_eq!(eval("1 != 2"), Ok(ConstValue::Boolean(true)));
    assert_eq!(eval("1 != 1"), Ok(ConstValue::Boolean(false)));
    assert_eq!(eval("1 < 2"), Ok(ConstValue::Boolean(true)));
    assert_eq!(eval("2 < 2"), Ok(ConstValue::Boolean(false)));
    assert_eq!(eval("3 > 2"), Ok(ConstValue::Boolean(true)));
    assert_eq!(eval("2 > 2"), Ok(ConstValue::Boolean(false)));
    assert_eq!(eval("2 <= 2"), Ok(ConstValue::Boolean(true)));
    assert_eq!(eval("3 <= 2"), Ok(ConstValue::Boolean(false)));
    assert_eq!(eval("2 >= 2"), Ok(ConstValue::Boolean(true)));
    assert_eq!(eval("1 >= 2"), Ok(ConstValue::Boolean(false)));
}

#[test]
fn float_arithmetic() {
    assert_eq!(eval("1.5 + 2.25"), Ok(float(3.75)));
    assert_eq!(eval("1.5 - 2.25"), Ok(float(-0.75)));
    assert_eq!(eval("1.5 * 2.0"), Ok(float(3.0)));
    assert_eq!(eval("1.5 / 2.0"), Ok(float(0.75)));
    assert_eq!(eval("0.1 + 0.2"), Ok(float(0.1 + 0.2)));
}

#[test]
fn integers_are_promoted_next_to_floats() {
    assert_eq!(eval("1 + 2.5"), Ok(float(3.5)));
    assert_eq!(eval("2.5 + 1"), Ok(float(3.5)));
    assert_eq!(eval("1 - 2.5"), Ok(float(-1.5)));
    assert_eq!(eval("2.5 * 2"), Ok(float(5.0)));
    assert_eq!(eval("5 / 2.0"), Ok(float(2.5)));
    assert_eq!(eval("2.5 / 5"), Ok(float(0.5)));
}

#[test]
fn float_division_by_zero() {
    assert_eq!(eval("1.5 / 0.0"), Err(CompileError::DivisionByZero));
    assert_eq!(eval("1.5 / 0"), Err(CompileError::DivisionByZero));
    assert_eq!(eval("1 / 0.0"), Err(CompileError::DivisionByZero));
    assert_eq!(eval("1.5 / (0.0 * (0 - 1))"), Err(CompileError::DivisionByZero));
    assert_eq!(eval("0.0 / 1.5"), Ok(float(0.0)));
}

#[test]
fn float_comparisons() {
    assert_eq!(eval("1.5 < 2.5"), Ok(ConstValue::Boolean(true)));
    assert_eq!(eval("1.5 > 2.5"), Ok(ConstValue::Boolean(false)));
    assert_eq!(eval("1.5 == 1.5"), Ok(ConstValue::Boolean(true)));
    assert_eq!(eval("1.5 != 1.5"), Ok(ConstValue::Boolean(false)));
    assert_eq!(eval("1.5 <= 1.5"), Ok(ConstValue::Boolean(true)));
    assert_eq!(eval("1.5 >= 1.6"), Ok(ConstValue::Boolean(false)));
    assert_eq!(eval("1 == 1.0"), Ok(ConstValue::Boolean(true)));
    assert_eq!(eval("1.0 == 1"), Ok(ConstValue::Boolean(true)));
    assert_eq!(eval("2 < 1.5"), Ok(ConstValue::Boolean(false)));
    assert_eq!(eval("1.5 < 2"), Ok(ConstValue::Boolean(true)));
}

#[test]
fn a_missing_float_fact_is_reported_with_its_query() {
    let none = SymbolTable::new();
    let mut floats = FloatTable::new();
    let expr = parse("1.5 + 2");
    assert_eq!(
        evaluate_constant_expr(&expr, &none, &none, &floats),
        Err(CompileError::FloatPending(FloatQuery::Literal("1.5".to_string())))
    );
    let q = FloatQuery::Literal("1.5".to_string());
    let a = answer(&q);
    floats.record(q, a);
    assert_eq!(
        evaluate_constant_expr(&expr, &none, &none, &floats),
        Err(CompileError::FloatPending(FloatQuery::FromInt(2)))
    );
    let q = FloatQuery::FromInt(2);
    let a = answer(&q);
    floats.record(q, a);
    assert_eq!(
        evaluate_constant_expr(&expr, &none, &none, &floats),
        Err(CompileError::FloatPending(FloatQuery::Arith(
            BinOp::Add,
            1.5f64.to_bits(),
            2f64.to_bits()
        )))
    );
    let q = FloatQuery::Arith(BinOp::Add, 1.5f64.to_bits(), 2f64.to_bits());
    let a = answer(&q);
    floats.record(q, a);
    assert_eq!(evaluate_constant_expr(&expr, &none, &none, &floats), Ok(float(3.5)));
    assert_eq!(floats.len(), 3);
}

#[test]
fn a_truth_value_does_not_answer_an_arithmetic_query() {
    let none = SymbolTable::new();
    let mut floats = FloatTable::new();
    let q = FloatQuery::Literal("1.5".to_string());
    floats.record(q, FloatAnswer::Truth(true));
    assert_eq!(
        evaluate_constant_expr(&parse("1.5"), &none, &none, &floats),
        Err(CompileError::FloatPending(FloatQuery::Literal("1.5".to_string())))
    );
}

#[test]
fn the_latest_fact_wins() {
    let none = SymbolTable::new();
    let mut floats = FloatTable::new();
    floats.record(
        FloatQuery::Literal("1.5".to_string()),
        FloatAnswer::Value(FloatValue { bits: 1, text: "old".to_string(), scaled: 1 }),
    );
    floats.record(
        FloatQuery::Literal("2.5".to_string()),
        FloatAnswer::Value(FloatValue { bits: 3, text: "other".to_string(), scaled: 3 }),
    );
    floats.record(
        FloatQuery::Literal("1.5".to_string()),
        FloatAnswer::Value(FloatValue { bits: 2, text: "new".to_string(), scaled: 2 }),
    );
    assert_eq!(
        evaluate_constant_expr(&parse("1.5"), &none, &none, &floats),
        Ok(ConstValue::Float(FloatValue { bits: 2, text: "new".to_string(), scaled: 2 }))
    );
    assert_eq!(
        evaluate_constant_expr(&parse("2.5"), &none, &none, &floats),
        Ok(ConstValue::Float(FloatValue { bits: 3, text: "other".to_string(), scaled: 3 }))
    );
}

#[test]
fn strings_are_joined() {
    assert_eq!(eval("'ab' + 'cd'"), Ok(text("abcd")));
    assert_eq!(eval("'' + ''"), Ok(text("")));
    assert_eq!(eval("'a' + 'b' + 'c'"), Ok(text("abc")));
}

#[test]
fn other_kinds_are_turned_into_text_next_to_a_string() {
    assert_eq!(eval("'n=' + 5"), Ok(text("n=5")));
    assert_eq!(eval("5 + '=n'"), Ok(text("5=n")));
    assert_eq!(eval("'n=' + (0 - 5)"), Ok(text("n=-5")));
    assert_eq!(eval("'b=' + true"), Ok(text("b=true")));
    assert_eq!(eval("false + '=b'"), Ok(text("false=b")));
    assert_eq!(eval("'v=' + null"), Ok(text("v=null")));
    assert_eq!(eval("null + '=v'"), Ok(text("null=v")));
    assert_eq!(eval("'f=' + 2.5"), Ok(text("f=2.5")));
    assert_eq!(eval("2.5 + '=f'"), Ok(text("2.5=f")));
    assert_eq!(eval("'f=' + 3.0"), Ok(text("f=3")));
}

#[test]
fn joining_goes_left_to_right() {
    assert_eq!(eval("1 + 2 + 'x'"), Ok(text("3x")));
    assert_eq!(eval("'x' + 1 + 2"), Ok(text("x12")));
}

#[test]
fn arrays_do_not_turn_into_text() {
    assert_eq!(eval("'a' + [1]"), Err(CompileError::TypeMismatch));
    assert_eq!(eval("[1] + 'a'"), Err(CompileError::TypeMismatch));
}

#[test]
fn strings_support_joining_and_equality_only() {
    assert_eq!(eval("'a' == 'a'"), Ok(ConstValue::Boolean(true)));
    assert_eq!(eval("'a' == 'b'"), Ok(ConstValue::Boolean(false)));
    assert_eq!(eval("'a' != 'b'"), Ok(ConstValue::Boolean(true)));
    assert_eq!(eval("'a' != 'a'"), Ok(ConstValue::Boolean(false)));
    for op in ["-", "*", "/", "<", ">", "<=", ">="] {
        assert_eq!(eval(&format!("'a' {} 'b'", op)), Err(CompileError::TypeMismatch), "{}", op);
        assert_eq!(eval(&format!("'a' {} 1", op)), Err(CompileError::TypeMismatch), "{}", op);
        assert_eq!(eval(&format!("1 {} 'a'", op)), Err(CompileError::TypeMismatch), "{}", op);
    }
    assert_eq!(eval("'1' == 1"), Err(CompileError::TypeMismatch));
    assert_eq!(eval("1 != '1'"), Err(CompileError::TypeMismatch));
}

#[test]
fn truth_values_support_equality_only() {
    assert_eq!(eval("true == true"), Ok(ConstValue::Boolean(true)));
    assert_eq!(eval("true == false"), Ok(ConstValue::Boolean(false)));
    assert_eq!(eval("true != false"), Ok(ConstValue::Boolean(true)));
    assert_eq!(eval("false != false"), Ok(ConstValue::Boolean(false)));
    assert_eq!(eval("(1 < 2) == (2 < 3)"), Ok(ConstValue::Boolean(true)));
    for op in ["+", "-", "*", "/", "<", ">", "<=", ">="] {
        assert_eq!(eval(&format!("true {} false", op)), Err(CompileError::TypeMismatch), "{}", op);
    }
}

#[test]
fn kinds_do_not_mix() {
    assert_eq!(eval("true == 1"), Err(CompileError::TypeMismatch));
    assert_eq!(eval("1 < true"), Err(CompileError::TypeMismatch));
    assert_eq!(eval("true + 1"), Err(CompileError::TypeMismatch));
    assert_eq!(eval("null == null"), Err(CompileError::TypeMismatch));
    assert_eq!(eval("null + 1"), Err(CompileError::TypeMismatch));
    assert_eq!(eval("[1] == [1]"), Err(CompileError::TypeMismatch));
    assert_eq!(eval("[1] + [2]"), Err(CompileError::TypeMismatch));
    assert_eq!(eval("1.5 + true"), Err(CompileError::TypeMismatch));
    assert_eq!(eval("null < 1.5"), Err(CompileError::TypeMismatch));
}

#[test]
fn left_operand_fails_first() {
    assert_eq!(eval("x + 1 / 0"), Err(CompileError::UndefinedName));
    assert_eq!(eval("1 / 0 + x"), Err(CompileError::DivisionByZero));
    assert_eq!(eval("(true + 1) + x"), Err(CompileError::TypeMismatch));
}

#[test]
fn names_resolve_to_constants_first() {
    let mut constants = SymbolTable::new();
    let mut variables = SymbolTable::new();
    constants.insert("a".to_string(), ConstValue::Number(1));
    variables.insert("a".to_string(), ConstValue::Number(2));
    variables.insert("b".to_string(), ConstValue::Number(3));
    assert_eq!(eval_in("a", &constants, &variables), Ok(ConstValue::Number(1)));
    assert_eq!(eval_in("b", &constants, &variables), Ok(ConstValue::Number(3)));
    assert_eq!(eval_in("a + b * 2", &constants, &variables), Ok(ConstValue::Number(7)));
    assert_eq!(eval_in("c", &constants, &variables), Err(CompileError::UndefinedName));
    assert_eq!(lookup("a", &constants, &variables), Some(&ConstValue::Number(1)));
    assert_eq!(lookup("b", &constants, &variables), Some(&ConstValue::Number(3)));
    assert_eq!(lookup("c", &constants, &variables), None);
}

#[test]
fn names_hold_every_kind_of_value() {
    let mut constants = SymbolTable::new();
    constants.insert("s".to_string(), text("x"));
    constants.insert("l".to_string(), ConstValue::Array(vec![ConstValue::Number(1)]));
    constants.insert("n".to_string(), ConstValue::Null);
    let none = SymbolTable::new();
    assert_eq!(eval_in("s + s", &constants, &none), Ok(text("xx")));
    assert_eq!(
        eval_in("[l, n]", &constants, &none),
        Ok(ConstValue::Array(vec![
            ConstValue::Array(vec![ConstValue::Number(1)]),
            ConstValue::Null
        ]))
    );
}

#[test]
fn rebinding_replaces_the_value() {
    let mut table = SymbolTable::new();
    assert!(!table.contains_key("x"));
    table.insert("x".to_string(), ConstValue::Number(1));
    table.insert("y".to_string(), ConstValue::Number(5));
    table.insert("x".to_string(), ConstValue::Number(2));
    assert!(table.contains_key("x"));
    assert_eq!(table.get("x"), Some(&ConstValue::Number(2)));
    assert_eq!(table.get("y"), Some(&ConstValue::Number(5)));
    assert_eq!(table.get("z"), None);
    assert_eq!(table.get(""), None);
}

#[test]
fn statements_have_no_value() {
    let none = SymbolTable::new();
    let floats = FloatTable::new();
    let one = || Box::new(Expr::Number(1));
    let statements = vec![
        Expr::Print(one()),
        Expr::Exit(one()),
        Expr::Const { name: "x".to_string(), value: one() },
        Expr::Let { name: "x".to_string(), value: one() },
        Expr::Assign { name: "x".to_string(), value: one() },
        Expr::If { condition: one(), then_branch: vec![], else_branch: None },
    ];
    for statement in &statements {
        assert_eq!(
            evaluate_constant_expr(statement, &none, &none, &floats),
            Err(CompileError::NotConstant)
        );
    }
}

#[test]
fn evaluating_twice_gives_the_same_value() {
    for source in ["1 + 2 * 3", "'a' + 1 + true", "[1, [2, 'x'], null]", "1.5 * 4 + 2", "1 / 0", "x"] {
        assert_eq!(eval(source), eval(source), "{}", source);
    }
}

#[test]
fn clone_is_equal_to_its_source() {
    let v = ConstValue::Array(vec![ConstValue::Number(1), text("a"), float(2.5), ConstValue::Array(vec![])]);
    assert_eq!(v.clone(), v);
}

#[test]
fn apply_operator_on_resolved_values() {
    let floats = FloatTable::new();
    assert_eq!(
        apply_operator(BinOp::Add, &ConstValue::Number(2), &ConstValue::Number(3), &floats),
        Ok(ConstValue::Number(5))
    );
    assert_eq!(
        apply_operator(BinOp::Mul, &text("a"), &ConstValue::Number(3), &floats),
        Err(CompileError::TypeMismatch)
    );
    assert_eq!(
        apply_operator(BinOp::Add, &ConstValue::Null, &text("!"), &floats),
        Ok(text("null!"))
    );
    assert_eq!(
        apply_operator(BinOp::Div, &float(1.0), &float(-0.0), &floats),
        Err(CompileError::DivisionByZero)
    );
}
