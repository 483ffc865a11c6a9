use spp::ast::Expr;
use spp::codegen::Generator;
use spp::error::CompileError;
use spp::eval::evaluate_constant_expr;
use spp::float::{FloatAnswer, FloatQuery, FloatTable, FloatValue};
use spp::lexer::{lex, Token};
use spp::parser::{parse_program, Parser};
use spp::value::{ConstValue, SymbolTable};

fn escape(content: &str, quote: char) -> String {
    let mut out = String::new();
    for c in content.chars() {
        if c == quote || c == '\\' {
            out.push('\\');
        }
        out.push(c);
    }
    out
}

fn source_of(value: &ConstValue) -> String {
    match value {
        ConstValue::Number(n) => n.to_string(),
        ConstValue::Float(f) => f.text.clone(),
        ConstValue::String(s) => format!("\"{}\"", escape(s, '"')),
        ConstValue::Boolean(b) => b.to_string(),
        ConstValue::Null => "null".to_string(),
        ConstValue::Array(items) => {
            let parts: Vec<String> = items.iter().map(source_of).collect();
            format!("[{}]", parts.join(", "))
        }
    }
}

fn read_back(source: &str, floats: &FloatTable) -> Result<ConstValue, CompileError> {
    let tokens = lex(source)?;
    let count = tokens.len();
    let mut parser = Parser::new(tokens);
    let expr = parser.parse_expression().expect("the literal parses");
    assert_eq!(parser.pos(), count, "the literal takes every token of {}", source);
    let none = SymbolTable::new();
    evaluate_constant_expr(&expr, &none, &none, floats)
}

fn text(s: &str) -> ConstValue {
    ConstValue::String(s.to_string())
}

#[test]
fn integer_literals_come_back() {
    for n in [0, 1, 9, 10, 42, 1000, 65535, 2147483647] {
        let value = ConstValue::Number(n);
        assert_eq!(read_back(&source_of(&value), &FloatTable::new()), Ok(value));
    }
}

#[test]
fn integer_literal_is_one_token() {
    assert_eq!(lex("2147483647"), Ok(vec![Token::Number("2147483647".to_string())]));
}

#[test]
fn string_literals_come_back() {
    for s in ["", "a", "hello world", "it's", "say \"hi\"", "back\\slash", "\\\"", "tab\there", "line\nbreak", "ünï✓", "// no comment", "/* still a string */", "1 + 2"] {
        let value = text(s);
        assert_eq!(read_back(&source_of(&value), &FloatTable::new()), Ok(value), "{:?}", s);
    }
}

#[test]
fn single_quoted_string_literals_come_back() {
    for s in ["", "a", "it's", "say \"hi\"", "back\\slash", "'''"] {
        let source = format!("'{}'", escape(s, '\''));
        assert_eq!(read_back(&source, &FloatTable::new()), Ok(text(s)), "{:?}", s);
    }
}

#[test]
fn keyword_literals_come_back() {
    for value in [ConstValue::Boolean(true), ConstValue::Boolean(false), ConstValue::Null] {
        assert_eq!(read_back(&source_of(&value), &FloatTable::new()), Ok(value));
    }
}

#[test]
fn array_literals_come_back() {
    let values = [
        ConstValue::Array(vec![]),
        ConstValue::Array(vec![ConstValue::Number(1)]),
        ConstValue::Array(vec![ConstValue::Number(1), text("a"), ConstValue::Boolean(true)]),
        ConstValue::Array(vec![
            ConstValue::Null,
            ConstValue::Array(vec![]),
            ConstValue::Array(vec![
                text("x, y"),
                ConstValue::Array(vec![ConstValue::Number(7), text("]")]),
            ]),
            ConstValue::Boolean(false),
        ]),
    ];
    for value in values {
        let source = source_of(&value);
        assert_eq!(read_back(&source, &FloatTable::new()), Ok(value), "{}", source);
    }
}

#[test]
fn array_literal_source_has_the_expected_shape() {
    let value = ConstValue::Array(vec![ConstValue::Number(1), text("a"), ConstValue::Boolean(true)]);
    assert_eq!(source_of(&value), "[1, \"a\", true]");
}

#[test]
fn float_literals_come_back_as_the_table_says() {
    for source in ["2.5", "0.125", "10.", "3.14159", "0.0", "123456.789"] {
        let f: f64 = source.parse().unwrap();
        let value = FloatValue { bits: f.to_bits(), text: f.to_string(), scaled: (f * 100.0) as i64 };
        let mut floats = FloatTable::new();
        assert_eq!(
            read_back(source, &floats),
            Err(CompileError::FloatPending(FloatQuery::Literal(source.to_string())))
        );
        floats.record(
            FloatQuery::Literal(source.to_string()),
            FloatAnswer::Value(value.clone()),
        );
        assert_eq!(read_back(source, &floats), Ok(ConstValue::Float(value)), "{}", source);
    }
}

#[test]
fn arrays_that_hold_floats_come_back_as_the_table_says() {
    let float = |source: &str| {
        let f: f64 = source.parse().unwrap();
        FloatValue { bits: f.to_bits(), text: source.to_string(), scaled: (f * 100.0) as i64 }
    };
    let mut floats = FloatTable::new();
    for source in ["2.5", "0.125"] {
        floats.record(FloatQuery::Literal(source.to_string()), FloatAnswer::Value(float(source)));
    }
    let value = ConstValue::Array(vec![
        ConstValue::Float(float("2.5")),
        ConstValue::Array(vec![ConstValue::Number(3), ConstValue::Float(float("0.125"))]),
        text("2.5"),
    ]);
    let source = source_of(&value);
    assert_eq!(source, "[2.5, [3, 0.125], \"2.5\"]");
    assert_eq!(read_back(&source, &floats), Ok(value));
}

#[test]
fn folded_value_written_back_folds_to_itself() {
    let none = SymbolTable::new();
    let floats = FloatTable::new();
    for source in ["1 + 2 * 3", "'a' + 1 + true", "[1 + 1, 'x' + 'y', 1 < 2, null]", "(7 - 2) * (3 + 1)"] {
        let mut parser = Parser::new(lex(source).unwrap());
        let expr = parser.parse_expression().unwrap();
        let once = evaluate_constant_expr(&expr, &none, &none, &floats).unwrap();
        assert_eq!(read_back(&source_of(&once), &floats), Ok(once), "{}", source);
    }
}

#[test]
fn declared_twice_fails_before_anything_is_produced() {
    let program = parse_program(lex("const x = 1; const x = 2;").unwrap()).unwrap();
    let floats = FloatTable::new();
    assert_eq!(
        spp::codegen::generate_nasm(&program, &floats),
        Err(CompileError::Redeclaration)
    );
}

#[test]
fn assigned_variable_holds_the_value_assigned() {
    let program = parse_program(lex("let x = 1; x = 2;").unwrap()).unwrap();
    let floats = FloatTable::new();
    let mut generator = Generator::new();
    for statement in &program {
        assert_eq!(generator.lower_statement(statement, &floats), Ok(()));
    }
    assert_eq!(generator.variables.get("x"), Some(&ConstValue::Number(2)));
    assert_eq!(generator.constants.get("x"), None);
    let none = SymbolTable::new();
    assert_eq!(
        evaluate_constant_expr(
            &Expr::Variable("x".to_string()),
            &generator.constants,
            &generator.variables,
            &floats
        ),
        Ok(ConstValue::Number(2))
    );
    assert_eq!(
        evaluate_constant_expr(&Expr::Variable("x".to_string()), &none, &none, &floats),
        Err(CompileError::UndefinedName)
    );
}

#[test]
fn lowering_keeps_what_was_there() {
    let program = parse_program(
        lex("const c = 'k'; let v = 1; console.print([c, v, 'lit']); v = 'two'; if (v) { } console.print(c + v);")
            .unwrap(),
    );
    let program = program.unwrap();
    let floats = FloatTable::new();
    let mut generator = Generator::new();
    for statement in &program {
        generator.collect_string_literals(statement).unwrap();
    }
    let mut data = generator.data.clone();
    let mut bss = generator.bss.clone();
    let mut text = generator.text.clone();
    let mut counter = generator.counter;
    for statement in &program {
        let outcome = generator.lower_statement(statement, &floats);
        if outcome.is_err() {
            assert_eq!(outcome, Err(CompileError::TypeMismatch));
            break;
        }
        assert!(generator.data.starts_with(&data));
        assert!(generator.bss.starts_with(&bss));
        assert!(generator.text.starts_with(&text));
        assert!(generator.counter >= counter);
        assert_eq!(generator.constants.get("c"), Some(&ConstValue::String("k".to_string())));
        data = generator.data.clone();
        bss = generator.bss.clone();
        text = generator.text.clone();
        counter = generator.counter;
    }
    assert!(generator.variables.contains_key("v"));
    assert!(!generator.constants.contains_key("v"));
    assert!(!generator.variables.contains_key("c"));
}
