use spp::ast::{BinOp, Expr};
use spp::error::CompileError;
use spp::lexer::{lex, Token};
use spp::parser::{is_float_text, parse_program, same_token, Parser};

fn parser(source: &str) -> Parser {
    Parser::new(lex(source).unwrap())
}

fn num(n: i32) -> Expr {
    Expr::Number(n)
}

fn var(name: &str) -> Expr {
    Expr::Variable(name.to_string())
}

fn string(s: &str) -> Expr {
    Expr::StringLiteral(s.to_string())
}

fn bin(op: BinOp, left: Expr, right: Expr) -> Expr {
    Expr::BinaryOp { op, left: Box::new(left), right: Box::new(right) }
}

fn expr(source: &str) -> Option<Expr> {
    parser(source).parse_expression()
}

fn program(source: &str) -> Result<Vec<Expr>, CompileError> {
    parse_program(lex(source).unwrap())
}

#[test]
fn new_parser_stands_at_the_start() {
    let p = parser("a b c");
    assert_eq!(p.pos(), 0);
    assert!(!p.is_finished());
}

#[test]
fn parser_without_tokens_is_finished() {
    let p = Parser::new(vec![]);
    assert!(p.is_finished());
    assert_eq!(p.pos(), 0);
}

#[test]
fn number_literal() {
    let mut p = parser("42");
    assert_eq!(p.parse_number_literal(), Some(num(42)));
    assert_eq!(p.pos(), 1);
    assert!(p.is_finished());
}

#[test]
fn number_literal_refuses_a_float() {
    let mut p = parser("4.2");
    assert_eq!(p.parse_number_literal(), None);
    assert_eq!(p.pos(), 0);
}

#[test]
fn number_literal_out_of_range_is_refused_in_place() {
    let mut p = parser("2147483648 'a'");
    assert_eq!(p.parse_number_literal(), None);
    assert_eq!(p.pos(), 0);
    assert_eq!(p.parse_expression(), None);
    assert_eq!(p.pos(), 0);
}

#[test]
fn largest_number_literal() {
    assert_eq!(expr("2147483647"), Some(num(2147483647)));
}

#[test]
fn float_literal_keeps_its_text() {
    let mut p = parser("3.14");
    assert_eq!(p.parse_float_literal(), Some(Expr::Float("3.14".to_string())));
    assert_eq!(p.pos(), 1);
}

#[test]
fn float_literal_refuses_an_integer() {
    let mut p = parser("314");
    assert_eq!(p.parse_float_literal(), None);
    assert_eq!(p.pos(), 0);
}

#[test]
fn float_literal_with_nothing_behind_the_point() {
    assert_eq!(expr("3."), Some(Expr::Float("3.".to_string())));
}

#[test]
fn float_texts() {
    for s in ["1.5", "0.0", "10.", ".5", "+1.5", "-1.5", "1.5e3", "1.5E-3", "1.e5", "1.5e+10"] {
        assert!(is_float_text(&s.chars().collect()), "{}", s);
    }
    for s in ["", ".", "+.", "15", "1.5.2", "1.5e", "1.5e+", "1.5x", "e.5", "1e5.", "1.5 ", "1.5e1.0", "a.b"] {
        assert!(!is_float_text(&s.chars().collect()), "{}", s);
    }
}

#[test]
fn float_texts_with_a_point_agree_with_the_standard_parser() {
    for s in ["1.5", "0.0", "10.", ".5", "+1.5", "-1.5", "1.5e3", "1.5E-3", "1.e5", ".", "+.", "-.e1", "1.5.2", "1.5e", "1.5e+", "1.5x", ".e5", "1e5.", "1.5e1.0", "0.000001", "123456789012345678901234567890.5", ".5e-7", "+.5E+7"] {
        assert_eq!(is_float_text(&s.chars().collect()), s.parse::<f64>().is_ok(), "{}", s);
    }
}

#[test]
fn hand_made_number_token_that_is_no_number() {
    let mut p = Parser::new(vec![Token::Number("1.2.3".to_string())]);
    assert_eq!(p.parse_float_literal(), None);
    assert_eq!(p.parse_number_literal(), None);
    assert_eq!(p.parse_expression(), None);
    assert_eq!(p.pos(), 0);
}

#[test]
fn string_literal() {
    let mut p = parser("'hi'");
    assert_eq!(p.parse_string_literal(), Some(string("hi")));
    assert_eq!(p.pos(), 1);
}

#[test]
fn bool_literals() {
    let mut p = parser("true false maybe");
    assert_eq!(p.parse_bool_literal(), Some(Expr::Boolean(true)));
    assert_eq!(p.parse_bool_literal(), Some(Expr::Boolean(false)));
    assert_eq!(p.parse_bool_literal(), None);
    assert_eq!(p.pos(), 2);
}

#[test]
fn null_literal() {
    let mut p = parser("null nil");
    assert_eq!(p.parse_null_literal(), Some(Expr::Null));
    assert_eq!(p.parse_null_literal(), None);
    assert_eq!(p.pos(), 1);
}

#[test]
fn variable_is_any_identifier() {
    let mut p = parser("x let 5");
    assert_eq!(p.parse_variable(), Some(var("x")));
    assert_eq!(p.parse_variable(), Some(var("let")));
    assert_eq!(p.parse_variable(), None);
    assert_eq!(p.pos(), 2);
}

#[test]
fn literals_win_over_names() {
    assert_eq!(expr("true"), Some(Expr::Boolean(true)));
    assert_eq!(expr("null"), Some(Expr::Null));
    assert_eq!(expr("truely"), Some(var("truely")));
}

#[test]
fn literal_parsers_refuse_at_the_end() {
    let mut p = Parser::new(vec![]);
    assert_eq!(p.parse_number_literal(), None);
    assert_eq!(p.parse_float_literal(), None);
    assert_eq!(p.parse_string_literal(), None);
    assert_eq!(p.parse_bool_literal(), None);
    assert_eq!(p.parse_null_literal(), None);
    assert_eq!(p.parse_array_literal(), None);
    assert_eq!(p.parse_variable(), None);
    assert_eq!(p.parse_expression(), None);
    assert_eq!(p.parse_statement(), None);
    assert_eq!(p.pos(), 0);
}

#[test]
fn empty_array() {
    let mut p = parser("[]");
    assert_eq!(p.parse_array_literal(), Some(Expr::Array(vec![])));
    assert_eq!(p.pos(), 2);
}

#[test]
fn array_of_literals() {
    assert_eq!(
        expr("[1, 'a', true]"),
        Some(Expr::Array(vec![
            Box::new(num(1)),
            Box::new(string("a")),
            Box::new(Expr::Boolean(true)),
        ]))
    );
}

#[test]
fn array_elements_are_expressions() {
    assert_eq!(
        expr("[1 + 2, [x]]"),
        Some(Expr::Array(vec![
            Box::new(bin(BinOp::Add, num(1), num(2))),
            Box::new(Expr::Array(vec![Box::new(var("x"))])),
        ]))
    );
}

#[test]
fn broken_arrays_are_refused_in_place() {
    for source in ["[", "[1", "[1,", "[1,]", "[,1]", "[1 2]", "[1;"] {
        let mut p = parser(source);
        assert_eq!(p.parse_array_literal(), None, "{}", source);
        assert_eq!(p.pos(), 0, "{}", source);
    }
}

#[test]
fn multiplication_binds_tighter_than_addition() {
    assert_eq!(
        expr("1 + 2 * 3"),
        Some(bin(BinOp::Add, num(1), bin(BinOp::Mul, num(2), num(3))))
    );
    assert_eq!(
        expr("1 * 2 + 3"),
        Some(bin(BinOp::Add, bin(BinOp::Mul, num(1), num(2)), num(3)))
    );
}

#[test]
fn parentheses_group() {
    assert_eq!(
        expr("(1 + 2) * 3"),
        Some(bin(BinOp::Mul, bin(BinOp::Add, num(1), num(2)), num(3)))
    );
    assert_eq!(expr("((7))"), Some(num(7)));
}

#[test]
fn operators_associate_to_the_left() {
    assert_eq!(
        expr("1 - 2 - 3"),
        Some(bin(BinOp::Sub, bin(BinOp::Sub, num(1), num(2)), num(3)))
    );
    assert_eq!(
        expr("8 / 4 / 2"),
        Some(bin(BinOp::Div, bin(BinOp::Div, num(8), num(4)), num(2)))
    );
}

#[test]
fn comparisons_share_the_level_of_addition() {
    assert_eq!(
        expr("1 + 2 < 3 + 4"),
        Some(bin(
            BinOp::Add,
            bin(BinOp::Lt, bin(BinOp::Add, num(1), num(2)), num(3)),
            num(4)
        ))
    );
    assert_eq!(
        expr("1 < 2 * 3"),
        Some(bin(BinOp::Lt, num(1), bin(BinOp::Mul, num(2), num(3))))
    );
}

#[test]
fn every_operator() {
    let cases = [
        ("a + b", BinOp::Add),
        ("a - b", BinOp::Sub),
        ("a * b", BinOp::Mul),
        ("a / b", BinOp::Div),
        ("a == b", BinOp::Equal),
        ("a != b", BinOp::NotEqual),
        ("a < b", BinOp::Lt),
        ("a > b", BinOp::Gt),
        ("a <= b", BinOp::Lte),
        ("a >= b", BinOp::Gte),
    ];
    for (source, op) in cases {
        assert_eq!(expr(source), Some(bin(op, var("a"), var("b"))), "{}", source);
    }
}

#[test]
fn expression_stops_before_what_does_not_belong() {
    let mut p = parser("1 + 2 ; 3");
    assert_eq!(p.parse_expression(), Some(bin(BinOp::Add, num(1), num(2))));
    assert_eq!(p.pos(), 3);
}

#[test]
fn broken_expressions_are_refused_in_place() {
    for source in ["+", "1 +", "1 + *", "(1", "(1 + 2", "()", "1 * )", ")"] {
        let mut p = parser(source);
        assert_eq!(p.parse_expression(), None, "{}", source);
        assert_eq!(p.pos(), 0, "{}", source);
    }
}

#[test]
fn const_declaration() {
    let mut p = parser("const x = 1 + 2;");
    assert_eq!(
        p.parse_const_declaration(),
        Some(Expr::Const {
            name: "x".to_string(),
            value: Box::new(bin(BinOp::Add, num(1), num(2))),
        })
    );
    assert!(p.is_finished());
}

#[test]
fn let_declaration() {
    let mut p = parser("let y = 'a';");
    assert_eq!(
        p.parse_let_declaration(),
        Some(Expr::Let { name: "y".to_string(), value: Box::new(string("a")) })
    );
    assert_eq!(p.pos(), 5);
}

#[test]
fn assignment() {
    let mut p = parser("y = y + 1;");
    assert_eq!(
        p.parse_assignment(),
        Some(Expr::Assign {
            name: "y".to_string(),
            value: Box::new(bin(BinOp::Add, var("y"), num(1))),
        })
    );
    assert_eq!(p.pos(), 6);
}

#[test]
fn print_statement() {
    let mut p = parser("console.print(x);");
    assert_eq!(p.parse_console_print_expr(), Some(Expr::Print(Box::new(var("x")))));
    assert_eq!(p.pos(), 7);
}

#[test]
fn exit_statement() {
    let mut p = parser("exit(0);");
    assert_eq!(p.parse_exit_expr(), Some(Expr::Exit(Box::new(num(0)))));
    assert_eq!(p.pos(), 5);
}

#[test]
fn statement_parsers_refuse_other_forms_in_place() {
    let mut p = parser("exit(0);");
    assert_eq!(p.parse_const_declaration(), None);
    assert_eq!(p.parse_let_declaration(), None);
    assert_eq!(p.parse_assignment(), None);
    assert_eq!(p.parse_console_print_expr(), None);
    assert_eq!(p.parse_if_statement(), None);
    assert_eq!(p.pos(), 0);
    assert_eq!(p.parse_statement(), Some(Expr::Exit(Box::new(num(0)))));
}

#[test]
fn broken_statements_are_refused_in_place() {
    let cases = [
        "const",
        "const x",
        "const x =",
        "const x = 1",
        "const 5 = 1;",
        "let x 1;",
        "let x = ;",
        "x = 1",
        "x == 1;",
        "console",
        "console.",
        "console.print",
        "console.print(",
        "console.print(1",
        "console.print(1)",
        "console.log(1);",
        "console print(1);",
        "exit",
        "exit(",
        "exit(1",
        "exit(1)",
        "exit 1;",
        "if",
        "if (",
        "if (1",
        "if (1)",
        "if (1) {",
        "if (1) { exit(1);",
        "if (1) { exit(1) }",
        "if 1 { }",
        "if (1) { } else",
        "if (1) { } else {",
        "if (1) { } else exit(1);",
        "1;",
        ";",
    ];
    for source in cases {
        let mut p = parser(source);
        assert_eq!(p.parse_statement(), None, "{}", source);
        assert_eq!(p.pos(), 0, "{}", source);
    }
}

#[test]
fn keyword_can_be_assigned_when_no_declaration_matches() {
    let mut p = parser("const = 1;");
    assert_eq!(p.parse_const_declaration(), None);
    assert_eq!(
        p.parse_assignment(),
        Some(Expr::Assign { name: "const".to_string(), value: Box::new(num(1)) })
    );
}

#[test]
fn failed_declaration_does_not_leak_into_the_next_form() {
    assert_eq!(program("let let x = 1;"), Err(CompileError::Syntax { position: 0 }));
}

#[test]
fn parses_if_without_else() {
    let mut p = parser("if (x < 1) { exit(1); }");
    assert_eq!(
        p.parse_if_statement(),
        Some(Expr::If {
            condition: Box::new(bin(BinOp::Lt, var("x"), num(1))),
            then_branch: vec![Box::new(Expr::Exit(Box::new(num(1))))],
            else_branch: None,
        })
    );
    assert!(p.is_finished());
}

#[test]
fn parses_if_with_else() {
    assert_eq!(
        parser("if (1 < 2) { exit(1); } else { exit(2); }").parse_statement(),
        Some(Expr::If {
            condition: Box::new(bin(BinOp::Lt, num(1), num(2))),
            then_branch: vec![Box::new(Expr::Exit(Box::new(num(1))))],
            else_branch: Some(vec![Box::new(Expr::Exit(Box::new(num(2))))]),
        })
    );
}

#[test]
fn if_with_empty_branches() {
    assert_eq!(
        parser("if (true) { } else { }").parse_statement(),
        Some(Expr::If {
            condition: Box::new(Expr::Boolean(true)),
            then_branch: vec![],
            else_branch: Some(vec![]),
        })
    );
}

#[test]
fn nested_if() {
    assert_eq!(
        parser("if (a) { let x = 1; if (b) { x = 2; } } else { console.print(x); }")
            .parse_statement(),
        Some(Expr::If {
            condition: Box::new(var("a")),
            then_branch: vec![
                Box::new(Expr::Let { name: "x".to_string(), value: Box::new(num(1)) }),
                Box::new(Expr::If {
                    condition: Box::new(var("b")),
                    then_branch: vec![Box::new(Expr::Assign {
                        name: "x".to_string(),
                        value: Box::new(num(2)),
                    })],
                    else_branch: None,
                }),
            ],
            else_branch: Some(vec![Box::new(Expr::Print(Box::new(var("x"))))]),
        })
    );
}

#[test]
fn program_of_several_statements() {
    assert_eq!(
        program("const a = 1; let b = a; b = 2; console.print(b); exit(b);"),
        Ok(vec![
            Expr::Const { name: "a".to_string(), value: Box::new(num(1)) },
            Expr::Let { name: "b".to_string(), value: Box::new(var("a")) },
            Expr::Assign { name: "b".to_string(), value: Box::new(num(2)) },
            Expr::Print(Box::new(var("b"))),
            Expr::Exit(Box::new(var("b"))),
        ])
    );
}

#[test]
fn empty_program() {
    assert_eq!(program(""), Ok(vec![]));
    assert_eq!(program("// nothing here"), Ok(vec![]));
}

#[test]
fn syntax_error_names_the_position_of_the_statement() {
    assert_eq!(program("1 + 2;"), Err(CompileError::Syntax { position: 0 }));
    assert_eq!(program("exit(0); exit(1"), Err(CompileError::Syntax { position: 5 }));
    assert_eq!(program("const x = 1; let 2 = 2;"), Err(CompileError::Syntax { position: 5 }));
    assert_eq!(program("exit(0); }"), Err(CompileError::Syntax { position: 5 }));
}

#[test]
fn unclosed_block_is_a_syntax_error() {
    assert_eq!(program("if (1) { exit(0);"), Err(CompileError::Syntax { position: 0 }));
}

#[test]
fn same_token_compares_kind_and_text() {
    assert!(same_token(&Token::Plus, &Token::Plus));
    assert!(!same_token(&Token::Plus, &Token::Minus));
    assert!(same_token(&Token::Number("1".to_string()), &Token::Number("1".to_string())));
    assert!(!same_token(&Token::Number("1".to_string()), &Token::Number("2".to_string())));
    assert!(!same_token(&Token::Number("1".to_string()), &Token::String("1".to_string())));
    assert!(!same_token(&Token::Identifier("a".to_string()), &Token::String("a".to_string())));
    assert!(same_token(&Token::Identifier("a".to_string()), &Token::Identifier("a".to_string())));
}

fn next(state: &mut u64) -> u64 {
    *state = state.wrapping_mul(6364136223846793005).wrapping_add(1442695040888963407);
    *state >> 33
}

#[test]
fn many_texts_with_a_point_read_as_floats_when_the_standard_says_so() {
    let alphabet: Vec<char> = "0123456789..eE+-x".chars().collect();
    let mut state = 3u64;
    let mut accepted = 0;
    for _ in 0..20000 {
        let len = 1 + next(&mut state) % 9;
        let mut s = String::new();
        for _ in 0..len {
            let pick = next(&mut state) % 30;
            let c = if pick < 14 { alphabet[(pick % 10) as usize] } else { alphabet[(pick as usize - 4) % alphabet.len()] };
            s.push(c);
        }
        if !s.contains('.') {
            continue;
        }
        let ours = is_float_text(&s.chars().collect());
        assert_eq!(ours, s.parse::<f64>().is_ok(), "{:?}", s);
        if ours {
            accepted += 1;
        }
    }
    assert!(accepted > 100);
}
