use spp::error::CompileError;
use spp::lexer::{lex, Token};

fn num(s: &str) -> Token {
    Token::Number(s.to_string())
}

fn text(s: &str) -> Token {
    Token::String(s.to_string())
}

fn id(s: &str) -> Token {
    Token::Identifier(s.to_string())
}

#[test]
fn empty_source_has_no_tokens() {
    assert_eq!(lex(""), Ok(vec![]));
    assert_eq!(lex("   \n\t  "), Ok(vec![]));
}

#[test]
fn integer_token_keeps_its_text() {
    assert_eq!(lex("42"), Ok(vec![num("42")]));
    assert_eq!(lex("007"), Ok(vec![num("007")]));
}

#[test]
fn float_token_keeps_its_text() {
    assert_eq!(lex("3.14"), Ok(vec![num("3.14")]));
    assert_eq!(lex("3."), Ok(vec![num("3.")]));
}

#[test]
fn second_point_ends_the_number() {
    assert_eq!(lex("1.2.3"), Ok(vec![num("1.2"), Token::Dot, num("3")]));
}

#[test]
fn point_before_digits_is_a_dot() {
    assert_eq!(lex(".5"), Ok(vec![Token::Dot, num("5")]));
}

#[test]
fn minus_is_not_part_of_a_number() {
    assert_eq!(lex("-5"), Ok(vec![Token::Minus, num("5")]));
}

#[test]
fn double_quoted_string() {
    assert_eq!(lex("\"hello world\""), Ok(vec![text("hello world")]));
}

#[test]
fn single_quoted_string() {
    assert_eq!(lex("'hello'"), Ok(vec![text("hello")]));
}

#[test]
fn empty_string() {
    assert_eq!(lex("\"\""), Ok(vec![text("")]));
}

#[test]
fn other_quote_inside_a_string() {
    assert_eq!(lex("\"it's\""), Ok(vec![text("it's")]));
    assert_eq!(lex("'say \"hi\"'"), Ok(vec![text("say \"hi\"")]));
}

#[test]
fn escapes_are_resolved() {
    assert_eq!(lex(r#""a\nb""#), Ok(vec![text("a\nb")]));
    assert_eq!(lex(r#""a\tb""#), Ok(vec![text("a\tb")]));
    assert_eq!(lex(r#""a\rb""#), Ok(vec![text("a\rb")]));
    assert_eq!(lex(r#""a\\b""#), Ok(vec![text("a\\b")]));
    assert_eq!(lex(r#""a\"b""#), Ok(vec![text("a\"b")]));
    assert_eq!(lex(r#"'a\'b'"#), Ok(vec![text("a'b")]));
}

#[test]
fn unknown_escape_gives_the_character_itself() {
    assert_eq!(lex(r#""a\qb""#), Ok(vec![text("aqb")]));
    assert_eq!(lex(r#""\0""#), Ok(vec![text("0")]));
}

#[test]
fn unterminated_string_is_an_error() {
    assert_eq!(lex("\"abc"), Err(CompileError::UnterminatedString));
    assert_eq!(lex("'abc\""), Err(CompileError::UnterminatedString));
    assert_eq!(lex("\""), Err(CompileError::UnterminatedString));
    assert_eq!(lex("let x = \"abc;"), Err(CompileError::UnterminatedString));
}

#[test]
fn escape_at_the_end_leaves_the_string_open() {
    assert_eq!(lex("\"abc\\"), Err(CompileError::UnterminatedString));
    assert_eq!(lex("\"abc\\\""), Err(CompileError::UnterminatedString));
}

#[test]
fn identifiers() {
    assert_eq!(lex("foo"), Ok(vec![id("foo")]));
    assert_eq!(lex("_bar9"), Ok(vec![id("_bar9")]));
    assert_eq!(lex("a_b_c"), Ok(vec![id("a_b_c")]));
    assert_eq!(lex("été"), Ok(vec![id("été")]));
}

#[test]
fn keywords_are_identifiers() {
    assert_eq!(
        lex("const let if else true false null exit console print"),
        Ok(vec![
            id("const"),
            id("let"),
            id("if"),
            id("else"),
            id("true"),
            id("false"),
            id("null"),
            id("exit"),
            id("console"),
            id("print"),
        ])
    );
}

#[test]
fn digits_then_letters_are_two_tokens() {
    assert_eq!(lex("9lives"), Ok(vec![num("9"), id("lives")]));
}

#[test]
fn operators() {
    assert_eq!(
        lex("+ - * / = == != < > <= >="),
        Ok(vec![
            Token::Plus,
            Token::Minus,
            Token::Star,
            Token::Slash,
            Token::Assign,
            Token::Equal,
            Token::NotEqual,
            Token::LessThan,
            Token::GreaterThan,
            Token::LessThanEqual,
            Token::GreaterThanEqual,
        ])
    );
}

#[test]
fn punctuation() {
    assert_eq!(
        lex(". ; , ( ) [ ] { }"),
        Ok(vec![
            Token::Dot,
            Token::Semicolon,
            Token::Comma,
            Token::LParen,
            Token::RParen,
            Token::LBracket,
            Token::RBracket,
            Token::LBrace,
            Token::RBrace,
        ])
    );
}

#[test]
fn operators_need_no_space() {
    assert_eq!(lex("a<=b"), Ok(vec![id("a"), Token::LessThanEqual, id("b")]));
    assert_eq!(lex("a===b"), Ok(vec![id("a"), Token::Equal, Token::Assign, id("b")]));
    assert_eq!(lex("1+2"), Ok(vec![num("1"), Token::Plus, num("2")]));
}

#[test]
fn lone_bang_is_skipped() {
    assert_eq!(lex("!"), Ok(vec![]));
    assert_eq!(lex("!a"), Ok(vec![id("a")]));
    assert_eq!(lex("a ! = b"), Ok(vec![id("a"), Token::Assign, id("b")]));
}

#[test]
fn unknown_characters_are_skipped() {
    assert_eq!(lex("a @ # $ % ^ & | ~ ? : b"), Ok(vec![id("a"), id("b")]));
    assert_eq!(lex("1 ✓ 2"), Ok(vec![num("1"), num("2")]));
}

#[test]
fn line_comment_runs_to_the_end_of_the_line() {
    assert_eq!(lex("a // b c d\ne"), Ok(vec![id("a"), id("e")]));
    assert_eq!(lex("// only a comment"), Ok(vec![]));
    assert_eq!(lex("a //"), Ok(vec![id("a")]));
}

#[test]
fn block_comment_runs_to_its_end() {
    assert_eq!(lex("a /* b\nc */ d"), Ok(vec![id("a"), id("d")]));
    assert_eq!(lex("a /**/ d"), Ok(vec![id("a"), id("d")]));
    assert_eq!(lex("a /* * / */ d"), Ok(vec![id("a"), id("d")]));
}

#[test]
fn open_block_comment_swallows_the_rest() {
    assert_eq!(lex("a /* b c"), Ok(vec![id("a")]));
    assert_eq!(lex("a /*/ b"), Ok(vec![id("a")]));
}

#[test]
fn quote_inside_a_comment_opens_no_string() {
    assert_eq!(lex("a // \"open\nb"), Ok(vec![id("a"), id("b")]));
    assert_eq!(lex("a /* 'open */ b"), Ok(vec![id("a"), id("b")]));
}

#[test]
fn slash_alone_is_division() {
    assert_eq!(lex("a / b"), Ok(vec![id("a"), Token::Slash, id("b")]));
    assert_eq!(lex("/"), Ok(vec![Token::Slash]));
}

#[test]
fn a_whole_statement() {
    assert_eq!(
        lex("console.print(\"n=\" + 5);"),
        Ok(vec![
            id("console"),
            Token::Dot,
            id("print"),
            Token::LParen,
            text("n="),
            Token::Plus,
            num("5"),
            Token::RParen,
            Token::Semicolon,
        ])
    );
}

#[test]
fn unicode_space_separates_tokens() {
    assert_eq!(lex("a\u{a0}b"), Ok(vec![id("a"), id("b")]));
}

#[test]
fn lexing_twice_gives_the_same_tokens() {
    let source = "let x = [1, 'a', true]; // done";
    assert_eq!(lex(source), lex(source));
}
