//! The parser: recursive descent over the tokens, with the position put
//! back wherever a form does not match.

use vstd::prelude::*;
use vstd::string::*;
use crate::ast::{expr_list_view, exprs_view, BinOp, Expr, ExprView};
use crate::error::{CompileError, CompileErrorView};
use crate::grammar::{
    additive,
    additive_op,
    additive_tail,
    argument,
    array_items,
    array_literal,
    assignment,
    binding,
    block,
    bool_literal,
    closed,
    condition,
    console_print,
    const_declaration,
    digits_end,
    exit_statement,
    expression,
    float_literal,
    float_shape,
    if_statement,
    is_at,
    lemma_block_bounds,
    lemma_expression_advances,
    lemma_statement_advances,
    let_declaration,
    multiplicative,
    multiplicative_op,
    multiplicative_tail,
    name_at,
    null_literal,
    number_literal,
    primary,
    program,
    statement,
    string_literal,
    variable,
    word_at,
    Parsed,
};
use crate::lexer::{tokens_view, Token, TokenView};
use crate::text::{char_is_digit, contains_dot, parse_integer, same_text, to_chars};

verus! {

/// A parser over a token sequence: the tokens and the position of the
/// next token to read.
pub struct Parser {
    tokens: Vec<Token>,
    pos: usize,
}

/// The mathematical model of a [`Parser`].
pub struct ParserView {
    pub tokens: Seq<TokenView>,
    pub pos: int,
}

impl View for Parser {
    type V = ParserView;

    closed spec fn view(&self) -> ParserView {
        ParserView { tokens: tokens_view(self.tokens@), pos: self.pos as int }
    }
}

/// Whether a parsing step did what the grammar asks for: on a match it
/// hands back the node and stands behind it, otherwise it hands back
/// nothing and stands where it stood. The tokens never change.
pub open spec fn parse_matches(
    before: ParserView,
    after: ParserView,
    r: Option<Expr>,
    expected: Parsed,
) -> bool {
    after.tokens == before.tokens && match expected {
        Some((node, next)) => r matches Some(found) && found@ == node && after.pos == next,
        None => r is None && after.pos == before.pos,
    }
}

/// Whether two tokens are the same.
pub fn same_token(a: &Token, b: &Token) -> (r: bool)
    ensures
        r == (a@ == b@),
{
    match (a, b) {
        (Token::Number(x), Token::Number(y)) => same_text(x.as_str(), y.as_str()),
        (Token::String(x), Token::String(y)) => same_text(x.as_str(), y.as_str()),
        (Token::Identifier(x), Token::Identifier(y)) => same_text(x.as_str(), y.as_str()),
        (Token::Plus, Token::Plus) => true,
        (Token::Minus, Token::Minus) => true,
        (Token::Star, Token::Star) => true,
        (Token::Slash, Token::Slash) => true,
        (Token::Equal, Token::Equal) => true,
        (Token::NotEqual, Token::NotEqual) => true,
        (Token::LessThan, Token::LessThan) => true,
        (Token::GreaterThan, Token::GreaterThan) => true,
        (Token::LessThanEqual, Token::LessThanEqual) => true,
        (Token::GreaterThanEqual, Token::GreaterThanEqual) => true,
        (Token::Assign, Token::Assign) => true,
        (Token::Semicolon, Token::Semicolon) => true,
        (Token::Dot, Token::Dot) => true,
        (Token::LParen, Token::LParen) => true,
        (Token::RParen, Token::RParen) => true,
        (Token::LBracket, Token::LBracket) => true,
        (Token::RBracket, Token::RBracket) => true,
        (Token::LBrace, Token::LBrace) => true,
        (Token::RBrace, Token::RBrace) => true,
        (Token::Comma, Token::Comma) => true,
        _ => false,
    }
}

fn scan_digits(chars: &Vec<char>, start: usize) -> (end: usize)
    requires
        start <= chars.len(),
    ensures
        end == digits_end(chars@, start as int),
        start <= end <= chars.len(),
{
    let mut pos = start;
    while pos < chars.len() && char_is_digit(chars[pos])
        invariant
            start <= pos <= chars.len(),
            digits_end(chars@, start as int) == digits_end(chars@, pos as int),
        decreases chars.len() - pos,
    {
        pos += 1;
    }
    pos
}

/// Whether a text reads as a floating literal.
pub fn is_float_text(chars: &Vec<char>) -> (r: bool)
    ensures
        r == float_shape(chars@),
{
    let n = chars.len();
    let start: usize = if n > 0 && (chars[0] == '+' || chars[0] == '-') {
        1
    } else {
        0
    };
    let point = scan_digits(chars, start);
    if point >= n || chars[point] != '.' {
        return false;
    }
    let end = scan_digits(chars, point + 1);
    if end - start <= 1 {
        return false;
    }
    if end == n {
        return true;
    }
    if !(chars[end] == 'e' || chars[end] == 'E') {
        return false;
    }
    let digits: usize = if end + 1 < n && (chars[end + 1] == '+' || chars[end + 1] == '-') {
        end + 2
    } else {
        end + 1
    };
    digits < n && scan_digits(chars, digits) == n
}

fn additive_operator(token: &Token) -> (r: Option<BinOp>)
    ensures
        r == additive_op(token@),
{
    match token {
        Token::Plus => Some(BinOp::Add),
        Token::Minus => Some(BinOp::Sub),
        Token::Equal => Some(BinOp::Equal),
        Token::NotEqual => Some(BinOp::NotEqual),
        Token::LessThan => Some(BinOp::Lt),
        Token::GreaterThan => Some(BinOp::Gt),
        Token::LessThanEqual => Some(BinOp::Lte),
        Token::GreaterThanEqual => Some(BinOp::Gte),
        _ => None,
    }
}

fn multiplicative_operator(token: &Token) -> (r: Option<BinOp>)
    ensures
        r == multiplicative_op(token@),
{
    match token {
        Token::Star => Some(BinOp::Mul),
        Token::Slash => Some(BinOp::Div),
        _ => None,
    }
}

impl Parser {
    #[verifier::type_invariant]
    spec fn well_formed(self) -> bool {
        self.pos <= self.tokens.len()
    }

    /// A parser that stands before the first token.
    pub fn new(tokens: Vec<Token>) -> (r: Parser)
        ensures
            r@ == (ParserView { tokens: tokens_view(tokens@), pos: 0 }),
    {
        Parser { tokens, pos: 0 }
    }

    /// Whether every token has been read.
    pub fn is_finished(&self) -> (r: bool)
        ensures
            r == (self@.pos >= self@.tokens.len()),
    {
        self.pos >= self.tokens.len()
    }

    /// The position of the next token to read.
    pub fn pos(&self) -> (r: usize)
        ensures
            r == self@.pos,
    {
        self.pos
    }

    fn at(&self, token: &Token) -> (r: bool)
        ensures
            r == is_at(self@.tokens, self@.pos, token@),
    {
        self.pos < self.tokens.len() && same_token(&self.tokens[self.pos], token)
    }

    fn word(&self, word: &str) -> (r: bool)
        ensures
            r == word_at(self@.tokens, self@.pos, word@),
    {
        if self.pos < self.tokens.len() {
            match &self.tokens[self.pos] {
                Token::Identifier(id) => same_text(id.as_str(), word),
                _ => false,
            }
        } else {
            false
        }
    }

    fn name(&self) -> (r: Option<String>)
        ensures
            match name_at(self@.tokens, self@.pos) {
                Some(name) => r matches Some(found) && found@ == name,
                None => r is None,
            },
    {
        if self.pos < self.tokens.len() {
            match &self.tokens[self.pos] {
                Token::Identifier(id) => Some(id.clone()),
                _ => None,
            }
        } else {
            None
        }
    }

    /// Steps over the token at the position, which must exist.
    fn advance(&mut self)
        requires
            old(self)@.pos < old(self)@.tokens.len(),
        ensures
            final(self)@.tokens == old(self)@.tokens,
            final(self)@.pos == old(self)@.pos + 1,
    {
        proof {
            use_type_invariant(&*self);
        }
        self.pos = self.pos + 1;
    }

    /// Goes back to a position that was reached before.
    fn rewind(&mut self, pos: usize)
        requires
            pos <= old(self)@.pos,
        ensures
            final(self)@.tokens == old(self)@.tokens,
            final(self)@.pos == pos,
    {
        proof {
            use_type_invariant(&*self);
        }
        self.pos = pos;
    }

    /// Parses an integer literal.
    pub fn parse_number_literal(&mut self) -> (r: Option<Expr>)
        ensures
            parse_matches(
                old(self)@,
                final(self)@,
                r,
                number_literal(old(self)@.tokens, old(self)@.pos),
            ),
    {
        if self.is_finished() {
            return None;
        }
        let value = match &self.tokens[self.pos] {
            Token::Number(text) => {
                let chars = to_chars(text.as_str());
                if contains_dot(&chars) {
                    None
                } else {
                    parse_integer(&chars)
                }
            },
            _ => None,
        };
        match value {
            Some(n) => {
                self.advance();
                Some(Expr::Number(n))
            },
            None => None,
        }
    }

    /// Parses a floating literal.
    pub fn parse_float_literal(&mut self) -> (r: Option<Expr>)
        ensures
            parse_matches(
                old(self)@,
                final(self)@,
                r,
                float_literal(old(self)@.tokens, old(self)@.pos),
            ),
    {
        if self.is_finished() {
            return None;
        }
        let literal = match &self.tokens[self.pos] {
            Token::Number(text) => {
                let chars = to_chars(text.as_str());
                if contains_dot(&chars) && is_float_text(&chars) {
                    Some(text.clone())
                } else {
                    None
                }
            },
            _ => None,
        };
        match literal {
            Some(text) => {
                self.advance();
                Some(Expr::Float(text))
            },
            None => None,
        }
    }

    /// Parses a string literal.
    pub fn parse_string_literal(&mut self) -> (r: Option<Expr>)
        ensures
            parse_matches(
                old(self)@,
                final(self)@,
                r,
                string_literal(old(self)@.tokens, old(self)@.pos),
            ),
    {
        if self.is_finished() {
            return None;
        }
        let literal = match &self.tokens[self.pos] {
            Token::String(s) => Some(s.clone()),
            _ => None,
        };
        match literal {
            Some(s) => {
                self.advance();
                Some(Expr::StringLiteral(s))
            },
            None => None,
        }
    }

    /// Parses a truth value.
    pub fn parse_bool_literal(&mut self) -> (r: Option<Expr>)
        ensures
            parse_matches(
                old(self)@,
                final(self)@,
                r,
                bool_literal(old(self)@.tokens, old(self)@.pos),
            ),
    {
        if self.word("true") {
            self.advance();
            Some(Expr::Boolean(true))
        } else if self.word("false") {
            self.advance();
            Some(Expr::Boolean(false))
        } else {
            None
        }
    }

    /// Parses the null literal.
    pub fn parse_null_literal(&mut self) -> (r: Option<Expr>)
        ensures
            parse_matches(
                old(self)@,
                final(self)@,
                r,
                null_literal(old(self)@.tokens, old(self)@.pos),
            ),
    {
        if self.word("null") {
            self.advance();
            Some(Expr::Null)
        } else {
            None
        }
    }

    /// Parses a reference to a name.
    pub fn parse_variable(&mut self) -> (r: Option<Expr>)
        ensures
            parse_matches(
                old(self)@,
                final(self)@,
                r,
                variable(old(self)@.tokens, old(self)@.pos),
            ),
    {
        match self.name() {
            Some(name) => {
                self.advance();
                Some(Expr::Variable(name))
            },
            None => None,
        }
    }

    /// Parses an expression.
    pub fn parse_expression(&mut self) -> (r: Option<Expr>)
        ensures
            parse_matches(
                old(self)@,
                final(self)@,
                r,
                expression(old(self)@.tokens, old(self)@.pos),
            ),
        decreases old(self)@.tokens.len() - old(self)@.pos, 6nat,
    {
        self.parse_additive_expr()
    }

    /// Parses operands of the multiplicative level joined by operators of
    /// the additive level.
    fn parse_additive_expr(&mut self) -> (r: Option<Expr>)
        ensures
            parse_matches(
                old(self)@,
                final(self)@,
                r,
                additive(old(self)@.tokens, old(self)@.pos),
            ),
        decreases old(self)@.tokens.len() - old(self)@.pos, 5nat,
    {
        let start = self.pos;
        let ghost tokens = self@.tokens;
        proof {
            use_type_invariant(&*self);
            lemma_expression_advances(tokens, start as int);
        }
        let mut left = self.parse_multiplicative_expr()?;
        loop
            invariant
                self@.tokens == tokens,
                tokens == old(self)@.tokens,
                start == old(self)@.pos,
                start < self@.pos <= tokens.len(),
                additive(tokens, start as int) == additive_tail(tokens, self@.pos, left@),
            decreases tokens.len() - self@.pos,
        {
            let op = if self.pos < self.tokens.len() {
                additive_operator(&self.tokens[self.pos])
            } else {
                None
            };
            let op = match op {
                Some(op) => op,
                None => {
                    return Some(left);
                },
            };
            proof {
                lemma_expression_advances(tokens, self@.pos + 1);
            }
            self.advance();
            match self.parse_multiplicative_expr() {
                Some(right) => {
                    left = Expr::BinaryOp { op, left: Box::new(left), right: Box::new(right) };
                },
                None => {
                    self.rewind(start);
                    return None;
                },
            }
        }
    }

    /// Parses primary expressions joined by `*` and `/`.
    fn parse_multiplicative_expr(&mut self) -> (r: Option<Expr>)
        ensures
            parse_matches(
                old(self)@,
                final(self)@,
                r,
                multiplicative(old(self)@.tokens, old(self)@.pos),
            ),
        decreases old(self)@.tokens.len() - old(self)@.pos, 4nat,
    {
        let start = self.pos;
        let ghost tokens = self@.tokens;
        proof {
            use_type_invariant(&*self);
            lemma_expression_advances(tokens, start as int);
        }
        let mut left = self.parse_primary()?;
        loop
            invariant
                self@.tokens == tokens,
                tokens == old(self)@.tokens,
                start == old(self)@.pos,
                start < self@.pos <= tokens.len(),
                multiplicative(tokens, start as int) == multiplicative_tail(
                    tokens,
                    self@.pos,
                    left@,
                ),
            decreases tokens.len() - self@.pos,
        {
            let op = if self.pos < self.tokens.len() {
                multiplicative_operator(&self.tokens[self.pos])
            } else {
                None
            };
            let op = match op {
                Some(op) => op,
                None => {
                    return Some(left);
                },
            };
            proof {
                lemma_expression_advances(tokens, self@.pos + 1);
            }
            self.advance();
            match self.parse_primary() {
                Some(right) => {
                    left = Expr::BinaryOp { op, left: Box::new(left), right: Box::new(right) };
                },
                None => {
                    self.rewind(start);
                    return None;
                },
            }
        }
    }

    /// Parses a primary expression.
    fn parse_primary(&mut self) -> (r: Option<Expr>)
        ensures
            parse_matches(old(self)@, final(self)@, r, primary(old(self)@.tokens, old(self)@.pos)),
        decreases old(self)@.tokens.len() - old(self)@.pos, 3nat,
    {
        proof {
            use_type_invariant(&*self);
        }
        match self.parse_float_literal() {
            Some(e) => {
                return Some(e);
            },
            None => {},
        }
        match self.parse_number_literal() {
            Some(e) => {
                return Some(e);
            },
            None => {},
        }
        match self.parse_string_literal() {
            Some(e) => {
                return Some(e);
            },
            None => {},
        }
        match self.parse_bool_literal() {
            Some(e) => {
                return Some(e);
            },
            None => {},
        }
        match self.parse_null_literal() {
            Some(e) => {
                return Some(e);
            },
            None => {},
        }
        match self.parse_array_literal() {
            Some(e) => {
                return Some(e);
            },
            None => {},
        }
        match self.parse_variable() {
            Some(e) => {
                return Some(e);
            },
            None => {},
        }
        if !self.at(&Token::LParen) {
            return None;
        }
        let start = self.pos;
        self.advance();
        let inner = match self.parse_expression() {
            Some(inner) => inner,
            None => {
                self.rewind(start);
                return None;
            },
        };
        proof {
            lemma_expression_advances(self@.tokens, start + 1);
        }
        if !self.at(&Token::RParen) {
            self.rewind(start);
            return None;
        }
        self.advance();
        Some(inner)
    }

    /// Parses an array literal.
    pub fn parse_array_literal(&mut self) -> (r: Option<Expr>)
        ensures
            parse_matches(
                old(self)@,
                final(self)@,
                r,
                array_literal(old(self)@.tokens, old(self)@.pos),
            ),
        decreases old(self)@.tokens.len() - old(self)@.pos, 2nat,
    {
        proof {
            use_type_invariant(&*self);
        }
        if !self.at(&Token::LBracket) {
            return None;
        }
        let start = self.pos;
        let ghost tokens = self@.tokens;
        self.advance();
        let mut elements: Vec<Box<Expr>> = Vec::new();
        if self.at(&Token::RBracket) {
            self.advance();
            assert(expr_list_view(elements@) =~= Seq::<ExprView>::empty());
            return Some(Expr::Array(elements));
        }
        assert(expr_list_view(elements@) =~= Seq::<ExprView>::empty());
        loop
            invariant
                self@.tokens == tokens,
                tokens == old(self)@.tokens,
                start == old(self)@.pos,
                start < self@.pos <= tokens.len(),
                array_literal(tokens, start as int) == array_items(
                    tokens,
                    self@.pos,
                    expr_list_view(elements@),
                ),
            decreases tokens.len() - self@.pos,
        {
            let ghost here = self@.pos;
            let ghost items = expr_list_view(elements@);
            proof {
                lemma_expression_advances(tokens, here);
            }
            match self.parse_expression() {
                Some(element) => {
                    elements.push(Box::new(element));
                    assert(expr_list_view(elements@) =~= items.push(element@));
                },
                None => {
                    self.rewind(start);
                    return None;
                },
            }
            if self.at(&Token::RBracket) {
                self.advance();
                return Some(Expr::Array(elements));
            }
            if !self.at(&Token::Comma) {
                self.rewind(start);
                return None;
            }
            self.advance();
        }
    }

    /// Parses a name, `=`, an expression and a semicolon.
    fn parse_binding(&mut self) -> (r: Option<(String, Expr)>)
        ensures
            final(self)@.tokens == old(self)@.tokens,
            match binding(old(self)@.tokens, old(self)@.pos) {
                Some((name, value, next)) => r matches Some((found, node)) && found@ == name
                    && node@ == value && final(self)@.pos == next,
                None => r is None && final(self)@.pos == old(self)@.pos,
            },
    {
        proof {
            use_type_invariant(&*self);
        }
        let start = self.pos;
        let name = self.name()?;
        self.advance();
        if !self.at(&Token::Assign) {
            self.rewind(start);
            return None;
        }
        self.advance();
        let value = match self.parse_expression() {
            Some(value) => value,
            None => {
                self.rewind(start);
                return None;
            },
        };
        proof {
            lemma_expression_advances(self@.tokens, start + 2);
        }
        if !self.at(&Token::Semicolon) {
            self.rewind(start);
            return None;
        }
        self.advance();
        Some((name, value))
    }

    /// Parses `let NAME = expression;`.
    pub fn parse_let_declaration(&mut self) -> (r: Option<Expr>)
        ensures
            parse_matches(
                old(self)@,
                final(self)@,
                r,
                let_declaration(old(self)@.tokens, old(self)@.pos),
            ),
    {
        if !self.word("let") {
            return None;
        }
        let start = self.pos;
        self.advance();
        match self.parse_binding() {
            Some((name, value)) => Some(Expr::Let { name, value: Box::new(value) }),
            None => {
                self.rewind(start);
                None
            },
        }
    }

    /// Parses `NAME = expression;`.
    pub fn parse_assignment(&mut self) -> (r: Option<Expr>)
        ensures
            parse_matches(
                old(self)@,
                final(self)@,
                r,
                assignment(old(self)@.tokens, old(self)@.pos),
            ),
    {
        match self.parse_binding() {
            Some((name, value)) => Some(Expr::Assign { name, value: Box::new(value) }),
            None => None,
        }
    }

    /// Parses `const NAME = expression;`.
    pub fn parse_const_declaration(&mut self) -> (r: Option<Expr>)
        ensures
            parse_matches(
                old(self)@,
                final(self)@,
                r,
                const_declaration(old(self)@.tokens, old(self)@.pos),
            ),
    {
        if !self.word("const") {
            return None;
        }
        let start = self.pos;
        self.advance();
        match self.parse_binding() {
            Some((name, value)) => Some(Expr::Const { name, value: Box::new(value) }),
            None => {
                self.rewind(start);
                None
            },
        }
    }

    /// Parses an expression in parentheses followed by a semicolon.
    fn parse_argument(&mut self) -> (r: Option<Expr>)
        ensures
            parse_matches(
                old(self)@,
                final(self)@,
                r,
                argument(old(self)@.tokens, old(self)@.pos),
            ),
    {
        proof {
            use_type_invariant(&*self);
        }
        if !self.at(&Token::LParen) {
            return None;
        }
        let start = self.pos;
        self.advance();
        let inner = match self.parse_expression() {
            Some(inner) => inner,
            None => {
                self.rewind(start);
                return None;
            },
        };
        proof {
            lemma_expression_advances(self@.tokens, start + 1);
        }
        if !self.at(&Token::RParen) {
            self.rewind(start);
            return None;
        }
        self.advance();
        if !self.at(&Token::Semicolon) {
            self.rewind(start);
            return None;
        }
        self.advance();
        Some(inner)
    }

    /// Parses `console.print(expression);`.
    pub fn parse_console_print_expr(&mut self) -> (r: Option<Expr>)
        ensures
            parse_matches(
                old(self)@,
                final(self)@,
                r,
                console_print(old(self)@.tokens, old(self)@.pos),
            ),
    {
        if !self.word("console") {
            return None;
        }
        let start = self.pos;
        self.advance();
        if !self.at(&Token::Dot) {
            self.rewind(start);
            return None;
        }
        self.advance();
        if !self.word("print") {
            self.rewind(start);
            return None;
        }
        self.advance();
        match self.parse_argument() {
            Some(inner) => Some(Expr::Print(Box::new(inner))),
            None => {
                self.rewind(start);
                None
            },
        }
    }

    /// Parses `exit(expression);`.
    pub fn parse_exit_expr(&mut self) -> (r: Option<Expr>)
        ensures
            parse_matches(
                old(self)@,
                final(self)@,
                r,
                exit_statement(old(self)@.tokens, old(self)@.pos),
            ),
    {
        if !self.word("exit") {
            return None;
        }
        let start = self.pos;
        self.advance();
        match self.parse_argument() {
            Some(inner) => Some(Expr::Exit(Box::new(inner))),
            None => {
                self.rewind(start);
                None
            },
        }
    }

    /// Parses the condition of a conditional and the brace behind it.
    fn parse_condition(&mut self) -> (r: Option<Expr>)
        ensures
            parse_matches(
                old(self)@,
                final(self)@,
                r,
                condition(old(self)@.tokens, old(self)@.pos),
            ),
    {
        proof {
            use_type_invariant(&*self);
        }
        if !self.at(&Token::LParen) {
            return None;
        }
        let start = self.pos;
        self.advance();
        let inner = match self.parse_expression() {
            Some(inner) => inner,
            None => {
                self.rewind(start);
                return None;
            },
        };
        proof {
            lemma_expression_advances(self@.tokens, start + 1);
        }
        if !self.at(&Token::RParen) {
            self.rewind(start);
            return None;
        }
        self.advance();
        if !self.at(&Token::LBrace) {
            self.rewind(start);
            return None;
        }
        self.advance();
        Some(inner)
    }

    /// Parses the statements of a block up to its closing brace.
    fn parse_block(&mut self) -> (r: Option<Vec<Box<Expr>>>)
        ensures
            final(self)@.tokens == old(self)@.tokens,
            match block(old(self)@.tokens, old(self)@.pos, Seq::empty()) {
                Some((stmts, next)) => r matches Some(found) && expr_list_view(found@) == stmts
                    && final(self)@.pos == next,
                None => r is None && final(self)@.pos == old(self)@.pos,
            },
        decreases old(self)@.tokens.len() - old(self)@.pos, 3nat,
    {
        proof {
            use_type_invariant(&*self);
        }
        let start = self.pos;
        let ghost tokens = self@.tokens;
        let mut stmts: Vec<Box<Expr>> = Vec::new();
        assert(expr_list_view(stmts@) =~= Seq::<ExprView>::empty());
        loop
            invariant
                self@.tokens == tokens,
                tokens == old(self)@.tokens,
                start == old(self)@.pos,
                start <= self@.pos <= tokens.len(),
                block(tokens, start as int, Seq::empty()) == block(
                    tokens,
                    self@.pos,
                    expr_list_view(stmts@),
                ),
            decreases tokens.len() - self@.pos,
        {
            if self.is_finished() {
                self.rewind(start);
                return None;
            }
            if self.at(&Token::RBrace) {
                self.advance();
                return Some(stmts);
            }
            let ghost items = expr_list_view(stmts@);
            proof {
                lemma_statement_advances(tokens, self@.pos);
            }
            match self.parse_statement() {
                Some(stmt) => {
                    stmts.push(Box::new(stmt));
                    assert(expr_list_view(stmts@) =~= items.push(stmt@));
                },
                None => {
                    self.rewind(start);
                    return None;
                },
            }
        }
    }

    /// Parses a conditional.
    pub fn parse_if_statement(&mut self) -> (r: Option<Expr>)
        ensures
            parse_matches(
                old(self)@,
                final(self)@,
                r,
                if_statement(old(self)@.tokens, old(self)@.pos),
            ),
        decreases old(self)@.tokens.len() - old(self)@.pos, 1nat,
    {
        proof {
            use_type_invariant(&*self);
        }
        if !self.word("if") {
            return None;
        }
        let start = self.pos;
        let ghost tokens = self@.tokens;
        proof {
            lemma_statement_advances(tokens, start as int);
        }
        self.advance();
        let cond = match self.parse_condition() {
            Some(cond) => cond,
            None => {
                self.rewind(start);
                return None;
            },
        };
        proof {
            lemma_block_bounds(tokens, self@.pos, Seq::empty());
        }
        let then_branch = match self.parse_block() {
            Some(stmts) => stmts,
            None => {
                self.rewind(start);
                return None;
            },
        };
        if !self.word("else") {
            return Some(
                Expr::If { condition: Box::new(cond), then_branch, else_branch: None },
            );
        }
        self.advance();
        if !self.at(&Token::LBrace) {
            self.rewind(start);
            return None;
        }
        self.advance();
        let else_branch = match self.parse_block() {
            Some(stmts) => stmts,
            None => {
                self.rewind(start);
                return None;
            },
        };
        Some(Expr::If { condition: Box::new(cond), then_branch, else_branch: Some(else_branch) })
    }

    /// Parses a statement of any form.
    pub fn parse_statement(&mut self) -> (r: Option<Expr>)
        ensures
            parse_matches(
                old(self)@,
                final(self)@,
                r,
                statement(old(self)@.tokens, old(self)@.pos),
            ),
        decreases old(self)@.tokens.len() - old(self)@.pos, 2nat,
    {
        match self.parse_const_declaration() {
            Some(stmt) => {
                return Some(stmt);
            },
            None => {},
        }
        match self.parse_let_declaration() {
            Some(stmt) => {
                return Some(stmt);
            },
            None => {},
        }
        match self.parse_assignment() {
            Some(stmt) => {
                return Some(stmt);
            },
            None => {},
        }
        match self.parse_console_print_expr() {
            Some(stmt) => {
                return Some(stmt);
            },
            None => {},
        }
        match self.parse_exit_expr() {
            Some(stmt) => {
                return Some(stmt);
            },
            None => {},
        }
        self.parse_if_statement()
    }
}

/// Whether what the parser returned for a whole program is what the
/// grammar asks for.
pub open spec fn program_matches(
    r: Result<Vec<Expr>, CompileError>,
    expected: Result<Seq<ExprView>, CompileErrorView>,
) -> bool {
    match expected {
        Ok(stmts) => r matches Ok(found) && exprs_view(found@) == stmts,
        Err(e) => r matches Err(found) && found@ == e,
    }
}

/// Parses a whole program: statements up to the end of the tokens.
///
/// The outcome is `Ok` exactly when a statement form matches at every
/// position that is reached; otherwise it is a syntax error at the first
/// position where none does.
pub fn parse_program(tokens: Vec<Token>) -> (r: Result<Vec<Expr>, CompileError>)
    ensures
        program_matches(r, program(tokens_view(tokens@), 0, Seq::empty())),
{
    let ghost models = tokens_view(tokens@);
    let mut parser = Parser::new(tokens);
    let mut stmts: Vec<Expr> = Vec::new();
    assert(exprs_view(stmts@) =~= Seq::<ExprView>::empty());
    while !parser.is_finished()
        invariant
            models == tokens_view(tokens@),
            parser@.tokens == models,
            0 <= parser@.pos,
            program(models, 0, Seq::empty()) == program(models, parser@.pos, exprs_view(stmts@)),
        decreases models.len() - parser@.pos,
    {
        let ghost items = exprs_view(stmts@);
        proof {
            lemma_statement_advances(models, parser@.pos);
        }
        match parser.parse_statement() {
            Some(stmt) => {
                stmts.push(stmt);
                assert(exprs_view(stmts@) =~= items.push(stmt@));
            },
            None => {
                return Err(CompileError::Syntax { position: parser.pos() });
            },
        }
    }
    Ok(stmts)
}

} // verus!
