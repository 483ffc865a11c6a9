//! The grammar of the language, as functions from a token sequence and a
//! position to the node that starts there.
//!
//! Expressions have two levels of binary operators, both associating to
//! the left: `*` and `/` bind tighter than `+`, `-` and the six
//! comparisons, which share one level. So `1 + 2 < 3 + 4` reads as
//! `((1 + 2) < 3) + 4`: a comparison of two sums takes parentheses.

use vstd::prelude::*;
use crate::ast::{BinOp, ExprView};
use crate::error::CompileErrorView;
use crate::lexer::TokenView;
use crate::text::{has_dot, integer_value, is_digit};

verus! {

/// A node and the position behind its last token; nothing where no node
/// of the kind asked for starts at the position.
pub type Parsed = Option<(ExprView, int)>;

/// Whether the token at `pos` is `token`.
pub open spec fn is_at(tokens: Seq<TokenView>, pos: int, token: TokenView) -> bool {
    0 <= pos < tokens.len() && tokens[pos] == token
}

/// Whether the token at `pos` is the identifier `word`.
pub open spec fn word_at(tokens: Seq<TokenView>, pos: int, word: Seq<char>) -> bool {
    is_at(tokens, pos, TokenView::Identifier(word))
}

/// The identifier at `pos`, if the token there is one.
pub open spec fn name_at(tokens: Seq<TokenView>, pos: int) -> Option<Seq<char>> {
    if 0 <= pos < tokens.len() {
        match tokens[pos] {
            TokenView::Identifier(name) => Some(name),
            _ => None,
        }
    } else {
        None
    }
}

/// A result that counts only if it ends behind `pos` and inside the
/// tokens. Repetitions go on only while their items take tokens.
pub open spec fn advanced(tokens: Seq<TokenView>, r: Parsed, pos: int) -> Parsed {
    match r {
        Some((_, next)) if pos < next <= tokens.len() => r,
        _ => None,
    }
}

/// Where a run of digits ends.
pub open spec fn digits_end(s: Seq<char>, pos: int) -> int
    decreases s.len() - pos,
{
    if 0 <= pos < s.len() && is_digit(s[pos]) {
        digits_end(s, pos + 1)
    } else {
        pos
    }
}

pub open spec fn is_sign(c: char) -> bool {
    c == '+' || c == '-'
}

/// Whether the text from `pos` on is an exponent: `e` or `E`, an optional
/// sign, and at least one digit up to the end of the text.
pub open spec fn is_exponent(s: Seq<char>, pos: int) -> bool {
    let digits = if pos + 1 < s.len() && is_sign(s[pos + 1]) {
        pos + 2
    } else {
        pos + 1
    };
    0 <= pos < s.len() && (s[pos] == 'e' || s[pos] == 'E') && digits < s.len() && digits_end(
        s,
        digits,
    ) == s.len()
}

/// Whether a text with a decimal point reads as a floating literal: an
/// optional sign, digits around one point with at least one digit in all,
/// and an optional exponent.
pub open spec fn float_shape(s: Seq<char>) -> bool {
    let start: int = if s.len() > 0 && is_sign(s[0]) {
        1
    } else {
        0
    };
    let point = digits_end(s, start);
    let end = digits_end(s, point + 1);
    point < s.len() && s[point] == '.' && end - start > 1 && (end == s.len() || is_exponent(s, end))
}

/// An integer literal: a number token without a decimal point whose text
/// denotes a 32-bit integer.
pub open spec fn number_literal(tokens: Seq<TokenView>, pos: int) -> Parsed {
    if 0 <= pos < tokens.len() {
        match tokens[pos] {
            TokenView::Number(text) => if has_dot(text) {
                None
            } else {
                match integer_value(text) {
                    Some(n) => Some((ExprView::Number(n), pos + 1)),
                    None => None,
                }
            },
            _ => None,
        }
    } else {
        None
    }
}

/// A floating literal: a number token with a decimal point whose text has
/// the shape of one.
pub open spec fn float_literal(tokens: Seq<TokenView>, pos: int) -> Parsed {
    if 0 <= pos < tokens.len() {
        match tokens[pos] {
            TokenView::Number(text) => if has_dot(text) && float_shape(text) {
                Some((ExprView::Float(text), pos + 1))
            } else {
                None
            },
            _ => None,
        }
    } else {
        None
    }
}

/// A string literal.
pub open spec fn string_literal(tokens: Seq<TokenView>, pos: int) -> Parsed {
    if 0 <= pos < tokens.len() {
        match tokens[pos] {
            TokenView::Text(s) => Some((ExprView::StringLiteral(s), pos + 1)),
            _ => None,
        }
    } else {
        None
    }
}

/// One of the keywords `true` and `false`.
pub open spec fn bool_literal(tokens: Seq<TokenView>, pos: int) -> Parsed {
    if word_at(tokens, pos, "true"@) {
        Some((ExprView::Boolean(true), pos + 1))
    } else if word_at(tokens, pos, "false"@) {
        Some((ExprView::Boolean(false), pos + 1))
    } else {
        None
    }
}

/// The keyword `null`.
pub open spec fn null_literal(tokens: Seq<TokenView>, pos: int) -> Parsed {
    if word_at(tokens, pos, "null"@) {
        Some((ExprView::Null, pos + 1))
    } else {
        None
    }
}

/// A reference to a name: any identifier.
pub open spec fn variable(tokens: Seq<TokenView>, pos: int) -> Parsed {
    match name_at(tokens, pos) {
        Some(name) => Some((ExprView::Variable(name), pos + 1)),
        None => None,
    }
}

/// The operator of the multiplicative level that a token stands for.
pub open spec fn multiplicative_op(token: TokenView) -> Option<BinOp> {
    match token {
        TokenView::Star => Some(BinOp::Mul),
        TokenView::Slash => Some(BinOp::Div),
        _ => None,
    }
}

/// The operator of the additive level that a token stands for. The
/// comparisons belong to this level.
pub open spec fn additive_op(token: TokenView) -> Option<BinOp> {
    match token {
        TokenView::Plus => Some(BinOp::Add),
        TokenView::Minus => Some(BinOp::Sub),
        TokenView::Equal => Some(BinOp::Equal),
        TokenView::NotEqual => Some(BinOp::NotEqual),
        TokenView::LessThan => Some(BinOp::Lt),
        TokenView::GreaterThan => Some(BinOp::Gt),
        TokenView::LessThanEqual => Some(BinOp::Lte),
        TokenView::GreaterThanEqual => Some(BinOp::Gte),
        _ => None,
    }
}

/// The operator of the multiplicative level at `pos`.
pub open spec fn multiplicative_op_at(tokens: Seq<TokenView>, pos: int) -> Option<BinOp> {
    if 0 <= pos < tokens.len() {
        multiplicative_op(tokens[pos])
    } else {
        None
    }
}

/// The operator of the additive level at `pos`.
pub open spec fn additive_op_at(tokens: Seq<TokenView>, pos: int) -> Option<BinOp> {
    if 0 <= pos < tokens.len() {
        additive_op(tokens[pos])
    } else {
        None
    }
}

pub open spec fn binary(op: BinOp, left: ExprView, right: ExprView) -> ExprView {
    ExprView::BinaryOp { op, left: Box::new(left), right: Box::new(right) }
}

/// An expression.
pub open spec fn expression(tokens: Seq<TokenView>, pos: int) -> Parsed
    decreases tokens.len() - pos, 6nat,
{
    additive(tokens, pos)
}

/// Operands of the multiplicative level joined by operators of the
/// additive level.
pub open spec fn additive(tokens: Seq<TokenView>, pos: int) -> Parsed
    decreases tokens.len() - pos, 5nat,
{
    match advanced(tokens, multiplicative(tokens, pos), pos) {
        Some((left, next)) => additive_tail(tokens, next, left),
        None => None,
    }
}

/// The rest of an additive chain whose operands so far make up `left`.
pub open spec fn additive_tail(tokens: Seq<TokenView>, pos: int, left: ExprView) -> Parsed
    decreases tokens.len() - pos, 7nat,
{
    match additive_op_at(tokens, pos) {
        Some(op) => match advanced(tokens, multiplicative(tokens, pos + 1), pos) {
            Some((right, next)) => additive_tail(tokens, next, binary(op, left, right)),
            None => None,
        },
        None => Some((left, pos)),
    }
}

/// Primary expressions joined by `*` and `/`.
pub open spec fn multiplicative(tokens: Seq<TokenView>, pos: int) -> Parsed
    decreases tokens.len() - pos, 4nat,
{
    match advanced(tokens, primary(tokens, pos), pos) {
        Some((left, next)) => multiplicative_tail(tokens, next, left),
        None => None,
    }
}

/// The rest of a multiplicative chain whose operands so far make up
/// `left`.
pub open spec fn multiplicative_tail(tokens: Seq<TokenView>, pos: int, left: ExprView) -> Parsed
    decreases tokens.len() - pos, 7nat,
{
    match multiplicative_op_at(tokens, pos) {
        Some(op) => match advanced(tokens, primary(tokens, pos + 1), pos) {
            Some((right, next)) => multiplicative_tail(tokens, next, binary(op, left, right)),
            None => None,
        },
        None => Some((left, pos)),
    }
}

/// A primary expression: a literal, an array, a name, or an expression in
/// parentheses. The alternatives are tried in this order: float, integer,
/// string, truth value, null, array, name, parentheses.
pub open spec fn primary(tokens: Seq<TokenView>, pos: int) -> Parsed
    decreases tokens.len() - pos, 3nat,
{
    if float_literal(tokens, pos) is Some {
        float_literal(tokens, pos)
    } else if number_literal(tokens, pos) is Some {
        number_literal(tokens, pos)
    } else if string_literal(tokens, pos) is Some {
        string_literal(tokens, pos)
    } else if bool_literal(tokens, pos) is Some {
        bool_literal(tokens, pos)
    } else if null_literal(tokens, pos) is Some {
        null_literal(tokens, pos)
    } else if array_literal(tokens, pos) is Some {
        array_literal(tokens, pos)
    } else if variable(tokens, pos) is Some {
        variable(tokens, pos)
    } else if is_at(tokens, pos, TokenView::LParen) {
        match expression(tokens, pos + 1) {
            Some((inner, next)) => if is_at(tokens, next, TokenView::RParen) {
                Some((inner, next + 1))
            } else {
                None
            },
            None => None,
        }
    } else {
        None
    }
}

/// An array literal: expressions between brackets, separated by commas.
pub open spec fn array_literal(tokens: Seq<TokenView>, pos: int) -> Parsed
    decreases tokens.len() - pos, 2nat,
{
    if !is_at(tokens, pos, TokenView::LBracket) {
        None
    } else if is_at(tokens, pos + 1, TokenView::RBracket) {
        Some((ExprView::Array(Seq::empty()), pos + 2))
    } else {
        array_items(tokens, pos + 1, Seq::empty())
    }
}

/// The rest of an array literal from the element at `pos` on, behind the
/// elements read so far.
pub open spec fn array_items(tokens: Seq<TokenView>, pos: int, items: Seq<ExprView>) -> Parsed
    decreases tokens.len() - pos, 7nat,
{
    match advanced(tokens, expression(tokens, pos), pos) {
        Some((item, next)) => if is_at(tokens, next, TokenView::RBracket) {
            Some((ExprView::Array(items.push(item)), next + 1))
        } else if is_at(tokens, next, TokenView::Comma) {
            array_items(tokens, next + 1, items.push(item))
        } else {
            None
        },
        None => None,
    }
}

/// A named declaration behind its keyword: a name, `=`, an expression and
/// a semicolon.
pub open spec fn binding(tokens: Seq<TokenView>, pos: int) -> Option<(Seq<char>, ExprView, int)> {
    match name_at(tokens, pos) {
        Some(name) => if is_at(tokens, pos + 1, TokenView::Assign) {
            match expression(tokens, pos + 2) {
                Some((value, next)) => if is_at(tokens, next, TokenView::Semicolon) {
                    Some((name, value, next + 1))
                } else {
                    None
                },
                None => None,
            }
        } else {
            None
        },
        None => None,
    }
}

/// `const NAME = expression;`
pub open spec fn const_declaration(tokens: Seq<TokenView>, pos: int) -> Parsed {
    if word_at(tokens, pos, "const"@) {
        match binding(tokens, pos + 1) {
            Some((name, value, next)) => Some(
                (ExprView::Const { name, value: Box::new(value) }, next),
            ),
            None => None,
        }
    } else {
        None
    }
}

/// `let NAME = expression;`
pub open spec fn let_declaration(tokens: Seq<TokenView>, pos: int) -> Parsed {
    if word_at(tokens, pos, "let"@) {
        match binding(tokens, pos + 1) {
            Some((name, value, next)) => Some((ExprView::Let { name, value: Box::new(value) }, next)),
            None => None,
        }
    } else {
        None
    }
}

/// `NAME = expression;`
pub open spec fn assignment(tokens: Seq<TokenView>, pos: int) -> Parsed {
    match binding(tokens, pos) {
        Some((name, value, next)) => Some((ExprView::Assign { name, value: Box::new(value) }, next)),
        None => None,
    }
}

/// An expression in parentheses followed by a semicolon: what follows the
/// keyword of a print or an exit statement.
pub open spec fn argument(tokens: Seq<TokenView>, pos: int) -> Parsed {
    if is_at(tokens, pos, TokenView::LParen) {
        match expression(tokens, pos + 1) {
            Some((inner, next)) => if is_at(tokens, next, TokenView::RParen) && is_at(
                tokens,
                next + 1,
                TokenView::Semicolon,
            ) {
                Some((inner, next + 2))
            } else {
                None
            },
            None => None,
        }
    } else {
        None
    }
}

/// `console.print(expression);`
pub open spec fn console_print(tokens: Seq<TokenView>, pos: int) -> Parsed {
    if word_at(tokens, pos, "console"@) && is_at(tokens, pos + 1, TokenView::Dot) && word_at(
        tokens,
        pos + 2,
        "print"@,
    ) {
        match argument(tokens, pos + 3) {
            Some((inner, next)) => Some((ExprView::Print(Box::new(inner)), next)),
            None => None,
        }
    } else {
        None
    }
}

/// `exit(expression);`
pub open spec fn exit_statement(tokens: Seq<TokenView>, pos: int) -> Parsed {
    if word_at(tokens, pos, "exit"@) {
        match argument(tokens, pos + 1) {
            Some((inner, next)) => Some((ExprView::Exit(Box::new(inner)), next)),
            None => None,
        }
    } else {
        None
    }
}

/// The condition of a conditional behind its keyword, up to the brace
/// that opens the first branch: the condition and the position of the
/// branch's first statement.
pub open spec fn condition(tokens: Seq<TokenView>, pos: int) -> Parsed {
    if is_at(tokens, pos, TokenView::LParen) {
        match expression(tokens, pos + 1) {
            Some((inner, next)) => if is_at(tokens, next, TokenView::RParen) && is_at(
                tokens,
                next + 1,
                TokenView::LBrace,
            ) {
                Some((inner, next + 2))
            } else {
                None
            },
            None => None,
        }
    } else {
        None
    }
}

/// A block that counts only if it ends behind `pos` and inside the tokens.
pub open spec fn closed(
    tokens: Seq<TokenView>,
    r: Option<(Seq<ExprView>, int)>,
    pos: int,
) -> Option<(Seq<ExprView>, int)> {
    match r {
        Some((_, next)) if pos < next <= tokens.len() => r,
        _ => None,
    }
}

/// A statement. The forms are tried in this order: constant declaration,
/// variable declaration, assignment, print, exit, conditional.
pub open spec fn statement(tokens: Seq<TokenView>, pos: int) -> Parsed
    decreases tokens.len() - pos, 2nat,
{
    if const_declaration(tokens, pos) is Some {
        const_declaration(tokens, pos)
    } else if let_declaration(tokens, pos) is Some {
        let_declaration(tokens, pos)
    } else if assignment(tokens, pos) is Some {
        assignment(tokens, pos)
    } else if console_print(tokens, pos) is Some {
        console_print(tokens, pos)
    } else if exit_statement(tokens, pos) is Some {
        exit_statement(tokens, pos)
    } else {
        if_statement(tokens, pos)
    }
}

/// `if (expression) { statements }`, optionally followed by
/// `else { statements }`.
pub open spec fn if_statement(tokens: Seq<TokenView>, pos: int) -> Parsed
    decreases tokens.len() - pos, 1nat,
{
    if !word_at(tokens, pos, "if"@) {
        None
    } else {
        match advanced(tokens, condition(tokens, pos + 1), pos) {
            None => None,
            Some((cond, body)) => match closed(tokens, block(tokens, body, Seq::empty()), body) {
                None => None,
                Some((then_branch, next)) => if !word_at(tokens, next, "else"@) {
                    Some(
                        (
                            ExprView::If {
                                condition: Box::new(cond),
                                then_branch,
                                else_branch: None,
                            },
                            next,
                        ),
                    )
                } else if !is_at(tokens, next + 1, TokenView::LBrace) {
                    None
                } else {
                    match block(tokens, next + 2, Seq::empty()) {
                        None => None,
                        Some((else_branch, end)) => Some(
                            (
                                ExprView::If {
                                    condition: Box::new(cond),
                                    then_branch,
                                    else_branch: Some(else_branch),
                                },
                                end,
                            ),
                        ),
                    }
                },
            },
        }
    }
}

/// The rest of a block from the statement at `pos` on, behind the
/// statements read so far: all statements up to the closing brace, and
/// the position behind that brace. A block that the tokens do not close
/// is no block.
pub open spec fn block(tokens: Seq<TokenView>, pos: int, stmts: Seq<ExprView>) -> Option<
    (Seq<ExprView>, int),
>
    decreases tokens.len() - pos, 3nat,
{
    if pos < 0 || pos >= tokens.len() {
        None
    } else if tokens[pos] == TokenView::RBrace {
        Some((stmts, pos + 1))
    } else {
        match advanced(tokens, statement(tokens, pos), pos) {
            Some((stmt, next)) => block(tokens, next, stmts.push(stmt)),
            None => None,
        }
    }
}

/// The statements of a program from `pos` on, behind the statements read
/// so far. Where no statement form matches, the outcome is a syntax error
/// at that position.
pub open spec fn program(tokens: Seq<TokenView>, pos: int, stmts: Seq<ExprView>) -> Result<
    Seq<ExprView>,
    CompileErrorView,
>
    decreases tokens.len() - pos,
{
    if pos < 0 || pos >= tokens.len() {
        Ok(stmts)
    } else {
        match advanced(tokens, statement(tokens, pos), pos) {
            Some((stmt, next)) => program(tokens, next, stmts.push(stmt)),
            None => Err(CompileErrorView::Syntax { position: pos }),
        }
    }
}

/// An additive chain ends at or behind the position where its rest
/// starts, inside the tokens.
pub proof fn lemma_additive_tail_bounds(tokens: Seq<TokenView>, pos: int, left: ExprView)
    requires
        0 <= pos <= tokens.len(),
    ensures
        additive_tail(tokens, pos, left) matches Some((_, next)) ==> pos <= next <= tokens.len(),
    decreases tokens.len() - pos,
{
    match additive_op_at(tokens, pos) {
        Some(op) => match advanced(tokens, multiplicative(tokens, pos + 1), pos) {
            Some((right, next)) => {
                lemma_additive_tail_bounds(tokens, next, binary(op, left, right));
            },
            None => {},
        },
        None => {},
    }
}

/// A multiplicative chain ends at or behind the position where its rest
/// starts, inside the tokens.
pub proof fn lemma_multiplicative_tail_bounds(tokens: Seq<TokenView>, pos: int, left: ExprView)
    requires
        0 <= pos <= tokens.len(),
    ensures
        multiplicative_tail(tokens, pos, left) matches Some((_, next)) ==> pos <= next
            <= tokens.len(),
    decreases tokens.len() - pos,
{
    match multiplicative_op_at(tokens, pos) {
        Some(op) => match advanced(tokens, primary(tokens, pos + 1), pos) {
            Some((right, next)) => {
                lemma_multiplicative_tail_bounds(tokens, next, binary(op, left, right));
            },
            None => {},
        },
        None => {},
    }
}

/// The rest of an array literal ends behind the position where it starts,
/// inside the tokens.
pub proof fn lemma_array_items_bounds(tokens: Seq<TokenView>, pos: int, items: Seq<ExprView>)
    requires
        0 <= pos <= tokens.len(),
    ensures
        array_items(tokens, pos, items) matches Some((_, next)) ==> pos < next <= tokens.len(),
    decreases tokens.len() - pos,
{
    match advanced(tokens, expression(tokens, pos), pos) {
        Some((item, next)) => {
            if !is_at(tokens, next, TokenView::RBracket) && is_at(tokens, next, TokenView::Comma) {
                lemma_array_items_bounds(tokens, next + 1, items.push(item));
            }
        },
        None => {},
    }
}

/// Every expression takes at least one token and ends inside the tokens,
/// and so does every operand of either level.
pub proof fn lemma_expression_advances(tokens: Seq<TokenView>, pos: int)
    requires
        0 <= pos,
    ensures
        expression(tokens, pos) matches Some((_, next)) ==> pos < next <= tokens.len(),
        additive(tokens, pos) matches Some((_, next)) ==> pos < next <= tokens.len(),
        multiplicative(tokens, pos) matches Some((_, next)) ==> pos < next <= tokens.len(),
        primary(tokens, pos) matches Some((_, next)) ==> pos < next <= tokens.len(),
        advanced(tokens, expression(tokens, pos), pos) == expression(tokens, pos),
        advanced(tokens, multiplicative(tokens, pos), pos) == multiplicative(tokens, pos),
        advanced(tokens, primary(tokens, pos), pos) == primary(tokens, pos),
{
    match advanced(tokens, multiplicative(tokens, pos), pos) {
        Some((left, next)) => {
            lemma_additive_tail_bounds(tokens, next, left);
        },
        None => {},
    }
    match advanced(tokens, primary(tokens, pos), pos) {
        Some((left, next)) => {
            lemma_multiplicative_tail_bounds(tokens, next, left);
        },
        None => {},
    }
    if pos < tokens.len() {
        lemma_array_items_bounds(tokens, pos + 1, Seq::empty());
        match advanced(tokens, multiplicative(tokens, pos + 1), pos + 1) {
            Some((left, next)) => {
                lemma_additive_tail_bounds(tokens, next, left);
            },
            None => {},
        }
    }
}

/// A block ends behind the position where it starts, inside the tokens.
pub proof fn lemma_block_bounds(tokens: Seq<TokenView>, pos: int, stmts: Seq<ExprView>)
    requires
        0 <= pos,
    ensures
        block(tokens, pos, stmts) matches Some((_, next)) ==> pos < next <= tokens.len(),
        closed(tokens, block(tokens, pos, stmts), pos) == block(tokens, pos, stmts),
    decreases tokens.len() - pos,
{
    if pos < tokens.len() && tokens[pos] != TokenView::RBrace {
        match advanced(tokens, statement(tokens, pos), pos) {
            Some((stmt, next)) => {
                lemma_block_bounds(tokens, next, stmts.push(stmt));
            },
            None => {},
        }
    }
}

/// Every statement takes at least one token and ends inside the tokens.
pub proof fn lemma_statement_advances(tokens: Seq<TokenView>, pos: int)
    requires
        0 <= pos,
    ensures
        statement(tokens, pos) matches Some((_, next)) ==> pos < next <= tokens.len(),
        advanced(tokens, statement(tokens, pos), pos) == statement(tokens, pos),
        advanced(tokens, condition(tokens, pos + 1), pos) == condition(tokens, pos + 1),
{
    lemma_expression_advances(tokens, pos + 1);
    lemma_expression_advances(tokens, pos + 2);
    lemma_expression_advances(tokens, pos + 3);
    lemma_expression_advances(tokens, pos + 4);
    match advanced(tokens, condition(tokens, pos + 1), pos) {
        Some((cond, body)) => {
            lemma_block_bounds(tokens, body, Seq::empty());
            match block(tokens, body, Seq::empty()) {
                Some((_, next)) => {
                    lemma_block_bounds(tokens, next + 2, Seq::empty());
                },
                None => {},
            }
        },
        None => {},
    }
}

/// Nothing but a position where no statement form matches stops the
/// parsing of a program, and the error names that position.
pub proof fn lemma_program_fails_on_syntax_only(
    tokens: Seq<TokenView>,
    pos: int,
    stmts: Seq<ExprView>,
)
    ensures
        program(tokens, pos, stmts) matches Err(e) ==> (e matches CompileErrorView::Syntax {
            position,
        } && pos <= position < tokens.len()),
    decreases tokens.len() - pos,
{
    if 0 <= pos < tokens.len() {
        match advanced(tokens, statement(tokens, pos), pos) {
            Some((stmt, next)) => lemma_program_fails_on_syntax_only(
                tokens,
                next,
                stmts.push(stmt),
            ),
            None => {},
        }
    }
}

} // verus!
