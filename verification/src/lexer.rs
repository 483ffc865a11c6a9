//! The lexer: one left-to-right scan that turns source text into tokens.

use vstd::prelude::*;
use vstd::string::*;
use crate::error::{CompileError, CompileErrorView};
use crate::text::{
    char_is_digit,
    char_is_letter,
    char_is_letter_or_digit,
    char_is_space,
    is_digit,
    is_letter,
    is_letter_or_digit,
    is_space,
    push_char,
    text_of,
    to_chars,
};

verus! {

/// One lexical unit. A number keeps the text it was written with; a
/// string holds its characters with the escapes resolved; keywords are
/// identifiers like any other.
#[derive(Debug, PartialEq)]
pub enum Token {
    Number(String),
    String(String),
    Identifier(String),
    Plus,
    Minus,
    Star,
    Slash,
    Equal,
    NotEqual,
    LessThan,
    GreaterThan,
    LessThanEqual,
    GreaterThanEqual,
    Assign,
    Semicolon,
    Dot,
    LParen,
    RParen,
    LBracket,
    RBracket,
    LBrace,
    RBrace,
    Comma,
}

/// The mathematical model of a [`Token`].
pub enum TokenView {
    Number(Seq<char>),
    Text(Seq<char>),
    Identifier(Seq<char>),
    Plus,
    Minus,
    Star,
    Slash,
    Equal,
    NotEqual,
    LessThan,
    GreaterThan,
    LessThanEqual,
    GreaterThanEqual,
    Assign,
    Semicolon,
    Dot,
    LParen,
    RParen,
    LBracket,
    RBracket,
    LBrace,
    RBrace,
    Comma,
}

impl View for Token {
    type V = TokenView;

    open spec fn view(&self) -> TokenView {
        match self {
            Token::Number(s) => TokenView::Number(s@),
            Token::String(s) => TokenView::Text(s@),
            Token::Identifier(s) => TokenView::Identifier(s@),
            Token::Plus => TokenView::Plus,
            Token::Minus => TokenView::Minus,
            Token::Star => TokenView::Star,
            Token::Slash => TokenView::Slash,
            Token::Equal => TokenView::Equal,
            Token::NotEqual => TokenView::NotEqual,
            Token::LessThan => TokenView::LessThan,
            Token::GreaterThan => TokenView::GreaterThan,
            Token::LessThanEqual => TokenView::LessThanEqual,
            Token::GreaterThanEqual => TokenView::GreaterThanEqual,
            Token::Assign => TokenView::Assign,
            Token::Semicolon => TokenView::Semicolon,
            Token::Dot => TokenView::Dot,
            Token::LParen => TokenView::LParen,
            Token::RParen => TokenView::RParen,
            Token::LBracket => TokenView::LBracket,
            Token::RBracket => TokenView::RBracket,
            Token::LBrace => TokenView::LBrace,
            Token::RBrace => TokenView::RBrace,
            Token::Comma => TokenView::Comma,
        }
    }
}

impl Clone for Token {
    fn clone(&self) -> (r: Token)
        ensures
            r@ == self@,
    {
        match self {
            Token::Number(s) => Token::Number(s.clone()),
            Token::String(s) => Token::String(s.clone()),
            Token::Identifier(s) => Token::Identifier(s.clone()),
            Token::Plus => Token::Plus,
            Token::Minus => Token::Minus,
            Token::Star => Token::Star,
            Token::Slash => Token::Slash,
            Token::Equal => Token::Equal,
            Token::NotEqual => Token::NotEqual,
            Token::LessThan => Token::LessThan,
            Token::GreaterThan => Token::GreaterThan,
            Token::LessThanEqual => Token::LessThanEqual,
            Token::GreaterThanEqual => Token::GreaterThanEqual,
            Token::Assign => Token::Assign,
            Token::Semicolon => Token::Semicolon,
            Token::Dot => Token::Dot,
            Token::LParen => Token::LParen,
            Token::RParen => Token::RParen,
            Token::LBracket => Token::LBracket,
            Token::RBracket => Token::RBracket,
            Token::LBrace => Token::LBrace,
            Token::RBrace => Token::RBrace,
            Token::Comma => Token::Comma,
        }
    }
}

/// Models of a list of tokens, element by element.
pub open spec fn tokens_view(tokens: Seq<Token>) -> Seq<TokenView> {
    Seq::new(tokens.len(), |i: int| tokens[i]@)
}

/// Where a numeric literal ends: it runs over digits and over one decimal
/// point at most.
pub open spec fn number_end(s: Seq<char>, pos: int, dotted: bool) -> int
    decreases s.len() - pos,
{
    if 0 <= pos < s.len() && is_digit(s[pos]) {
        number_end(s, pos + 1, dotted)
    } else if 0 <= pos < s.len() && s[pos] == '.' && !dotted {
        number_end(s, pos + 1, true)
    } else {
        pos
    }
}

/// Whether a character may continue an identifier.
pub open spec fn is_word_char(c: char) -> bool {
    is_letter_or_digit(c) || c == '_'
}

/// Where an identifier ends.
pub open spec fn word_end(s: Seq<char>, pos: int) -> int
    decreases s.len() - pos,
{
    if 0 <= pos < s.len() && is_word_char(s[pos]) {
        word_end(s, pos + 1)
    } else {
        pos
    }
}

/// Where a line comment ends: at the next line break, which is left in
/// place, or at the end of the text.
pub open spec fn line_end(s: Seq<char>, pos: int) -> int
    decreases s.len() - pos,
{
    if 0 <= pos < s.len() && s[pos] != '\n' {
        line_end(s, pos + 1)
    } else {
        pos
    }
}

/// Where a block comment ends: behind the next `*/`, or at the end of the
/// text.
pub open spec fn block_end(s: Seq<char>, pos: int) -> int
    decreases s.len() - pos,
{
    if pos < 0 || pos >= s.len() {
        pos
    } else if s[pos] == '*' && pos + 1 < s.len() && s[pos + 1] == '/' {
        pos + 2
    } else {
        block_end(s, pos + 1)
    }
}

/// The character that an escape sequence stands for. A character without
/// a meaning of its own stands for itself.
pub open spec fn unescape(c: char) -> char {
    if c == 'n' {
        '\n'
    } else if c == 't' {
        '\t'
    } else if c == 'r' {
        '\r'
    } else {
        c
    }
}

/// The rest of a string literal from `pos` on, added to the characters
/// read so far: the complete text and the position behind the closing
/// quote, or nothing where the text ends before the literal does.
pub open spec fn string_body(s: Seq<char>, pos: int, quote: char, read: Seq<char>) -> Option<
    (Seq<char>, int),
>
    decreases s.len() - pos,
{
    if pos < 0 || pos >= s.len() {
        None
    } else if s[pos] == quote {
        Some((read, pos + 1))
    } else if s[pos] == '\\' {
        if pos + 1 >= s.len() {
            None
        } else {
            string_body(s, pos + 2, quote, read.push(unescape(s[pos + 1])))
        }
    } else {
        string_body(s, pos + 1, quote, read.push(s[pos]))
    }
}

/// What the scan finds at a position.
pub enum Scan {
    /// A token, and the position behind it.
    Token(TokenView, int),
    /// Nothing that counts, up to the position given.
    Skip(int),
    /// A string literal that the text does not close.
    Unterminated,
}

/// Whether the character behind `pos` is `c`.
pub open spec fn followed_by(s: Seq<char>, pos: int, c: char) -> bool {
    pos + 1 < s.len() && s[pos + 1] == c
}

/// What the scan finds at `pos`, which lies inside the text. White space,
/// comments and characters without a meaning are skipped.
pub open spec fn scan(s: Seq<char>, pos: int) -> Scan {
    let c = s[pos];
    if is_space(c) {
        Scan::Skip(pos + 1)
    } else if is_digit(c) {
        let end = number_end(s, pos + 1, false);
        Scan::Token(TokenView::Number(s.subrange(pos, end)), end)
    } else if c == '"' || c == '\'' {
        match string_body(s, pos + 1, c, Seq::empty()) {
            Some((text, end)) => Scan::Token(TokenView::Text(text), end),
            None => Scan::Unterminated,
        }
    } else if is_letter(c) || c == '_' {
        let end = word_end(s, pos + 1);
        Scan::Token(TokenView::Identifier(s.subrange(pos, end)), end)
    } else if c == '+' {
        Scan::Token(TokenView::Plus, pos + 1)
    } else if c == '-' {
        Scan::Token(TokenView::Minus, pos + 1)
    } else if c == '*' {
        Scan::Token(TokenView::Star, pos + 1)
    } else if c == '/' {
        if followed_by(s, pos, '/') {
            Scan::Skip(line_end(s, pos + 2))
        } else if followed_by(s, pos, '*') {
            Scan::Skip(block_end(s, pos + 2))
        } else {
            Scan::Token(TokenView::Slash, pos + 1)
        }
    } else if c == '=' {
        if followed_by(s, pos, '=') {
            Scan::Token(TokenView::Equal, pos + 2)
        } else {
            Scan::Token(TokenView::Assign, pos + 1)
        }
    } else if c == '!' {
        if followed_by(s, pos, '=') {
            Scan::Token(TokenView::NotEqual, pos + 2)
        } else {
            Scan::Skip(pos + 1)
        }
    } else if c == '<' {
        if followed_by(s, pos, '=') {
            Scan::Token(TokenView::LessThanEqual, pos + 2)
        } else {
            Scan::Token(TokenView::LessThan, pos + 1)
        }
    } else if c == '>' {
        if followed_by(s, pos, '=') {
            Scan::Token(TokenView::GreaterThanEqual, pos + 2)
        } else {
            Scan::Token(TokenView::GreaterThan, pos + 1)
        }
    } else if c == '.' {
        Scan::Token(TokenView::Dot, pos + 1)
    } else if c == ';' {
        Scan::Token(TokenView::Semicolon, pos + 1)
    } else if c == '(' {
        Scan::Token(TokenView::LParen, pos + 1)
    } else if c == ')' {
        Scan::Token(TokenView::RParen, pos + 1)
    } else if c == '[' {
        Scan::Token(TokenView::LBracket, pos + 1)
    } else if c == ']' {
        Scan::Token(TokenView::RBracket, pos + 1)
    } else if c == ',' {
        Scan::Token(TokenView::Comma, pos + 1)
    } else if c == '{' {
        Scan::Token(TokenView::LBrace, pos + 1)
    } else if c == '}' {
        Scan::Token(TokenView::RBrace, pos + 1)
    } else {
        Scan::Skip(pos + 1)
    }
}

pub proof fn lemma_number_end_bounds(s: Seq<char>, pos: int, dotted: bool)
    requires
        0 <= pos <= s.len(),
    ensures
        pos <= number_end(s, pos, dotted) <= s.len(),
    decreases s.len() - pos,
{
    if pos < s.len() && (is_digit(s[pos]) || (s[pos] == '.' && !dotted)) {
        lemma_number_end_bounds(s, pos + 1, dotted || !is_digit(s[pos]));
    }
}

pub proof fn lemma_word_end_bounds(s: Seq<char>, pos: int)
    requires
        0 <= pos <= s.len(),
    ensures
        pos <= word_end(s, pos) <= s.len(),
    decreases s.len() - pos,
{
    if pos < s.len() && is_word_char(s[pos]) {
        lemma_word_end_bounds(s, pos + 1);
    }
}

pub proof fn lemma_line_end_bounds(s: Seq<char>, pos: int)
    requires
        0 <= pos <= s.len(),
    ensures
        pos <= line_end(s, pos) <= s.len(),
    decreases s.len() - pos,
{
    if pos < s.len() && s[pos] != '\n' {
        lemma_line_end_bounds(s, pos + 1);
    }
}

pub proof fn lemma_block_end_bounds(s: Seq<char>, pos: int)
    requires
        0 <= pos <= s.len(),
    ensures
        pos <= block_end(s, pos) <= s.len(),
    decreases s.len() - pos,
{
    if pos < s.len() && !(s[pos] == '*' && pos + 1 < s.len() && s[pos + 1] == '/') {
        lemma_block_end_bounds(s, pos + 1);
    }
}

pub proof fn lemma_string_body_bounds(s: Seq<char>, pos: int, quote: char, read: Seq<char>)
    requires
        0 <= pos <= s.len(),
    ensures
        string_body(s, pos, quote, read) matches Some((_, end)) ==> pos < end <= s.len(),
    decreases s.len() - pos,
{
    if pos < s.len() && s[pos] != quote {
        if s[pos] == '\\' {
            if pos + 1 < s.len() {
                lemma_string_body_bounds(s, pos + 2, quote, read.push(unescape(s[pos + 1])));
            }
        } else {
            lemma_string_body_bounds(s, pos + 1, quote, read.push(s[pos]));
        }
    }
}

/// The scan always moves forward and never leaves the text.
pub proof fn lemma_scan_advances(s: Seq<char>, pos: int)
    requires
        0 <= pos < s.len(),
    ensures
        scan(s, pos) matches Scan::Token(_, next) ==> pos < next <= s.len(),
        scan(s, pos) matches Scan::Skip(next) ==> pos < next <= s.len(),
{
    lemma_number_end_bounds(s, pos + 1, false);
    lemma_word_end_bounds(s, pos + 1);
    if pos + 2 <= s.len() {
        lemma_line_end_bounds(s, pos + 2);
        lemma_block_end_bounds(s, pos + 2);
    }
    lemma_string_body_bounds(s, pos + 1, s[pos], Seq::empty());
}

/// The tokens of the text from `pos` on, added to the tokens found so far.
pub open spec fn lex_from(s: Seq<char>, pos: int, found: Seq<TokenView>) -> Result<
    Seq<TokenView>,
    CompileErrorView,
>
    decreases s.len() - pos,
{
    if pos < 0 || pos >= s.len() {
        Ok(found)
    } else {
        proof {
            lemma_scan_advances(s, pos);
        }
        match scan(s, pos) {
            Scan::Token(token, next) => lex_from(s, next, found.push(token)),
            Scan::Skip(next) => lex_from(s, next, found),
            Scan::Unterminated => Err(CompileErrorView::UnterminatedString),
        }
    }
}

/// Nothing but a string literal that is left open stops the lexer.
pub proof fn lemma_lexer_fails_on_open_string_only(s: Seq<char>, pos: int, found: Seq<TokenView>)
    ensures
        lex_from(s, pos, found) matches Err(e) ==> e == CompileErrorView::UnterminatedString,
    decreases s.len() - pos,
{
    if 0 <= pos < s.len() {
        lemma_scan_advances(s, pos);
        match scan(s, pos) {
            Scan::Token(token, next) => lemma_lexer_fails_on_open_string_only(
                s,
                next,
                found.push(token),
            ),
            Scan::Skip(next) => lemma_lexer_fails_on_open_string_only(s, next, found),
            Scan::Unterminated => {},
        }
    }
}

/// The tokens of a source text, in source order; an error where a string
/// literal is left open.
pub open spec fn lex_spec(s: Seq<char>) -> Result<Seq<TokenView>, CompileErrorView> {
    lex_from(s, 0, Seq::empty())
}

fn scan_number(chars: &Vec<char>, start: usize, dotted: bool) -> (end: usize)
    requires
        start <= chars.len(),
    ensures
        end == number_end(chars@, start as int, dotted),
        start <= end <= chars.len(),
{
    let mut pos = start;
    let mut seen = dotted;
    while pos < chars.len() && (char_is_digit(chars[pos]) || (chars[pos] == '.' && !seen))
        invariant
            start <= pos <= chars.len(),
            number_end(chars@, start as int, dotted) == number_end(chars@, pos as int, seen),
        decreases chars.len() - pos,
    {
        if !char_is_digit(chars[pos]) {
            seen = true;
        }
        pos += 1;
    }
    pos
}

fn is_word(c: char) -> (r: bool)
    ensures
        r == is_word_char(c),
{
    char_is_letter_or_digit(c) || c == '_'
}

fn scan_word(chars: &Vec<char>, start: usize) -> (end: usize)
    requires
        start <= chars.len(),
    ensures
        end == word_end(chars@, start as int),
        start <= end <= chars.len(),
{
    let mut pos = start;
    while pos < chars.len() && is_word(chars[pos])
        invariant
            start <= pos <= chars.len(),
            word_end(chars@, start as int) == word_end(chars@, pos as int),
        decreases chars.len() - pos,
    {
        pos += 1;
    }
    pos
}

fn scan_line(chars: &Vec<char>, start: usize) -> (end: usize)
    requires
        start <= chars.len(),
    ensures
        end == line_end(chars@, start as int),
        start <= end <= chars.len(),
{
    let mut pos = start;
    while pos < chars.len() && chars[pos] != '\n'
        invariant
            start <= pos <= chars.len(),
            line_end(chars@, start as int) == line_end(chars@, pos as int),
        decreases chars.len() - pos,
    {
        pos += 1;
    }
    pos
}

fn scan_block(chars: &Vec<char>, start: usize) -> (end: usize)
    requires
        start <= chars.len(),
    ensures
        end == block_end(chars@, start as int),
        start <= end <= chars.len(),
{
    let mut pos = start;
    while pos < chars.len()
        invariant
            start <= pos <= chars.len(),
            block_end(chars@, start as int) == block_end(chars@, pos as int),
        decreases chars.len() - pos,
    {
        if chars[pos] == '*' && pos + 1 < chars.len() && chars[pos + 1] == '/' {
            return pos + 2;
        }
        pos += 1;
    }
    pos
}

fn resolve_escape(c: char) -> (r: char)
    ensures
        r == unescape(c),
{
    if c == 'n' {
        '\n'
    } else if c == 't' {
        '\t'
    } else if c == 'r' {
        '\r'
    } else {
        c
    }
}

fn scan_string(chars: &Vec<char>, start: usize, quote: char) -> (r: Option<(String, usize)>)
    requires
        start <= chars.len(),
    ensures
        match string_body(chars@, start as int, quote, Seq::empty()) {
            Some((text, end)) => r matches Some((found, stop)) && found@ == text && stop == end
                && start < stop <= chars.len(),
            None => r is None,
        },
{
    let mut text = String::new();
    let mut pos = start;
    while pos < chars.len()
        invariant
            start <= pos <= chars.len(),
            string_body(chars@, start as int, quote, Seq::empty()) == string_body(
                chars@,
                pos as int,
                quote,
                text@,
            ),
        decreases chars.len() - pos,
    {
        let c = chars[pos];
        if c == quote {
            return Some((text, pos + 1));
        } else if c == '\\' {
            if pos + 1 >= chars.len() {
                return None;
            }
            push_char(&mut text, resolve_escape(chars[pos + 1]));
            pos += 2;
        } else {
            push_char(&mut text, c);
            pos += 1;
        }
    }
    None
}

/// Whether what the lexer returned is the outcome expected of it.
pub open spec fn lexing_matches(
    r: Result<Vec<Token>, CompileError>,
    expected: Result<Seq<TokenView>, CompileErrorView>,
) -> bool {
    match expected {
        Ok(tokens) => r matches Ok(found) && tokens_view(found@) == tokens,
        Err(e) => r matches Err(found) && found@ == e,
    }
}

/// Turns a source text into its tokens.
///
/// The outcome is `Ok` unless a string literal is still open where the
/// text ends; nothing else stops the lexer.
pub fn lex(source: &str) -> (r: Result<Vec<Token>, CompileError>)
    ensures
        lexing_matches(r, lex_spec(source@)),
{
    let chars = to_chars(source);
    let mut tokens: Vec<Token> = Vec::new();
    let mut pos: usize = 0;
    assert(tokens_view(tokens@) =~= Seq::<TokenView>::empty());
    while pos < chars.len()
        invariant
            pos <= chars.len(),
            chars@ == source@,
            lex_spec(source@) == lex_from(chars@, pos as int, tokens_view(tokens@)),
        decreases chars.len() - pos,
    {
        let c = chars[pos];
        let ghost before = tokens@;
        let next_is = |d: char| -> (b: bool)
            ensures
                b == followed_by(chars@, pos as int, d),
            { pos + 1 < chars.len() && chars[pos + 1] == d };
        if char_is_space(c) {
            pos += 1;
        } else if char_is_digit(c) {
            let end = scan_number(&chars, pos + 1, false);
            tokens.push(Token::Number(text_of(&chars, pos, end)));
            pos = end;
        } else if c == '"' || c == '\'' {
            match scan_string(&chars, pos + 1, c) {
                Some((text, end)) => {
                    tokens.push(Token::String(text));
                    pos = end;
                },
                None => {
                    return Err(CompileError::UnterminatedString);
                },
            }
        } else if char_is_letter(c) || c == '_' {
            let end = scan_word(&chars, pos + 1);
            tokens.push(Token::Identifier(text_of(&chars, pos, end)));
            pos = end;
        } else if c == '+' {
            tokens.push(Token::Plus);
            pos += 1;
        } else if c == '-' {
            tokens.push(Token::Minus);
            pos += 1;
        } else if c == '*' {
            tokens.push(Token::Star);
            pos += 1;
        } else if c == '/' {
            if next_is('/') {
                pos = scan_line(&chars, pos + 2);
            } else if next_is('*') {
                pos = scan_block(&chars, pos + 2);
            } else {
                tokens.push(Token::Slash);
                pos += 1;
            }
        } else if c == '=' {
            if next_is('=') {
                tokens.push(Token::Equal);
                pos += 2;
            } else {
                tokens.push(Token::Assign);
                pos += 1;
            }
        } else if c == '!' {
            if next_is('=') {
                tokens.push(Token::NotEqual);
                pos += 2;
            } else {
                pos += 1;
            }
        } else if c == '<' {
            if next_is('=') {
                tokens.push(Token::LessThanEqual);
                pos += 2;
            } else {
                tokens.push(Token::LessThan);
                pos += 1;
            }
        } else if c == '>' {
            if next_is('=') {
                tokens.push(Token::GreaterThanEqual);
                pos += 2;
            } else {
                tokens.push(Token::GreaterThan);
                pos += 1;
            }
        } else if c == '.' {
            tokens.push(Token::Dot);
            pos += 1;
        } else if c == ';' {
            tokens.push(Token::Semicolon);
            pos += 1;
        } else if c == '(' {
            tokens.push(Token::LParen);
            pos += 1;
        } else if c == ')' {
            tokens.push(Token::RParen);
            pos += 1;
        } else if c == '[' {
            tokens.push(Token::LBracket);
            pos += 1;
        } else if c == ']' {
            tokens.push(Token::RBracket);
            pos += 1;
        } else if c == ',' {
            tokens.push(Token::Comma);
            pos += 1;
        } else if c == '{' {
            tokens.push(Token::LBrace);
            pos += 1;
        } else if c == '}' {
            tokens.push(Token::RBrace);
            pos += 1;
        } else {
            pos += 1;
        }
        proof {
            if tokens@.len() > before.len() {
                assert(tokens_view(tokens@) =~= tokens_view(before).push(tokens@.last()@));
            } else {
                assert(tokens@ == before);
            }
        }
    }
    Ok(tokens)
}

} // verus!
