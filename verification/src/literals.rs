//! The round trip of literal values: a value written out as source text
//! comes back from the lexer, the parser and the evaluator as itself.

use vstd::prelude::*;
use crate::ast::ExprView;
use crate::error::CompileErrorView;
use crate::eval::{bool_text, evaluate};
use crate::float::{float_value, FloatFactView, FloatQueryView};
use crate::grammar::{
    additive_op_at,
    array_items,
    digits_end,
    expression,
    float_shape,
    is_at,
    multiplicative_op_at,
    primary,
};
use crate::laws::{faithful, lemma_folding_is_idempotent, literal_of};
use crate::lexer::{
    is_word_char,
    lex_from,
    lex_spec,
    number_end,
    scan,
    string_body,
    word_end,
    Scan,
    TokenView,
};
use crate::text::{all_digits, decimal, has_dot, integer_value, is_digit, lemma_decimal_digits};
use crate::value::{Bindings, ValueView};

verus! {

/// The text of a string literal for a given content: every backslash and
/// every quote of the kind that delimits the literal is escaped.
pub open spec fn escaped(content: Seq<char>, quote: char) -> Seq<char>
    decreases content.len(),
{
    if content.len() == 0 {
        Seq::empty()
    } else if content[0] == quote || content[0] == '\\' {
        seq!['\\', content[0]] + escaped(content.drop_first(), quote)
    } else {
        seq![content[0]] + escaped(content.drop_first(), quote)
    }
}

/// Whether a character is a lower-case ASCII letter.
pub open spec fn is_lower(c: char) -> bool {
    'a' <= c && c <= 'z'
}

/// Whether a text is digits, a point and digits, with at least one digit
/// before the point.
pub open spec fn is_plain_float(text: Seq<char>) -> bool {
    let point = digits_end(text, 0);
    0 < point < text.len() && text[point] == '.' && digits_end(text, point + 1) == text.len()
}

/// Whether a value can be written as a literal: its numbers are not
/// negative, and the texts of its floats are digits around a point.
pub open spec fn writable(v: ValueView) -> bool
    decreases v,
{
    match v {
        ValueView::Number(n) => n >= 0,
        ValueView::Float(f) => is_plain_float(f.text),
        ValueView::Array(items) => forall|i: int|
            0 <= i < items.len() ==> writable(#[trigger] items[i]),
        _ => true,
    }
}

/// The source text of a literal value: integers in decimal, floats by
/// their text, strings between double quotes with their backslashes and
/// double quotes escaped, the three keywords, and arrays between brackets
/// with a comma and a space between their elements.
pub open spec fn source_of(v: ValueView) -> Seq<char>
    decreases v, 0nat,
{
    match v {
        ValueView::Number(n) => decimal(n as int),
        ValueView::Float(f) => f.text,
        ValueView::Text(s) => seq!['"'] + escaped(s, '"') + seq!['"'],
        ValueView::Boolean(b) => bool_text(b),
        ValueView::Null => "null"@,
        ValueView::Array(items) => seq!['['] + items_source(items, items.len()) + seq![']'],
    }
}

/// The source text of the first `n` elements of an array.
pub open spec fn items_source(items: Seq<ValueView>, n: nat) -> Seq<char>
    decreases items, n,
{
    if n == 0 || n > items.len() {
        Seq::empty()
    } else if n == 1 {
        source_of(items[0])
    } else {
        items_source(items, (n - 1) as nat) + seq![',', ' '] + source_of(items[n - 1])
    }
}

/// The tokens of a literal value.
pub open spec fn tokens_of(v: ValueView) -> Seq<TokenView>
    decreases v, 0nat,
{
    match v {
        ValueView::Number(n) => seq![TokenView::Number(decimal(n as int))],
        ValueView::Float(f) => seq![TokenView::Number(f.text)],
        ValueView::Text(s) => seq![TokenView::Text(s)],
        ValueView::Boolean(b) => seq![TokenView::Identifier(bool_text(b))],
        ValueView::Null => seq![TokenView::Identifier("null"@)],
        ValueView::Array(items) => seq![TokenView::LBracket] + items_tokens(items, items.len())
            + seq![TokenView::RBracket],
    }
}

/// The tokens of the first `n` elements of an array, commas between them.
pub open spec fn items_tokens(items: Seq<ValueView>, n: nat) -> Seq<TokenView>
    decreases items, n,
{
    if n == 0 || n > items.len() {
        Seq::empty()
    } else if n == 1 {
        tokens_of(items[0])
    } else {
        items_tokens(items, (n - 1) as nat) + seq![TokenView::Comma] + tokens_of(items[n - 1])
    }
}

/// Whether a sequence stands inside another at a position.
pub open spec fn embedded<A>(s: Seq<A>, pos: int, t: Seq<A>) -> bool {
    0 <= pos && pos + t.len() <= s.len() && s.subrange(pos, pos + t.len()) == t
}

/// Whether no number and no identifier can run over a position: the text
/// ends there, or the character there is no digit, no point and no
/// character of an identifier.
pub open spec fn stops(s: Seq<char>, pos: int) -> bool {
    pos >= s.len() || !(is_digit(s[pos]) || s[pos] == '.' || is_word_char(s[pos]))
}

/// A sequence that holds another holds the other's elements.
pub proof fn lemma_embedded_index<A>(s: Seq<A>, pos: int, t: Seq<A>, i: int)
    requires
        embedded(s, pos, t),
        0 <= i < t.len(),
    ensures
        s[pos + i] == t[i],
{
}

/// Where two sequences stand inside another one behind the other, each
/// of them stands inside it.
pub proof fn lemma_embedded_split<A>(s: Seq<A>, pos: int, a: Seq<A>, b: Seq<A>)
    requires
        embedded(s, pos, a + b),
    ensures
        embedded(s, pos, a),
        embedded(s, pos + a.len(), b),
{
    let whole = a + b;
    assert(s.subrange(pos, pos + a.len()) =~= a) by {
        assert forall|i: int| 0 <= i < a.len() implies s[pos + i] == a[i] by {
            lemma_embedded_index(s, pos, whole, i);
        }
    }
    assert(s.subrange(pos + a.len(), pos + a.len() + b.len()) =~= b) by {
        assert forall|i: int| 0 <= i < b.len() implies s[pos + a.len() + i] == b[i] by {
            lemma_embedded_index(s, pos, whole, a.len() + i);
        }
    }
}

/// A numeric literal runs over the digits up to a position that stops it.
pub proof fn lemma_number_end_at_stop(s: Seq<char>, pos: int, end: int, dotted: bool)
    requires
        0 <= pos <= end <= s.len(),
        forall|k: int| pos <= k < end ==> is_digit(#[trigger] s[k]),
        stops(s, end),
    ensures
        number_end(s, pos, dotted) == end,
    decreases end - pos,
{
    if pos < end {
        lemma_number_end_at_stop(s, pos + 1, end, dotted);
    }
}

/// An identifier runs over the letters up to a position that stops it.
pub proof fn lemma_word_end_at_stop(s: Seq<char>, pos: int, end: int)
    requires
        0 <= pos <= end <= s.len(),
        forall|k: int| pos <= k < end ==> is_lower(#[trigger] s[k]),
        stops(s, end),
    ensures
        word_end(s, pos) == end,
    decreases end - pos,
{
    if pos < end {
        lemma_word_end_at_stop(s, pos + 1, end);
    }
}

/// Reading an escaped content that stands inside a text, up to the quote
/// behind it, gives the content back behind what was read before.
pub proof fn lemma_string_body_embedded(
    s: Seq<char>,
    pos: int,
    content: Seq<char>,
    quote: char,
    read: Seq<char>,
)
    requires
        quote == '"' || quote == '\'',
        embedded(s, pos, escaped(content, quote) + seq![quote]),
    ensures
        string_body(s, pos, quote, read) == Some(
            (read + content, pos + escaped(content, quote).len() + 1),
        ),
    decreases content.len(),
{
    let rest = escaped(content, quote);
    let whole = rest + seq![quote];
    if content.len() == 0 {
        lemma_embedded_index(s, pos, whole, 0);
    } else {
        let c = content[0];
        let tail = content.drop_first();
        lemma_embedded_index(s, pos, whole, 0);
        if c == quote || c == '\\' {
            lemma_embedded_index(s, pos, whole, 1);
            assert(whole =~= seq!['\\', c] + (escaped(tail, quote) + seq![quote]));
            lemma_embedded_split(s, pos, seq!['\\', c], escaped(tail, quote) + seq![quote]);
            lemma_string_body_embedded(s, pos + 2, tail, quote, read.push(c));
        } else {
            assert(whole =~= seq![c] + (escaped(tail, quote) + seq![quote]));
            lemma_embedded_split(s, pos, seq![c], escaped(tail, quote) + seq![quote]);
            lemma_string_body_embedded(s, pos + 1, tail, quote, read.push(c));
        }
    }
}

/// A keyword of lower-case letters that stands inside a text, before a
/// position that stops it, lexes to one identifier.
pub proof fn lemma_lex_word(s: Seq<char>, pos: int, word: Seq<char>, found: Seq<TokenView>)
    requires
        word.len() > 0,
        forall|k: int| 0 <= k < word.len() ==> is_lower(#[trigger] word[k]),
        embedded(s, pos, word),
        stops(s, pos + word.len()),
    ensures
        lex_from(s, pos, found) == lex_from(
            s,
            pos + word.len(),
            found + seq![TokenView::Identifier(word)],
        ),
{
    let end = pos + word.len();
    assert forall|k: int| pos <= k < end implies is_lower(#[trigger] s[k]) by {
        lemma_embedded_index(s, pos, word, k - pos);
    }
    lemma_word_end_at_stop(s, pos + 1, end);
    let token = TokenView::Identifier(word);
    assert(found.push(token) =~= found + seq![token]);
}

/// The source text of a literal value that stands inside a text, before a
/// position that stops it, lexes to the tokens of the value.
pub proof fn lemma_lex_literal(s: Seq<char>, pos: int, v: ValueView, found: Seq<TokenView>)
    requires
        writable(v),
        embedded(s, pos, source_of(v)),
        stops(s, pos + source_of(v).len()),
    ensures
        source_of(v).len() > 0,
        lex_from(s, pos, found) == lex_from(s, pos + source_of(v).len(), found + tokens_of(v)),
    decreases v, 1nat,
{
    let text = source_of(v);
    let end = pos + text.len();
    match v {
        ValueView::Number(n) => {
            lemma_decimal_digits(n as nat);
            assert forall|k: int| pos <= k < end implies is_digit(#[trigger] s[k]) by {
                lemma_embedded_index(s, pos, text, k - pos);
            }
            lemma_number_end_at_stop(s, pos + 1, end, false);
            let token = TokenView::Number(text);
            assert(found.push(token) =~= found + seq![token]);
        },
        ValueView::Text(content) => {
            let body = escaped(content, '"') + seq!['"'];
            assert(text =~= seq!['"'] + body);
            lemma_embedded_split(s, pos, seq!['"'], body);
            lemma_embedded_index(s, pos, text, 0);
            lemma_string_body_embedded(s, pos + 1, content, '"', Seq::empty());
            let token = TokenView::Text(content);
            assert(found.push(token) =~= found + seq![token]);
        },
        ValueView::Boolean(b) => {
            reveal_strlit("true");
            reveal_strlit("false");
            lemma_lex_word(s, pos, bool_text(b), found);
        },
        ValueView::Null => {
            reveal_strlit("null");
            lemma_lex_word(s, pos, "null"@, found);
        },
        ValueView::Array(items) => {
            let inner = items_source(items, items.len());
            assert(text =~= seq!['['] + (inner + seq![']']));
            lemma_embedded_split(s, pos, seq!['['], inner + seq![']']);
            lemma_embedded_split(s, pos + 1, inner, seq![']']);
            lemma_embedded_index(s, pos, text, 0);
            lemma_embedded_index(s, pos + 1 + inner.len(), seq![']'], 0);
            let opened = found.push(TokenView::LBracket);
            if items.len() > 0 {
                lemma_lex_items(s, pos + 1, items, items.len(), opened);
            }
            let filled = opened + items_tokens(items, items.len());
            assert(filled.push(TokenView::RBracket) =~= found + tokens_of(v));
        },
        ValueView::Float(f) => {
            let point = digits_end(text, 0);
            lemma_digits_end_holds_digits(text, 0);
            lemma_digits_end_holds_digits(text, point + 1);
            lemma_embedded_index(s, pos, text, point);
            assert forall|k: int| pos <= k < pos + point implies is_digit(#[trigger] s[k]) by {
                lemma_embedded_index(s, pos, text, k - pos);
            }
            assert forall|k: int| pos + point < k < end implies is_digit(#[trigger] s[k]) by {
                lemma_embedded_index(s, pos, text, k - pos);
            }
            lemma_number_end_prefix(s, pos + 1, pos + point);
            lemma_number_end_at_stop(s, pos + point + 1, end, true);
            let token = TokenView::Number(text);
            assert(scan(s, pos) == Scan::Token(token, end));
            assert(found.push(token) =~= found + seq![token]);
        },
    }
}

/// A run of digits holds digits only, and ends at the end of the text or
/// before a character that is no digit.
pub proof fn lemma_digits_end_holds_digits(s: Seq<char>, pos: int)
    requires
        0 <= pos <= s.len(),
    ensures
        pos <= digits_end(s, pos) <= s.len(),
        forall|k: int| pos <= k < digits_end(s, pos) ==> is_digit(#[trigger] s[k]),
        digits_end(s, pos) < s.len() ==> !is_digit(s[digits_end(s, pos)]),
    decreases s.len() - pos,
{
    if pos < s.len() && is_digit(s[pos]) {
        lemma_digits_end_holds_digits(s, pos + 1);
    }
}

/// The source text of the first elements of an array that stands inside a
/// text, before a position that stops it, lexes to the tokens of those
/// elements.
pub proof fn lemma_lex_items(
    s: Seq<char>,
    pos: int,
    items: Seq<ValueView>,
    n: nat,
    found: Seq<TokenView>,
)
    requires
        1 <= n <= items.len(),
        forall|i: int| 0 <= i < items.len() ==> writable(#[trigger] items[i]),
        embedded(s, pos, items_source(items, n)),
        stops(s, pos + items_source(items, n).len()),
    ensures
        lex_from(s, pos, found) == lex_from(
            s,
            pos + items_source(items, n).len(),
            found + items_tokens(items, n),
        ),
    decreases items, n,
{
    if n == 1 {
        lemma_lex_literal(s, pos, items[0], found);
    } else {
        let before = items_source(items, (n - 1) as nat);
        let last = source_of(items[n - 1]);
        let join = seq![',', ' '];
        assert(items_source(items, n) =~= before + (join + last));
        lemma_embedded_split(s, pos, before, join + last);
        lemma_embedded_split(s, pos + before.len(), join, last);
        let comma = pos + before.len();
        lemma_embedded_index(s, comma, join, 0);
        lemma_embedded_index(s, comma, join, 1);
        lemma_lex_items(s, pos, items, (n - 1) as nat, found);
        let first = found + items_tokens(items, (n - 1) as nat);
        let second = first.push(TokenView::Comma);
        assert(lex_from(s, comma, first) == lex_from(s, comma + 1, second));
        lemma_lex_literal(s, comma + 2, items[n - 1], second);
        assert(second + tokens_of(items[n - 1]) =~= found + items_tokens(items, n));
    }
}

/// Whether no binary operator stands at a position.
pub open spec fn quiet(tokens: Seq<TokenView>, pos: int) -> bool {
    additive_op_at(tokens, pos) is None && multiplicative_op_at(tokens, pos) is None
}

/// The decimal digits of a number that fits 32 bits hold no point and
/// denote the number.
pub proof fn lemma_decimal_reads_back(n: i32)
    requires
        n >= 0,
    ensures
        !has_dot(decimal(n as int)),
        integer_value(decimal(n as int)) == Some(n),
{
    let text = decimal(n as int);
    lemma_decimal_digits(n as nat);
    assert(!has_dot(text)) by {
        if has_dot(text) {
            let k = choose|k: int| 0 <= k < text.len() && text[k] == '.';
        }
    }
}

/// The literal expressions of the elements of an array.
pub open spec fn literals_of(items: Seq<ValueView>) -> Seq<ExprView> {
    Seq::new(items.len(), |i: int| literal_of(items[i]))
}

/// The literal of an array holds the literals of its elements.
pub proof fn lemma_literal_of_array(items: Seq<ValueView>)
    ensures
        literal_of(ValueView::Array(items)) == ExprView::Array(literals_of(items)),
{
    let inner = literal_of(ValueView::Array(items))->Array_0;
    assert(inner =~= literals_of(items));
}

/// The tokens of a literal value are at least one, and their first is no
/// closing bracket.
pub proof fn lemma_tokens_of_start(v: ValueView)
    ensures
        tokens_of(v).len() >= 1,
        tokens_of(v)[0] != TokenView::RBracket,
{
}

/// The position of an element of an array whose first element stands at
/// `start`: behind the tokens of the elements before it and the comma
/// that follows them.
pub open spec fn item_position(start: int, items: Seq<ValueView>, k: nat) -> int {
    if k == 0 {
        start
    } else {
        start + items_tokens(items, k).len() + 1
    }
}

/// Where the tokens of the first elements of an array stand: every one of
/// these elements stands at its position, and a comma stands behind each
/// of them but the last.
pub proof fn lemma_items_layout(
    tokens: Seq<TokenView>,
    start: int,
    items: Seq<ValueView>,
    n: nat,
    k: nat,
)
    requires
        1 <= n <= items.len(),
        k < n,
        embedded(tokens, start, items_tokens(items, n)),
    ensures
        embedded(tokens, item_position(start, items, k), tokens_of(items[k as int])),
        item_position(start, items, k) + tokens_of(items[k as int]).len() == start + items_tokens(
            items,
            (k + 1) as nat,
        ).len(),
        k + 1 < n ==> tokens[start + items_tokens(items, (k + 1) as nat).len()]
            == TokenView::Comma,
        start + items_tokens(items, (k + 1) as nat).len() <= start + items_tokens(items, n).len(),
    decreases n,
{
    if n > 1 {
        let before = items_tokens(items, (n - 1) as nat);
        let last = tokens_of(items[n - 1]);
        assert(items_tokens(items, n) =~= before + (seq![TokenView::Comma] + last));
        lemma_embedded_split(tokens, start, before, seq![TokenView::Comma] + last);
        lemma_embedded_split(tokens, start + before.len(), seq![TokenView::Comma], last);
        lemma_embedded_index(tokens, start + before.len(), seq![TokenView::Comma], 0);
        if k < n - 1 {
            lemma_items_layout(tokens, start, items, (n - 1) as nat, k);
        }
    }
}

/// A literal value whose tokens stand at a position is the primary
/// expression there.
pub proof fn lemma_parse_primary(tokens: Seq<TokenView>, pos: int, v: ValueView)
    requires
        writable(v),
        embedded(tokens, pos, tokens_of(v)),
    ensures
        primary(tokens, pos) == Some((literal_of(v), pos + tokens_of(v).len())),
    decreases v, 1nat,
{
    lemma_embedded_index(tokens, pos, tokens_of(v), 0);
    reveal_strlit("true");
    reveal_strlit("false");
    reveal_strlit("null");
    assert("true"@[0] == 't' && "null"@[0] == 'n');
    match v {
        ValueView::Number(n) => {
            lemma_decimal_reads_back(n);
        },
        ValueView::Float(f) => {
            let point = digits_end(f.text, 0);
            lemma_digits_end_holds_digits(f.text, 0);
            assert(is_digit(f.text[0]));
            assert(f.text.contains('.')) by {
                assert(f.text[point] == '.');
            }
            assert(float_shape(f.text));
        },
        ValueView::Array(items) => {
            lemma_literal_of_array(items);
            let inner = items_tokens(items, items.len());
            assert(tokens_of(v) =~= seq![TokenView::LBracket] + (inner + seq![TokenView::RBracket]));
            lemma_embedded_split(tokens, pos, seq![TokenView::LBracket], inner + seq![
                TokenView::RBracket,
            ]);
            lemma_embedded_split(tokens, pos + 1, inner, seq![TokenView::RBracket]);
            lemma_embedded_index(tokens, pos + 1 + inner.len(), seq![TokenView::RBracket], 0);
            if items.len() == 0 {
                assert(literals_of(items) =~= Seq::<ExprView>::empty());
            } else {
                lemma_items_layout(tokens, pos + 1, items, items.len(), 0);
                lemma_tokens_of_start(items[0]);
                lemma_embedded_index(tokens, pos + 1, tokens_of(items[0]), 0);
                assert(literals_of(items).take(0) =~= Seq::<ExprView>::empty());
                lemma_parse_items(tokens, pos + 1, items, 0);
            }
        },
        _ => {},
    }
}

/// The elements of an array from the `k`-th on, read behind the literals
/// of the elements before them, complete the array.
pub proof fn lemma_parse_items(tokens: Seq<TokenView>, start: int, items: Seq<ValueView>, k: nat)
    requires
        k < items.len(),
        forall|i: int| 0 <= i < items.len() ==> writable(#[trigger] items[i]),
        embedded(tokens, start, items_tokens(items, items.len())),
        is_at(tokens, start + items_tokens(items, items.len()).len(), TokenView::RBracket),
    ensures
        array_items(tokens, item_position(start, items, k), literals_of(items).take(k as int))
            == Some(
            (
                ExprView::Array(literals_of(items)),
                start + items_tokens(items, items.len()).len() + 1,
            ),
        ),
    decreases items, items.len() - k,
{
    let n = items.len();
    let here = item_position(start, items, k);
    let item = items[k as int];
    let read = literals_of(items).take(k as int);
    lemma_items_layout(tokens, start, items, n, k);
    lemma_tokens_of_start(item);
    lemma_parse_literal(tokens, here, item);
    assert(read.push(literal_of(item)) =~= literals_of(items).take(k as int + 1));
    if k + 1 < n {
        lemma_parse_items(tokens, start, items, (k + 1) as nat);
    } else {
        assert(literals_of(items).take(n as int) =~= literals_of(items));
    }
}

/// A literal value whose tokens stand at a position, with no operator
/// behind them, is the expression there.
pub proof fn lemma_parse_literal(tokens: Seq<TokenView>, pos: int, v: ValueView)
    requires
        writable(v),
        embedded(tokens, pos, tokens_of(v)),
        quiet(tokens, pos + tokens_of(v).len()),
    ensures
        expression(tokens, pos) == Some((literal_of(v), pos + tokens_of(v).len())),
    decreases v, 2nat,
{
    lemma_parse_primary(tokens, pos, v);
    lemma_tokens_of_start(v);
}

/// Round trip of literals: the source text of every value that can be
/// written as a literal, arrays of literals and arrays of arrays among
/// them, lexes to the tokens of the value; these tokens parse to the
/// literal expression of the value and to nothing more; and that
/// expression folds to the value, whatever the tables of names hold, as
/// long as the facts give the floats of the value for their texts.
pub proof fn lemma_literal_round_trip(
    v: ValueView,
    constants: Bindings,
    variables: Bindings,
    floats: Seq<FloatFactView>,
)
    requires
        writable(v),
        faithful(v, floats),
    ensures
        lex_spec(source_of(v)) == Ok::<Seq<TokenView>, CompileErrorView>(tokens_of(v)),
        expression(tokens_of(v), 0) == Some((literal_of(v), tokens_of(v).len() as int)),
        evaluate(literal_of(v), constants, variables, floats) == Ok::<ValueView, CompileErrorView>(
            v,
        ),
{
    let text = source_of(v);
    let tokens = tokens_of(v);
    assert(text.subrange(0, text.len() as int) =~= text);
    lemma_lex_literal(text, 0, v, Seq::empty());
    assert(Seq::<TokenView>::empty() + tokens =~= tokens);
    assert(tokens.subrange(0, tokens.len() as int) =~= tokens);
    lemma_parse_literal(tokens, 0, v);
    lemma_folding_is_idempotent(v, constants, variables, floats);
}

/// A lone token that is a literal is an expression of its own.
pub proof fn lemma_single_literal_expression(token: TokenView, node: ExprView)
    requires
        primary(seq![token], 0) == Some((node, 1int)),
    ensures
        expression(seq![token], 0) == Some((node, 1int)),
{
}

/// A numeric literal without a point so far runs over the digits before
/// its point.
pub proof fn lemma_number_end_prefix(s: Seq<char>, pos: int, point: int)
    requires
        0 <= pos <= point < s.len(),
        forall|k: int| pos <= k < point ==> is_digit(#[trigger] s[k]),
    ensures
        number_end(s, pos, false) == number_end(s, point, false),
    decreases point - pos,
{
    if pos < point {
        lemma_number_end_prefix(s, pos + 1, point);
    }
}

/// Round trip of string literals in either kind of quotes: a content
/// written between single or double quotes, with its backslashes and its
/// quotes of that kind escaped, lexes to one string token that holds the
/// content, the token parses to the node of the content, and the node
/// folds to the content.
pub proof fn lemma_string_literal_round_trip(
    content: Seq<char>,
    quote: char,
    constants: Bindings,
    variables: Bindings,
    floats: Seq<FloatFactView>,
)
    requires
        quote == '"' || quote == '\'',
    ensures
        lex_spec(seq![quote] + escaped(content, quote) + seq![quote]) == Ok::<
            Seq<TokenView>,
            CompileErrorView,
        >(seq![TokenView::Text(content)]),
        expression(seq![TokenView::Text(content)], 0) == Some(
            (ExprView::StringLiteral(content), 1int),
        ),
        evaluate(ExprView::StringLiteral(content), constants, variables, floats) == Ok::<
            ValueView,
            CompileErrorView,
        >(ValueView::Text(content)),
{
    let text = seq![quote] + escaped(content, quote) + seq![quote];
    let body = escaped(content, quote) + seq![quote];
    assert(text.subrange(0, (seq![quote] + body).len() as int) =~= seq![quote] + body);
    lemma_embedded_split(text, 0, seq![quote], body);
    lemma_string_body_embedded(text, 1, content, quote, Seq::empty());
    let token = TokenView::Text(content);
    assert(lex_from(text, text.len() as int, seq![token]) == Ok::<
        Seq<TokenView>,
        CompileErrorView,
    >(seq![token]));
    lemma_single_literal_expression(token, ExprView::StringLiteral(content));
}

/// A run of digits ends where a text of digits only ends.
pub proof fn lemma_digits_end_of_digits(s: Seq<char>, pos: int, end: int)
    requires
        0 <= pos <= end <= s.len(),
        forall|k: int| pos <= k < end ==> is_digit(#[trigger] s[k]),
        end < s.len() ==> !is_digit(s[end]),
    ensures
        digits_end(s, pos) == end,
    decreases end - pos,
{
    if pos < end {
        lemma_digits_end_of_digits(s, pos + 1, end);
    }
}

/// Round trip of floating literals, whatever text the facts print their
/// floats with: digits, a point and more digits lex to one number token,
/// the token parses to the node that keeps the text, and the node folds
/// to the float that the facts give for the text.
pub proof fn lemma_float_literal_round_trip(
    whole: Seq<char>,
    fraction: Seq<char>,
    constants: Bindings,
    variables: Bindings,
    floats: Seq<FloatFactView>,
)
    requires
        whole.len() > 0,
        all_digits(whole),
        all_digits(fraction),
    ensures
        ({
            let text = whole + seq!['.'] + fraction;
            &&& lex_spec(text) == Ok::<Seq<TokenView>, CompileErrorView>(
                seq![TokenView::Number(text)],
            )
            &&& expression(seq![TokenView::Number(text)], 0) == Some(
                (ExprView::Float(text), 1int),
            )
            &&& evaluate(ExprView::Float(text), constants, variables, floats) == match float_value(
                floats,
                FloatQueryView::Literal(text),
            ) {
                Some(v) => Ok::<ValueView, CompileErrorView>(ValueView::Float(v)),
                None => Err(CompileErrorView::FloatPending(FloatQueryView::Literal(text))),
            }
        }),
{
    let text = whole + seq!['.'] + fraction;
    let point = whole.len() as int;
    assert forall|k: int| 0 <= k < point implies is_digit(#[trigger] text[k]) by {}
    assert forall|k: int| point < k < text.len() implies is_digit(#[trigger] text[k]) by {}
    lemma_number_end_at_stop(text, point + 1, text.len() as int, true);
    lemma_number_end_prefix(text, 1, point);
    assert(text.subrange(0, text.len() as int) =~= text);
    let token = TokenView::Number(text);
    assert(lex_from(text, text.len() as int, seq![token]) == Ok::<
        Seq<TokenView>,
        CompileErrorView,
    >(seq![token]));
    lemma_digits_end_of_digits(text, 0, point);
    lemma_digits_end_of_digits(text, point + 1, text.len() as int);
    lemma_single_literal_expression(token, ExprView::Float(text));
}

} // verus!
