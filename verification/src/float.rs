//! Floating values and the table of facts about them.
//!
//! The compiler never computes with 64-bit floats itself. A float is held
//! as its IEEE-754 bit pattern together with the two things the generator
//! writes out for it: its decimal text and its value scaled by one hundred
//! and truncated to an integer. Whatever has to be computed on floats (what
//! a literal denotes, a sum, a comparison) is asked of a [`FloatTable`]
//! that the caller fills in; a fact that is missing stops the compilation
//! with the query that would have answered it, so that the caller can
//! supply the answer and compile again.

use vstd::prelude::*;
use vstd::string::*;
use crate::ast::BinOp;
use crate::text::same_text;

verus! {

/// A 64-bit float as the compiler sees it.
#[derive(Debug, PartialEq)]
pub struct FloatValue {
    /// The IEEE-754 binary64 bit pattern.
    pub bits: u64,
    /// The decimal text that is printed for the value.
    pub text: String,
    /// The value times one hundred, truncated toward zero.
    pub scaled: i64,
}

pub struct FloatView {
    pub bits: u64,
    pub text: Seq<char>,
    pub scaled: i64,
}

impl View for FloatValue {
    type V = FloatView;

    open spec fn view(&self) -> FloatView {
        FloatView { bits: self.bits, text: self.text@, scaled: self.scaled }
    }
}

impl Clone for FloatValue {
    fn clone(&self) -> (r: FloatValue)
        ensures
            r@ == self@,
    {
        FloatValue { bits: self.bits, text: self.text.clone(), scaled: self.scaled }
    }
}

/// Whether a bit pattern is one of the two zeros of binary64, the only
/// patterns that compare equal to zero.
pub open spec fn is_zero_bits(bits: u64) -> bool {
    bits == 0 || bits == 0x8000_0000_0000_0000
}

pub fn zero_bits(bits: u64) -> (r: bool)
    ensures
        r == is_zero_bits(bits),
{
    bits == 0 || bits == 0x8000_0000_0000_0000
}

/// A question about floats that only float arithmetic can answer.
#[derive(Debug, PartialEq)]
pub enum FloatQuery {
    /// What the text of a literal denotes.
    Literal(String),
    /// The float nearest to an integer.
    FromInt(i32),
    /// An arithmetic operator applied to two bit patterns.
    Arith(BinOp, u64, u64),
    /// A comparison operator applied to two bit patterns.
    Compare(BinOp, u64, u64),
}

pub enum FloatQueryView {
    Literal(Seq<char>),
    FromInt(i32),
    Arith(BinOp, u64, u64),
    Compare(BinOp, u64, u64),
}

impl View for FloatQuery {
    type V = FloatQueryView;

    open spec fn view(&self) -> FloatQueryView {
        match self {
            FloatQuery::Literal(text) => FloatQueryView::Literal(text@),
            FloatQuery::FromInt(n) => FloatQueryView::FromInt(*n),
            FloatQuery::Arith(op, a, b) => FloatQueryView::Arith(*op, *a, *b),
            FloatQuery::Compare(op, a, b) => FloatQueryView::Compare(*op, *a, *b),
        }
    }
}

impl Clone for FloatQuery {
    fn clone(&self) -> (r: FloatQuery)
        ensures
            r@ == self@,
    {
        match self {
            FloatQuery::Literal(text) => FloatQuery::Literal(text.clone()),
            FloatQuery::FromInt(n) => FloatQuery::FromInt(*n),
            FloatQuery::Arith(op, a, b) => FloatQuery::Arith(*op, *a, *b),
            FloatQuery::Compare(op, a, b) => FloatQuery::Compare(*op, *a, *b),
        }
    }
}

impl Clone for FloatAnswer {
    fn clone(&self) -> (r: FloatAnswer)
        ensures
            r@ == self@,
    {
        match self {
            FloatAnswer::Value(v) => FloatAnswer::Value(v.clone()),
            FloatAnswer::Truth(b) => FloatAnswer::Truth(*b),
        }
    }
}

impl FloatQuery {
    /// Whether two queries ask the same thing.
    pub fn same(&self, other: &FloatQuery) -> (r: bool)
        ensures
            r == (self@ == other@),
    {
        match self {
            FloatQuery::Literal(a) => match other {
                FloatQuery::Literal(b) => same_text(a.as_str(), b.as_str()),
                _ => false,
            },
            FloatQuery::FromInt(a) => match other {
                FloatQuery::FromInt(b) => *a == *b,
                _ => false,
            },
            FloatQuery::Arith(op, a, b) => match other {
                FloatQuery::Arith(op2, a2, b2) => *op == *op2 && *a == *a2 && *b == *b2,
                _ => false,
            },
            FloatQuery::Compare(op, a, b) => match other {
                FloatQuery::Compare(op2, a2, b2) => *op == *op2 && *a == *a2 && *b == *b2,
                _ => false,
            },
        }
    }
}

/// The answer to a [`FloatQuery`]: a float for a literal, a conversion or
/// an arithmetic operator, a truth value for a comparison.
#[derive(Debug, PartialEq)]
pub enum FloatAnswer {
    Value(FloatValue),
    Truth(bool),
}

pub enum FloatAnswerView {
    Value(FloatView),
    Truth(bool),
}

impl View for FloatAnswer {
    type V = FloatAnswerView;

    open spec fn view(&self) -> FloatAnswerView {
        match self {
            FloatAnswer::Value(v) => FloatAnswerView::Value(v@),
            FloatAnswer::Truth(b) => FloatAnswerView::Truth(*b),
        }
    }
}

/// One recorded fact: a query and its answer.
pub struct FloatFactView {
    pub query: FloatQueryView,
    pub answer: FloatAnswerView,
}

struct FloatFact {
    query: FloatQuery,
    answer: FloatAnswer,
}

/// The answer that a list of facts gives to a query: that of the latest
/// fact recorded for it, if there is one.
pub open spec fn float_answer(facts: Seq<FloatFactView>, query: FloatQueryView) -> Option<
    FloatAnswerView,
>
    decreases facts.len(),
{
    if facts.len() == 0 {
        None
    } else if facts.last().query == query {
        Some(facts.last().answer)
    } else {
        float_answer(facts.drop_last(), query)
    }
}

/// The float that the facts give for a query, if they give one.
pub open spec fn float_value(facts: Seq<FloatFactView>, query: FloatQueryView) -> Option<
    FloatView,
> {
    match float_answer(facts, query) {
        Some(FloatAnswerView::Value(v)) => Some(v),
        _ => None,
    }
}

/// The truth value that the facts give for a query, if they give one.
pub open spec fn float_truth(facts: Seq<FloatFactView>, query: FloatQueryView) -> Option<bool> {
    match float_answer(facts, query) {
        Some(FloatAnswerView::Truth(b)) => Some(b),
        _ => None,
    }
}

/// A fact that is recorded answers its query from then on, and leaves the
/// answers to all other queries as they were.
pub proof fn lemma_recorded_fact_answers(
    facts: Seq<FloatFactView>,
    query: FloatQueryView,
    answer: FloatAnswerView,
    other: FloatQueryView,
)
    ensures
        float_answer(facts.push(FloatFactView { query, answer }), query) == Some(answer),
        other != query ==> float_answer(facts.push(FloatFactView { query, answer }), other)
            == float_answer(facts, other),
{
    let more = facts.push(FloatFactView { query, answer });
    assert(more.drop_last() =~= facts);
}

/// Facts about floats, in the order in which they were recorded.
pub struct FloatTable {
    facts: Vec<FloatFact>,
}

impl View for FloatTable {
    type V = Seq<FloatFactView>;

    closed spec fn view(&self) -> Seq<FloatFactView> {
        Seq::new(
            self.facts@.len(),
            |i: int| FloatFactView { query: self.facts@[i].query@, answer: self.facts@[i].answer@ },
        )
    }
}

impl FloatTable {
    /// A table without facts.
    pub fn new() -> (r: FloatTable)
        ensures
            r@ == Seq::<FloatFactView>::empty(),
    {
        let r = FloatTable { facts: Vec::new() };
        assert(r@ =~= Seq::<FloatFactView>::empty());
        r
    }

    /// Number of facts recorded.
    pub fn len(&self) -> (n: usize)
        ensures
            n == self@.len(),
    {
        self.facts.len()
    }

    /// Records a fact; it takes precedence over earlier facts for the same
    /// query.
    pub fn record(&mut self, query: FloatQuery, answer: FloatAnswer)
        ensures
            final(self)@ == old(self)@.push(FloatFactView { query: query@, answer: answer@ }),
    {
        self.facts.push(FloatFact { query, answer });
        assert(self@ =~= old(self)@.push(FloatFactView { query: query@, answer: answer@ }));
    }

    /// The latest answer recorded for a query.
    pub fn answer(&self, query: &FloatQuery) -> (r: Option<&FloatAnswer>)
        ensures
            match float_answer(self@, query@) {
                Some(a) => r matches Some(found) && found@ == a,
                None => r is None,
            },
    {
        let mut i: usize = self.facts.len();
        assert(self@.take(i as int) =~= self@);
        while i > 0
            invariant
                i <= self.facts.len(),
                float_answer(self@, query@) == float_answer(self@.take(i as int), query@),
            decreases i,
        {
            i -= 1;
            proof {
                assert(self@.take(i + 1).drop_last() =~= self@.take(i as int));
                assert(self@.take(i + 1).last() == self@[i as int]);
            }
            if self.facts[i].query.same(query) {
                return Some(&self.facts[i].answer);
            }
        }
        proof {
            assert(self@.take(0).len() == 0);
        }
        None
    }

    /// The float recorded for a query; the query itself where none is.
    pub fn value(&self, query: FloatQuery) -> (r: Result<FloatValue, FloatQuery>)
        ensures
            match float_value(self@, query@) {
                Some(v) => r matches Ok(found) && found@ == v,
                None => r matches Err(q) && q@ == query@,
            },
    {
        match self.answer(&query) {
            Some(FloatAnswer::Value(v)) => Ok(v.clone()),
            _ => Err(query),
        }
    }

    /// The truth value recorded for a query; the query itself where none is.
    pub fn truth(&self, query: FloatQuery) -> (r: Result<bool, FloatQuery>)
        ensures
            match float_truth(self@, query@) {
                Some(b) => r == Ok::<bool, FloatQuery>(b),
                None => r matches Err(q) && q@ == query@,
            },
    {
        match self.answer(&query) {
            Some(FloatAnswer::Truth(b)) => Ok(*b),
            _ => Err(query),
        }
    }
}

} // verus!
