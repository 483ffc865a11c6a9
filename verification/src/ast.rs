//! The expression tree that the parser builds and the generator walks.

use vstd::prelude::*;

verus! {

/// A binary operator. The four arithmetic operators come first, then the
/// six comparisons.
#[derive(Clone, Copy, Debug, PartialEq, Eq, Structural)]
pub enum BinOp {
    Add,
    Sub,
    Mul,
    Div,
    Equal,
    NotEqual,
    Lt,
    Gt,
    Lte,
    Gte,
}

impl BinOp {
    /// Whether the operator is one of the four arithmetic operators.
    pub open spec fn is_arithmetic(self) -> bool {
        self == BinOp::Add || self == BinOp::Sub || self == BinOp::Mul || self == BinOp::Div
    }
}

/// A node of the tree. Expression and statement forms share one type;
/// every node owns its children.
///
/// A floating literal is kept as the text it was written with: what the
/// text denotes as a 64-bit float is looked up when the node is used.
#[derive(Debug, PartialEq)]
pub enum Expr {
    Number(i32),
    Float(String),
    Boolean(bool),
    StringLiteral(String),
    Array(Vec<Box<Expr>>),
    BinaryOp { op: BinOp, left: Box<Expr>, right: Box<Expr> },
    Print(Box<Expr>),
    Exit(Box<Expr>),
    Const { name: String, value: Box<Expr> },
    Let { name: String, value: Box<Expr> },
    Assign { name: String, value: Box<Expr> },
    Variable(String),
    Null,
    If { condition: Box<Expr>, then_branch: Vec<Box<Expr>>, else_branch: Option<Vec<Box<Expr>>> },
}

/// The mathematical model of an [`Expr`]: texts are character sequences and
/// child lists are sequences of models.
pub enum ExprView {
    Number(i32),
    Float(Seq<char>),
    Boolean(bool),
    StringLiteral(Seq<char>),
    Array(Seq<ExprView>),
    BinaryOp { op: BinOp, left: Box<ExprView>, right: Box<ExprView> },
    Print(Box<ExprView>),
    Exit(Box<ExprView>),
    Const { name: Seq<char>, value: Box<ExprView> },
    Let { name: Seq<char>, value: Box<ExprView> },
    Assign { name: Seq<char>, value: Box<ExprView> },
    Variable(Seq<char>),
    Null,
    If { condition: Box<ExprView>, then_branch: Seq<ExprView>, else_branch: Option<Seq<ExprView>> },
}

/// Models of a list of nodes, element by element.
pub open spec fn expr_list_view(items: Seq<Box<Expr>>) -> Seq<ExprView>
    decreases items,
{
    Seq::new(
        items.len(),
        |i: int|
            if 0 <= i < items.len() {
                (*items[i]).model()
            } else {
                ExprView::Null
            },
    )
}

impl Expr {
    pub open spec fn model(self) -> ExprView
        decreases self,
    {
        match self {
            Expr::Number(n) => ExprView::Number(n),
            Expr::Float(text) => ExprView::Float(text@),
            Expr::Boolean(b) => ExprView::Boolean(b),
            Expr::StringLiteral(s) => ExprView::StringLiteral(s@),
            Expr::Array(items) => ExprView::Array(expr_list_view(items@)),
            Expr::BinaryOp { op, left, right } => ExprView::BinaryOp {
                op,
                left: Box::new((*left).model()),
                right: Box::new((*right).model()),
            },
            Expr::Print(inner) => ExprView::Print(Box::new((*inner).model())),
            Expr::Exit(inner) => ExprView::Exit(Box::new((*inner).model())),
            Expr::Const { name, value } => ExprView::Const {
                name: name@,
                value: Box::new((*value).model()),
            },
            Expr::Let { name, value } => ExprView::Let {
                name: name@,
                value: Box::new((*value).model()),
            },
            Expr::Assign { name, value } => ExprView::Assign {
                name: name@,
                value: Box::new((*value).model()),
            },
            Expr::Variable(name) => ExprView::Variable(name@),
            Expr::Null => ExprView::Null,
            Expr::If { condition, then_branch, else_branch } => ExprView::If {
                condition: Box::new((*condition).model()),
                then_branch: expr_list_view(then_branch@),
                else_branch: match else_branch {
                    Some(stmts) => Some(expr_list_view(stmts@)),
                    None => None,
                },
            },
        }
    }
}

impl View for Expr {
    type V = ExprView;

    open spec fn view(&self) -> ExprView {
        self.model()
    }
}

/// The model of a list has the list's length and holds, at each index, the
/// model of the node at that index.
pub proof fn lemma_expr_list_view(items: Seq<Box<Expr>>)
    ensures
        expr_list_view(items).len() == items.len(),
        forall|i: int| 0 <= i < items.len() ==> #[trigger] expr_list_view(items)[i] == (*items[i])@,
{
    reveal_with_fuel(expr_list_view, 2);
}

/// Models of a list of owned nodes.
pub open spec fn exprs_view(items: Seq<Expr>) -> Seq<ExprView> {
    Seq::new(items.len(), |i: int| items[i]@)
}

} // verus!
