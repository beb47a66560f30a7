//! The syntax tree and its mathematical model.

use vstd::prelude::*;

verus! {

/// A name or a text, as the sequence of its characters.
pub type Text = Seq<char>;

/// One node of the syntax tree.
#[derive(Debug, PartialEq)]
#[allow(inconsistent_fields)]
pub enum Expr {
    /// Defines a callable unit: a name, its parameters and its body.
    DefCont { name: String, params: Vec<String>, body: Vec<Expr> },
    /// Binds `var` to the escape continuation and evaluates `body`.
    LetCC { var: String, body: Box<Expr> },
    /// Calls `to_call` and goes on with the value it resolves to.
    Call { to_call: Box<Expr>, args: Vec<Expr> },
    /// Transfers control to `lhs`; what surrounds the node is abandoned.
    Apply { lhs: Box<Expr>, args: Vec<Expr> },
    /// Evaluates the expressions in order; the value is that of the last.
    Begin(Vec<Expr>),
    /// Evaluates `expr` where `cond` is true, else `default` where there is one.
    IfElse { cond: Box<Expr>, expr: Box<Expr>, default: Option<Box<Expr>> },
    /// Binds the name to a value, defining the name where it is new.
    SetVar(String, Box<Expr>),
    /// Reads the value bound to a name.
    GetVar(String),
    /// Writes a record field; part of the grammar, never evaluated.
    SetField { lhs: Box<Expr>, field: String, data: Box<Expr> },
    /// Reads a record field; part of the grammar, never evaluated.
    GetField { data: Box<Expr>, field: String },
    /// An integer literal.
    Number(i64),
    /// A text literal.
    String(String),
    /// A boolean literal.
    Bool(bool),
    /// The literal for no value.
    Nil,
}

/// The mathematical model of a syntax tree node.
#[allow(inconsistent_fields)]
pub ghost enum ExprView {
    DefCont { name: Text, params: Seq<Text>, body: Seq<ExprView> },
    LetCC { var: Text, body: Box<ExprView> },
    Call { to_call: Box<ExprView>, args: Seq<ExprView> },
    Apply { lhs: Box<ExprView>, args: Seq<ExprView> },
    Begin(Seq<ExprView>),
    IfElse { cond: Box<ExprView>, expr: Box<ExprView>, default: Option<Box<ExprView>> },
    SetVar(Text, Box<ExprView>),
    GetVar(Text),
    SetField { lhs: Box<ExprView>, field: Text, data: Box<ExprView> },
    GetField { data: Box<ExprView>, field: Text },
    Number(i64),
    String(Text),
    Bool(bool),
    Nil,
}

/// The models of a list of names.
pub open spec fn names_view(names: Seq<String>) -> Seq<Text> {
    Seq::new(names.len(), |i: int| names[i]@)
}

/// The models of a list of nodes.
pub open spec fn exprs_view(exprs: Seq<Expr>) -> Seq<ExprView>
    decreases exprs,
{
    Seq::new(
        exprs.len(),
        |i: int|
            if 0 <= i < exprs.len() {
                expr_view(exprs[i])
            } else {
                ExprView::Nil
            },
    )
}

/// The model of one node.
pub open spec fn expr_view(e: Expr) -> ExprView
    decreases e,
{
    match e {
        Expr::DefCont { name, params, body } => ExprView::DefCont {
            name: name@,
            params: names_view(params@),
            body: exprs_view(body@),
        },
        Expr::LetCC { var, body } => ExprView::LetCC { var: var@, body: Box::new(expr_view(*body)) },
        Expr::Call { to_call, args } => ExprView::Call {
            to_call: Box::new(expr_view(*to_call)),
            args: exprs_view(args@),
        },
        Expr::Apply { lhs, args } => ExprView::Apply {
            lhs: Box::new(expr_view(*lhs)),
            args: exprs_view(args@),
        },
        Expr::Begin(exprs) => ExprView::Begin(exprs_view(exprs@)),
        Expr::IfElse { cond, expr, default } => ExprView::IfElse {
            cond: Box::new(expr_view(*cond)),
            expr: Box::new(expr_view(*expr)),
            default: match default {
                Some(d) => Some(Box::new(expr_view(*d))),
                None => None,
            },
        },
        Expr::SetVar(name, data) => ExprView::SetVar(name@, Box::new(expr_view(*data))),
        Expr::GetVar(name) => ExprView::GetVar(name@),
        Expr::SetField { lhs, field, data } => ExprView::SetField {
            lhs: Box::new(expr_view(*lhs)),
            field: field@,
            data: Box::new(expr_view(*data)),
        },
        Expr::GetField { data, field } => ExprView::GetField {
            data: Box::new(expr_view(*data)),
            field: field@,
        },
        Expr::Number(n) => ExprView::Number(n),
        Expr::String(s) => ExprView::String(s@),
        Expr::Bool(b) => ExprView::Bool(b),
        Expr::Nil => ExprView::Nil,
    }
}

impl View for Expr {
    type V = ExprView;

    open spec fn view(&self) -> ExprView {
        expr_view(*self)
    }
}

} // verus!
