//! Runtime values, continuations and scopes, with their mathematical models.

use vstd::prelude::*;
use crate::ast::{Expr, ExprView, Text, expr_view, exprs_view, names_view};
use crate::error::{EvalError, EvalErrorView};

verus! {

/// A built-in operation.
#[derive(Debug, Clone, Copy, PartialEq, Eq, Structural)]
pub enum NativeOp {
    Println,
    Add,
    Sub,
    Mul,
    Rem,
    Eq,
    And,
}

/// A value that circulates during evaluation.
#[derive(Debug, PartialEq)]
pub enum Value<'a> {
    Continuation(Continuation<'a>),
    String(String),
    Number(i64),
    Bool(bool),
    Nil,
}

/// What a live frame still has to evaluate.
#[derive(Debug, Clone, Copy, PartialEq)]
pub enum ExprCont<'a> {
    Single(&'a Expr),
    Multiple(&'a [Expr]),
    Nil,
}

/// The bindings of one scope, in the order in which the names were defined.
#[derive(Debug, PartialEq)]
pub struct Scope<'a> {
    pub entries: Vec<(String, Value<'a>)>,
}

/// What receives a value next.
#[derive(Debug, PartialEq)]
pub enum Continuation<'a> {
    /// A built-in operation.
    Native(NativeOp),
    /// The marker that hands its first argument back as the final value.
    Return,
    /// A live frame: saved outer scopes, the local scope, the pending code.
    Normal { scopes: Vec<Scope<'a>>, vars: Scope<'a>, exprs: ExprCont<'a> },
    /// A callable unit of the syntax tree.
    Function { params: &'a [String], body: &'a [Expr] },
}

/// What one step of evaluation hands back.
#[derive(Debug)]
pub enum ContRet<'a> {
    /// Control goes to the continuation, with these arguments.
    Apply(Continuation<'a>, Vec<Value<'a>>),
    /// The step resolved to the value; the frame is as the step left it.
    Data(Continuation<'a>, Value<'a>),
}

/// What evaluating a list of expressions hands back.
#[derive(Debug)]
pub enum ListRet<'a> {
    /// One of them transferred control; the rest was not evaluated.
    Apply(Continuation<'a>, Vec<Value<'a>>),
    /// All resolved: the frame after the last, and the values in order.
    Values(Continuation<'a>, Vec<Value<'a>>),
}

/// The model of what one step hands back.
pub ghost enum RetView {
    Apply(ContView, Seq<ValueView>),
    Data(ContView, ValueView),
}

/// The model of what evaluating a list of expressions hands back.
pub ghost enum ListView {
    /// One of them transferred control; the rest was not evaluated.
    Apply(ContView, Seq<ValueView>),
    /// All resolved: the frame after the last, and the values in order.
    Values(ContView, Seq<ValueView>),
}

/// The model of a scope: its bindings in definition order.
pub type ScopeView = Seq<(Text, ValueView)>;

/// The model of a value.
pub ghost enum ValueView {
    Continuation(ContView),
    String(Text),
    Number(i64),
    Bool(bool),
    Nil,
}

/// The model of the pending code of a frame.
pub ghost enum PendingView {
    Single(ExprView),
    Multiple(Seq<ExprView>),
    Nil,
}

/// The model of a continuation.
pub ghost enum ContView {
    Native(NativeOp),
    Return,
    Normal { scopes: Seq<ScopeView>, vars: ScopeView, exprs: PendingView },
    Function { params: Seq<Text>, body: Seq<ExprView> },
}

/// The model of a value.
pub open spec fn value_view(v: Value<'_>) -> ValueView
    decreases v,
{
    match v {
        Value::Continuation(c) => ValueView::Continuation(cont_view(c)),
        Value::String(s) => ValueView::String(s@),
        Value::Number(n) => ValueView::Number(n),
        Value::Bool(b) => ValueView::Bool(b),
        Value::Nil => ValueView::Nil,
    }
}

/// The model of a continuation.
pub open spec fn cont_view(c: Continuation<'_>) -> ContView
    decreases c,
{
    match c {
        Continuation::Native(op) => ContView::Native(op),
        Continuation::Return => ContView::Return,
        Continuation::Normal { scopes, vars, exprs } => ContView::Normal {
            scopes: scopes_view(scopes@),
            vars: entries_view(vars.entries@),
            exprs: exprs@,
        },
        Continuation::Function { params, body } => ContView::Function {
            params: names_view(params@),
            body: exprs_view(body@),
        },
    }
}

/// The models of a stack of scopes.
pub open spec fn scopes_view(scopes: Seq<Scope<'_>>) -> Seq<ScopeView>
    decreases scopes,
{
    Seq::new(
        scopes.len(),
        |i: int|
            if 0 <= i < scopes.len() {
                entries_view(scopes[i].entries@)
            } else {
                Seq::empty()
            },
    )
}

/// The models of a list of bindings.
pub open spec fn entries_view(entries: Seq<(String, Value<'_>)>) -> ScopeView
    decreases entries,
{
    Seq::new(
        entries.len(),
        |i: int|
            if 0 <= i < entries.len() {
                (entries[i].0@, value_view(entries[i].1))
            } else {
                (Seq::empty(), ValueView::Nil)
            },
    )
}

/// The models of a list of values.
pub open spec fn values_view(values: Seq<Value<'_>>) -> Seq<ValueView> {
    Seq::new(values.len(), |i: int| value_view(values[i]))
}

/// The model of the result of an invocation.
pub open spec fn value_result_view(r: Result<Value<'_>, EvalError>) -> Result<
    ValueView,
    EvalErrorView,
> {
    match r {
        Ok(v) => Ok(v@),
        Err(e) => Err(e@),
    }
}

/// The model of the result of one step.
pub open spec fn step_view(r: Result<ContRet<'_>, EvalError>) -> Result<RetView, EvalErrorView> {
    match r {
        Ok(ret) => Ok(ret@),
        Err(e) => Err(e@),
    }
}

/// The model of the result of a list of steps.
pub open spec fn list_view(r: Result<ListRet<'_>, EvalError>) -> Result<ListView, EvalErrorView> {
    match r {
        Ok(ListRet::Apply(c, d)) => Ok(ListView::Apply(c@, values_view(d@))),
        Ok(ListRet::Values(c, d)) => Ok(ListView::Values(c@, values_view(d@))),
        Err(e) => Err(e@),
    }
}

impl<'a> View for ExprCont<'a> {
    type V = PendingView;

    open spec fn view(&self) -> PendingView {
        match self {
            ExprCont::Single(e) => PendingView::Single(expr_view(**e)),
            ExprCont::Multiple(es) => PendingView::Multiple(exprs_view(es@)),
            ExprCont::Nil => PendingView::Nil,
        }
    }
}

impl<'a> View for ContRet<'a> {
    type V = RetView;

    open spec fn view(&self) -> RetView {
        match self {
            ContRet::Apply(c, args) => RetView::Apply(cont_view(*c), values_view(args@)),
            ContRet::Data(c, v) => RetView::Data(cont_view(*c), value_view(*v)),
        }
    }
}

impl<'a> View for Scope<'a> {
    type V = ScopeView;

    open spec fn view(&self) -> ScopeView {
        entries_view(self.entries@)
    }
}

impl<'a> View for Value<'a> {
    type V = ValueView;

    open spec fn view(&self) -> ValueView {
        value_view(*self)
    }
}

impl<'a> View for Continuation<'a> {
    type V = ContView;

    open spec fn view(&self) -> ContView {
        cont_view(*self)
    }
}

/// A copy of a list of names.
pub fn clone_names(names: &Vec<String>) -> (r: Vec<String>)
    ensures
        names_view(r@) == names_view(names@),
{
    let mut r: Vec<String> = Vec::new();
    let mut i: usize = 0;
    while i < names.len()
        invariant
            i <= names.len(),
            r.len() == i,
            forall|j: int| 0 <= j < i ==> r@[j]@ == names@[j]@,
        decreases names.len() - i,
    {
        r.push(names[i].clone());
        i += 1;
    }
    assert(names_view(r@) =~= names_view(names@));
    r
}

/// A copy of a value, with the same model.
pub fn clone_value<'a>(v: &Value<'a>) -> (r: Value<'a>)
    ensures
        r@ == v@,
    decreases *v,
{
    match v {
        Value::Continuation(c) => Value::Continuation(clone_cont(c)),
        Value::String(s) => Value::String(s.clone()),
        Value::Number(n) => Value::Number(*n),
        Value::Bool(b) => Value::Bool(*b),
        Value::Nil => Value::Nil,
    }
}

/// A copy of a continuation, with the same model.
pub fn clone_cont<'a>(c: &Continuation<'a>) -> (r: Continuation<'a>)
    ensures
        r@ == c@,
    decreases *c,
{
    match c {
        Continuation::Native(op) => Continuation::Native(*op),
        Continuation::Return => Continuation::Return,
        Continuation::Normal { scopes, vars, exprs } => {
            let mut copies: Vec<Scope<'a>> = Vec::new();
            let mut i: usize = 0;
            while i < scopes.len()
                invariant
                    i <= scopes.len(),
                    copies.len() == i,
                    forall|j: int| 0 <= j < i ==> copies@[j]@ == scopes@[j]@,
                    decreases_to!(*c => *scopes),
                decreases scopes.len() - i,
            {
                copies.push(clone_scope(&scopes[i]));
                i += 1;
            }
            assert(scopes_view(copies@) =~= scopes_view(scopes@));
            let exprs = match exprs {
                ExprCont::Single(e) => ExprCont::Single(*e),
                ExprCont::Multiple(es) => ExprCont::Multiple(*es),
                ExprCont::Nil => ExprCont::Nil,
            };
            Continuation::Normal { scopes: copies, vars: clone_scope(vars), exprs }
        },
        Continuation::Function { params, body } => Continuation::Function {
            params: *params,
            body: *body,
        },
    }
}

/// A copy of a scope, with the same model.
pub fn clone_scope<'a>(s: &Scope<'a>) -> (r: Scope<'a>)
    ensures
        r@ == s@,
    decreases *s,
{
    let mut entries: Vec<(String, Value<'a>)> = Vec::new();
    let mut i: usize = 0;
    while i < s.entries.len()
        invariant
            i <= s.entries.len(),
            entries.len() == i,
            forall|j: int|
                0 <= j < i ==> entries@[j].0@ == s.entries@[j].0@ && value_view(entries@[j].1)
                    == value_view(s.entries@[j].1),
        decreases s.entries.len() - i,
    {
        let name = s.entries[i].0.clone();
        let value = clone_value(&s.entries[i].1);
        entries.push((name, value));
        i += 1;
    }
    assert(entries_view(entries@) =~= entries_view(s.entries@));
    Scope { entries }
}

impl<'a> Clone for Value<'a> {
    fn clone(&self) -> (r: Self)
        ensures
            r@ == self@,
    {
        clone_value(self)
    }
}

impl<'a> Clone for Continuation<'a> {
    fn clone(&self) -> (r: Self)
        ensures
            r@ == self@,
    {
        clone_cont(self)
    }
}

impl<'a> Clone for Scope<'a> {
    fn clone(&self) -> (r: Self)
        ensures
            r@ == self@,
    {
        clone_scope(self)
    }
}

} // verus!
