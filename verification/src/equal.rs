//! Structural equality of trees, values and continuations.

use vstd::prelude::*;
use crate::ast::{Expr, expr_view, exprs_view, names_view};
use crate::value::{Continuation, ExprCont, Scope, Value, scopes_view};

verus! {

/// Whether two lists of names hold the same names in the same order.
pub fn eq_names(a: &[String], b: &[String]) -> (r: bool)
    ensures
        r == (names_view(a@) == names_view(b@)),
{
    if a.len() != b.len() {
        assert(names_view(a@).len() != names_view(b@).len());
        return false;
    }
    let mut i: usize = 0;
    while i < a.len()
        invariant
            i <= a.len(),
            a.len() == b.len(),
            forall|j: int| 0 <= j < i ==> a@[j]@ == b@[j]@,
        decreases a.len() - i,
    {
        if a[i] != b[i] {
            assert(names_view(a@)[i as int] != names_view(b@)[i as int]);
            return false;
        }
        i += 1;
    }
    assert(names_view(a@) =~= names_view(b@));
    true
}

/// Whether two lists of nodes are equal, node by node.
pub fn eq_exprs(a: &[Expr], b: &[Expr]) -> (r: bool)
    ensures
        r == (exprs_view(a@) == exprs_view(b@)),
    decreases a@,
{
    if a.len() != b.len() {
        assert(exprs_view(a@).len() != exprs_view(b@).len());
        return false;
    }
    let mut i: usize = 0;
    while i < a.len()
        invariant
            i <= a.len(),
            a.len() == b.len(),
            forall|j: int| 0 <= j < i ==> expr_view(a@[j]) == expr_view(b@[j]),
        decreases a.len() - i,
    {
        if !eq_expr(&a[i], &b[i]) {
            assert(exprs_view(a@)[i as int] != exprs_view(b@)[i as int]);
            return false;
        }
        i += 1;
    }
    assert(exprs_view(a@) =~= exprs_view(b@));
    true
}

/// Whether two nodes are the same tree.
pub fn eq_expr(a: &Expr, b: &Expr) -> (r: bool)
    ensures
        r == (a@ == b@),
    decreases *a,
{
    match (a, b) {
        (
            Expr::DefCont { name: n1, params: p1, body: b1 },
            Expr::DefCont { name: n2, params: p2, body: b2 },
        ) => *n1 == *n2 && eq_names(p1.as_slice(), p2.as_slice()) && eq_exprs(
            b1.as_slice(),
            b2.as_slice(),
        ),
        (Expr::LetCC { var: v1, body: b1 }, Expr::LetCC { var: v2, body: b2 }) => *v1 == *v2
            && eq_expr(b1, b2),
        (Expr::Call { to_call: c1, args: a1 }, Expr::Call { to_call: c2, args: a2 }) => eq_expr(
            c1,
            c2,
        ) && eq_exprs(a1.as_slice(), a2.as_slice()),
        (Expr::Apply { lhs: c1, args: a1 }, Expr::Apply { lhs: c2, args: a2 }) => eq_expr(c1, c2)
            && eq_exprs(a1.as_slice(), a2.as_slice()),
        (Expr::Begin(e1), Expr::Begin(e2)) => eq_exprs(e1.as_slice(), e2.as_slice()),
        (
            Expr::IfElse { cond: c1, expr: e1, default: d1 },
            Expr::IfElse { cond: c2, expr: e2, default: d2 },
        ) => {
            let defaults = match (d1, d2) {
                (Some(x), Some(y)) => eq_expr(x, y),
                (None, None) => true,
                _ => false,
            };
            eq_expr(c1, c2) && eq_expr(e1, e2) && defaults
        },
        (Expr::SetVar(n1, d1), Expr::SetVar(n2, d2)) => *n1 == *n2 && eq_expr(d1, d2),
        (Expr::GetVar(n1), Expr::GetVar(n2)) => *n1 == *n2,
        (
            Expr::SetField { lhs: l1, field: f1, data: d1 },
            Expr::SetField { lhs: l2, field: f2, data: d2 },
        ) => eq_expr(l1, l2) && *f1 == *f2 && eq_expr(d1, d2),
        (Expr::GetField { data: d1, field: f1 }, Expr::GetField { data: d2, field: f2 }) => eq_expr(
            d1,
            d2,
        ) && *f1 == *f2,
        (Expr::Number(x), Expr::Number(y)) => *x == *y,
        (Expr::String(x), Expr::String(y)) => *x == *y,
        (Expr::Bool(x), Expr::Bool(y)) => *x == *y,
        (Expr::Nil, Expr::Nil) => true,
        _ => false,
    }
}

/// Whether two values are structurally equal. Values of different kinds are
/// never equal.
pub fn eq_value<'a>(a: &Value<'a>, b: &Value<'a>) -> (r: bool)
    ensures
        r == (a@ == b@),
    decreases *a,
{
    match (a, b) {
        (Value::Continuation(x), Value::Continuation(y)) => eq_cont(x, y),
        (Value::String(x), Value::String(y)) => *x == *y,
        (Value::Number(x), Value::Number(y)) => *x == *y,
        (Value::Bool(x), Value::Bool(y)) => *x == *y,
        (Value::Nil, Value::Nil) => true,
        _ => false,
    }
}

/// Whether two continuations are structurally equal.
#[verifier::loop_isolation(false)]
pub fn eq_cont<'a>(a: &Continuation<'a>, b: &Continuation<'a>) -> (r: bool)
    ensures
        r == (a@ == b@),
    decreases *a,
{
    match (a, b) {
        (Continuation::Native(x), Continuation::Native(y)) => *x == *y,
        (Continuation::Return, Continuation::Return) => true,
        (
            Continuation::Normal { scopes: s1, vars: v1, exprs: e1 },
            Continuation::Normal { scopes: s2, vars: v2, exprs: e2 },
        ) => {
            let pending = match (e1, e2) {
                (ExprCont::Single(x), ExprCont::Single(y)) => eq_expr(x, y),
                (ExprCont::Multiple(x), ExprCont::Multiple(y)) => eq_exprs(x, y),
                (ExprCont::Nil, ExprCont::Nil) => true,
                _ => false,
            };
            if !pending || s1.len() != s2.len() {
                assert(s1.len() != s2.len() ==> scopes_view(s1@).len() != scopes_view(s2@).len());
                return false;
            }
            let mut i: usize = 0;
            while i < s1.len()
                invariant
                    i <= s1.len(),
                    s1.len() == s2.len(),
                    forall|j: int| 0 <= j < i ==> s1@[j]@ == s2@[j]@,
                    decreases_to!(*a => *s1),
                decreases s1.len() - i,
            {
                if !eq_scope(&s1[i], &s2[i]) {
                    assert(scopes_view(s1@)[i as int] != scopes_view(s2@)[i as int]);
                    return false;
                }
                i += 1;
            }
            assert(scopes_view(s1@) =~= scopes_view(s2@));
            eq_scope(v1, v2)
        },
        (
            Continuation::Function { params: p1, body: b1 },
            Continuation::Function { params: p2, body: b2 },
        ) => eq_names(p1, p2) && eq_exprs(b1, b2),
        _ => false,
    }
}

/// Whether two scopes hold the same bindings in the same order.
pub fn eq_scope<'a>(a: &Scope<'a>, b: &Scope<'a>) -> (r: bool)
    ensures
        r == (a@ == b@),
    decreases *a,
{
    if a.entries.len() != b.entries.len() {
        assert(a@.len() != b@.len());
        return false;
    }
    let mut i: usize = 0;
    while i < a.entries.len()
        invariant
            i <= a.entries.len(),
            a.entries.len() == b.entries.len(),
            forall|j: int| 0 <= j < i ==> a@[j] == b@[j],
        decreases a.entries.len() - i,
    {
        if a.entries[i].0 != b.entries[i].0 || !eq_value(&a.entries[i].1, &b.entries[i].1) {
            assert(a@[i as int] != b@[i as int]);
            return false;
        }
        i += 1;
    }
    assert(a@ =~= b@);
    true
}

} // verus!
