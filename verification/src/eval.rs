//! The evaluator: invoking continuations and evaluating nodes in a frame.

use vstd::prelude::*;
use vstd::string::*;
use crate::ast::{Expr, exprs_view, names_view};
use crate::error::EvalError;
use crate::natives::call_native;
use crate::registry::RootScope;
use crate::semantics::{
    block_result, enter_scope, find_in_scopes, finish_spec, initial_scope, last_or_nil,
    lemma_single_keeps_frame, list_spec, run_cont_spec, run_inner_spec, run_spec, single_spec,
};
use crate::value::{
    ContRet, ContView, Continuation, ExprCont, ListRet, Scope, ScopeView, Value, ValueView,
    clone_value, list_view, scopes_view, step_view, value_result_view, values_view,
};

verus! {

/// The local scope of a fresh frame: each parameter bound to the argument
/// at its position.
pub fn bind_params<'a>(params: &'a [String], args: &Vec<Value<'a>>) -> (r: Scope<'a>)
    requires
        params.len() == args.len(),
    ensures
        r@ == initial_scope(names_view(params@), values_view(args@)),
{
    let mut scope = Scope::new();
    let ghost ps = names_view(params@);
    let ghost vs = values_view(args@);
    let mut i: usize = 0;
    while i < params.len()
        invariant
            i <= params.len(),
            params.len() == args.len(),
            ps == names_view(params@),
            vs == values_view(args@),
            scope@ == initial_scope(ps.take(i as int), vs.take(i as int)),
        decreases params.len() - i,
    {
        proof {
            assert(ps.take(i + 1).drop_last() =~= ps.take(i as int));
            assert(vs.take(i + 1).drop_last() =~= vs.take(i as int));
        }
        scope.insert(params[i].clone(), clone_value(&args[i]));
        i += 1;
    }
    proof {
        assert(ps.take(params.len() as int) =~= ps);
        assert(vs.take(params.len() as int) =~= vs);
    }
    scope
}

/// A copy of the value of `name` in the saved scopes, the one pushed last
/// first.
pub fn find_saved<'a>(scopes: &Vec<Scope<'a>>, name: &String) -> (r: Option<Value<'a>>)
    ensures
        match r {
            Some(v) => find_in_scopes(scopes_view(scopes@), name@) == Some(v@),
            None => find_in_scopes(scopes_view(scopes@), name@) is None,
        },
{
    let ghost sv = scopes_view(scopes@);
    let mut i: usize = scopes.len();
    assert(sv.take(i as int) =~= sv);
    while i > 0
        invariant
            i <= scopes.len(),
            sv == scopes_view(scopes@),
            find_in_scopes(sv, name@) == find_in_scopes(sv.take(i as int), name@),
        decreases i,
    {
        proof {
            assert(sv.take(i as int).drop_last() =~= sv.take(i - 1));
            assert(sv.take(i as int).last() == scopes@[i - 1]@);
        }
        match scopes[i - 1].get(name) {
            Some(v) => {
                return Some(v);
            },
            None => {},
        }
        i -= 1;
    }
    None
}

impl<'a> Continuation<'a> {
    /// The saved scopes, the local scope and the pending code of a frame.
    pub fn into_parts(self) -> (r: (Vec<Scope<'a>>, Scope<'a>, ExprCont<'a>))
        requires
            self is Normal,
        ensures
            self == (Continuation::Normal { scopes: r.0, vars: r.1, exprs: r.2 }),
    {
        match self {
            Continuation::Normal { scopes, vars, exprs } => (scopes, vars, exprs),
            _ => (Vec::new(), Scope::new(), ExprCont::Nil),
        }
    }

    /// Invokes the continuation with `args` and runs to the final value.
    ///
    /// `fuel` bounds how many invocations may follow one another or nest;
    /// it is needed only to go on, so the return marker, a wrong number of
    /// arguments and a built-in that fails never run out of it. What is
    /// printed is added to `out`, one line for each `println`. A transfer is
    /// taken in a loop, so a chain of transfers does not grow the stack.
    pub fn run(
        self,
        root: &RootScope<'a>,
        args: Vec<Value<'a>>,
        fuel: usize,
        out: &mut Vec<String>,
    ) -> (r: Result<Value<'a>, EvalError>)
        ensures
            value_result_view(r) == run_spec(
                root@,
                fuel as nat,
                self@,
                values_view(args@),
                names_view(old(out)@),
            ).res,
            names_view(final(out)@) == run_spec(
                root@,
                fuel as nat,
                self@,
                values_view(args@),
                names_view(old(out)@),
            ).out,
        decreases fuel, 0int,
    {
        let ghost goal = run_spec(
            root@,
            fuel as nat,
            self@,
            values_view(args@),
            names_view(out@),
        );
        let mut cont = self;
        let mut given = args;
        let mut left = fuel;
        loop
            invariant
                left <= fuel,
                goal == run_spec(
                    root@,
                    left as nat,
                    cont@,
                    values_view(given@),
                    names_view(out@),
                ),
                goal == run_spec(
                    root@,
                    fuel as nat,
                    self@,
                    values_view(args@),
                    names_view(old(out)@),
                ),
            decreases left,
        {
            let ghost before = names_view(out@);
            let step = match cont {
                Continuation::Return => {
                    if given.len() > 0 {
                        return Ok(clone_value(&given[0]));
                    } else {
                        return Ok(Value::Nil);
                    }
                },
                Continuation::Function { params, body } => {
                    if given.len() != params.len() {
                        return Err(
                            EvalError::ArityMismatch { expected: params.len(), actual: given.len() },
                        );
                    }
                    if left == 0 {
                        return Err(EvalError::DepthExceeded);
                    }
                    let vars = bind_params(params, &given);
                    let frame = Continuation::Normal {
                        scopes: Vec::new(),
                        vars,
                        exprs: ExprCont::Multiple(body),
                    };
                    proof {
                        assert(scopes_view(Seq::<Scope<'a>>::empty()) =~= Seq::<ScopeView>::empty());
                        let listed = list_spec(
                            root@,
                            (left - 1) as nat,
                            frame@,
                            exprs_view(body@),
                            0,
                            Seq::empty(),
                            before,
                        );
                        assert(goal == run_inner_spec(
                            root@,
                            (left - 1) as nat,
                            frame@,
                            Seq::empty(),
                            before,
                        ));
                        assert(goal == finish_spec(root@, (left - 1) as nat, block_result(listed)));
                    }
                    frame.run_block(root, body, left - 1, out)
                },
                Continuation::Native(op) => {
                    let reply = call_native(op, given, out);
                    if left == 0 {
                        match reply {
                            Ok(ContRet::Apply(_, _)) => {
                                return Err(EvalError::DepthExceeded);
                            },
                            Ok(ContRet::Data(_, data)) => {
                                return Ok(data);
                            },
                            Err(e) => {
                                return Err(e);
                            },
                        }
                    }
                    reply
                },
                Continuation::Normal { scopes, vars, exprs } => {
                    if left == 0 {
                        return Err(EvalError::DepthExceeded);
                    }
                    let frame = Continuation::Normal { scopes, vars, exprs };
                    let ghost inner = run_inner_spec(
                        root@,
                        (left - 1) as nat,
                        frame@,
                        values_view(given@),
                        before,
                    );
                    assert(goal == inner);
                    match exprs {
                        ExprCont::Single(expr) => {
                            proof {
                                let single = single_spec(
                                    root@,
                                    (left - 1) as nat,
                                    frame@,
                                    expr@,
                                    before,
                                );
                                assert(goal == finish_spec(root@, (left - 1) as nat, single));
                            }
                            frame.run_single(root, expr, left - 1, out)
                        },
                        ExprCont::Multiple(exprs) => {
                            proof {
                                let listed = list_spec(
                                    root@,
                                    (left - 1) as nat,
                                    frame@,
                                    exprs_view(exprs@),
                                    0,
                                    Seq::empty(),
                                    before,
                                );
                                assert(goal == finish_spec(
                                    root@,
                                    (left - 1) as nat,
                                    block_result(listed),
                                ));
                            }
                            frame.run_block(root, exprs, left - 1, out)
                        },
                        ExprCont::Nil => {
                            return Ok(Value::Nil);
                        },
                    }
                },
            };
            match step {
                Err(e) => {
                    return Err(e);
                },
                Ok(ContRet::Data(_, data)) => {
                    return Ok(data);
                },
                Ok(ContRet::Apply(next, d)) => {
                    cont = next;
                    given = d;
                    left = left - 1;
                },
            }
        }
    }

    /// Runs a frame, or the return marker, to its final value. The return
    /// marker hands back its first argument, or no value where it has none.
    /// A function or a built-in operation is not run this way, and fails.
    pub fn run_inner(
        self,
        root: &RootScope<'a>,
        args: Vec<Value<'a>>,
        fuel: usize,
        out: &mut Vec<String>,
    ) -> (r: Result<Value<'a>, EvalError>)
        ensures
            value_result_view(r) == run_inner_spec(
                root@,
                fuel as nat,
                self@,
                values_view(args@),
                names_view(old(out)@),
            ).res,
            names_view(final(out)@) == run_inner_spec(
                root@,
                fuel as nat,
                self@,
                values_view(args@),
                names_view(old(out)@),
            ).out,
        decreases fuel, 3int,
    {
        match self {
            Continuation::Return => {
                if args.len() > 0 {
                    Ok(clone_value(&args[0]))
                } else {
                    Ok(Value::Nil)
                }
            },
            Continuation::Normal { scopes, vars, exprs } => {
                let frame = Continuation::Normal { scopes, vars, exprs };
                let step = match exprs {
                    ExprCont::Single(expr) => frame.run_single(root, expr, fuel, out),
                    ExprCont::Multiple(exprs) => frame.run_block(root, exprs, fuel, out),
                    ExprCont::Nil => {
                        return Ok(Value::Nil);
                    },
                };
                match step {
                    Err(e) => Err(e),
                    Ok(ContRet::Apply(cont, d)) => cont.run(root, d, fuel, out),
                    Ok(ContRet::Data(_, data)) => Ok(data),
                }
            },
            _ => Err(EvalError::NotInvocable),
        }
    }

    /// Evaluates the expressions in order, each in the frame that the one
    /// before left, up to the first that transfers control. The value is
    /// that of the last expression, or no value where the list is empty.
    pub fn run_block(
        self,
        root: &RootScope<'a>,
        exprs: &'a [Expr],
        fuel: usize,
        out: &mut Vec<String>,
    ) -> (r: Result<ContRet<'a>, EvalError>)
        requires
            self is Normal,
        ensures
            step_view(r) == block_result(
                list_spec(
                    root@,
                    fuel as nat,
                    self@,
                    exprs_view(exprs@),
                    0,
                    Seq::empty(),
                    names_view(old(out)@),
                ),
            ).res,
            names_view(final(out)@) == list_spec(
                root@,
                fuel as nat,
                self@,
                exprs_view(exprs@),
                0,
                Seq::empty(),
                names_view(old(out)@),
            ).out,
        decreases fuel, 1int, exprs@, exprs.len(),
    {
        let ghost es = exprs_view(exprs@);
        let ghost whole = list_spec(
            root@,
            fuel as nat,
            self@,
            es,
            0,
            Seq::empty(),
            names_view(out@),
        );
        let mut frame = self;
        let mut ret = Value::Nil;
        let ghost mut acc = Seq::<ValueView>::empty();
        let mut i: usize = 0;
        while i < exprs.len()
            invariant
                i <= exprs.len(),
                es == exprs_view(exprs@),
                frame is Normal,
                ret@ == last_or_nil(acc),
                whole == list_spec(
                    root@,
                    fuel as nat,
                    self@,
                    es,
                    0,
                    Seq::empty(),
                    names_view(old(out)@),
                ),
                whole == list_spec(root@, fuel as nat, frame@, es, i as int, acc, names_view(out@)),
            decreases exprs.len() - i,
        {
            proof {
                lemma_single_keeps_frame(
                    root@,
                    fuel as nat,
                    frame@,
                    es[i as int],
                    names_view(out@),
                );
            }
            match frame.run_single(root, &exprs[i], fuel, out) {
                Err(e) => {
                    return Err(e);
                },
                Ok(ContRet::Apply(c, d)) => {
                    return Ok(ContRet::Apply(c, d));
                },
                Ok(ContRet::Data(s, d)) => {
                    proof {
                        acc = acc.push(d@);
                    }
                    ret = d;
                    frame = s;
                },
            }
            i += 1;
        }
        Ok(ContRet::Data(frame, ret))
    }

    /// Evaluates the expressions in order, each in the frame that the one
    /// before left, up to the first that transfers control, and collects
    /// their values after those of `first`.
    pub fn run_args(
        self,
        root: &RootScope<'a>,
        exprs: &'a [Expr],
        first: Vec<Value<'a>>,
        fuel: usize,
        out: &mut Vec<String>,
    ) -> (r: Result<ListRet<'a>, EvalError>)
        requires
            self is Normal,
        ensures
            list_view(r) == list_spec(
                root@,
                fuel as nat,
                self@,
                exprs_view(exprs@),
                0,
                values_view(first@),
                names_view(old(out)@),
            ).res,
            names_view(final(out)@) == list_spec(
                root@,
                fuel as nat,
                self@,
                exprs_view(exprs@),
                0,
                values_view(first@),
                names_view(old(out)@),
            ).out,
        decreases fuel, 1int, exprs@, exprs.len(),
    {
        let ghost es = exprs_view(exprs@);
        let ghost whole = list_spec(
            root@,
            fuel as nat,
            self@,
            es,
            0,
            values_view(first@),
            names_view(out@),
        );
        let mut frame = self;
        let mut values = first;
        let mut i: usize = 0;
        while i < exprs.len()
            invariant
                i <= exprs.len(),
                es == exprs_view(exprs@),
                frame is Normal,
                whole == list_spec(
                    root@,
                    fuel as nat,
                    self@,
                    es,
                    0,
                    values_view(first@),
                    names_view(old(out)@),
                ),
                whole == list_spec(
                    root@,
                    fuel as nat,
                    frame@,
                    es,
                    i as int,
                    values_view(values@),
                    names_view(out@),
                ),
            decreases exprs.len() - i,
        {
            proof {
                lemma_single_keeps_frame(
                    root@,
                    fuel as nat,
                    frame@,
                    es[i as int],
                    names_view(out@),
                );
            }
            match frame.run_single(root, &exprs[i], fuel, out) {
                Err(e) => {
                    return Err(e);
                },
                Ok(ContRet::Apply(c, d)) => {
                    return Ok(ListRet::Apply(c, d));
                },
                Ok(ContRet::Data(s, d)) => {
                    let ghost before = values_view(values@);
                    values.push(d);
                    assert(values_view(values@) =~= before.push(d@));
                    frame = s;
                },
            }
            i += 1;
        }
        Ok(ListRet::Values(frame, values))
    }

    /// Evaluates one node in the frame `self`.
    ///
    /// Hands back the value with the frame as the node left it, or the
    /// transfer that the node made, in which case the frame is given up.
    pub fn run_single(
        self,
        root: &RootScope<'a>,
        expr: &'a Expr,
        fuel: usize,
        out: &mut Vec<String>,
    ) -> (r: Result<ContRet<'a>, EvalError>)
        requires
            self is Normal,
        ensures
            step_view(r) == single_spec(
                root@,
                fuel as nat,
                self@,
                expr@,
                names_view(old(out)@),
            ).res,
            names_view(final(out)@) == single_spec(
                root@,
                fuel as nat,
                self@,
                expr@,
                names_view(old(out)@),
            ).out,
        decreases fuel, 1int, *expr, 0int,
    {
        let ghost out0 = names_view(out@);
        match expr {
            Expr::DefCont { name, params, body } => {
                let (scopes, mut vars, exprs) = self.into_parts();
                vars.insert(
                    name.clone(),
                    Value::Continuation(
                        Continuation::Function { params: params.as_slice(), body: body.as_slice() },
                    ),
                );
                Ok(ContRet::Data(Continuation::Normal { scopes, vars, exprs }, Value::Nil))
            },
            Expr::Begin(exprs) => self.run_block(root, exprs.as_slice(), fuel, out),
            Expr::LetCC { var, body } => {
                let (mut scopes, vars, exprs) = self.into_parts();
                let ghost saved = scopes_view(scopes@);
                scopes.push(vars);
                assert(scopes_view(scopes@) =~= saved.push(vars@));
                let mut fresh = Scope::new();
                fresh.insert(var.clone(), Value::Continuation(Continuation::Return));
                let inner = Continuation::Normal { scopes, vars: fresh, exprs };
                assert(inner@ == enter_scope(self@, var@));
                proof {
                    lemma_single_keeps_frame(root@, fuel as nat, inner@, body@, out0);
                }
                match inner.run_single(root, body, fuel, out) {
                    Err(e) => Err(e),
                    Ok(ContRet::Apply(c, d)) => Ok(ContRet::Apply(c, d)),
                    Ok(ContRet::Data(s, d)) => {
                        let (mut scopes, _, exprs) = s.into_parts();
                        let ghost pushed = scopes_view(scopes@);
                        assert(scopes.len() > 0) by {
                            assert(pushed.len() == scopes.len());
                        }
                        let scope = scopes.pop().unwrap();
                        assert(scopes_view(scopes@) =~= pushed.drop_last());
                        Ok(ContRet::Data(Continuation::Normal { scopes, vars: scope, exprs }, d))
                    },
                }
            },
            Expr::Call { to_call, args } => {
                proof {
                    lemma_single_keeps_frame(root@, fuel as nat, self@, to_call@, out0);
                }
                match self.run_single(root, to_call, fuel, out) {
                    Err(e) => Err(e),
                    Ok(ContRet::Apply(c, d)) => Ok(ContRet::Apply(c, d)),
                    Ok(ContRet::Data(s, target)) => {
                        let mut first: Vec<Value<'a>> = Vec::new();
                        first.push(Value::Continuation(Continuation::Return));
                        assert(values_view(first@) =~= seq![
                            ValueView::Continuation(ContView::Return),
                        ]);
                        match s.run_args(root, args.as_slice(), first, fuel, out) {
                            Err(e) => Err(e),
                            Ok(ListRet::Apply(c, d)) => Ok(ContRet::Apply(c, d)),
                            Ok(ListRet::Values(next, values)) => match target {
                                Value::Continuation(cont) => match cont.run(root, values, fuel, out) {
                                    Ok(data) => Ok(ContRet::Data(next, data)),
                                    Err(e) => Err(e),
                                },
                                _ => Err(EvalError::NotInvocable),
                            },
                        }
                    },
                }
            },
            Expr::Apply { lhs, args } => {
                proof {
                    lemma_single_keeps_frame(root@, fuel as nat, self@, lhs@, out0);
                }
                match self.run_single(root, lhs, fuel, out) {
                    Err(e) => Err(e),
                    Ok(ContRet::Apply(c, d)) => Ok(ContRet::Apply(c, d)),
                    Ok(ContRet::Data(s, target)) => {
                        let first: Vec<Value<'a>> = Vec::new();
                        assert(values_view(first@) =~= Seq::<ValueView>::empty());
                        match s.run_args(root, args.as_slice(), first, fuel, out) {
                            Err(e) => Err(e),
                            Ok(ListRet::Apply(c, d)) => Ok(ContRet::Apply(c, d)),
                            Ok(ListRet::Values(_, values)) => match target {
                                Value::Continuation(cont) => Ok(ContRet::Apply(cont, values)),
                                _ => Err(EvalError::NotInvocable),
                            },
                        }
                    },
                }
            },
            Expr::IfElse { cond, expr, default } => {
                proof {
                    lemma_single_keeps_frame(root@, fuel as nat, self@, cond@, out0);
                }
                match self.run_single(root, cond, fuel, out) {
                    Err(e) => Err(e),
                    Ok(ContRet::Apply(c, d)) => Ok(ContRet::Apply(c, d)),
                    Ok(ContRet::Data(s, d)) => {
                        let res = match d {
                            Value::Bool(b) => b,
                            _ => false,
                        };
                        if res {
                            s.run_single(root, expr, fuel, out)
                        } else {
                            match default {
                                Some(def) => s.run_single(root, def, fuel, out),
                                None => Ok(ContRet::Data(s, Value::Nil)),
                            }
                        }
                    },
                }
            },
            Expr::SetVar(name, data) => {
                proof {
                    lemma_single_keeps_frame(root@, fuel as nat, self@, data@, out0);
                }
                match self.run_single(root, data, fuel, out) {
                    Err(e) => Err(e),
                    Ok(ContRet::Apply(c, d)) => Ok(ContRet::Apply(c, d)),
                    Ok(ContRet::Data(s, d)) => {
                        let (scopes, mut vars, exprs) = s.into_parts();
                        vars.insert(name.clone(), d);
                        Ok(ContRet::Data(Continuation::Normal { scopes, vars, exprs }, Value::Nil))
                    },
                }
            },
            Expr::GetVar(name) => {
                let (scopes, vars, exprs) = self.into_parts();
                let found = match vars.get(name) {
                    Some(v) => Some(v),
                    None => match find_saved(&scopes, name) {
                        Some(v) => Some(v),
                        None => match root.find(name) {
                            Some(c) => Some(Value::Continuation(c)),
                            None => None,
                        },
                    },
                };
                match found {
                    Some(v) => Ok(ContRet::Data(Continuation::Normal { scopes, vars, exprs }, v)),
                    None => Err(EvalError::UnresolvedVariable(name.clone())),
                }
            },
            Expr::SetField { .. } => Err(EvalError::Unsupported),
            Expr::GetField { .. } => Err(EvalError::Unsupported),
            Expr::String(s) => Ok(ContRet::Data(self, Value::String(s.clone()))),
            Expr::Number(n) => Ok(ContRet::Data(self, Value::Number(*n))),
            Expr::Bool(b) => Ok(ContRet::Data(self, Value::Bool(*b))),
            Expr::Nil => Ok(ContRet::Data(self, Value::Nil)),
        }
    }
}

impl<'a> RootScope<'a> {
    /// Invokes the continuation registered under `name` with `args`; fails
    /// where the registry holds none of that name.
    pub fn run_cont(
        &self,
        name: &str,
        args: Vec<Value<'a>>,
        fuel: usize,
        out: &mut Vec<String>,
    ) -> (r: Result<Value<'a>, EvalError>)
        ensures
            value_result_view(r) == run_cont_spec(
                self@,
                name@,
                fuel as nat,
                values_view(args@),
                names_view(old(out)@),
            ).res,
            names_view(final(out)@) == run_cont_spec(
                self@,
                name@,
                fuel as nat,
                values_view(args@),
                names_view(old(out)@),
            ).out,
    {
        match self.get(name) {
            Some(cont) => cont.run(self, args, fuel, out),
            None => Err(EvalError::UndefinedEntryPoint(String::from_str(name))),
        }
    }
}

} // verus!
