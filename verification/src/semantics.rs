//! What evaluation means: the mathematical model of the evaluator.
//!
//! Every function here takes the lines printed so far and hands back the
//! lines printed after it, beside its result. `fuel` bounds how many
//! invocations may follow one another or nest: each invocation of a
//! continuation leaves one unit less to what it invokes in turn.

use vstd::prelude::*;
use crate::ast::{ExprView, Text};
use crate::error::EvalErrorView;
use crate::natives::{native_output, native_reply};
use crate::scope::{bind, distinct_names, lemma_bind, lookup};
use crate::value::{ContView, ListView, PendingView, RetView, ScopeView, ValueView};

verus! {

/// The model of the registry: the top-level continuations by name.
pub type RootView = Seq<(Text, ContView)>;

/// The lines printed so far, and a result or the failure that ended the run.
pub ghost struct Stepped<T> {
    pub out: Seq<Text>,
    pub res: Result<T, EvalErrorView>,
}

/// The local scope of a fresh frame: the parameters bound to the arguments
/// by position.
pub open spec fn initial_scope(params: Seq<Text>, args: Seq<ValueView>) -> ScopeView
    decreases params.len(),
{
    if params.len() == 0 || args.len() == 0 {
        Seq::empty()
    } else {
        bind(initial_scope(params.drop_last(), args.drop_last()), params.last(), args.last())
    }
}

/// The value of `name` in the saved scopes, the one pushed last first.
pub open spec fn find_in_scopes(scopes: Seq<ScopeView>, name: Text) -> Option<ValueView>
    decreases scopes.len(),
{
    if scopes.len() == 0 {
        None
    } else {
        match lookup(scopes.last(), name) {
            Some(v) => Some(v),
            None => find_in_scopes(scopes.drop_last(), name),
        }
    }
}

/// The value that `name` reads as: from the local scope, else from the saved
/// scopes, else from the registry.
pub open spec fn resolve(root: RootView, scopes: Seq<ScopeView>, vars: ScopeView, name: Text)
    -> Option<ValueView> {
    match lookup(vars, name) {
        Some(v) => Some(v),
        None => match find_in_scopes(scopes, name) {
            Some(v) => Some(v),
            None => match lookup(root, name) {
                Some(c) => Some(ValueView::Continuation(c)),
                None => None,
            },
        },
    }
}

/// The frame with its local scope replaced.
pub open spec fn with_vars(frame: ContView, vars: ScopeView) -> ContView {
    ContView::Normal { scopes: frame->scopes, vars, exprs: frame->exprs }
}

/// The frame on entry to an escape binding: the local scope is saved, and
/// the new local scope binds only `var`, to the return marker.
pub open spec fn enter_scope(frame: ContView, var: Text) -> ContView {
    ContView::Normal {
        scopes: frame->scopes.push(frame->vars),
        vars: seq![(var, ValueView::Continuation(ContView::Return))],
        exprs: frame->exprs,
    }
}

/// The frame on normal exit from an escape binding: the scope saved last is
/// the local scope again.
pub open spec fn leave_scope(frame: ContView) -> ContView {
    ContView::Normal {
        scopes: frame->scopes.drop_last(),
        vars: frame->scopes.last(),
        exprs: frame->exprs,
    }
}

/// The last of the values, or no value where there is none.
pub open spec fn last_or_nil(values: Seq<ValueView>) -> ValueView {
    if values.len() == 0 {
        ValueView::Nil
    } else {
        values.last()
    }
}

/// A block's result from that of its list: a transfer stays one, and the
/// value is that of the last expression.
pub open spec fn block_result(l: Stepped<ListView>) -> Stepped<RetView> {
    Stepped {
        out: l.out,
        res: match l.res {
            Err(e) => Err(e),
            Ok(ListView::Apply(c, d)) => Ok(RetView::Apply(c, d)),
            Ok(ListView::Values(frame, values)) => Ok(RetView::Data(frame, last_or_nil(values))),
        },
    }
}

/// The first of the values, or no value where there is none: what the
/// return marker hands back.
pub open spec fn first_or_nil(values: Seq<ValueView>) -> ValueView {
    if values.len() > 0 {
        values[0]
    } else {
        ValueView::Nil
    }
}

/// Invoking the continuation `c` with `args`.
///
/// Fuel is needed only to go on. The return marker ends the run at once. A
/// function checks its arguments' number first and needs fuel to run its
/// body; a built-in operation does its work and needs fuel to reply; a frame
/// needs fuel to run its code.
pub open spec fn run_spec(
    root: RootView,
    fuel: nat,
    c: ContView,
    args: Seq<ValueView>,
    out: Seq<Text>,
) -> Stepped<ValueView>
    decreases fuel, 0int,
{
    match c {
        ContView::Return => Stepped { out, res: Ok(first_or_nil(args)) },
        ContView::Function { params, body } => if args.len() != params.len() {
            Stepped {
                out,
                res: Err(
                    EvalErrorView::ArityMismatch { expected: params.len(), actual: args.len() },
                ),
            }
        } else if fuel == 0 {
            Stepped { out, res: Err(EvalErrorView::DepthExceeded) }
        } else {
            run_inner_spec(
                root,
                (fuel - 1) as nat,
                ContView::Normal {
                    scopes: Seq::empty(),
                    vars: initial_scope(params, args),
                    exprs: PendingView::Multiple(body),
                },
                Seq::empty(),
                out,
            )
        },
        ContView::Native(op) => {
            let printed = native_output(op, args, out);
            match native_reply(op, args) {
                Err(e) => Stepped { out: printed, res: Err(e) },
                Ok(RetView::Apply(next, d)) => if fuel == 0 {
                    Stepped { out: printed, res: Err(EvalErrorView::DepthExceeded) }
                } else {
                    run_spec(root, (fuel - 1) as nat, next, d, printed)
                },
                Ok(RetView::Data(_, d)) => Stepped { out: printed, res: Ok(d) },
            }
        },
        ContView::Normal { .. } => if fuel == 0 {
            Stepped { out, res: Err(EvalErrorView::DepthExceeded) }
        } else {
            run_inner_spec(root, (fuel - 1) as nat, c, args, out)
        },
    }
}

/// Running a frame, or the return marker, to its final value.
pub open spec fn run_inner_spec(
    root: RootView,
    fuel: nat,
    c: ContView,
    args: Seq<ValueView>,
    out: Seq<Text>,
) -> Stepped<ValueView>
    decreases fuel, 3int,
{
    match c {
        ContView::Return => Stepped { out, res: Ok(first_or_nil(args)) },
        ContView::Normal { scopes, vars, exprs } => match exprs {
            PendingView::Single(e) => finish_spec(root, fuel, single_spec(root, fuel, c, e, out)),
            PendingView::Multiple(es) => finish_spec(
                root,
                fuel,
                block_result(list_spec(root, fuel, c, es, 0, Seq::empty(), out)),
            ),
            PendingView::Nil => Stepped { out, res: Ok(ValueView::Nil) },
        },
        _ => Stepped { out, res: Err(EvalErrorView::NotInvocable) },
    }
}

/// The final value of a frame from what its code handed back: a value is
/// final, a transfer invokes the continuation it names.
pub open spec fn finish_spec(root: RootView, fuel: nat, s: Stepped<RetView>) -> Stepped<ValueView>
    decreases fuel, 2int,
{
    match s.res {
        Err(e) => Stepped { out: s.out, res: Err(e) },
        Ok(RetView::Apply(c, d)) => run_spec(root, fuel, c, d, s.out),
        Ok(RetView::Data(_, v)) => Stepped { out: s.out, res: Ok(v) },
    }
}

/// Evaluating the expressions from position `i` on, left to right, each in
/// the frame that the one before left; `acc` holds the values so far.
pub open spec fn list_spec(
    root: RootView,
    fuel: nat,
    frame: ContView,
    es: Seq<ExprView>,
    i: int,
    acc: Seq<ValueView>,
    out: Seq<Text>,
) -> Stepped<ListView>
    decreases fuel, 1int, es, es.len() - i,
{
    if i < 0 || i >= es.len() {
        Stepped { out, res: Ok(ListView::Values(frame, acc)) }
    } else {
        let s = single_spec(root, fuel, frame, es[i], out);
        match s.res {
            Err(e) => Stepped { out: s.out, res: Err(e) },
            Ok(RetView::Apply(c, d)) => Stepped { out: s.out, res: Ok(ListView::Apply(c, d)) },
            Ok(RetView::Data(next, v)) => list_spec(root, fuel, next, es, i + 1, acc.push(v), s.out),
        }
    }
}

/// What a callee and its arguments came to: the callee's value beside the
/// arguments' result, or the transfer that the callee itself made.
pub open spec fn with_callee(s: Stepped<RetView>, l: Stepped<ListView>) -> Stepped<
    (ValueView, ListView),
> {
    match s.res {
        Err(e) => Stepped { out: s.out, res: Err(e) },
        Ok(RetView::Apply(c, d)) => Stepped {
            out: s.out,
            res: Ok((ValueView::Nil, ListView::Apply(c, d))),
        },
        Ok(RetView::Data(_, callee)) => Stepped {
            out: l.out,
            res: match l.res {
                Err(e) => Err(e),
                Ok(list) => Ok((callee, list)),
            },
        },
    }
}

/// Evaluating one node in a frame.
pub open spec fn single_spec(
    root: RootView,
    fuel: nat,
    frame: ContView,
    e: ExprView,
    out: Seq<Text>,
) -> Stepped<RetView>
    decreases fuel, 1int, e, 0int,
{
    match e {
        ExprView::DefCont { name, params, body } => Stepped {
            out,
            res: Ok(
                RetView::Data(
                    with_vars(
                        frame,
                        bind(
                            frame->vars,
                            name,
                            ValueView::Continuation(ContView::Function { params, body }),
                        ),
                    ),
                    ValueView::Nil,
                ),
            ),
        },
        ExprView::Begin(es) => block_result(list_spec(root, fuel, frame, es, 0, Seq::empty(), out)),
        ExprView::LetCC { var, body } => {
            let s = single_spec(root, fuel, enter_scope(frame, var), *body, out);
            match s.res {
                Ok(RetView::Data(inner, v)) => Stepped {
                    out: s.out,
                    res: Ok(RetView::Data(leave_scope(inner), v)),
                },
                _ => s,
            }
        },
        ExprView::Call { to_call, args } => {
            let s = single_spec(root, fuel, frame, *to_call, out);
            let l = list_spec(
                root,
                fuel,
                s.res->Ok_0->Data_0,
                args,
                0,
                seq![ValueView::Continuation(ContView::Return)],
                s.out,
            );
            let t = with_callee(s, l);
            match t.res {
                Err(e) => Stepped { out: t.out, res: Err(e) },
                Ok((_, ListView::Apply(c, d))) => Stepped { out: t.out, res: Ok(RetView::Apply(c, d)) },
                Ok((ValueView::Continuation(c), ListView::Values(next, values))) => {
                    let r = run_spec(root, fuel, c, values, t.out);
                    match r.res {
                        Ok(v) => Stepped { out: r.out, res: Ok(RetView::Data(next, v)) },
                        Err(e) => Stepped { out: r.out, res: Err(e) },
                    }
                },
                Ok(_) => Stepped { out: t.out, res: Err(EvalErrorView::NotInvocable) },
            }
        },
        ExprView::Apply { lhs, args } => {
            let s = single_spec(root, fuel, frame, *lhs, out);
            let l = list_spec(root, fuel, s.res->Ok_0->Data_0, args, 0, Seq::empty(), s.out);
            let t = with_callee(s, l);
            match t.res {
                Err(e) => Stepped { out: t.out, res: Err(e) },
                Ok((_, ListView::Apply(c, d))) => Stepped { out: t.out, res: Ok(RetView::Apply(c, d)) },
                Ok((ValueView::Continuation(c), ListView::Values(_, values))) => Stepped {
                    out: t.out,
                    res: Ok(RetView::Apply(c, values)),
                },
                Ok(_) => Stepped { out: t.out, res: Err(EvalErrorView::NotInvocable) },
            }
        },
        ExprView::IfElse { cond, expr, default } => {
            let s = single_spec(root, fuel, frame, *cond, out);
            match s.res {
                Ok(RetView::Data(next, v)) => if v == ValueView::Bool(true) {
                    single_spec(root, fuel, next, *expr, s.out)
                } else {
                    match default {
                        Some(d) => single_spec(root, fuel, next, *d, s.out),
                        None => Stepped { out: s.out, res: Ok(RetView::Data(next, ValueView::Nil)) },
                    }
                },
                _ => s,
            }
        },
        ExprView::SetVar(name, data) => {
            let s = single_spec(root, fuel, frame, *data, out);
            match s.res {
                Ok(RetView::Data(next, v)) => Stepped {
                    out: s.out,
                    res: Ok(
                        RetView::Data(with_vars(next, bind(next->vars, name, v)), ValueView::Nil),
                    ),
                },
                _ => s,
            }
        },
        ExprView::GetVar(name) => Stepped {
            out,
            res: match resolve(root, frame->scopes, frame->vars, name) {
                Some(v) => Ok(RetView::Data(frame, v)),
                None => Err(EvalErrorView::UnresolvedVariable(name)),
            },
        },
        ExprView::SetField { .. } => Stepped { out, res: Err(EvalErrorView::Unsupported) },
        ExprView::GetField { .. } => Stepped { out, res: Err(EvalErrorView::Unsupported) },
        ExprView::Number(n) => Stepped { out, res: Ok(RetView::Data(frame, ValueView::Number(n))) },
        ExprView::String(s) => Stepped { out, res: Ok(RetView::Data(frame, ValueView::String(s))) },
        ExprView::Bool(b) => Stepped { out, res: Ok(RetView::Data(frame, ValueView::Bool(b))) },
        ExprView::Nil => Stepped { out, res: Ok(RetView::Data(frame, ValueView::Nil)) },
    }
}

/// Invoking the continuation that the registry holds under `name`.
pub open spec fn run_cont_spec(
    root: RootView,
    name: Text,
    fuel: nat,
    args: Seq<ValueView>,
    out: Seq<Text>,
) -> Stepped<ValueView> {
    match lookup(root, name) {
        Some(c) => run_spec(root, fuel, c, args, out),
        None => Stepped { out, res: Err(EvalErrorView::UndefinedEntryPoint(name)) },
    }
}

/// Whether `next` is a frame with the saved scopes and the pending code of
/// `frame`.
pub open spec fn same_frame(frame: ContView, next: ContView) -> bool {
    next is Normal && next->scopes == frame->scopes && next->exprs == frame->exprs
}

/// A node that resolves to a value leaves a frame whose saved scopes and
/// pending code are those it was given: only the local scope can change.
pub proof fn lemma_single_keeps_frame(
    root: RootView,
    fuel: nat,
    frame: ContView,
    e: ExprView,
    out: Seq<Text>,
)
    requires
        frame is Normal,
    ensures
        single_spec(root, fuel, frame, e, out).res matches Ok(RetView::Data(next, _))
            ==> same_frame(frame, next),
    decreases e, 0int,
{
    match e {
        ExprView::Begin(es) => {
            lemma_list_keeps_frame(root, fuel, frame, es, 0, Seq::empty(), out);
        },
        ExprView::LetCC { var, body } => {
            let inner = enter_scope(frame, var);
            lemma_single_keeps_frame(root, fuel, inner, *body, out);
            assert(inner->scopes.drop_last() =~= frame->scopes);
        },
        ExprView::Call { to_call, args } => {
            lemma_single_keeps_frame(root, fuel, frame, *to_call, out);
            let s = single_spec(root, fuel, frame, *to_call, out);
            if let Ok(RetView::Data(next, _)) = s.res {
                lemma_list_keeps_frame(
                    root,
                    fuel,
                    next,
                    args,
                    0,
                    seq![ValueView::Continuation(ContView::Return)],
                    s.out,
                );
            }
        },
        ExprView::IfElse { cond, expr, default } => {
            lemma_single_keeps_frame(root, fuel, frame, *cond, out);
            let s = single_spec(root, fuel, frame, *cond, out);
            if let Ok(RetView::Data(next, _)) = s.res {
                lemma_single_keeps_frame(root, fuel, next, *expr, s.out);
                if let Some(d) = default {
                    lemma_single_keeps_frame(root, fuel, next, *d, s.out);
                }
            }
        },
        ExprView::SetVar(name, data) => {
            lemma_single_keeps_frame(root, fuel, frame, *data, out);
        },
        _ => {},
    }
}

/// A list of nodes that all resolve leaves such a frame too, and one value
/// for each node.
pub proof fn lemma_list_keeps_frame(
    root: RootView,
    fuel: nat,
    frame: ContView,
    es: Seq<ExprView>,
    i: int,
    acc: Seq<ValueView>,
    out: Seq<Text>,
)
    requires
        frame is Normal,
        0 <= i <= es.len(),
    ensures
        list_spec(root, fuel, frame, es, i, acc, out).res matches Ok(ListView::Values(next, values))
            ==> same_frame(frame, next) && values.len() == acc.len() + es.len() - i,
    decreases es, es.len() - i,
{
    if i < es.len() {
        lemma_single_keeps_frame(root, fuel, frame, es[i], out);
        let s = single_spec(root, fuel, frame, es[i], out);
        if let Ok(RetView::Data(next, v)) = s.res {
            lemma_list_keeps_frame(root, fuel, next, es, i + 1, acc.push(v), s.out);
        }
    }
}

/// Whether a frame binds no name twice in one scope: neither in its local
/// scope nor in any of its saved scopes.
pub open spec fn binds_once(frame: ContView) -> bool {
    &&& frame is Normal
    &&& distinct_names(frame->vars)
    &&& forall|i: int|
        0 <= i < frame->scopes.len() ==> distinct_names(#[trigger] frame->scopes[i])
}

/// The local scope of a fresh frame binds no name twice, even where a
/// parameter name occurs twice: the later argument is the one bound.
pub proof fn lemma_initial_scope_binds_once(params: Seq<Text>, args: Seq<ValueView>)
    ensures
        distinct_names(initial_scope(params, args)),
    decreases params.len(),
{
    if params.len() > 0 && args.len() > 0 {
        lemma_initial_scope_binds_once(params.drop_last(), args.drop_last());
        lemma_bind(
            initial_scope(params.drop_last(), args.drop_last()),
            params.last(),
            args.last(),
            params.last(),
        );
    }
}

/// Evaluation keeps scopes free of names bound twice: a node that resolves
/// in such a frame leaves such a frame.
pub proof fn lemma_single_binds_once(
    root: RootView,
    fuel: nat,
    frame: ContView,
    e: ExprView,
    out: Seq<Text>,
)
    requires
        binds_once(frame),
    ensures
        single_spec(root, fuel, frame, e, out).res matches Ok(RetView::Data(next, _))
            ==> binds_once(next),
    decreases e, 0int,
{
    match e {
        ExprView::DefCont { name, params, body } => {
            let v = ValueView::Continuation(ContView::Function { params, body });
            lemma_bind(frame->vars, name, v, name);
        },
        ExprView::Begin(es) => {
            lemma_list_binds_once(root, fuel, frame, es, 0, Seq::empty(), out);
        },
        ExprView::LetCC { var, body } => {
            let inner = enter_scope(frame, var);
            assert(binds_once(inner)) by {
                assert forall|i: int| 0 <= i < inner->scopes.len() implies distinct_names(
                    #[trigger] inner->scopes[i],
                ) by {
                    if i < frame->scopes.len() {
                        assert(inner->scopes[i] == frame->scopes[i]);
                    }
                }
            }
            lemma_single_binds_once(root, fuel, inner, *body, out);
            lemma_single_keeps_frame(root, fuel, inner, *body, out);
            let s = single_spec(root, fuel, inner, *body, out);
            if let Ok(RetView::Data(left, _)) = s.res {
                let after = leave_scope(left);
                assert(left->scopes == inner->scopes);
                assert(after->vars == frame->vars);
                assert(after->scopes =~= frame->scopes);
            }
        },
        ExprView::Call { to_call, args } => {
            lemma_single_binds_once(root, fuel, frame, *to_call, out);
            let s = single_spec(root, fuel, frame, *to_call, out);
            if let Ok(RetView::Data(next, _)) = s.res {
                lemma_list_binds_once(
                    root,
                    fuel,
                    next,
                    args,
                    0,
                    seq![ValueView::Continuation(ContView::Return)],
                    s.out,
                );
            }
        },
        ExprView::IfElse { cond, expr, default } => {
            lemma_single_binds_once(root, fuel, frame, *cond, out);
            let s = single_spec(root, fuel, frame, *cond, out);
            if let Ok(RetView::Data(next, _)) = s.res {
                lemma_single_binds_once(root, fuel, next, *expr, s.out);
                if let Some(d) = default {
                    lemma_single_binds_once(root, fuel, next, *d, s.out);
                }
            }
        },
        ExprView::SetVar(name, data) => {
            lemma_single_binds_once(root, fuel, frame, *data, out);
            let s = single_spec(root, fuel, frame, *data, out);
            if let Ok(RetView::Data(next, v)) = s.res {
                lemma_bind(next->vars, name, v, name);
            }
        },
        _ => {},
    }
}

/// A list of nodes that all resolve in such a frame leaves such a frame.
pub proof fn lemma_list_binds_once(
    root: RootView,
    fuel: nat,
    frame: ContView,
    es: Seq<ExprView>,
    i: int,
    acc: Seq<ValueView>,
    out: Seq<Text>,
)
    requires
        binds_once(frame),
        0 <= i <= es.len(),
    ensures
        list_spec(root, fuel, frame, es, i, acc, out).res matches Ok(ListView::Values(next, _))
            ==> binds_once(next),
    decreases es, es.len() - i,
{
    if i < es.len() {
        lemma_single_binds_once(root, fuel, frame, es[i], out);
        let s = single_spec(root, fuel, frame, es[i], out);
        if let Ok(RetView::Data(next, v)) = s.res {
            lemma_list_binds_once(root, fuel, next, es, i + 1, acc.push(v), s.out);
        }
    }
}

} // verus!
