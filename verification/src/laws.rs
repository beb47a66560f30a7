//! Laws of the evaluator, proved of its mathematical model.

use vstd::prelude::*;
use crate::ast::{ExprView, Text};
use crate::error::EvalErrorView;
use crate::natives::{
    all_equal, difference_of, lemma_product_is_zero, native_output, native_reply, operands,
    product_of, remainder_of, reply_with, sum_of,
};
use crate::scope::{bind, lemma_bind, lemma_first_index, lookup};
use crate::semantics::{
    RootView, Stepped, block_result, enter_scope, finish_spec, initial_scope,
    first_or_nil, last_or_nil, leave_scope, lemma_single_keeps_frame, list_spec, resolve, run_inner_spec, run_spec,
    single_spec, with_vars,
};
use crate::value::{ContView, ListView, NativeOp, PendingView, RetView, ScopeView, ValueView};

verus! {

/// A list of expressions is evaluated prefix first: where the first `k`
/// resolve, the rest goes on from the frame, the values and the output that
/// they left; where they do not, their transfer or failure is that of the
/// whole list, and nothing after them is evaluated.
pub proof fn law_list_by_prefix(
    root: RootView,
    fuel: nat,
    frame: ContView,
    es: Seq<ExprView>,
    k: int,
    i: int,
    acc: Seq<ValueView>,
    out: Seq<Text>,
)
    requires
        0 <= i <= k <= es.len(),
    ensures
        ({
            let prefix = list_spec(root, fuel, frame, es.take(k), i, acc, out);
            let whole = list_spec(root, fuel, frame, es, i, acc, out);
            match prefix.res {
                Ok(ListView::Values(next, values)) => whole == list_spec(
                    root,
                    fuel,
                    next,
                    es,
                    k,
                    values,
                    prefix.out,
                ),
                _ => whole == prefix,
            }
        }),
    decreases k - i,
{
    if i < k {
        assert(es.take(k)[i] == es[i]);
        let s = single_spec(root, fuel, frame, es[i], out);
        if let Ok(RetView::Data(next, v)) = s.res {
            law_list_by_prefix(root, fuel, next, es, k, i + 1, acc.push(v), s.out);
        }
    }
}

/// The value of a block is the value of its last expression, evaluated in
/// the frame and after the output that the expressions before it left.
/// Where these do not all resolve, the last expression is not evaluated, and
/// the block does what they did.
pub proof fn law_begin_value_is_last(
    root: RootView,
    fuel: nat,
    frame: ContView,
    es: Seq<ExprView>,
    out: Seq<Text>,
)
    requires
        es.len() > 0,
    ensures
        ({
            let before = single_spec(root, fuel, frame, ExprView::Begin(es.drop_last()), out);
            let whole = single_spec(root, fuel, frame, ExprView::Begin(es), out);
            match before.res {
                Ok(RetView::Data(next, _)) => whole == single_spec(
                    root,
                    fuel,
                    next,
                    es.last(),
                    before.out,
                ),
                _ => whole == before,
            }
        }),
{
    let k = es.len() - 1;
    assert(es.take(k) =~= es.drop_last());
    law_list_by_prefix(root, fuel, frame, es, k, 0, Seq::empty(), out);
    let prefix = list_spec(root, fuel, frame, es.drop_last(), 0, Seq::empty(), out);
    if let Ok(ListView::Values(next, values)) = prefix.res {
        assert(es[k] == es.last());
        let s = single_spec(root, fuel, next, es[k], prefix.out);
        let rest = list_spec(root, fuel, next, es, k, values, prefix.out);
        if let Ok(RetView::Data(last, v)) = s.res {
            assert(rest == list_spec(root, fuel, last, es, k + 1, values.push(v), s.out));
            assert(rest.res == Ok::<ListView, EvalErrorView>(
                ListView::Values(last, values.push(v)),
            ));
            assert(last_or_nil(values.push(v)) == v);
        }
    }
}

/// Evaluation has no hidden state: the same block in the same frame, with
/// the same registry, depth limit and output so far, gives the same result.
pub proof fn law_begin_is_deterministic(
    root: RootView,
    fuel: nat,
    frame_a: ContView,
    frame_b: ContView,
    es_a: Seq<ExprView>,
    es_b: Seq<ExprView>,
    out: Seq<Text>,
)
    requires
        frame_a == frame_b,
        es_a =~= es_b,
    ensures
        single_spec(root, fuel, frame_a, ExprView::Begin(es_a), out) == single_spec(
            root,
            fuel,
            frame_b,
            ExprView::Begin(es_b),
            out,
        ),
{
}

/// An `apply` never resolves to a value in the frame that issued it: it
/// transfers control or fails.
pub proof fn law_apply_never_resolves(
    root: RootView,
    fuel: nat,
    frame: ContView,
    lhs: ExprView,
    args: Seq<ExprView>,
    out: Seq<Text>,
)
    ensures
        !(single_spec(root, fuel, frame, ExprView::Apply { lhs: Box::new(lhs), args }, out).res
            matches Ok(RetView::Data(_, _))),
{
}

/// What follows an `apply` in a block is never evaluated: the block does
/// what the block cut off after the `apply` does, whatever follows, and so
/// prints no more.
pub proof fn law_apply_ends_the_block(
    root: RootView,
    fuel: nat,
    frame: ContView,
    es: Seq<ExprView>,
    k: int,
    out: Seq<Text>,
)
    requires
        0 <= k < es.len(),
        es[k] is Apply,
    ensures
        single_spec(root, fuel, frame, ExprView::Begin(es), out) == single_spec(
            root,
            fuel,
            frame,
            ExprView::Begin(es.take(k + 1)),
            out,
        ),
{
    let cut = es.take(k + 1);
    law_list_by_prefix(root, fuel, frame, es, k + 1, 0, Seq::empty(), out);
    law_list_by_prefix(root, fuel, frame, cut, k, 0, Seq::empty(), out);
    assert(cut.take(k) =~= es.take(k));
    let before = list_spec(root, fuel, frame, es.take(k), 0, Seq::empty(), out);
    if let Ok(ListView::Values(next, values)) = before.res {
        assert(cut[k] == es[k]);
        let s = single_spec(root, fuel, next, es[k], before.out);
        assert(!(s.res matches Ok(RetView::Data(_, _))));
        assert(list_spec(root, fuel, next, cut, k, values, before.out).res is Err || list_spec(
            root,
            fuel,
            next,
            cut,
            k,
            values,
            before.out,
        ).res matches Ok(ListView::Apply(_, _)));
    }
}

/// Whether a node is a literal.
pub open spec fn is_literal(e: ExprView) -> bool {
    e is Number || e is String || e is Bool || e is Nil
}

/// An escape binding whose body resolves to a value resolves to that value,
/// after the same output, and leaves the frame as it found it: what the body
/// bound locally is dropped with the scope of the binding.
pub proof fn law_letcc_without_escape(
    root: RootView,
    fuel: nat,
    frame: ContView,
    var: Text,
    body: ExprView,
    out: Seq<Text>,
)
    requires
        frame is Normal,
    ensures
        ({
            let inside = single_spec(root, fuel, enter_scope(frame, var), body, out);
            let whole = single_spec(
                root,
                fuel,
                frame,
                ExprView::LetCC { var, body: Box::new(body) },
                out,
            );
            match inside.res {
                Ok(RetView::Data(_, v)) => whole == (Stepped {
                    out: inside.out,
                    res: Ok::<RetView, EvalErrorView>(RetView::Data(frame, v)),
                }),
                _ => whole == inside,
            }
        }),
{
    let inner = enter_scope(frame, var);
    lemma_single_keeps_frame(root, fuel, inner, body, out);
    assert(inner->scopes.drop_last() =~= frame->scopes);
}

/// An escape binding round a literal is the literal: both resolve to the
/// same value, in the same frame, with no output.
pub proof fn law_letcc_of_literal(
    root: RootView,
    fuel: nat,
    frame: ContView,
    var: Text,
    body: ExprView,
    out: Seq<Text>,
)
    requires
        frame is Normal,
        is_literal(body),
    ensures
        single_spec(root, fuel, frame, ExprView::LetCC { var, body: Box::new(body) }, out)
            == single_spec(root, fuel, frame, body, out),
{
    law_letcc_without_escape(root, fuel, frame, var, body, out);
}

/// An escape binding whose body applies the bound name transfers to the
/// return marker with the arguments' values, where the arguments resolve.
pub proof fn law_letcc_escape_transfers(
    root: RootView,
    fuel: nat,
    frame: ContView,
    var: Text,
    args: Seq<ExprView>,
    out: Seq<Text>,
)
    ensures
        ({
            let body = ExprView::Apply { lhs: Box::new(ExprView::GetVar(var)), args };
            let given = list_spec(
                root,
                fuel,
                enter_scope(frame, var),
                args,
                0,
                Seq::empty(),
                out,
            );
            let whole = single_spec(
                root,
                fuel,
                frame,
                ExprView::LetCC { var, body: Box::new(body) },
                out,
            );
            whole == (Stepped {
                out: given.out,
                res: match given.res {
                    Err(e) => Err(e),
                    Ok(ListView::Apply(c, d)) => Ok(RetView::Apply(c, d)),
                    Ok(ListView::Values(_, values)) => Ok(RetView::Apply(ContView::Return, values)),
                },
            })
        }),
{
    let inner = enter_scope(frame, var);
    let marker = ValueView::Continuation(ContView::Return);
    lemma_first_index(inner->vars, var, 0);
    assert(lookup(inner->vars, var) == Some(marker));
    assert(resolve(root, inner->scopes, inner->vars, var) == Some(marker));
    let read = single_spec(root, fuel, inner, ExprView::GetVar(var), out);
    assert(read == (Stepped { out, res: Ok::<RetView, EvalErrorView>(RetView::Data(inner, marker)) }));
    let given = list_spec(root, fuel, inner, args, 0, Seq::empty(), out);
    let body = ExprView::Apply { lhs: Box::new(ExprView::GetVar(var)), args };
    let applied = single_spec(root, fuel, inner, body, out);
    assert(applied == (Stepped {
        out: given.out,
        res: match given.res {
            Err(e) => Err(e),
            Ok(ListView::Apply(c, d)) => Ok(RetView::Apply(c, d)),
            Ok(ListView::Values(_, values)) => Ok(RetView::Apply(ContView::Return, values)),
        },
    }));
}

/// A frame whose code applies an escape continuation ends with the first
/// value given to it, whatever follows the escape binding in the frame's
/// code: the rest of the sequence is skipped.
pub proof fn law_escape_skips_the_rest(
    root: RootView,
    fuel: nat,
    frame: ContView,
    var: Text,
    args: Seq<ExprView>,
    rest: Seq<ExprView>,
    out: Seq<Text>,
)
    requires
        frame is Normal,
        frame->exprs == PendingView::Multiple(
            seq![
                ExprView::LetCC {
                    var,
                    body: Box::new(ExprView::Apply { lhs: Box::new(ExprView::GetVar(var)), args }),
                },
            ] + rest,
        ),
        list_spec(root, fuel, enter_scope(frame, var), args, 0, Seq::empty(), out).res matches Ok(
            ListView::Values(_, _),
        ),
    ensures
        ({
            let given = list_spec(
                root,
                fuel,
                enter_scope(frame, var),
                args,
                0,
                Seq::empty(),
                out,
            );
            run_inner_spec(root, fuel, frame, Seq::empty(), out) == (Stepped {
                out: given.out,
                res: Ok::<ValueView, EvalErrorView>(first_or_nil(given.res->Ok_0->Values_1)),
            })
        }),
{
    law_letcc_escape_transfers(root, fuel, frame, var, args, out);
    let es = frame->exprs->Multiple_0;
    assert(es[0] == ExprView::LetCC {
        var,
        body: Box::new(ExprView::Apply { lhs: Box::new(ExprView::GetVar(var)), args }),
    });
    let given = list_spec(root, fuel, enter_scope(frame, var), args, 0, Seq::empty(), out);
    let values = given.res->Ok_0->Values_1;
    let block = block_result(list_spec(root, fuel, frame, es, 0, Seq::empty(), out));
    assert(block == (Stepped {
        out: given.out,
        res: Ok::<RetView, EvalErrorView>(RetView::Apply(ContView::Return, values)),
    }));
    assert(finish_spec(root, fuel, block) == run_spec(
        root,
        fuel,
        ContView::Return,
        values,
        given.out,
    ));
}

/// `set` binds the name in the local scope to the value of its expression:
/// the name then reads as that value, every other local name as before.
/// A name that was not bound locally is defined, the scope growing by one
/// binding; one that was bound is rebound, the scope keeping its size.
pub proof fn law_set_binds(
    root: RootView,
    fuel: nat,
    frame: ContView,
    name: Text,
    data: ExprView,
    other: Text,
    out: Seq<Text>,
)
    requires
        frame is Normal,
        single_spec(root, fuel, frame, data, out).res matches Ok(RetView::Data(_, _)),
    ensures
        ({
            let s = single_spec(root, fuel, frame, data, out);
            let next = s.res->Ok_0->Data_0;
            let v = s.res->Ok_0->Data_1;
            let after = with_vars(next, bind(next->vars, name, v));
            &&& single_spec(root, fuel, frame, ExprView::SetVar(name, Box::new(data)), out) == (
            Stepped {
                out: s.out,
                res: Ok::<RetView, EvalErrorView>(RetView::Data(after, ValueView::Nil)),
            })
            &&& lookup(after->vars, name) == Some(v)
            &&& other != name ==> lookup(after->vars, other) == lookup(next->vars, other)
            &&& after->vars.len() == if lookup(next->vars, name) is Some {
                next->vars.len()
            } else {
                next->vars.len() + 1
            }
            &&& single_spec(root, fuel, after, ExprView::GetVar(name), s.out).res == Ok::<
                RetView,
                EvalErrorView,
            >(RetView::Data(after, v))
        }),
{
    let s = single_spec(root, fuel, frame, data, out);
    let next = s.res->Ok_0->Data_0;
    let v = s.res->Ok_0->Data_1;
    lemma_bind(next->vars, name, v, other);
}

/// Two `set`s of one name in a row leave the name at the second value, and
/// the second defines nothing new.
pub proof fn law_set_twice(
    root: RootView,
    fuel: nat,
    frame: ContView,
    name: Text,
    first: ExprView,
    second: ExprView,
    out: Seq<Text>,
)
    requires
        frame is Normal,
        is_literal(first),
        is_literal(second),
    ensures
        ({
            let one = single_spec(root, fuel, frame, ExprView::SetVar(name, Box::new(first)), out);
            let mid = one.res->Ok_0->Data_0;
            let two = single_spec(root, fuel, mid, ExprView::SetVar(name, Box::new(second)), one.out);
            let end = two.res->Ok_0->Data_0;
            let v = single_spec(root, fuel, mid, second, one.out).res->Ok_0->Data_1;
            &&& one.res matches Ok(RetView::Data(_, _))
            &&& two.res matches Ok(RetView::Data(_, _))
            &&& lookup(end->vars, name) == Some(v)
            &&& end->vars.len() == mid->vars.len()
            &&& two.out == out
        }),
{
    law_set_binds(root, fuel, frame, name, first, name, out);
    let one = single_spec(root, fuel, frame, ExprView::SetVar(name, Box::new(first)), out);
    let mid = one.res->Ok_0->Data_0;
    law_set_binds(root, fuel, mid, name, second, name, one.out);
}

/// `eq` on two operands replies whether they are the same value. So it is
/// reflexive, and values of different kinds are never equal: a number never
/// equals a text, whatever the text holds.
pub proof fn law_eq_two_operands(reply: ValueView, a: ValueView, b: ValueView)
    ensures
        native_reply(NativeOp::Eq, seq![reply, a, b]) == reply_with(
            reply,
            seq![ValueView::Bool(a == b)],
        ),
        native_reply(NativeOp::Eq, seq![reply, a, a]) == reply_with(
            reply,
            seq![ValueView::Bool(true)],
        ),
        a is Number && b is String ==> native_reply(NativeOp::Eq, seq![reply, a, b]) == reply_with(
            reply,
            seq![ValueView::Bool(false)],
        ),
{
    let ops = operands(seq![reply, a, b]);
    assert(ops =~= seq![a, b]);
    assert(ops[1] == b);
    assert(all_equal(ops) == (a == b));
    let same = operands(seq![reply, a, a]);
    assert(same =~= seq![a, a]);
    assert(all_equal(same));
}

/// `eq` on at most one operand replies true.
pub proof fn law_eq_few_operands(args: Seq<ValueView>)
    requires
        1 <= args.len() <= 2,
    ensures
        native_reply(NativeOp::Eq, args) == reply_with(args[0], seq![ValueView::Bool(true)]),
{
    assert(all_equal(operands(args)));
}

/// A function is invoked only with as many arguments as it has
/// parameters. With any other number the invocation fails with the two
/// numbers, whatever the depth limit, and nothing is evaluated or printed.
/// With that number it is the run of the function's body in a fresh frame,
/// without saved scopes, that binds the parameters to the arguments; this
/// needs one unit of the depth limit.
pub proof fn law_arity_is_exact(
    root: RootView,
    fuel: nat,
    params: Seq<Text>,
    body: Seq<ExprView>,
    args: Seq<ValueView>,
    out: Seq<Text>,
)
    ensures
        ({
            let r = run_spec(root, fuel, ContView::Function { params, body }, args, out);
            if args.len() != params.len() {
                r == (Stepped {
                    out,
                    res: Err::<ValueView, EvalErrorView>(
                        EvalErrorView::ArityMismatch { expected: params.len(), actual: args.len() },
                    ),
                })
            } else if fuel == 0 {
                r == (Stepped {
                    out,
                    res: Err::<ValueView, EvalErrorView>(EvalErrorView::DepthExceeded),
                })
            } else {
                r == run_inner_spec(
                    root,
                    (fuel - 1) as nat,
                    ContView::Normal {
                        scopes: Seq::empty(),
                        vars: initial_scope(params, args),
                        exprs: PendingView::Multiple(body),
                    },
                    Seq::empty(),
                    out,
                )
            }
        }),
{
}

/// Whether none of the values is a number.
pub open spec fn no_numbers(ops: Seq<ValueView>) -> bool {
    forall|i: int| 0 <= i < ops.len() ==> !(#[trigger] ops[i] is Number)
}

/// Over operands none of which is a number, the sum and the product are
/// zero and the difference and the remainder have no first operand.
pub proof fn lemma_no_numbers(ops: Seq<ValueView>)
    requires
        no_numbers(ops),
    ensures
        sum_of(ops) == 0,
        difference_of(ops) is None,
        product_of(ops) == 0,
        remainder_of(ops) == Ok::<Option<i64>, ()>(None),
    decreases ops.len(),
{
    if ops.len() > 0 {
        assert(!(ops[ops.len() - 1] is Number));
        assert forall|i: int| 0 <= i < ops.drop_last().len() implies !(
        #[trigger] ops.drop_last()[i] is Number) by {
            assert(ops.drop_last()[i] == ops[i]);
        }
        lemma_no_numbers(ops.drop_last());
    }
}

/// `add`, `sub`, `mul` and `rem` reply zero where none of their operands
/// is a number, and so where they have no operand at all: for `mul` too the
/// reply is zero, not one, since its fold starts from zero.
pub proof fn law_arithmetic_without_numbers(op: NativeOp, args: Seq<ValueView>)
    requires
        args.len() >= 1,
        no_numbers(operands(args)),
        op == NativeOp::Add || op == NativeOp::Sub || op == NativeOp::Mul || op == NativeOp::Rem,
    ensures
        native_reply(op, args) == reply_with(args[0], seq![ValueView::Number(0)]),
        native_output(op, args, Seq::empty()) == Seq::<Text>::empty(),
{
    lemma_no_numbers(operands(args));
}

/// Whether `after` holds the lines of `before`, in order, and then
/// possibly more.
pub open spec fn extends(after: Seq<Text>, before: Seq<Text>) -> bool {
    before.len() <= after.len() && after.take(before.len() as int) == before
}

/// Lines added to lines added are lines added.
pub proof fn lemma_extends_chain(a: Seq<Text>, b: Seq<Text>, c: Seq<Text>)
    requires
        extends(b, a),
        extends(c, b),
    ensures
        extends(c, a),
{
    assert(c.take(a.len() as int) =~= c.take(b.len() as int).take(a.len() as int));
}

/// Every list of lines holds its own lines.
pub proof fn lemma_extends_self(a: Seq<Text>)
    ensures
        extends(a, a),
{
    assert(a.take(a.len() as int) =~= a);
}

/// Output is only ever added to: whatever an invocation does, the lines
/// printed before it stand unchanged at the start of the lines after it.
pub proof fn law_run_only_adds_output(
    root: RootView,
    fuel: nat,
    c: ContView,
    args: Seq<ValueView>,
    out: Seq<Text>,
)
    ensures
        extends(run_spec(root, fuel, c, args, out).out, out),
    decreases fuel, 0int,
{
    lemma_extends_self(out);
    match c {
        ContView::Function { params, body } => {
            if args.len() == params.len() && fuel > 0 {
                law_frame_only_adds_output(
                    root,
                    (fuel - 1) as nat,
                    ContView::Normal {
                        scopes: Seq::empty(),
                        vars: initial_scope(params, args),
                        exprs: PendingView::Multiple(body),
                    },
                    Seq::empty(),
                    out,
                );
            }
        },
        ContView::Native(op) => {
            let printed = native_output(op, args, out);
            assert(extends(printed, out)) by {
                assert(printed.take(out.len() as int) =~= out);
            }
            if let Ok(RetView::Apply(next, d)) = native_reply(op, args) {
                if fuel > 0 {
                    law_run_only_adds_output(root, (fuel - 1) as nat, next, d, printed);
                    lemma_extends_chain(
                        out,
                        printed,
                        run_spec(root, (fuel - 1) as nat, next, d, printed).out,
                    );
                }
            }
        },
        ContView::Normal { .. } => {
            if fuel > 0 {
                law_frame_only_adds_output(root, (fuel - 1) as nat, c, args, out);
            }
        },
        ContView::Return => {},
    }
}

/// Running a frame only adds output.
pub proof fn law_frame_only_adds_output(
    root: RootView,
    fuel: nat,
    c: ContView,
    args: Seq<ValueView>,
    out: Seq<Text>,
)
    ensures
        extends(run_inner_spec(root, fuel, c, args, out).out, out),
    decreases fuel, 3int,
{
    lemma_extends_self(out);
    if let ContView::Normal { scopes, vars, exprs } = c {
        match exprs {
            PendingView::Single(e) => {
                let s = single_spec(root, fuel, c, e, out);
                law_node_only_adds_output(root, fuel, c, e, out);
                law_finish_only_adds_output(root, fuel, s);
                lemma_extends_chain(out, s.out, finish_spec(root, fuel, s).out);
            },
            PendingView::Multiple(es) => {
                let l = list_spec(root, fuel, c, es, 0, Seq::empty(), out);
                law_list_only_adds_output(root, fuel, c, es, 0, Seq::empty(), out);
                let s = block_result(l);
                law_finish_only_adds_output(root, fuel, s);
                lemma_extends_chain(out, s.out, finish_spec(root, fuel, s).out);
            },
            PendingView::Nil => {},
        }
    }
}

/// Taking a frame's result to its final value only adds output.
pub proof fn law_finish_only_adds_output(root: RootView, fuel: nat, s: Stepped<RetView>)
    ensures
        extends(finish_spec(root, fuel, s).out, s.out),
    decreases fuel, 2int,
{
    lemma_extends_self(s.out);
    if let Ok(RetView::Apply(c, d)) = s.res {
        law_run_only_adds_output(root, fuel, c, d, s.out);
    }
}

/// Evaluating a list of nodes only adds output.
pub proof fn law_list_only_adds_output(
    root: RootView,
    fuel: nat,
    frame: ContView,
    es: Seq<ExprView>,
    i: int,
    acc: Seq<ValueView>,
    out: Seq<Text>,
)
    ensures
        extends(list_spec(root, fuel, frame, es, i, acc, out).out, out),
    decreases fuel, 1int, es, es.len() - i,
{
    lemma_extends_self(out);
    if 0 <= i < es.len() {
        let s = single_spec(root, fuel, frame, es[i], out);
        law_node_only_adds_output(root, fuel, frame, es[i], out);
        if let Ok(RetView::Data(next, v)) = s.res {
            law_list_only_adds_output(root, fuel, next, es, i + 1, acc.push(v), s.out);
            lemma_extends_chain(
                out,
                s.out,
                list_spec(root, fuel, next, es, i + 1, acc.push(v), s.out).out,
            );
        }
    }
}

/// Evaluating a node only adds output.
pub proof fn law_node_only_adds_output(
    root: RootView,
    fuel: nat,
    frame: ContView,
    e: ExprView,
    out: Seq<Text>,
)
    ensures
        extends(single_spec(root, fuel, frame, e, out).out, out),
    decreases fuel, 1int, e, 0int,
{
    lemma_extends_self(out);
    match e {
        ExprView::Begin(es) => {
            law_list_only_adds_output(root, fuel, frame, es, 0, Seq::empty(), out);
        },
        ExprView::LetCC { var, body } => {
            law_node_only_adds_output(root, fuel, enter_scope(frame, var), *body, out);
        },
        ExprView::Call { to_call, args } => {
            let s = single_spec(root, fuel, frame, *to_call, out);
            law_node_only_adds_output(root, fuel, frame, *to_call, out);
            if let Ok(RetView::Data(next, target)) = s.res {
                let first = seq![ValueView::Continuation(ContView::Return)];
                let l = list_spec(root, fuel, next, args, 0, first, s.out);
                law_list_only_adds_output(root, fuel, next, args, 0, first, s.out);
                lemma_extends_chain(out, s.out, l.out);
                if let Ok(ListView::Values(_, values)) = l.res {
                    if let ValueView::Continuation(c) = target {
                        law_run_only_adds_output(root, fuel, c, values, l.out);
                        lemma_extends_chain(out, l.out, run_spec(root, fuel, c, values, l.out).out);
                    }
                }
            }
        },
        ExprView::Apply { lhs, args } => {
            let s = single_spec(root, fuel, frame, *lhs, out);
            law_node_only_adds_output(root, fuel, frame, *lhs, out);
            if let Ok(RetView::Data(next, target)) = s.res {
                let l = list_spec(root, fuel, next, args, 0, Seq::empty(), s.out);
                law_list_only_adds_output(root, fuel, next, args, 0, Seq::empty(), s.out);
                lemma_extends_chain(out, s.out, l.out);
            }
        },
        ExprView::IfElse { cond, expr, default } => {
            let s = single_spec(root, fuel, frame, *cond, out);
            law_node_only_adds_output(root, fuel, frame, *cond, out);
            if let Ok(RetView::Data(next, v)) = s.res {
                if v == ValueView::Bool(true) {
                    law_node_only_adds_output(root, fuel, next, *expr, s.out);
                    lemma_extends_chain(out, s.out, single_spec(root, fuel, next, *expr, s.out).out);
                } else if let Some(d) = default {
                    law_node_only_adds_output(root, fuel, next, *d, s.out);
                    lemma_extends_chain(out, s.out, single_spec(root, fuel, next, *d, s.out).out);
                }
            }
        },
        ExprView::SetVar(name, data) => {
            law_node_only_adds_output(root, fuel, frame, *data, out);
        },
        _ => {},
    }
}

/// `mul` folds from zero, so it replies zero whatever its operands are.
pub proof fn law_mul_replies_zero(args: Seq<ValueView>)
    requires
        args.len() >= 1,
    ensures
        native_reply(NativeOp::Mul, args) == reply_with(args[0], seq![ValueView::Number(0)]),
{
    lemma_product_is_zero(operands(args));
}

/// Whether a run ended for want of fuel.
pub open spec fn ran_out<T>(s: Stepped<T>) -> bool {
    s.res == Err::<T, EvalErrorView>(EvalErrorView::DepthExceeded)
}

/// A result that did not come from want of fuel is the result: with one
/// more unit of fuel the invocation gives the same value or failure and
/// prints the same lines.
pub proof fn law_more_fuel_same_run(
    root: RootView,
    fuel: nat,
    c: ContView,
    args: Seq<ValueView>,
    out: Seq<Text>,
)
    requires
        !ran_out(run_spec(root, fuel, c, args, out)),
    ensures
        run_spec(root, fuel + 1, c, args, out) == run_spec(root, fuel, c, args, out),
    decreases fuel, 0int,
{
    match c {
        ContView::Function { params, body } => {
            if args.len() == params.len() {
                law_more_fuel_same_frame(
                    root,
                    (fuel - 1) as nat,
                    ContView::Normal {
                        scopes: Seq::empty(),
                        vars: initial_scope(params, args),
                        exprs: PendingView::Multiple(body),
                    },
                    Seq::empty(),
                    out,
                );
            }
        },
        ContView::Native(op) => {
            if let Ok(RetView::Apply(next, d)) = native_reply(op, args) {
                law_more_fuel_same_run(
                    root,
                    (fuel - 1) as nat,
                    next,
                    d,
                    native_output(op, args, out),
                );
            }
        },
        ContView::Normal { .. } => {
            law_more_fuel_same_frame(root, (fuel - 1) as nat, c, args, out);
        },
        ContView::Return => {},
    }
}

/// The same for any larger limit.
pub proof fn law_larger_limit_same_run(
    root: RootView,
    fuel: nat,
    more: nat,
    c: ContView,
    args: Seq<ValueView>,
    out: Seq<Text>,
)
    requires
        fuel <= more,
        !ran_out(run_spec(root, fuel, c, args, out)),
    ensures
        run_spec(root, more, c, args, out) == run_spec(root, fuel, c, args, out),
    decreases more - fuel,
{
    if fuel < more {
        law_larger_limit_same_run(root, fuel, (more - 1) as nat, c, args, out);
        law_more_fuel_same_run(root, (more - 1) as nat, c, args, out);
    }
}

/// With one more unit of fuel a frame that did not run out runs the same.
pub proof fn law_more_fuel_same_frame(
    root: RootView,
    fuel: nat,
    c: ContView,
    args: Seq<ValueView>,
    out: Seq<Text>,
)
    requires
        !ran_out(run_inner_spec(root, fuel, c, args, out)),
    ensures
        run_inner_spec(root, fuel + 1, c, args, out) == run_inner_spec(root, fuel, c, args, out),
    decreases fuel, 3int,
{
    if let ContView::Normal { scopes, vars, exprs } = c {
        match exprs {
            PendingView::Single(e) => {
                let s = single_spec(root, fuel, c, e, out);
                law_more_fuel_same_node(root, fuel, c, e, out);
                law_more_fuel_same_finish(root, fuel, s);
            },
            PendingView::Multiple(es) => {
                let l = list_spec(root, fuel, c, es, 0, Seq::empty(), out);
                law_more_fuel_same_list(root, fuel, c, es, 0, Seq::empty(), out);
                law_more_fuel_same_finish(root, fuel, block_result(l));
            },
            PendingView::Nil => {},
        }
    }
}

/// With one more unit of fuel a result that did not run out comes to the
/// same final value.
pub proof fn law_more_fuel_same_finish(root: RootView, fuel: nat, s: Stepped<RetView>)
    requires
        !ran_out(finish_spec(root, fuel, s)),
    ensures
        finish_spec(root, fuel + 1, s) == finish_spec(root, fuel, s),
    decreases fuel, 2int,
{
    if let Ok(RetView::Apply(c, d)) = s.res {
        law_more_fuel_same_run(root, fuel, c, d, s.out);
    }
}

/// With one more unit of fuel a list of nodes that did not run out
/// evaluates the same.
pub proof fn law_more_fuel_same_list(
    root: RootView,
    fuel: nat,
    frame: ContView,
    es: Seq<ExprView>,
    i: int,
    acc: Seq<ValueView>,
    out: Seq<Text>,
)
    requires
        !ran_out(list_spec(root, fuel, frame, es, i, acc, out)),
    ensures
        list_spec(root, fuel + 1, frame, es, i, acc, out) == list_spec(
            root,
            fuel,
            frame,
            es,
            i,
            acc,
            out,
        ),
    decreases fuel, 1int, es, es.len() - i,
{
    if 0 <= i < es.len() {
        let s = single_spec(root, fuel, frame, es[i], out);
        law_more_fuel_same_node(root, fuel, frame, es[i], out);
        if let Ok(RetView::Data(next, v)) = s.res {
            law_more_fuel_same_list(root, fuel, next, es, i + 1, acc.push(v), s.out);
        }
    }
}

/// With one more unit of fuel a node that did not run out evaluates the
/// same.
pub proof fn law_more_fuel_same_node(
    root: RootView,
    fuel: nat,
    frame: ContView,
    e: ExprView,
    out: Seq<Text>,
)
    requires
        !ran_out(single_spec(root, fuel, frame, e, out)),
    ensures
        single_spec(root, fuel + 1, frame, e, out) == single_spec(root, fuel, frame, e, out),
    decreases fuel, 1int, e, 0int,
{
    match e {
        ExprView::Begin(es) => {
            law_more_fuel_same_list(root, fuel, frame, es, 0, Seq::empty(), out);
        },
        ExprView::LetCC { var, body } => {
            law_more_fuel_same_node(root, fuel, enter_scope(frame, var), *body, out);
        },
        ExprView::Call { to_call, args } => {
            let s = single_spec(root, fuel, frame, *to_call, out);
            law_more_fuel_same_node(root, fuel, frame, *to_call, out);
            if let Ok(RetView::Data(next, target)) = s.res {
                let first = seq![ValueView::Continuation(ContView::Return)];
                let l = list_spec(root, fuel, next, args, 0, first, s.out);
                law_more_fuel_same_list(root, fuel, next, args, 0, first, s.out);
                if let Ok(ListView::Values(_, values)) = l.res {
                    if let ValueView::Continuation(c) = target {
                        law_more_fuel_same_run(root, fuel, c, values, l.out);
                    }
                }
            }
        },
        ExprView::Apply { lhs, args } => {
            let s = single_spec(root, fuel, frame, *lhs, out);
            law_more_fuel_same_node(root, fuel, frame, *lhs, out);
            if let Ok(RetView::Data(next, target)) = s.res {
                law_more_fuel_same_list(root, fuel, next, args, 0, Seq::empty(), s.out);
            }
        },
        ExprView::IfElse { cond, expr, default } => {
            let s = single_spec(root, fuel, frame, *cond, out);
            law_more_fuel_same_node(root, fuel, frame, *cond, out);
            if let Ok(RetView::Data(next, v)) = s.res {
                if v == ValueView::Bool(true) {
                    law_more_fuel_same_node(root, fuel, next, *expr, s.out);
                } else if let Some(d) = default {
                    law_more_fuel_same_node(root, fuel, next, *d, s.out);
                }
            }
        },
        ExprView::SetVar(name, data) => {
            law_more_fuel_same_node(root, fuel, frame, *data, out);
        },
        _ => {},
    }
}

/// Whether a result, where it is a failure for the number of arguments,
/// names two different numbers.
pub open spec fn counts_differ<T>(s: Stepped<T>) -> bool {
    s.res matches Err(EvalErrorView::ArityMismatch { expected, actual }) ==> expected != actual
}

/// A failure for the number of arguments always names two different
/// numbers, wherever in an invocation it arises.
pub proof fn lemma_run_counts_differ(
    root: RootView,
    fuel: nat,
    c: ContView,
    args: Seq<ValueView>,
    out: Seq<Text>,
)
    ensures
        counts_differ(run_spec(root, fuel, c, args, out)),
    decreases fuel, 0int,
{
    match c {
        ContView::Function { params, body } => {
            if args.len() == params.len() && fuel > 0 {
                lemma_frame_counts_differ(
                    root,
                    (fuel - 1) as nat,
                    ContView::Normal {
                        scopes: Seq::empty(),
                        vars: initial_scope(params, args),
                        exprs: PendingView::Multiple(body),
                    },
                    Seq::empty(),
                    out,
                );
            }
        },
        ContView::Native(op) => {
            if let Ok(RetView::Apply(next, d)) = native_reply(op, args) {
                if fuel > 0 {
                    lemma_run_counts_differ(
                        root,
                        (fuel - 1) as nat,
                        next,
                        d,
                        native_output(op, args, out),
                    );
                }
            }
        },
        ContView::Normal { .. } => {
            if fuel > 0 {
                lemma_frame_counts_differ(root, (fuel - 1) as nat, c, args, out);
            }
        },
        ContView::Return => {},
    }
}

/// The same of running a frame.
pub proof fn lemma_frame_counts_differ(
    root: RootView,
    fuel: nat,
    c: ContView,
    args: Seq<ValueView>,
    out: Seq<Text>,
)
    ensures
        counts_differ(run_inner_spec(root, fuel, c, args, out)),
    decreases fuel, 3int,
{
    if let ContView::Normal { scopes, vars, exprs } = c {
        match exprs {
            PendingView::Single(e) => {
                lemma_node_counts_differ(root, fuel, c, e, out);
                lemma_finish_counts_differ(root, fuel, single_spec(root, fuel, c, e, out));
            },
            PendingView::Multiple(es) => {
                let l = list_spec(root, fuel, c, es, 0, Seq::empty(), out);
                lemma_list_counts_differ(root, fuel, c, es, 0, Seq::empty(), out);
                lemma_finish_counts_differ(root, fuel, block_result(l));
            },
            PendingView::Nil => {},
        }
    }
}

/// The same of taking a frame's result to its final value.
pub proof fn lemma_finish_counts_differ(root: RootView, fuel: nat, s: Stepped<RetView>)
    requires
        counts_differ(s),
    ensures
        counts_differ(finish_spec(root, fuel, s)),
    decreases fuel, 2int,
{
    if let Ok(RetView::Apply(c, d)) = s.res {
        lemma_run_counts_differ(root, fuel, c, d, s.out);
    }
}

/// The same of evaluating a list of nodes.
pub proof fn lemma_list_counts_differ(
    root: RootView,
    fuel: nat,
    frame: ContView,
    es: Seq<ExprView>,
    i: int,
    acc: Seq<ValueView>,
    out: Seq<Text>,
)
    ensures
        counts_differ(list_spec(root, fuel, frame, es, i, acc, out)),
    decreases fuel, 1int, es, es.len() - i,
{
    if 0 <= i < es.len() {
        let s = single_spec(root, fuel, frame, es[i], out);
        lemma_node_counts_differ(root, fuel, frame, es[i], out);
        if let Ok(RetView::Data(next, v)) = s.res {
            lemma_list_counts_differ(root, fuel, next, es, i + 1, acc.push(v), s.out);
        }
    }
}

/// The same of evaluating a node.
pub proof fn lemma_node_counts_differ(
    root: RootView,
    fuel: nat,
    frame: ContView,
    e: ExprView,
    out: Seq<Text>,
)
    ensures
        counts_differ(single_spec(root, fuel, frame, e, out)),
    decreases fuel, 1int, e, 0int,
{
    match e {
        ExprView::Begin(es) => {
            lemma_list_counts_differ(root, fuel, frame, es, 0, Seq::empty(), out);
        },
        ExprView::LetCC { var, body } => {
            lemma_node_counts_differ(root, fuel, enter_scope(frame, var), *body, out);
        },
        ExprView::Call { to_call, args } => {
            let s = single_spec(root, fuel, frame, *to_call, out);
            lemma_node_counts_differ(root, fuel, frame, *to_call, out);
            if let Ok(RetView::Data(next, target)) = s.res {
                let first = seq![ValueView::Continuation(ContView::Return)];
                let l = list_spec(root, fuel, next, args, 0, first, s.out);
                lemma_list_counts_differ(root, fuel, next, args, 0, first, s.out);
                if let Ok(ListView::Values(_, values)) = l.res {
                    if let ValueView::Continuation(c) = target {
                        lemma_run_counts_differ(root, fuel, c, values, l.out);
                    }
                }
            }
        },
        ExprView::Apply { lhs, args } => {
            let s = single_spec(root, fuel, frame, *lhs, out);
            lemma_node_counts_differ(root, fuel, frame, *lhs, out);
            if let Ok(RetView::Data(next, target)) = s.res {
                lemma_list_counts_differ(root, fuel, next, args, 0, Seq::empty(), s.out);
            }
        },
        ExprView::IfElse { cond, expr, default } => {
            let s = single_spec(root, fuel, frame, *cond, out);
            lemma_node_counts_differ(root, fuel, frame, *cond, out);
            if let Ok(RetView::Data(next, v)) = s.res {
                if v == ValueView::Bool(true) {
                    lemma_node_counts_differ(root, fuel, next, *expr, s.out);
                } else if let Some(d) = default {
                    lemma_node_counts_differ(root, fuel, next, *d, s.out);
                }
            }
        },
        ExprView::SetVar(name, data) => {
            lemma_node_counts_differ(root, fuel, frame, *data, out);
        },
        _ => {},
    }
}

/// Invoking a function fails with its own number of parameters and the
/// number of arguments given if and only if the two differ, whatever the
/// depth limit and whatever the body does.
pub proof fn law_arity_failure_iff_counts_differ(
    root: RootView,
    fuel: nat,
    params: Seq<Text>,
    body: Seq<ExprView>,
    args: Seq<ValueView>,
    out: Seq<Text>,
)
    ensures
        run_spec(root, fuel, ContView::Function { params, body }, args, out).res == Err::<
            ValueView,
            EvalErrorView,
        >(EvalErrorView::ArityMismatch { expected: params.len(), actual: args.len() })
            <==> args.len() != params.len(),
{
    lemma_run_counts_differ(root, fuel, ContView::Function { params, body }, args, out);
}

/// Whether evaluating the node in a frame may read `var` from that frame.
/// The body of a definition is not searched: it runs in a frame of its own.
pub open spec fn reads(e: ExprView, var: Text) -> bool
    decreases e, 0int,
{
    match e {
        ExprView::DefCont { .. } => false,
        ExprView::LetCC { var: _, body } => reads(*body, var),
        ExprView::Call { to_call, args } => reads(*to_call, var) || reads_from(args, var, 0),
        ExprView::Apply { lhs, args } => reads(*lhs, var) || reads_from(args, var, 0),
        ExprView::Begin(es) => reads_from(es, var, 0),
        ExprView::IfElse { cond, expr, default } => reads(*cond, var) || reads(*expr, var) || (
        match default {
            Some(d) => reads(*d, var),
            None => false,
        }),
        ExprView::SetVar(_, data) => reads(*data, var),
        ExprView::GetVar(name) => name == var,
        ExprView::SetField { lhs, field: _, data } => reads(*lhs, var) || reads(*data, var),
        ExprView::GetField { data, field: _ } => reads(*data, var),
        _ => false,
    }
}

/// Whether one of the nodes from position `i` on may read `var`.
pub open spec fn reads_from(es: Seq<ExprView>, var: Text, i: int) -> bool
    decreases es, es.len() - i,
{
    0 <= i < es.len() && (reads(es[i], var) || reads_from(es, var, i + 1))
}

/// Whether two frames give every name but `var` the same value.
pub open spec fn agree(root: RootView, var: Text, a: ContView, b: ContView) -> bool {
    &&& a is Normal
    &&& b is Normal
    &&& forall|n: Text|
        n != var ==> #[trigger] resolve(root, a->scopes, a->vars, n) == resolve(
            root,
            b->scopes,
            b->vars,
            n,
        )
}

/// Whether two results are the same result but for the frame, and the
/// frames they leave agree.
pub open spec fn same_outcome(
    root: RootView,
    var: Text,
    a: Stepped<RetView>,
    b: Stepped<RetView>,
) -> bool {
    &&& a.out == b.out
    &&& match (a.res, b.res) {
        (Err(x), Err(y)) => x == y,
        (Ok(RetView::Apply(c, d)), Ok(RetView::Apply(c2, d2))) => c == c2 && d == d2,
        (Ok(RetView::Data(na, va)), Ok(RetView::Data(nb, vb))) => va == vb && agree(
            root,
            var,
            na,
            nb,
        ),
        _ => false,
    }
}

/// The same of the results of two lists.
pub open spec fn same_list_outcome(
    root: RootView,
    var: Text,
    a: Stepped<ListView>,
    b: Stepped<ListView>,
) -> bool {
    &&& a.out == b.out
    &&& match (a.res, b.res) {
        (Err(x), Err(y)) => x == y,
        (Ok(ListView::Apply(c, d)), Ok(ListView::Apply(c2, d2))) => c == c2 && d == d2,
        (Ok(ListView::Values(na, va)), Ok(ListView::Values(nb, vb))) => va == vb && agree(
            root,
            var,
            na,
            nb,
        ),
        _ => false,
    }
}

/// What a name reads as after a name has been bound locally.
pub proof fn lemma_resolve_bound(
    root: RootView,
    scopes: Seq<ScopeView>,
    vars: ScopeView,
    name: Text,
    v: ValueView,
    n: Text,
)
    ensures
        resolve(root, scopes, bind(vars, name, v), n) == if n == name {
            Some(v)
        } else {
            resolve(root, scopes, vars, n)
        },
{
    lemma_bind(vars, name, v, n);
}

/// What a name reads as inside an escape binding: the bound name as the
/// return marker, every other name as outside.
pub proof fn lemma_resolve_entered(root: RootView, frame: ContView, var: Text, n: Text)
    ensures
        ({
            let inner = enter_scope(frame, var);
            resolve(root, inner->scopes, inner->vars, n) == if n == var {
                Some(ValueView::Continuation(ContView::Return))
            } else {
                resolve(root, frame->scopes, frame->vars, n)
            }
        }),
{
    let inner = enter_scope(frame, var);
    lemma_first_index(inner->vars, n, 0);
    assert(inner->scopes.last() == frame->vars);
    assert(inner->scopes.drop_last() =~= frame->scopes);
}

/// Two frames that agree stay in agreement when the same name is bound to
/// the same value in both.
pub proof fn lemma_agree_bound(
    root: RootView,
    var: Text,
    a: ContView,
    b: ContView,
    name: Text,
    v: ValueView,
)
    requires
        agree(root, var, a, b),
    ensures
        agree(
            root,
            var,
            with_vars(a, bind(a->vars, name, v)),
            with_vars(b, bind(b->vars, name, v)),
        ),
{
    let a2 = with_vars(a, bind(a->vars, name, v));
    let b2 = with_vars(b, bind(b->vars, name, v));
    assert forall|n: Text| n != var implies #[trigger] resolve(root, a2->scopes, a2->vars, n)
        == resolve(root, b2->scopes, b2->vars, n) by {
        lemma_resolve_bound(root, a->scopes, a->vars, name, v, n);
        lemma_resolve_bound(root, b->scopes, b->vars, name, v, n);
        assert(resolve(root, a->scopes, a->vars, n) == resolve(root, b->scopes, b->vars, n));
    }
}

/// Two frames that agree stay in agreement inside the same escape binding.
pub proof fn lemma_agree_entered(root: RootView, var: Text, a: ContView, b: ContView, inner: Text)
    requires
        agree(root, var, a, b),
    ensures
        agree(root, var, enter_scope(a, inner), enter_scope(b, inner)),
{
    let a2 = enter_scope(a, inner);
    let b2 = enter_scope(b, inner);
    assert forall|n: Text| n != var implies #[trigger] resolve(root, a2->scopes, a2->vars, n)
        == resolve(root, b2->scopes, b2->vars, n) by {
        lemma_resolve_entered(root, a, inner, n);
        lemma_resolve_entered(root, b, inner, n);
        assert(resolve(root, a->scopes, a->vars, n) == resolve(root, b->scopes, b->vars, n));
    }
}

/// A node that does not read `var` does the same in two frames that agree
/// on every other name: the same output, the same failure or transfer or
/// value, and frames that still agree.
pub proof fn lemma_node_agrees(
    root: RootView,
    fuel: nat,
    var: Text,
    a: ContView,
    b: ContView,
    e: ExprView,
    out: Seq<Text>,
)
    requires
        agree(root, var, a, b),
        !reads(e, var),
    ensures
        same_outcome(
            root,
            var,
            single_spec(root, fuel, a, e, out),
            single_spec(root, fuel, b, e, out),
        ),
    decreases e, 0int,
{
    match e {
        ExprView::DefCont { name, params, body } => {
            let v = ValueView::Continuation(ContView::Function { params, body });
            lemma_agree_bound(root, var, a, b, name, v);
        },
        ExprView::Begin(es) => {
            lemma_list_agrees(root, fuel, var, a, b, es, 0, Seq::empty(), out);
        },
        ExprView::LetCC { var: inner, body } => {
            lemma_agree_entered(root, var, a, b, inner);
            let ia = enter_scope(a, inner);
            let ib = enter_scope(b, inner);
            lemma_node_agrees(root, fuel, var, ia, ib, *body, out);
            lemma_single_keeps_frame(root, fuel, ia, *body, out);
            lemma_single_keeps_frame(root, fuel, ib, *body, out);
            let sa = single_spec(root, fuel, ia, *body, out);
            let sb = single_spec(root, fuel, ib, *body, out);
            if let Ok(RetView::Data(na, va)) = sa.res {
                if let Ok(RetView::Data(nb, vb)) = sb.res {
                    assert(ia->scopes.drop_last() =~= a->scopes);
                    assert(ib->scopes.drop_last() =~= b->scopes);
                    assert(leave_scope(na) == a);
                    assert(leave_scope(nb) == b);
                }
            }
        },
        ExprView::Call { to_call, args } => {
            lemma_node_agrees(root, fuel, var, a, b, *to_call, out);
            let sa = single_spec(root, fuel, a, *to_call, out);
            let sb = single_spec(root, fuel, b, *to_call, out);
            if let Ok(RetView::Data(na, ta)) = sa.res {
                if let Ok(RetView::Data(nb, tb)) = sb.res {
                    let first = seq![ValueView::Continuation(ContView::Return)];
                    lemma_list_agrees(root, fuel, var, na, nb, args, 0, first, sa.out);
                }
            }
        },
        ExprView::Apply { lhs, args } => {
            lemma_node_agrees(root, fuel, var, a, b, *lhs, out);
            let sa = single_spec(root, fuel, a, *lhs, out);
            let sb = single_spec(root, fuel, b, *lhs, out);
            if let Ok(RetView::Data(na, ta)) = sa.res {
                if let Ok(RetView::Data(nb, tb)) = sb.res {
                    lemma_list_agrees(root, fuel, var, na, nb, args, 0, Seq::empty(), sa.out);
                }
            }
        },
        ExprView::IfElse { cond, expr, default } => {
            lemma_node_agrees(root, fuel, var, a, b, *cond, out);
            let sa = single_spec(root, fuel, a, *cond, out);
            let sb = single_spec(root, fuel, b, *cond, out);
            if let Ok(RetView::Data(na, va)) = sa.res {
                if let Ok(RetView::Data(nb, vb)) = sb.res {
                    if va == ValueView::Bool(true) {
                        lemma_node_agrees(root, fuel, var, na, nb, *expr, sa.out);
                    } else if let Some(d) = default {
                        lemma_node_agrees(root, fuel, var, na, nb, *d, sa.out);
                    }
                }
            }
        },
        ExprView::SetVar(name, data) => {
            lemma_node_agrees(root, fuel, var, a, b, *data, out);
            let sa = single_spec(root, fuel, a, *data, out);
            let sb = single_spec(root, fuel, b, *data, out);
            if let Ok(RetView::Data(na, va)) = sa.res {
                if let Ok(RetView::Data(nb, vb)) = sb.res {
                    lemma_agree_bound(root, var, na, nb, name, va);
                }
            }
        },
        ExprView::GetVar(name) => {
            assert(resolve(root, a->scopes, a->vars, name) == resolve(
                root,
                b->scopes,
                b->vars,
                name,
            ));
        },
        _ => {},
    }
}

/// The same of a list of nodes none of which reads `var`.
pub proof fn lemma_list_agrees(
    root: RootView,
    fuel: nat,
    var: Text,
    a: ContView,
    b: ContView,
    es: Seq<ExprView>,
    i: int,
    acc: Seq<ValueView>,
    out: Seq<Text>,
)
    requires
        agree(root, var, a, b),
        0 <= i <= es.len(),
        !reads_from(es, var, i),
    ensures
        same_list_outcome(
            root,
            var,
            list_spec(root, fuel, a, es, i, acc, out),
            list_spec(root, fuel, b, es, i, acc, out),
        ),
    decreases es, es.len() - i,
{
    if i < es.len() {
        lemma_node_agrees(root, fuel, var, a, b, es[i], out);
        let sa = single_spec(root, fuel, a, es[i], out);
        let sb = single_spec(root, fuel, b, es[i], out);
        if let Ok(RetView::Data(na, va)) = sa.res {
            if let Ok(RetView::Data(nb, vb)) = sb.res {
                lemma_list_agrees(root, fuel, var, na, nb, es, i + 1, acc.push(va), sa.out);
            }
        }
    }
}

/// An escape binding whose body never reads the bound name does what its
/// body does when evaluated directly: the same output, the same failure,
/// the same transfer, the same value. The one difference is the frame after
/// a value: the binding leaves the frame as it found it, so what the body
/// bound locally is gone.
pub proof fn law_letcc_is_its_body(
    root: RootView,
    fuel: nat,
    frame: ContView,
    var: Text,
    body: ExprView,
    out: Seq<Text>,
)
    requires
        frame is Normal,
        !reads(body, var),
    ensures
        ({
            let direct = single_spec(root, fuel, frame, body, out);
            let whole = single_spec(
                root,
                fuel,
                frame,
                ExprView::LetCC { var, body: Box::new(body) },
                out,
            );
            &&& whole.out == direct.out
            &&& whole.res == match direct.res {
                Ok(RetView::Data(_, v)) => Ok(RetView::Data(frame, v)),
                other => other,
            }
        }),
{
    let inner = enter_scope(frame, var);
    assert(agree(root, var, inner, frame)) by {
        assert forall|n: Text| n != var implies #[trigger] resolve(
            root,
            inner->scopes,
            inner->vars,
            n,
        ) == resolve(root, frame->scopes, frame->vars, n) by {
            lemma_resolve_entered(root, frame, var, n);
        }
    }
    lemma_node_agrees(root, fuel, var, inner, frame, body, out);
    law_letcc_without_escape(root, fuel, frame, var, body, out);
}

} // verus!
