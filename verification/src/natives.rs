//! The built-in operations. Each takes the reply continuation as its first
//! argument and its operands after it, and replies by a transfer.

use vstd::prelude::*;
use vstd::string::*;
use crate::ast::{Text, names_view};
use crate::equal::eq_value;
use crate::error::{EvalError, EvalErrorView};
use crate::text::{decimal, push_decimal};
use crate::value::{
    ContRet, Continuation, NativeOp, RetView, Value, ValueView, clone_value, step_view,
    value_view, values_view,
};

verus! {

/// The operands of a built-in operation: its arguments after the reply
/// continuation.
pub open spec fn operands(args: Seq<ValueView>) -> Seq<ValueView> {
    args.subrange(1, args.len() as int)
}

/// The sum of the numbers among the operands, from zero, in 64-bit
/// two's-complement arithmetic. Operands that are no numbers are passed over.
pub open spec fn sum_of(ops: Seq<ValueView>) -> i64
    decreases ops.len(),
{
    if ops.len() == 0 {
        0
    } else {
        match ops.last() {
            ValueView::Number(n) => sum_of(ops.drop_last()).wrapping_add(n),
            _ => sum_of(ops.drop_last()),
        }
    }
}

/// The first number among the operands less the numbers after it, in 64-bit
/// two's-complement arithmetic; `None` where no operand is a number.
pub open spec fn difference_of(ops: Seq<ValueView>) -> Option<i64>
    decreases ops.len(),
{
    if ops.len() == 0 {
        None
    } else {
        match (ops.last(), difference_of(ops.drop_last())) {
            (ValueView::Number(n), Some(t)) => Some(t.wrapping_sub(n)),
            (ValueView::Number(n), None) => Some(n),
            (_, acc) => acc,
        }
    }
}

/// The product of the numbers among the operands, from zero, in 64-bit
/// two's-complement arithmetic. Operands that are no numbers are passed
/// over. The seed is zero, not one, so the product is zero whatever the
/// operands are (`lemma_product_is_zero`).
pub open spec fn product_of(ops: Seq<ValueView>) -> i64
    decreases ops.len(),
{
    if ops.len() == 0 {
        0
    } else {
        match ops.last() {
            ValueView::Number(n) => product_of(ops.drop_last()).wrapping_mul(n),
            _ => product_of(ops.drop_last()),
        }
    }
}

/// A product that starts from zero stays zero.
pub proof fn lemma_product_is_zero(ops: Seq<ValueView>)
    ensures
        product_of(ops) == 0,
    decreases ops.len(),
{
    if ops.len() > 0 {
        lemma_product_is_zero(ops.drop_last());
        if let ValueView::Number(n) = ops.last() {
            assert(0 * n == 0) by (nonlinear_arith);
            assert(0i64.wrapping_mul(n) == 0);
        }
    }
}

/// The first number among the operands reduced by the remainder of division
/// by each number after it, the sign following the dividend. `Err` where a
/// divisor is zero or a remainder does not exist in 64 bits; `Ok(None)` where
/// no operand is a number.
pub open spec fn remainder_of(ops: Seq<ValueView>) -> Result<Option<i64>, ()>
    decreases ops.len(),
{
    if ops.len() == 0 {
        Ok(None)
    } else {
        match (ops.last(), remainder_of(ops.drop_last())) {
            (_, Err(e)) => Err(e),
            (ValueView::Number(n), Ok(Some(t))) => match t.checked_rem(n) {
                Some(r) => Ok(Some(r)),
                None => Err(()),
            },
            (ValueView::Number(n), Ok(None)) => Ok(Some(n)),
            (_, Ok(acc)) => Ok(acc),
        }
    }
}

/// Every operand equals the first.
pub open spec fn all_equal(ops: Seq<ValueView>) -> bool {
    forall|i: int| 0 <= i < ops.len() ==> #[trigger] ops[i] == ops[0]
}

/// Every operand is the boolean true.
pub open spec fn all_true(ops: Seq<ValueView>) -> bool {
    forall|i: int| 0 <= i < ops.len() ==> #[trigger] ops[i] == ValueView::Bool(true)
}

/// How a value is printed. A continuation prints as nothing.
pub open spec fn rendered(v: ValueView) -> Text {
    match v {
        ValueView::String(s) => s,
        ValueView::Number(n) => decimal(n as int),
        ValueView::Bool(true) => seq!['#', 't'],
        ValueView::Bool(false) => seq!['#', 'f'],
        ValueView::Nil => seq!['#', 'n'],
        ValueView::Continuation(_) => Seq::empty(),
    }
}

/// The line that printing the operands gives: each operand as it is
/// printed, one after the other.
pub open spec fn line_of(ops: Seq<ValueView>) -> Text
    decreases ops.len(),
{
    if ops.len() == 0 {
        Seq::empty()
    } else {
        line_of(ops.drop_last()) + rendered(ops.last())
    }
}

/// The reply of a built-in operation: a transfer to the reply continuation
/// with the results, or a failure where the reply is no continuation.
pub open spec fn reply_with(reply: ValueView, results: Seq<ValueView>) -> Result<
    RetView,
    EvalErrorView,
> {
    match reply {
        ValueView::Continuation(c) => Ok(RetView::Apply(c, results)),
        _ => Err(EvalErrorView::ReplyNotInvocable),
    }
}

/// What a built-in operation without output replies to its arguments.
pub open spec fn native_reply(op: NativeOp, args: Seq<ValueView>) -> Result<
    RetView,
    EvalErrorView,
> {
    if args.len() == 0 {
        Err(EvalErrorView::EmptyNativeArguments)
    } else {
        let ops = operands(args);
        match op {
            NativeOp::Println => if ops.len() == 0 {
                Err(EvalErrorView::MissingOperand)
            } else {
                reply_with(args[0], seq![ValueView::Nil])
            },
            NativeOp::Add => reply_with(args[0], seq![ValueView::Number(sum_of(ops))]),
            NativeOp::Sub => reply_with(
                args[0],
                seq![ValueView::Number(difference_of(ops).unwrap_or(0))],
            ),
            NativeOp::Mul => reply_with(args[0], seq![ValueView::Number(product_of(ops))]),
            NativeOp::Rem => match remainder_of(ops) {
                Ok(r) => reply_with(args[0], seq![ValueView::Number(r.unwrap_or(0))]),
                Err(_) => Err(EvalErrorView::InvalidRemainder),
            },
            NativeOp::Eq => reply_with(args[0], seq![ValueView::Bool(all_equal(ops))]),
            NativeOp::And => reply_with(args[0], seq![ValueView::Bool(all_true(ops))]),
        }
    }
}

/// The lines of output after a built-in operation has run: `println` with
/// at least one operand adds one line, nothing else adds any.
pub open spec fn native_output(op: NativeOp, args: Seq<ValueView>, out: Seq<Text>) -> Seq<Text> {
    if op == NativeOp::Println && args.len() >= 2 {
        out.push(line_of(operands(args)))
    } else {
        out
    }
}

/// Replies to `cont` with `args`, where `cont` is a continuation.
pub fn ret_cont_data<'a>(cont: Value<'a>, args: Vec<Value<'a>>) -> (r: Result<
    ContRet<'a>,
    EvalError,
>)
    ensures
        step_view(r) == reply_with(cont@, values_view(args@)),
{
    match cont {
        Value::Continuation(cont) => Ok(ContRet::Apply(cont, args)),
        _ => Err(EvalError::ReplyNotInvocable),
    }
}

/// Replies whether every operand equals the first; true where there is at most one.
pub fn eq<'a>(args: Vec<Value<'a>>) -> (r: Result<ContRet<'a>, EvalError>)
    ensures
        step_view(r) == native_reply(NativeOp::Eq, values_view(args@)),
{
    if args.len() == 0 {
        return Err(EvalError::EmptyNativeArguments);
    }
    let ghost ops = operands(values_view(args@));
    let mut ret: bool = true;
    let mut i: usize = 1;
    while i < args.len()
        invariant
            1 <= i <= args.len(),
            ops == operands(values_view(args@)),
            ret == all_equal(ops.take(i - 1)),
        decreases args.len() - i,
    {
        proof {
            assert(ops.take(i as int).drop_last() =~= ops.take(i - 1));
            assert(ops.take(i as int).last() == value_view(args@[i as int]));
        }
        if i >= 2 && !eq_value(&args[1], &args[i]) {
            assert(ops.take(i as int)[i - 1] != ops.take(i as int)[0]);
            ret = false;
        }
        assert(ret ==> all_equal(ops.take(i as int))) by {
            if ret {
                assert forall|j: int| 0 <= j < ops.take(i as int).len() implies #[trigger] ops.take(
                    i as int,
                )[j] == ops.take(i as int)[0] by {
                    if j < i - 1 {
                        assert(ops.take(i - 1)[j] == ops.take(i - 1)[0]);
                    }
                }
            }
        }
        assert(!ret ==> !all_equal(ops.take(i as int))) by {
            if !ret && all_equal(ops.take(i as int)) {
                assert forall|j: int| 0 <= j < ops.take(i - 1).len() implies #[trigger] ops.take(
                    i - 1,
                )[j] == ops.take(i - 1)[0] by {
                    assert(ops.take(i as int)[j] == ops.take(i as int)[0]);
                }
            }
        }
        i += 1;
    }
    assert(ops.take(args.len() - 1) =~= ops);
    let reply = clone_value(&args[0]);
    let mut results: Vec<Value<'a>> = Vec::new();
    results.push(Value::Bool(ret));
    assert(values_view(results@) =~= seq![value_view(results@[0])]);
    ret_cont_data(reply, results)
}

/// Replies whether every operand is the boolean true.
pub fn and<'a>(args: Vec<Value<'a>>) -> (r: Result<ContRet<'a>, EvalError>)
    ensures
        step_view(r) == native_reply(NativeOp::And, values_view(args@)),
{
    if args.len() == 0 {
        return Err(EvalError::EmptyNativeArguments);
    }
    let ghost ops = operands(values_view(args@));
    let mut ret: bool = true;
    let mut i: usize = 1;
    while i < args.len()
        invariant
            1 <= i <= args.len(),
            ops == operands(values_view(args@)),
            ret == all_true(ops.take(i - 1)),
        decreases args.len() - i,
    {
        proof {
            assert(ops.take(i as int).drop_last() =~= ops.take(i - 1));
            assert(ops.take(i as int).last() == value_view(args@[i as int]));
        }
        match &args[i] {
            Value::Bool(true) => {},
            _ => {
                assert(ops.take(i as int)[i - 1] != ValueView::Bool(true));
                ret = false;
            },
        }
        assert(ret ==> all_true(ops.take(i as int))) by {
            if ret {
                assert forall|j: int| 0 <= j < ops.take(i as int).len() implies #[trigger] ops.take(
                    i as int,
                )[j] == ValueView::Bool(true) by {
                    if j < i - 1 {
                        assert(ops.take(i - 1)[j] == ValueView::Bool(true));
                    }
                }
            }
        }
        assert(!ret ==> !all_true(ops.take(i as int))) by {
            if !ret && all_true(ops.take(i as int)) {
                assert forall|j: int| 0 <= j < ops.take(i - 1).len() implies #[trigger] ops.take(
                    i - 1,
                )[j] == ValueView::Bool(true) by {
                    assert(ops.take(i as int)[j] == ValueView::Bool(true));
                }
            }
        }
        i += 1;
    }
    assert(ops.take(args.len() - 1) =~= ops);
    let reply = clone_value(&args[0]);
    let mut results: Vec<Value<'a>> = Vec::new();
    results.push(Value::Bool(ret));
    assert(values_view(results@) =~= seq![value_view(results@[0])]);
    ret_cont_data(reply, results)
}

/// Replies the sum of the numbers among the operands, zero where there is none.
pub fn add<'a>(args: Vec<Value<'a>>) -> (r: Result<ContRet<'a>, EvalError>)
    ensures
        step_view(r) == native_reply(NativeOp::Add, values_view(args@)),
{
    if args.len() == 0 {
        return Err(EvalError::EmptyNativeArguments);
    }
    let ghost ops = operands(values_view(args@));
    let mut total: i64 = 0;
    let mut i: usize = 1;
    while i < args.len()
        invariant
            1 <= i <= args.len(),
            ops == operands(values_view(args@)),
            total == sum_of(ops.take(i - 1)),
        decreases args.len() - i,
    {
        proof {
            assert(ops.take(i as int).drop_last() =~= ops.take(i - 1));
            assert(ops.take(i as int).last() == value_view(args@[i as int]));
        }
        match &args[i] {
            Value::Number(n) => {
                total = total.wrapping_add(*n);
            },
            _ => {},
        }
        i += 1;
    }
    assert(ops.take(args.len() - 1) =~= ops);
    let reply = clone_value(&args[0]);
    let mut results: Vec<Value<'a>> = Vec::new();
    results.push(Value::Number(total));
    assert(values_view(results@) =~= seq![value_view(results@[0])]);
    ret_cont_data(reply, results)
}

/// Replies the first number among the operands less the numbers after it, zero where there is none.
pub fn sub<'a>(args: Vec<Value<'a>>) -> (r: Result<ContRet<'a>, EvalError>)
    ensures
        step_view(r) == native_reply(NativeOp::Sub, values_view(args@)),
{
    if args.len() == 0 {
        return Err(EvalError::EmptyNativeArguments);
    }
    let ghost ops = operands(values_view(args@));
    let mut total: i64 = 0;
    let mut first: bool = true;
    let mut i: usize = 1;
    while i < args.len()
        invariant
            1 <= i <= args.len(),
            ops == operands(values_view(args@)),
            first == (difference_of(ops.take(i - 1)) is None),
            !first ==> difference_of(ops.take(i - 1)) == Some(total),
            first ==> total == 0,
        decreases args.len() - i,
    {
        proof {
            assert(ops.take(i as int).drop_last() =~= ops.take(i - 1));
            assert(ops.take(i as int).last() == value_view(args@[i as int]));
        }
        match &args[i] {
            Value::Number(n) => {
                if first {
                    total = *n;
                    first = false;
                } else {
                    total = total.wrapping_sub(*n);
                }
            },
            _ => {},
        }
        i += 1;
    }
    assert(ops.take(args.len() - 1) =~= ops);
    let reply = clone_value(&args[0]);
    let mut results: Vec<Value<'a>> = Vec::new();
    results.push(Value::Number(total));
    assert(values_view(results@) =~= seq![value_view(results@[0])]);
    ret_cont_data(reply, results)
}

/// Replies the product of the numbers among the operands, folded from
/// zero: the reply is zero, whatever the operands are.
pub fn mul<'a>(args: Vec<Value<'a>>) -> (r: Result<ContRet<'a>, EvalError>)
    ensures
        step_view(r) == native_reply(NativeOp::Mul, values_view(args@)),
{
    if args.len() == 0 {
        return Err(EvalError::EmptyNativeArguments);
    }
    let ghost ops = operands(values_view(args@));
    let mut total: i64 = 0;
    let mut i: usize = 1;
    while i < args.len()
        invariant
            1 <= i <= args.len(),
            ops == operands(values_view(args@)),
            total == product_of(ops.take(i - 1)),
        decreases args.len() - i,
    {
        proof {
            assert(ops.take(i as int).drop_last() =~= ops.take(i - 1));
            assert(ops.take(i as int).last() == value_view(args@[i as int]));
        }
        match &args[i] {
            Value::Number(n) => {
                total = total.wrapping_mul(*n);
            },
            _ => {},
        }
        i += 1;
    }
    assert(ops.take(args.len() - 1) =~= ops);
    let reply = clone_value(&args[0]);
    let mut results: Vec<Value<'a>> = Vec::new();
    results.push(Value::Number(total));
    assert(values_view(results@) =~= seq![value_view(results@[0])]);
    ret_cont_data(reply, results)
}

/// Replies the first number among the operands reduced by the remainder of
/// division by each number after it, zero where there is none. Fails at the
/// first divisor for which there is no remainder.
pub fn rem<'a>(args: Vec<Value<'a>>) -> (r: Result<ContRet<'a>, EvalError>)
    ensures
        step_view(r) == native_reply(NativeOp::Rem, values_view(args@)),
{
    if args.len() == 0 {
        return Err(EvalError::EmptyNativeArguments);
    }
    let ghost ops = operands(values_view(args@));
    let mut total: i64 = 0;
    let mut first: bool = true;
    let mut i: usize = 1;
    while i < args.len()
        invariant
            1 <= i <= args.len(),
            ops == operands(values_view(args@)),
            remainder_of(ops.take(i - 1)) is Ok,
            first == (remainder_of(ops.take(i - 1)) == Ok::<Option<i64>, ()>(None)),
            !first ==> remainder_of(ops.take(i - 1)) == Ok::<Option<i64>, ()>(Some(total)),
            first ==> total == 0,
        decreases args.len() - i,
    {
        proof {
            assert(ops.take(i as int).drop_last() =~= ops.take(i - 1));
            assert(ops.take(i as int).last() == value_view(args@[i as int]));
        }
        match &args[i] {
            Value::Number(n) => {
                if first {
                    total = *n;
                    first = false;
                } else {
                    match total.checked_rem(*n) {
                        Some(r) => {
                            total = r;
                        },
                        None => {
                            proof {
                                lemma_remainder_fails(ops, i as int);
                            }
                            return Err(EvalError::InvalidRemainder);
                        },
                    }
                }
            },
            _ => {},
        }
        i += 1;
    }
    assert(ops.take(args.len() - 1) =~= ops);
    let reply = clone_value(&args[0]);
    let mut results: Vec<Value<'a>> = Vec::new();
    results.push(Value::Number(total));
    assert(values_view(results@) =~= seq![value_view(results@[0])]);
    ret_cont_data(reply, results)
}

/// Once the remainder has failed on a prefix of the operands, it fails on
/// all of them.
pub proof fn lemma_remainder_fails(ops: Seq<ValueView>, k: int)
    requires
        0 <= k <= ops.len(),
        remainder_of(ops.take(k)) is Err,
    ensures
        remainder_of(ops) is Err,
    decreases ops.len() - k,
{
    if k < ops.len() {
        assert(ops.take(k + 1).drop_last() =~= ops.take(k));
        lemma_remainder_fails(ops, k + 1);
    } else {
        assert(ops.take(k) =~= ops);
    }
}

/// Prints the operands on one line of `out` and replies no value. Needs at
/// least one operand.
pub fn println_native<'a>(args: Vec<Value<'a>>, out: &mut Vec<String>) -> (r: Result<
    ContRet<'a>,
    EvalError,
>)
    ensures
        step_view(r) == native_reply(NativeOp::Println, values_view(args@)),
        names_view(final(out)@) == native_output(
            NativeOp::Println,
            values_view(args@),
            names_view(old(out)@),
        ),
{
    if args.len() == 0 {
        return Err(EvalError::EmptyNativeArguments);
    }
    if args.len() < 2 {
        return Err(EvalError::MissingOperand);
    }
    let ghost ops = operands(values_view(args@));
    let mut line: String = String::new();
    let mut i: usize = 1;
    while i < args.len()
        invariant
            1 <= i <= args.len(),
            ops == operands(values_view(args@)),
            line@ == line_of(ops.take(i - 1)),
        decreases args.len() - i,
    {
        proof {
            assert(ops.take(i as int).drop_last() =~= ops.take(i - 1));
            assert(ops.take(i as int).last() == value_view(args@[i as int]));
        }
        let ghost before = line@;
        match &args[i] {
            Value::String(s) => {
                line.append(s.as_str());
            },
            Value::Number(n) => {
                push_decimal(&mut line, *n);
            },
            Value::Bool(true) => {
                line.push('#');
                line.push('t');
            },
            Value::Bool(false) => {
                line.push('#');
                line.push('f');
            },
            Value::Nil => {
                line.push('#');
                line.push('n');
            },
            Value::Continuation(_) => {},
        }
        assert(line@ =~= before + rendered(value_view(args@[i as int])));
        i += 1;
    }
    assert(ops.take(args.len() - 1) =~= ops);
    let ghost lines = names_view(out@);
    out.push(line);
    assert(names_view(out@) =~= lines.push(line_of(ops)));
    let reply = clone_value(&args[0]);
    let mut results: Vec<Value<'a>> = Vec::new();
    results.push(Value::Nil);
    assert(values_view(results@) =~= seq![value_view(results@[0])]);
    ret_cont_data(reply, results)
}

/// Runs the built-in operation `op` on `args`. Only `println` adds to `out`.
pub fn call_native<'a>(op: NativeOp, args: Vec<Value<'a>>, out: &mut Vec<String>) -> (r: Result<
    ContRet<'a>,
    EvalError,
>)
    ensures
        step_view(r) == native_reply(op, values_view(args@)),
        names_view(final(out)@) == native_output(op, values_view(args@), names_view(old(out)@)),
{
    match op {
        NativeOp::Println => println_native(args, out),
        NativeOp::Add => self::add(args),
        NativeOp::Sub => self::sub(args),
        NativeOp::Mul => self::mul(args),
        NativeOp::Rem => rem(args),
        NativeOp::Eq => eq(args),
        NativeOp::And => and(args),
    }
}

} // verus!
