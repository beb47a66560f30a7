use contlang::ast::Expr;
use contlang::error::EvalError;
use contlang::parser::Parser;
use contlang::registry::RootScope;
use contlang::value::{Continuation, NativeOp, Value};

/// Parses `source`, registers the built-in operations and runs `main`.
/// Gives the result as debug text, beside the lines printed.
fn run_main(source: &str, fuel: usize) -> (String, Vec<String>) {
    let exprs = Parser::new_from_source(source).parse().expect("the source parses");
    let mut root = RootScope::new(&exprs);
    root.add_natives();
    let mut out = Vec::new();
    let result = root.run_cont("main", Vec::new(), fuel, &mut out);
    (format!("{:?}", result), out)
}

fn value_of(source: &str) -> String {
    run_main(source, 1000).0
}

#[test]
fn begin_yields_its_last_expression() {
    assert_eq!(value_of("(defCont main [] (begin 1 2 3))"), "Ok(Number(3))");
    assert_eq!(value_of("(defCont main [] (begin))"), "Ok(Nil)");
    assert_eq!(value_of("(defCont main [] (begin \"a\" #t))"), "Ok(Bool(true))");
}

#[test]
fn same_block_twice_gives_the_same_value() {
    let source = "(defCont main [] (set x 4) (begin (set x (add x 1)) (add x x x)))";
    let first = run_main(source, 1000);
    let second = run_main(source, 1000);
    assert_eq!(first, second);
    assert_eq!(first.0, "Ok(Number(15))");
}

#[test]
fn apply_never_comes_back() {
    let (value, out) = run_main(
        "(defCont k [v] v) (defCont main [reply] (begin (apply k 1) (println \"unreachable\")))",
        1000,
    );
    assert_eq!(value, "Err(ArityMismatch { expected: 1, actual: 0 })");
    assert!(out.is_empty());
    let (value, out) = run_main(
        "(defCont k [v] v) (defCont main [] (begin (apply k 1) (println \"unreachable\")))",
        1000,
    );
    assert_eq!(value, "Ok(Number(1))");
    assert!(out.is_empty());
}

#[test]
fn letcc_without_escape_is_its_body() {
    assert_eq!(value_of("(defCont main [] (letcc k 5))"), "Ok(Number(5))");
    assert_eq!(value_of("(defCont main [] (letcc k \"five\"))"), "Ok(String(\"five\"))");
}

#[test]
fn letcc_that_is_never_read_is_its_body() {
    let bodies = [
        "(add 1 2)",
        "(begin (println \"a\") (if (eq x 4) \"four\" \"other\"))",
        "(begin (set y (add x 1)) (sub y x))",
        "(nope 1)",
        "(apply show 1)",
        "(letcc j (apply j x))",
    ];
    for body in bodies {
        let prelude = "(defCont show [v] (println v) v)";
        let direct = run_main(&format!("{prelude} (defCont main [] (set x 4) {body})"), 1000);
        let bound = run_main(
            &format!("{prelude} (defCont main [] (set x 4) (letcc k {body}))"),
            1000,
        );
        assert_eq!(direct, bound, "{body}");
    }
    assert_eq!(
        value_of("(defCont main [] (set x 4) (letcc k (begin (set y (add x 1)) (sub y x))))"),
        "Ok(Number(1))"
    );
}

#[test]
fn letcc_drops_what_its_body_bound() {
    assert_eq!(
        value_of("(defCont main [] (set x 1) (letcc k (set x 2)) x)"),
        "Ok(Number(1))"
    );
    assert_eq!(
        value_of("(defCont main [] (letcc k (set y 2)) y)"),
        "Err(UnresolvedVariable(\"y\"))"
    );
}

#[test]
fn letcc_body_reads_the_enclosing_scope() {
    assert_eq!(
        value_of("(defCont main [] (set x 7) (letcc k (letcc j (add x 1))))"),
        "Ok(Number(8))"
    );
}

#[test]
fn escape_skips_the_rest_of_the_sequence() {
    assert_eq!(value_of("(defCont main [] (letcc k (apply k 1)) 2)"), "Ok(Number(1))");
    let (value, out) = run_main(
        "(defCont main [] (set x 5) (begin (letcc k (begin (apply k 1) (set x 2))) (println x)))",
        1000,
    );
    assert_eq!(value, "Ok(Number(1))");
    assert!(out.is_empty());
}

#[test]
fn escape_ends_the_function_that_made_it() {
    let (value, out) = run_main(
        "(defCont f [r] (letcc k (begin (apply k 7) (set x 2))) 9) \
         (defCont main [] (set x 5) (set y (f)) (println x y) y)",
        1000,
    );
    assert_eq!(value, "Ok(Number(7))");
    assert_eq!(out, vec!["57".to_string()]);
}

#[test]
fn escape_without_a_value_gives_none() {
    assert_eq!(value_of("(defCont main [] (letcc k (apply k)) 2)"), "Ok(Nil)");
}

#[test]
fn set_defines_then_rebinds() {
    assert_eq!(value_of("(defCont main [] (set x 1) (set x 2) x)"), "Ok(Number(2))");
    assert_eq!(value_of("(defCont main [] (set x 1) x)"), "Ok(Number(1))");
    assert_eq!(value_of("(defCont main [] (set x 1))"), "Ok(Nil)");
}

#[test]
fn eq_is_reflexive_and_type_sensitive() {
    assert_eq!(value_of("(defCont main [] (eq 1 1))"), "Ok(Bool(true))");
    assert_eq!(value_of("(defCont main [] (eq 1 \"1\"))"), "Ok(Bool(false))");
    assert_eq!(value_of("(defCont main [] (eq \"a\" \"a\" \"a\"))"), "Ok(Bool(true))");
    assert_eq!(value_of("(defCont main [] (eq \"a\" \"a\" \"b\"))"), "Ok(Bool(false))");
    assert_eq!(value_of("(defCont main [] (eq #n #n))"), "Ok(Bool(true))");
    assert_eq!(value_of("(defCont main [] (eq #t #f))"), "Ok(Bool(false))");
    assert_eq!(value_of("(defCont main [] (eq))"), "Ok(Bool(true))");
    assert_eq!(value_of("(defCont main [] (eq 3))"), "Ok(Bool(true))");
}

#[test]
fn eq_compares_continuations_by_structure() {
    assert_eq!(value_of("(defCont main [] (letcc k (eq k k)))"), "Ok(Bool(true))");
    assert_eq!(value_of("(defCont main [] (eq add add))"), "Ok(Bool(true))");
    assert_eq!(value_of("(defCont main [] (eq add sub))"), "Ok(Bool(false))");
    assert_eq!(
        value_of("(defCont f [a] a) (defCont g [a] 1) (defCont main [] (eq f g))"),
        "Ok(Bool(false))"
    );
    assert_eq!(
        value_of("(defCont f [a] a) (defCont main [] (eq f f))"),
        "Ok(Bool(true))"
    );
}

#[test]
fn arity_is_checked_exactly() {
    let two = "(defCont two [r a] (add a 1))";
    assert_eq!(
        value_of(&format!("{two} (defCont main [] (two))")),
        "Err(ArityMismatch { expected: 2, actual: 1 })"
    );
    assert_eq!(value_of(&format!("{two} (defCont main [] (two 4))")), "Ok(Number(5))");
    assert_eq!(
        value_of(&format!("{two} (defCont main [] (two 4 5))")),
        "Err(ArityMismatch { expected: 2, actual: 3 })"
    );
}

#[test]
fn add_and_mul_of_nothing_are_zero() {
    assert_eq!(value_of("(defCont main [] (add))"), "Ok(Number(0))");
    assert_eq!(value_of("(defCont main [] (mul))"), "Ok(Number(0))");
    assert_eq!(value_of("(defCont main [] (sub))"), "Ok(Number(0))");
    assert_eq!(value_of("(defCont main [] (rem))"), "Ok(Number(0))");
    assert_eq!(value_of("(defCont main [] (add \"x\" #t))"), "Ok(Number(0))");
    assert_eq!(value_of("(defCont main [] (mul \"x\" #n))"), "Ok(Number(0))");
}

#[test]
fn arithmetic_folds_left_to_right() {
    assert_eq!(value_of("(defCont main [] (add 1 2 3))"), "Ok(Number(6))");
    assert_eq!(value_of("(defCont main [] (sub 10 2 3))"), "Ok(Number(5))");
    assert_eq!(value_of("(defCont main [] (sub 4))"), "Ok(Number(4))");
    assert_eq!(value_of("(defCont main [] (rem 17 5))"), "Ok(Number(2))");
    assert_eq!(value_of("(defCont main [] (rem 100 7 2))"), "Ok(Number(0))");
    assert_eq!(value_of("(defCont main [] (rem (sub 0 17) 5))"), "Ok(Number(-2))");
}

#[test]
fn mul_folds_from_zero() {
    assert_eq!(value_of("(defCont main [] (mul 2 3))"), "Ok(Number(0))");
    assert_eq!(value_of("(defCont main [] (mul 2 3 4))"), "Ok(Number(0))");
    assert_eq!(value_of("(defCont main [] (mul 7))"), "Ok(Number(0))");
    assert_eq!(value_of("(defCont main [] (mul 9223372036854775807 2))"), "Ok(Number(0))");
}

#[test]
fn arithmetic_passes_over_other_kinds() {
    assert_eq!(value_of("(defCont main [] (add 1 \"2\" 3 #t))"), "Ok(Number(4))");
    assert_eq!(value_of("(defCont main [] (sub \"x\" 10 #n 4))"), "Ok(Number(6))");
    assert_eq!(value_of("(defCont main [] (mul #f 5 \"y\" 6))"), "Ok(Number(0))");
    assert_eq!(value_of("(defCont main [] (rem #f 9 \"y\" 4))"), "Ok(Number(1))");
}

#[test]
fn arithmetic_wraps_in_64_bits() {
    assert_eq!(
        value_of("(defCont main [] (add 9223372036854775807 1))"),
        "Ok(Number(-9223372036854775808))"
    );
    assert_eq!(
        value_of("(defCont main [] (sub (sub 0 9223372036854775807) 2))"),
        "Ok(Number(9223372036854775807))"
    );
}

#[test]
fn rem_fails_without_a_remainder() {
    assert_eq!(value_of("(defCont main [] (rem 5 0))"), "Err(InvalidRemainder)");
    assert_eq!(
        value_of("(defCont main [] (rem (add 9223372036854775807 1) (sub 0 1)))"),
        "Err(InvalidRemainder)"
    );
}

#[test]
fn and_wants_every_operand_true() {
    assert_eq!(value_of("(defCont main [] (and))"), "Ok(Bool(true))");
    assert_eq!(value_of("(defCont main [] (and #t #t))"), "Ok(Bool(true))");
    assert_eq!(value_of("(defCont main [] (and #t #f #t))"), "Ok(Bool(false))");
    assert_eq!(value_of("(defCont main [] (and #t 1))"), "Ok(Bool(false))");
}

#[test]
fn println_renders_each_kind() {
    let (value, out) = run_main(
        "(defCont main [] (println \"n=\" 42 \" \" #t #f #n (sub 0 7)) (println 0))",
        1000,
    );
    assert_eq!(value, "Ok(Nil)");
    assert_eq!(out, vec!["n=42 #t#f#n-7".to_string(), "0".to_string()]);
}

#[test]
fn println_prints_no_continuation() {
    let (_, out) = run_main("(defCont main [] (println \"a\" add \"b\"))", 1000);
    assert_eq!(out, vec!["ab".to_string()]);
}

#[test]
fn println_renders_the_least_integer() {
    let (_, out) = run_main("(defCont main [] (println (add 9223372036854775807 1)))", 1000);
    assert_eq!(out, vec!["-9223372036854775808".to_string()]);
    let (_, out) = run_main("(defCont main [] (println 9223372036854775807 10 109))", 1000);
    assert_eq!(out, vec!["922337203685477580710109".to_string()]);
}

#[test]
fn println_needs_an_operand() {
    assert_eq!(value_of("(defCont main [] (println))"), "Err(MissingOperand)");
}

#[test]
fn output_before_a_failure_stays() {
    let (value, out) = run_main("(defCont main [] (println 1) (println 2) nope)", 1000);
    assert_eq!(value, "Err(UnresolvedVariable(\"nope\"))");
    assert_eq!(out, vec!["1".to_string(), "2".to_string()]);
}

#[test]
fn conditional_takes_only_true_for_true() {
    assert_eq!(value_of("(defCont main [] (if #t 1 2))"), "Ok(Number(1))");
    assert_eq!(value_of("(defCont main [] (if #f 1 2))"), "Ok(Number(2))");
    assert_eq!(value_of("(defCont main [] (if 1 1 2))"), "Ok(Number(2))");
    assert_eq!(value_of("(defCont main [] (if \"yes\" 1 2))"), "Ok(Number(2))");
    assert_eq!(value_of("(defCont main [] (if #f 1))"), "Ok(Nil)");
    assert_eq!(value_of("(defCont main [] (if (eq 2 2) 1))"), "Ok(Number(1))");
}

#[test]
fn conditional_runs_one_branch_only() {
    let (_, out) = run_main("(defCont main [] (if #t (println \"a\") (println \"b\")))", 1000);
    assert_eq!(out, vec!["a".to_string()]);
}

#[test]
fn call_resolves_inline() {
    let (value, out) = run_main(
        "(defCont inc [r n] (add n 1)) (defCont main [] (set a (inc 1)) (println a) (inc a))",
        1000,
    );
    assert_eq!(value, "Ok(Number(3))");
    assert_eq!(out, vec!["2".to_string()]);
}

#[test]
fn call_hands_the_return_marker_first() {
    assert_eq!(
        value_of("(defCont f [r] (apply r 11) 12) (defCont main [] (add (f) 1))"),
        "Ok(Number(12))"
    );
    assert_eq!(value_of("(defCont f [r] (eq r r)) (defCont main [] (f))"), "Ok(Bool(true))");
}

#[test]
fn local_definition_is_callable() {
    assert_eq!(
        value_of("(defCont main [] (defCont twice [r n] (add n n)) (twice 21))"),
        "Ok(Number(42))"
    );
    assert_eq!(value_of("(defCont main [] (defCont f [] 1))"), "Ok(Nil)");
}

#[test]
fn local_binding_shadows_the_registry() {
    assert_eq!(
        value_of("(defCont f [r] 1) (defCont main [] (set f 5) f)"),
        "Ok(Number(5))"
    );
}

#[test]
fn natives_replace_definitions_of_their_name() {
    assert_eq!(value_of("(defCont add [r a b] 99) (defCont main [] (add 1 2))"), "Ok(Number(3))");
}

#[test]
fn later_definition_replaces_earlier() {
    assert_eq!(value_of("(defCont f [r] 1) (defCont f [r] 2) (defCont main [] (f))"), "Ok(Number(2))");
}

#[test]
fn arguments_are_evaluated_left_to_right() {
    let (value, out) = run_main(
        "(defCont main [] (add (begin (println 1) 1) (begin (println 2) 2)))",
        1000,
    );
    assert_eq!(value, "Ok(Number(3))");
    assert_eq!(out, vec!["1".to_string(), "2".to_string()]);
}

#[test]
fn parameters_bind_by_position() {
    assert_eq!(
        value_of("(defCont f [r a b] (sub a b)) (defCont main [] (f 10 3))"),
        "Ok(Number(7))"
    );
}

#[test]
fn unresolved_variable_fails() {
    assert_eq!(value_of("(defCont main [] ghost)"), "Err(UnresolvedVariable(\"ghost\"))");
}

#[test]
fn call_of_a_non_continuation_fails() {
    assert_eq!(value_of("(defCont main [] (5 1))"), "Err(NotInvocable)");
    assert_eq!(value_of("(defCont main [] (apply \"f\" 1))"), "Err(NotInvocable)");
}

#[test]
fn arguments_run_before_the_target_is_checked() {
    let (value, out) = run_main("(defCont main [] (5 (println \"arg\")))", 1000);
    assert_eq!(value, "Err(NotInvocable)");
    assert_eq!(out, vec!["arg".to_string()]);
}

#[test]
fn missing_entry_point_fails() {
    assert_eq!(value_of("(defCont other [] 1)"), "Err(UndefinedEntryPoint(\"main\"))");
}

#[test]
fn native_without_arguments_fails() {
    assert_eq!(value_of("(defCont main [] (apply add))"), "Err(EmptyNativeArguments)");
    assert_eq!(value_of("(defCont main [] (apply println))"), "Err(EmptyNativeArguments)");
    assert_eq!(value_of("(defCont main [] (apply eq))"), "Err(EmptyNativeArguments)");
}

#[test]
fn native_needs_a_continuation_to_reply_to() {
    assert_eq!(value_of("(defCont main [] (apply add 1 2))"), "Err(ReplyNotInvocable)");
    assert_eq!(value_of("(defCont main [] (apply eq \"k\"))"), "Err(ReplyNotInvocable)");
}

#[test]
fn native_replies_by_transfer() {
    assert_eq!(
        value_of("(defCont show [v] (add v 10)) (defCont main [] (apply add show 1 2))"),
        "Ok(Number(13))"
    );
}

#[test]
fn depth_is_bounded_by_fuel() {
    let looping = "(defCont main [] (apply main))";
    assert_eq!(run_main(looping, 50).0, "Err(DepthExceeded)");
    assert_eq!(run_main("(defCont main [] 1)", 0).0, "Err(DepthExceeded)");
    assert_eq!(run_main("(defCont main [] 1)", 1).0, "Ok(Number(1))");
    assert_eq!(run_main("(defCont main [] (add 1 2))", 1).0, "Err(DepthExceeded)");
    assert_eq!(run_main("(defCont main [] (add 1 2))", 2).0, "Ok(Number(3))");
    assert_eq!(run_main("(defCont main [] (add 1 2))", 3).0, "Ok(Number(3))");
}

#[test]
fn fuel_is_needed_only_to_go_on() {
    let root = RootScope::new(&[]);
    let mut out = Vec::new();
    let r = Continuation::Return.run(&root, vec![Value::Number(3)], 0, &mut out);
    assert_eq!(r, Ok(Value::Number(3)));
    let body = vec![Expr::Number(1)];
    let params = vec!["a".to_string(), "b".to_string()];
    let f = Continuation::Function { params: &params, body: &body };
    assert_eq!(
        f.clone().run(&root, vec![Value::Nil], 0, &mut out),
        Err(EvalError::ArityMismatch { expected: 2, actual: 1 })
    );
    assert_eq!(
        f.clone().run(&root, vec![Value::Nil, Value::Nil, Value::Nil], 0, &mut out),
        Err(EvalError::ArityMismatch { expected: 2, actual: 3 })
    );
    assert_eq!(
        f.clone().run(&root, vec![Value::Nil, Value::Nil], 0, &mut out),
        Err(EvalError::DepthExceeded)
    );
    assert_eq!(f.run(&root, vec![Value::Nil, Value::Nil], 1, &mut out), Ok(Value::Number(1)));
    let add = Continuation::Native(NativeOp::Add);
    assert_eq!(add.clone().run(&root, vec![], 0, &mut out), Err(EvalError::EmptyNativeArguments));
    assert_eq!(
        add.clone().run(&root, vec![Value::Number(1)], 0, &mut out),
        Err(EvalError::ReplyNotInvocable)
    );
    let reply = Value::Continuation(Continuation::Return);
    assert_eq!(
        add.clone().run(&root, vec![reply.clone(), Value::Number(1)], 0, &mut out),
        Err(EvalError::DepthExceeded)
    );
    assert_eq!(add.run(&root, vec![reply, Value::Number(1)], 1, &mut out), Ok(Value::Number(1)));
    assert!(out.is_empty());
}

#[test]
fn a_larger_limit_keeps_the_result() {
    let source = "(defCont count [r n acc] (if (eq n 0) acc (count (sub n 1) (add acc n)))) \
                  (defCont main [] (println \"go\") (count 5 0))";
    let mut least = 0;
    while run_main(source, least).0 == "Err(DepthExceeded)" {
        least += 1;
    }
    let found = run_main(source, least);
    assert_eq!(found.0, "Ok(Number(15))");
    assert_eq!(found.1, vec!["go".to_string()]);
    for more in [least + 1, least + 2, least + 50, 10_000] {
        assert_eq!(run_main(source, more), found);
    }
}

#[test]
fn recursion_counts_down() {
    let source = "(defCont count [r n acc] (if (eq n 0) acc (count (sub n 1) (add acc n)))) \
                  (defCont main [] (count 10 0))";
    assert_eq!(value_of(source), "Ok(Number(55))");
}

#[test]
fn field_access_is_unsupported() {
    let body = vec![Expr::GetField { data: Box::new(Expr::Nil), field: "f".to_string() }];
    let params: Vec<String> = Vec::new();
    let root = RootScope::new(&[]);
    let mut out = Vec::new();
    let f = Continuation::Function { params: &params, body: &body };
    let r = f.run(&root, Vec::new(), 10, &mut out);
    assert!(matches!(r, Err(EvalError::Unsupported)));
    let body = vec![Expr::SetField {
        lhs: Box::new(Expr::Nil),
        field: "f".to_string(),
        data: Box::new(Expr::Number(1)),
    }];
    let f = Continuation::Function { params: &params, body: &body };
    let r = f.run(&root, Vec::new(), 10, &mut out);
    assert!(matches!(r, Err(EvalError::Unsupported)));
}

#[test]
fn return_marker_hands_back_its_first_argument() {
    let root = RootScope::new(&[]);
    let mut out = Vec::new();
    let r = Continuation::Return.run(&root, vec![Value::Number(3), Value::Number(4)], 5, &mut out);
    assert!(matches!(r, Ok(Value::Number(3))));
    let r = Continuation::Return.run(&root, Vec::new(), 5, &mut out);
    assert!(matches!(r, Ok(Value::Nil)));
}

#[test]
fn native_continuation_runs_directly() {
    let root = RootScope::new(&[]);
    let mut out = Vec::new();
    let args = vec![
        Value::Continuation(Continuation::Return),
        Value::Number(20),
        Value::Number(22),
    ];
    let r = Continuation::Native(NativeOp::Add).run(&root, args, 5, &mut out);
    assert!(matches!(r, Ok(Value::Number(42))));
}
