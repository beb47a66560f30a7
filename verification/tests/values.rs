use contlang::ast::Expr;
use contlang::equal::{eq_expr, eq_value};
use contlang::natives::{call_native, ret_cont_data};
use contlang::registry::RootScope;
use contlang::text::{push_decimal, push_digits};
use contlang::value::{
    clone_cont, clone_value, ContRet, Continuation, ExprCont, NativeOp, Scope, Value,
};

fn decimal(n: i64) -> String {
    let mut s = String::new();
    push_decimal(&mut s, n);
    s
}

#[test]
fn decimal_rendering_is_exact() {
    assert_eq!(decimal(0), "0");
    assert_eq!(decimal(7), "7");
    assert_eq!(decimal(10), "10");
    assert_eq!(decimal(-1), "-1");
    assert_eq!(decimal(1234567890), "1234567890");
    assert_eq!(decimal(i64::MAX), "9223372036854775807");
    assert_eq!(decimal(i64::MIN), "-9223372036854775808");
}

#[test]
fn digits_are_appended_to_what_is_there() {
    let mut s = String::from("n=");
    push_digits(&mut s, 405);
    assert_eq!(s, "n=405");
    push_decimal(&mut s, -6);
    assert_eq!(s, "n=405-6");
    push_digits(&mut s, u64::MAX);
    assert_eq!(s, "n=405-618446744073709551615");
}

#[test]
fn scope_defines_and_rebinds() {
    let mut scope = Scope::new();
    assert!(scope.get(&"x".to_string()).is_none());
    scope.insert("x".to_string(), Value::Number(1));
    scope.insert("y".to_string(), Value::Bool(true));
    assert!(matches!(scope.get(&"x".to_string()), Some(Value::Number(1))));
    assert_eq!(scope.position(&"y".to_string()), Some(1));
    scope.insert("x".to_string(), Value::Number(2));
    assert!(matches!(scope.get(&"x".to_string()), Some(Value::Number(2))));
    assert!(matches!(scope.get(&"y".to_string()), Some(Value::Bool(true))));
    assert_eq!(scope.entries.len(), 2);
    assert_eq!(scope.position(&"x".to_string()), Some(0));
    assert_eq!(scope.position(&"z".to_string()), None);
}

#[test]
fn values_of_different_kinds_differ() {
    assert!(eq_value(&Value::Number(1), &Value::Number(1)));
    assert!(!eq_value(&Value::Number(1), &Value::String("1".to_string())));
    assert!(!eq_value(&Value::Number(0), &Value::Bool(false)));
    assert!(!eq_value(&Value::Nil, &Value::Bool(false)));
    assert!(eq_value(&Value::Nil, &Value::Nil));
    assert!(eq_value(&Value::String("ab".to_string()), &Value::String("ab".to_string())));
    assert!(!eq_value(&Value::String("ab".to_string()), &Value::String("ac".to_string())));
    assert!(eq_value(
        &Value::Continuation(Continuation::Return),
        &Value::Continuation(Continuation::Return)
    ));
    assert!(!eq_value(
        &Value::Continuation(Continuation::Return),
        &Value::Continuation(Continuation::Native(NativeOp::Eq))
    ));
}

#[test]
fn trees_compare_by_structure() {
    let a = Expr::Begin(vec![Expr::Number(1), Expr::GetVar("x".to_string())]);
    let b = Expr::Begin(vec![Expr::Number(1), Expr::GetVar("x".to_string())]);
    let c = Expr::Begin(vec![Expr::Number(1), Expr::GetVar("y".to_string())]);
    let d = Expr::Begin(vec![Expr::Number(1)]);
    assert!(eq_expr(&a, &b));
    assert!(!eq_expr(&a, &c));
    assert!(!eq_expr(&a, &d));
    let with = Expr::IfElse {
        cond: Box::new(Expr::Bool(true)),
        expr: Box::new(Expr::Nil),
        default: Some(Box::new(Expr::Nil)),
    };
    let without = Expr::IfElse {
        cond: Box::new(Expr::Bool(true)),
        expr: Box::new(Expr::Nil),
        default: None,
    };
    assert!(!eq_expr(&with, &without));
    assert!(eq_expr(&with, &with));
}

#[test]
fn frames_compare_by_their_bindings() {
    let mut one = Scope::new();
    one.insert("a".to_string(), Value::Number(1));
    let mut two = Scope::new();
    two.insert("a".to_string(), Value::Number(1));
    let f = Continuation::Normal { scopes: vec![one], vars: Scope::new(), exprs: ExprCont::Nil };
    let g = Continuation::Normal { scopes: vec![two], vars: Scope::new(), exprs: ExprCont::Nil };
    let h = Continuation::Normal { scopes: vec![], vars: Scope::new(), exprs: ExprCont::Nil };
    assert!(eq_value(&Value::Continuation(clone_cont(&f)), &Value::Continuation(g)));
    assert!(!eq_value(&Value::Continuation(f), &Value::Continuation(h)));
}

#[test]
fn copies_are_equal_to_their_source() {
    let body = vec![Expr::Number(1)];
    let params = vec!["p".to_string()];
    let mut scope = Scope::new();
    scope.insert(
        "f".to_string(),
        Value::Continuation(Continuation::Function { params: &params, body: &body }),
    );
    scope.insert("s".to_string(), Value::String("text".to_string()));
    let frame = Value::Continuation(Continuation::Normal {
        scopes: vec![],
        vars: scope,
        exprs: ExprCont::Multiple(&body),
    });
    let copy = clone_value(&frame);
    assert!(eq_value(&frame, &copy));
    assert!(!eq_value(&copy, &Value::Nil));
}

#[test]
fn registry_holds_definitions_and_natives() {
    let exprs = vec![
        Expr::DefCont { name: "f".to_string(), params: vec![], body: vec![Expr::Number(1)] },
        Expr::Number(5),
        Expr::DefCont { name: "f".to_string(), params: vec![], body: vec![Expr::Number(2)] },
        Expr::DefCont { name: "g".to_string(), params: vec!["a".to_string()], body: vec![] },
    ];
    let mut root = RootScope::new(&exprs);
    assert_eq!(root.entries.len(), 2);
    match root.get("f") {
        Some(Continuation::Function { params, body }) => {
            assert!(params.is_empty());
            assert!(matches!(body[0], Expr::Number(2)));
        },
        other => panic!("{:?}", other),
    }
    assert!(matches!(root.get("g"), Some(Continuation::Function { .. })));
    assert!(root.get("h").is_none());
    root.add_native("g", NativeOp::Mul);
    assert!(matches!(root.get("g"), Some(Continuation::Native(NativeOp::Mul))));
    assert_eq!(root.entries.len(), 2);
    root.add_native("h", NativeOp::And);
    assert!(matches!(root.get("h"), Some(Continuation::Native(NativeOp::And))));
    assert_eq!(root.entries.len(), 3);
}

#[test]
fn registry_of_natives_has_seven_names() {
    let mut root = RootScope::new(&[]);
    root.add_natives();
    assert_eq!(root.entries.len(), 7);
    assert!(matches!(root.get("println"), Some(Continuation::Native(NativeOp::Println))));
    assert!(matches!(root.get("add"), Some(Continuation::Native(NativeOp::Add))));
    assert!(matches!(root.get("sub"), Some(Continuation::Native(NativeOp::Sub))));
    assert!(matches!(root.get("mul"), Some(Continuation::Native(NativeOp::Mul))));
    assert!(matches!(root.get("rem"), Some(Continuation::Native(NativeOp::Rem))));
    assert!(matches!(root.get("eq"), Some(Continuation::Native(NativeOp::Eq))));
    assert!(matches!(root.get("and"), Some(Continuation::Native(NativeOp::And))));
}

#[test]
fn natives_reply_by_a_transfer_to_the_first_argument() {
    let mut out = Vec::new();
    let args = vec![
        Value::Continuation(Continuation::Native(NativeOp::Println)),
        Value::Number(9),
        Value::Number(3),
    ];
    match call_native(NativeOp::Sub, args, &mut out) {
        Ok(ContRet::Apply(Continuation::Native(NativeOp::Println), results)) => {
            assert_eq!(results.len(), 1);
            assert!(matches!(results[0], Value::Number(6)));
        },
        other => panic!("{:?}", other),
    }
    assert!(out.is_empty());
}

#[test]
fn mul_replies_zero_to_any_numbers() {
    let mut out = Vec::new();
    let args = vec![Value::Continuation(Continuation::Return), Value::Number(2), Value::Number(3)];
    match call_native(NativeOp::Mul, args, &mut out) {
        Ok(ContRet::Apply(Continuation::Return, results)) => {
            assert_eq!(results, vec![Value::Number(0)]);
        },
        other => panic!("{:?}", other),
    }
}

#[test]
fn println_adds_its_line_even_where_the_reply_fails() {
    let mut out = vec!["before".to_string()];
    let args = vec![Value::Number(0), Value::String("x".to_string())];
    assert!(call_native(NativeOp::Println, args, &mut out).is_err());
    assert_eq!(out, vec!["before".to_string(), "x".to_string()]);
}

#[test]
fn reply_needs_a_continuation() {
    assert!(ret_cont_data(Value::Nil, vec![]).is_err());
    assert!(matches!(
        ret_cont_data(Value::Continuation(Continuation::Return), vec![Value::Nil]),
        Ok(ContRet::Apply(Continuation::Return, _))
    ));
}
