use contlang::error::EvalError;
use contlang::lexer::{ParseError, StartOrEnd, Token};
use contlang::parser::Parser;

#[test]
fn evaluation_failures_in_words() {
    assert_eq!(
        EvalError::UnresolvedVariable("x".to_string()).message(),
        "No variable with the name `x`"
    );
    assert_eq!(
        EvalError::ArityMismatch { expected: 2, actual: 13 }.message(),
        "Expected 2 args for function, but got 13"
    );
    assert_eq!(EvalError::NotInvocable.message(), "Apply LHS is not a continuation");
    assert_eq!(
        EvalError::UndefinedEntryPoint("main".to_string()).message(),
        "No continuation named `main`"
    );
    assert_eq!(
        EvalError::EmptyNativeArguments.message(),
        "Expected continuation for first argument, but got no args"
    );
    assert_eq!(EvalError::MissingOperand.message(), "Expected 2 args for println");
    assert_eq!(
        EvalError::ReplyNotInvocable.message(),
        "Expected continuation for first argument"
    );
    assert_eq!(EvalError::InvalidRemainder.message(), "Remainder is not defined");
    assert_eq!(EvalError::Unsupported.message(), "Unsupported expression");
    assert_eq!(EvalError::DepthExceeded.message(), "Depth limit exceeded");
}

#[test]
fn parse_failures_in_words() {
    assert_eq!(ParseError::InvalidToken { at: 12 }.message(), "Invalid token at character 12");
    assert_eq!(ParseError::ExpectedOpen { at: 0 }.message(), "Expected `(` at token 0");
    assert_eq!(ParseError::ExpectedClose { at: 3 }.message(), "Expected `)` at token 3");
    assert_eq!(ParseError::ExpectedSquare { at: 4 }.message(), "Expected `[` at token 4");
    assert_eq!(ParseError::ExpectedSlash { at: 5 }.message(), "Expected `/` at token 5");
    assert_eq!(
        ParseError::ExpectedIdentifier { at: 6 }.message(),
        "Expected identifier at token 6"
    );
    assert_eq!(
        ParseError::ExpectedKeyword { at: 7 }.message(),
        "Expected another identifier at token 7"
    );
    assert_eq!(ParseError::UnexpectedToken { at: 100 }.message(), "Unexpected token at token 100");
    assert_eq!(ParseError::UnknownLiteral { at: 9 }.message(), "Unknown literal at token 9");
    assert_eq!(ParseError::IntegerOverflow { at: 10 }.message(), "Integer overflow at token 10");
    assert_eq!(ParseError::IntegerOverflow { at: 10 }.at(), 10);
}

#[test]
fn cursor_peeks_and_takes() {
    let mut parser = Parser::new_from_source("( x");
    assert!(matches!(parser.peek(), Token::Paren(StartOrEnd::Start)));
    assert!(matches!(parser.peek1(), Token::Ident(_)));
    assert!(matches!(parser.next(), Token::Paren(StartOrEnd::Start)));
    assert!(matches!(parser.peek1(), Token::EOF));
    match parser.next() {
        Token::Ident(name) => assert_eq!(name, "x"),
        other => panic!("{:?}", other),
    }
    assert_eq!(parser.pos, 2);
    assert!(matches!(parser.peek(), Token::EOF));
    assert!(matches!(parser.next(), Token::EOF));
    assert_eq!(parser.pos, 2);
}

#[test]
fn cursor_matches_a_given_token() {
    let mut parser = Parser::new_from_source("/ [ a");
    assert!(!parser.try_match_token(&Token::Square(StartOrEnd::Start)));
    assert_eq!(parser.pos, 0);
    assert!(parser.try_match_token(&Token::Slash));
    assert_eq!(parser.pos, 1);
    assert!(parser.match_token(&Token::Square(StartOrEnd::Start)).is_ok());
    assert_eq!(parser.pos, 2);
    assert_eq!(
        parser.match_token(&Token::Ident("b".to_string())),
        Err(ParseError::UnexpectedToken { at: 2 })
    );
    assert_eq!(parser.pos, 2);
    assert!(parser.match_token(&Token::Ident("a".to_string())).is_ok());
    assert!(parser.try_match_token(&Token::EOF));
    assert_eq!(parser.pos, 3);
}

#[test]
fn tokens_copy_and_compare() {
    let a = Token::Number("12".to_string());
    assert!(a.same(&a.copy()));
    assert!(!a.same(&Token::Ident("12".to_string())));
    assert!(!a.same(&Token::Number("13".to_string())));
    assert!(Token::Paren(StartOrEnd::End).same(&Token::Paren(StartOrEnd::End)));
    assert!(!Token::Paren(StartOrEnd::End).same(&Token::Square(StartOrEnd::End)));
}

#[test]
fn field_forms_parse_on_request() {
    let mut parser = Parser::new_from_source("(field name rec) (setf rec / name 1)");
    assert_eq!(
        format!("{:?}", parser.parse_field()),
        "Ok(GetField { data: GetVar(\"rec\"), field: \"name\" })"
    );
    assert_eq!(parser.pos, 4);
    assert!(matches!(parser.next(), Token::Paren(StartOrEnd::End)));
    assert_eq!(
        format!("{:?}", parser.parse_setf()),
        "Ok(SetField { lhs: GetVar(\"rec\"), field: \"name\", data: Number(1) })"
    );
    assert_eq!(parser.pos, 12);
}

#[test]
fn field_forms_fail_where_a_token_is_missing() {
    assert_eq!(
        Parser::new_from_source("(setf rec name 1)").parse_setf(),
        Err(ParseError::ExpectedSlash { at: 3 })
    );
    assert_eq!(
        Parser::new_from_source("(set rec / name 1)").parse_setf(),
        Err(ParseError::ExpectedKeyword { at: 1 })
    );
    assert_eq!(
        Parser::new_from_source("field name rec").parse_field(),
        Err(ParseError::ExpectedOpen { at: 0 })
    );
    assert_eq!(
        Parser::new_from_source("(field 1 rec)").parse_field(),
        Err(ParseError::ExpectedIdentifier { at: 2 })
    );
}

#[test]
fn field_forms_are_calls_to_the_evaluating_parser() {
    assert_eq!(
        format!("{:?}", Parser::new_from_source("(field name rec)").parse()),
        "Ok([Call { to_call: GetVar(\"field\"), args: [GetVar(\"name\"), GetVar(\"rec\")] }])"
    );
}
