use contlang::ast::Expr;
use contlang::lexer::{tokenize, ParseError, StartOrEnd, Token};
use contlang::parser::Parser;

fn tokens_of(source: &str) -> String {
    format!("{:?}", tokenize(source))
}

fn tree_of(source: &str) -> String {
    format!("{:?}", Parser::new_from_source(source).parse())
}

#[test]
fn tokens_of_each_kind() {
    assert_eq!(
        tokens_of("(foo_1 [12_3] #t \"a b\" / )"),
        "Ok([Paren(Start), Ident(\"foo_1\"), Square(Start), Number(\"12_3\"), Square(End), \
         HashLit(\"t\"), String(\"\\\"a b\\\"\"), Slash, Paren(End)])"
    );
}

#[test]
fn tokens_take_the_longest_match() {
    assert_eq!(tokens_of("abc123"), "Ok([Ident(\"abc123\")])");
    assert_eq!(tokens_of("123abc"), "Ok([Number(\"123\"), Ident(\"abc\")])");
    assert_eq!(tokens_of("_x"), "Ok([Ident(\"_x\")])");
    assert_eq!(tokens_of("1_"), "Ok([Number(\"1_\")])");
    assert_eq!(tokens_of("#tf1"), "Ok([HashLit(\"tf\"), Number(\"1\")])");
    assert_eq!(tokens_of("a(b)c"), "Ok([Ident(\"a\"), Paren(Start), Ident(\"b\"), Paren(End), Ident(\"c\")])");
}

#[test]
fn blanks_separate_tokens() {
    assert_eq!(tokens_of(""), "Ok([])");
    assert_eq!(tokens_of(" \t\r\n"), "Ok([])");
    assert_eq!(tokens_of("a\tb\nc\r\nd"), "Ok([Ident(\"a\"), Ident(\"b\"), Ident(\"c\"), Ident(\"d\")])");
}

#[test]
fn text_literal_holds_any_character_but_a_quote() {
    assert_eq!(tokens_of("\"\""), "Ok([String(\"\\\"\\\"\")])");
    assert_eq!(
        tokenize("\"h\u{e9} (l\nl) #o\"").unwrap().len(),
        1
    );
    match &tokenize("\"h\u{e9}\n\"").unwrap()[0] {
        Token::String(s) => assert_eq!(s, "\"h\u{e9}\n\""),
        other => panic!("{:?}", other),
    }
}

#[test]
fn invalid_characters_fail_with_their_position() {
    assert_eq!(tokenize("ab $").unwrap_err(), ParseError::InvalidToken { at: 3 });
    assert_eq!(tokenize("# t").unwrap_err(), ParseError::InvalidToken { at: 0 });
    assert_eq!(tokenize("(a #1)").unwrap_err(), ParseError::InvalidToken { at: 3 });
    assert_eq!(tokenize("x \"open").unwrap_err(), ParseError::InvalidToken { at: 2 });
    assert_eq!(tokenize("\u{e9}").unwrap_err(), ParseError::InvalidToken { at: 0 });
    assert_eq!(tokenize("a-b").unwrap_err(), ParseError::InvalidToken { at: 1 });
}

#[test]
fn token_values_can_be_matched() {
    let tokens = tokenize("( ]").unwrap();
    assert!(matches!(tokens[0], Token::Paren(StartOrEnd::Start)));
    assert!(matches!(tokens[1], Token::Square(StartOrEnd::End)));
}

#[test]
fn literals_parse() {
    assert_eq!(tree_of("#t #f #n"), "Ok([Bool(true), Bool(false), Nil])");
    assert_eq!(tree_of("42 x \"hi\""), "Ok([Number(42), GetVar(\"x\"), String(\"hi\")])");
    assert_eq!(tree_of("\"\""), "Ok([String(\"\")])");
    assert_eq!(tree_of(""), "Ok([])");
}

#[test]
fn numbers_allow_separators() {
    assert_eq!(tree_of("1_000_000"), "Ok([Number(1000000)])");
    assert_eq!(tree_of("0_"), "Ok([Number(0)])");
    assert_eq!(tree_of("007"), "Ok([Number(7)])");
    assert_eq!(tree_of("9223372036854775807"), "Ok([Number(9223372036854775807)])");
    assert_eq!(tree_of("0000000000000000000000012"), "Ok([Number(12)])");
}

#[test]
fn number_overflow_is_a_failure() {
    assert_eq!(tree_of("9223372036854775808"), "Err(IntegerOverflow { at: 0 })");
    assert_eq!(tree_of("1 99999999999999999999"), "Err(IntegerOverflow { at: 1 })");
    assert_eq!(tree_of("(add 1 18446744073709551616)"), "Err(IntegerOverflow { at: 3 })");
}

#[test]
fn unknown_hash_literal_is_a_failure() {
    assert_eq!(tree_of("#x"), "Err(UnknownLiteral { at: 0 })");
    assert_eq!(tree_of("#tt"), "Err(UnknownLiteral { at: 0 })");
    assert_eq!(tree_of("#T"), "Err(UnknownLiteral { at: 0 })");
}

#[test]
fn forms_parse() {
    assert_eq!(
        tree_of("(defCont f [a b] a (g b))"),
        "Ok([DefCont { name: \"f\", params: [\"a\", \"b\"], body: [GetVar(\"a\"), \
         Call { to_call: GetVar(\"g\"), args: [GetVar(\"b\")] }] }])"
    );
    assert_eq!(
        tree_of("(letcc k 5)"),
        "Ok([LetCC { var: \"k\", body: Number(5) }])"
    );
    assert_eq!(
        tree_of("(apply k 1 2)"),
        "Ok([Apply { lhs: GetVar(\"k\"), args: [Number(1), Number(2)] }])"
    );
    assert_eq!(tree_of("(set x 1)"), "Ok([SetVar(\"x\", Number(1))])");
    assert_eq!(tree_of("(begin)"), "Ok([Begin([])])");
    assert_eq!(tree_of("(begin 1 #n)"), "Ok([Begin([Number(1), Nil])])");
    assert_eq!(
        tree_of("(if a b)"),
        "Ok([IfElse { cond: GetVar(\"a\"), expr: GetVar(\"b\"), default: None }])"
    );
    assert_eq!(
        tree_of("(if a b c)"),
        "Ok([IfElse { cond: GetVar(\"a\"), expr: GetVar(\"b\"), default: Some(GetVar(\"c\")) }])"
    );
    assert_eq!(tree_of("(f)"), "Ok([Call { to_call: GetVar(\"f\"), args: [] }])");
    assert_eq!(
        tree_of("((f 1) 2)"),
        "Ok([Call { to_call: Call { to_call: GetVar(\"f\"), args: [Number(1)] }, args: [Number(2)] }])"
    );
}

#[test]
fn keywords_only_count_after_a_bracket() {
    assert_eq!(tree_of("if"), "Ok([GetVar(\"if\")])");
    assert_eq!(tree_of("(f begin)"), "Ok([Call { to_call: GetVar(\"f\"), args: [GetVar(\"begin\")] }])");
    assert_eq!(tree_of("(iff 1)"), "Ok([Call { to_call: GetVar(\"iff\"), args: [Number(1)] }])");
}

#[test]
fn several_top_level_expressions() {
    assert_eq!(
        tree_of("(defCont a [] 1)\n(defCont main [] (a))"),
        "Ok([DefCont { name: \"a\", params: [], body: [Number(1)] }, DefCont { name: \"main\", \
         params: [], body: [Call { to_call: GetVar(\"a\"), args: [] }] }])"
    );
}

#[test]
fn unclosed_forms_fail_at_the_end() {
    assert_eq!(tree_of("(begin 1"), "Err(UnexpectedToken { at: 3 })");
    assert_eq!(tree_of("(f"), "Err(UnexpectedToken { at: 2 })");
    assert_eq!(tree_of("("), "Err(UnexpectedToken { at: 1 })");
    assert_eq!(tree_of("(letcc k 1"), "Err(ExpectedClose { at: 4 })");
    assert_eq!(tree_of("(set x 1 2)"), "Err(ExpectedClose { at: 4 })");
    assert_eq!(tree_of("(if a b c d)"), "Err(ExpectedClose { at: 5 })");
}

#[test]
fn misplaced_tokens_fail_where_they_stand() {
    assert_eq!(tree_of(")"), "Err(UnexpectedToken { at: 0 })");
    assert_eq!(tree_of("1 ]"), "Err(UnexpectedToken { at: 1 })");
    assert_eq!(tree_of("/"), "Err(UnexpectedToken { at: 0 })");
    assert_eq!(tree_of("(set 1 2)"), "Err(ExpectedIdentifier { at: 2 })");
    assert_eq!(tree_of("(letcc (k) 1)"), "Err(ExpectedIdentifier { at: 2 })");
    assert_eq!(tree_of("(defCont f (a) 1)"), "Err(ExpectedSquare { at: 3 })");
    assert_eq!(tree_of("(defCont f [a 1] 1)"), "Err(UnexpectedToken { at: 5 })");
    assert_eq!(tree_of("(defCont f [a"), "Err(UnexpectedToken { at: 5 })");
    assert_eq!(tree_of("(defCont [a] 1)"), "Err(ExpectedIdentifier { at: 2 })");
}

#[test]
fn unreadable_source_fails_every_parse() {
    assert_eq!(tree_of("(f 1) $"), "Err(InvalidToken { at: 6 })");
    let mut parser = Parser::new_from_source("1 ?");
    assert_eq!(parser.failed, Some(ParseError::InvalidToken { at: 2 }));
    assert!(matches!(parser.parse_expr(), Err(ParseError::InvalidToken { at: 2 })));
    assert!(matches!(parser.parse(), Err(ParseError::InvalidToken { at: 2 })));
}

#[test]
fn parse_expr_reads_one_expression_at_a_time() {
    let mut parser = Parser::new_from_source("(add 1 2) x");
    assert_eq!(parser.pos, 0);
    assert!(matches!(parser.parse_expr(), Ok(Expr::Call { .. })));
    assert_eq!(parser.pos, 5);
    assert!(matches!(parser.parse_expr(), Ok(Expr::GetVar(_))));
    assert_eq!(parser.pos, 6);
    assert!(matches!(parser.parse_expr(), Err(ParseError::UnexpectedToken { at: 6 })));
    let mut rest = Parser::new_from_source("1 2 3");
    assert!(matches!(rest.parse_expr(), Ok(Expr::Number(1))));
    assert_eq!(format!("{:?}", rest.parse()), "Ok([Number(2), Number(3)])");
}

#[test]
fn literal_reader_reads_one_token() {
    assert_eq!(Parser::new_from_source("1_000").parse_lit(), Ok(Expr::Number(1000)));
    assert_eq!(
        Parser::new_from_source("9223372036854775808").parse_lit(),
        Err(ParseError::IntegerOverflow { at: 0 })
    );
    assert_eq!(Parser::new_from_source("\"a\"").parse_lit(), Ok(Expr::String("a".to_string())));
    assert_eq!(Parser::new_from_source("#n").parse_lit(), Ok(Expr::Nil));
    assert_eq!(Parser::new_from_source("v").parse_lit(), Ok(Expr::GetVar("v".to_string())));
    assert_eq!(
        Parser::new_from_source("(v)").parse_lit(),
        Err(ParseError::UnexpectedToken { at: 0 })
    );
    assert_eq!(Parser::new_from_source("").parse_lit(), Err(ParseError::UnexpectedToken { at: 0 }));
}

#[test]
fn forms_can_be_read_one_by_one() {
    let mut parser = Parser::new_from_source("(begin 1) (if a b) x)");
    assert_eq!(parser.parse_begin(), Ok(Expr::Begin(vec![Expr::Number(1)])));
    assert!(matches!(parser.parse_if(), Ok(Expr::IfElse { default: None, .. })));
    assert_eq!(parser.parse_end_list(), Ok(vec![Expr::GetVar("x".to_string())]));
    assert_eq!(parser.pos, parser.tokens.len());
    let mut parser = Parser::new_from_source("(letcc k 1)");
    assert_eq!(parser.parse_begin(), Err(ParseError::ExpectedKeyword { at: 1 }));
    let mut parser = Parser::new_from_source("name )");
    assert_eq!(parser.ident(), Ok("name".to_string()));
    assert_eq!(parser.paren_start(), Err(ParseError::ExpectedOpen { at: 1 }));
    assert!(parser.try_paren_end());
    assert_eq!(parser.paren_end(), Err(ParseError::ExpectedClose { at: 2 }));
    assert_eq!(parser.match_ident("x"), Err(ParseError::ExpectedIdentifier { at: 2 }));
}
