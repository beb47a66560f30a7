//! The grammar: which tree a sequence of tokens stands for.
//!
//! Positions count tokens. A function that reads a form hands back the tree
//! and the position after the form.

use vstd::prelude::*;
use crate::ast::{ExprView, Text};
use crate::lexer::{ParseError, StartOrEnd, TokenView};

verus! {

/// A tree, or a list of trees, with the position after it.
pub type Parsed<T> = Result<(T, int), ParseError>;

/// The token at `pos`, the end of the source where the tokens are over.
pub open spec fn token_or_eof(ts: Seq<TokenView>, pos: int) -> TokenView {
    if 0 <= pos < ts.len() {
        ts[pos]
    } else {
        TokenView::EOF
    }
}

/// The position `next` reached by reading a form that began at `pos`.
/// Reading a form always ends after `pos` and within the tokens; for any
/// other `next` this is the end of the tokens.
pub open spec fn forward(ts: Seq<TokenView>, pos: int, next: int) -> int {
    if pos < next <= ts.len() {
        next
    } else {
        ts.len() as int
    }
}

/// The value of a number token: its digits in decimal, other characters
/// passed over.
pub open spec fn number_value(text: Text) -> nat
    decreases text.len(),
{
    if text.len() == 0 {
        0
    } else {
        let c = text.last();
        if '0' <= c && c <= '9' {
            (10 * number_value(text.drop_last()) + (c as u32 - '0' as u32)) as nat
        } else {
            number_value(text.drop_last())
        }
    }
}

/// `(` at `pos`.
pub open spec fn open_at(ts: Seq<TokenView>, pos: int) -> Result<int, ParseError> {
    if token_or_eof(ts, pos) == TokenView::Paren(StartOrEnd::Start) {
        Ok(pos + 1)
    } else {
        Err(ParseError::ExpectedOpen { at: pos as usize })
    }
}

/// `)` at `pos`.
pub open spec fn close_at(ts: Seq<TokenView>, pos: int) -> Result<int, ParseError> {
    if token_or_eof(ts, pos) == TokenView::Paren(StartOrEnd::End) {
        Ok(pos + 1)
    } else {
        Err(ParseError::ExpectedClose { at: pos as usize })
    }
}

/// A name at `pos`.
pub open spec fn ident_at(ts: Seq<TokenView>, pos: int) -> Parsed<Text> {
    match token_or_eof(ts, pos) {
        TokenView::Ident(name) => Ok((name, pos + 1)),
        _ => Err(ParseError::ExpectedIdentifier { at: pos as usize }),
    }
}

/// The keyword `word` at `pos`.
pub open spec fn keyword_at(ts: Seq<TokenView>, pos: int, word: Text) -> Result<int, ParseError> {
    match token_or_eof(ts, pos) {
        TokenView::Ident(name) => if name == word {
            Ok(pos + 1)
        } else {
            Err(ParseError::ExpectedKeyword { at: pos as usize })
        },
        _ => Err(ParseError::ExpectedIdentifier { at: pos as usize }),
    }
}

/// `(` and the keyword `word` from `pos` on.
pub open spec fn head_at(ts: Seq<TokenView>, pos: int, word: Text) -> Result<int, ParseError> {
    match open_at(ts, pos) {
        Ok(next) => keyword_at(ts, next, word),
        Err(e) => Err(e),
    }
}

/// The parameter names from `pos` on, after those in `acc`, up to `]`.
pub open spec fn params_spec(ts: Seq<TokenView>, pos: int, acc: Seq<Text>) -> Parsed<Seq<Text>>
    decreases ts.len() - pos,
{
    if pos < 0 || pos >= ts.len() {
        Err(ParseError::UnexpectedToken { at: pos as usize })
    } else {
        match ts[pos] {
            TokenView::Ident(name) => params_spec(ts, pos + 1, acc.push(name)),
            TokenView::Square(StartOrEnd::End) => Ok((acc, pos + 1)),
            _ => Err(ParseError::UnexpectedToken { at: pos as usize }),
        }
    }
}

/// A literal or a variable at `pos`.
pub open spec fn parse_lit_spec(ts: Seq<TokenView>, pos: int) -> Parsed<ExprView> {
    match token_or_eof(ts, pos) {
        TokenView::HashLit(lit) => if lit == seq!['t'] {
            Ok((ExprView::Bool(true), pos + 1))
        } else if lit == seq!['f'] {
            Ok((ExprView::Bool(false), pos + 1))
        } else if lit == seq!['n'] {
            Ok((ExprView::Nil, pos + 1))
        } else {
            Err(ParseError::UnknownLiteral { at: pos as usize })
        },
        TokenView::String(text) => if text.len() >= 2 {
            Ok((ExprView::String(text.subrange(1, text.len() - 1)), pos + 1))
        } else {
            Err(ParseError::UnexpectedToken { at: pos as usize })
        },
        TokenView::Number(text) => if number_value(text) <= i64::MAX {
            Ok((ExprView::Number(number_value(text) as i64), pos + 1))
        } else {
            Err(ParseError::IntegerOverflow { at: pos as usize })
        },
        TokenView::Ident(name) => Ok((ExprView::GetVar(name), pos + 1)),
        _ => Err(ParseError::UnexpectedToken { at: pos as usize }),
    }
}

/// The expressions from `pos` on, after those in `acc`, up to the `)` that
/// closes the list.
pub open spec fn parse_end_list_spec(ts: Seq<TokenView>, pos: int, acc: Seq<ExprView>) -> Parsed<
    Seq<ExprView>,
>
    decreases ts.len() - pos, 2int,
{
    if pos < 0 || pos >= ts.len() {
        Err(ParseError::UnexpectedToken { at: pos as usize })
    } else if ts[pos] == TokenView::Paren(StartOrEnd::End) {
        Ok((acc, pos + 1))
    } else {
        match parse_expr_spec(ts, pos) {
            Err(e) => Err(e),
            Ok((e, next)) => parse_end_list_spec(ts, forward(ts, pos, next), acc.push(e)),
        }
    }
}

/// The expression at `pos`: a form in brackets, chosen by the keyword after
/// the bracket, a call where there is none, or else a literal or a variable.
pub open spec fn parse_expr_spec(ts: Seq<TokenView>, pos: int) -> Parsed<ExprView>
    decreases ts.len() - pos, 1int,
{
    if token_or_eof(ts, pos) == TokenView::Paren(StartOrEnd::Start) {
        match token_or_eof(ts, pos + 1) {
            TokenView::Ident(word) => if word == "defCont"@ {
                parse_def_cont_spec(ts, pos)
            } else if word == "letcc"@ {
                parse_letcc_spec(ts, pos)
            } else if word == "apply"@ {
                parse_apply_spec(ts, pos)
            } else if word == "set"@ {
                parse_set_spec(ts, pos)
            } else if word == "begin"@ {
                parse_begin_spec(ts, pos)
            } else if word == "if"@ {
                parse_if_spec(ts, pos)
            } else {
                parse_call_spec(ts, pos)
            },
            _ => parse_call_spec(ts, pos),
        }
    } else {
        parse_lit_spec(ts, pos)
    }
}

/// `(defCont name [params] body...)` at `pos`.
pub open spec fn parse_def_cont_spec(ts: Seq<TokenView>, pos: int) -> Parsed<ExprView>
    decreases ts.len() - pos, 0int,
{
    match head_at(ts, pos, "defCont"@) {
        Err(e) => Err(e),
        Ok(p) => match ident_at(ts, p) {
            Err(e) => Err(e),
            Ok((name, p)) => if token_or_eof(ts, p) != TokenView::Square(StartOrEnd::Start) {
                Err(ParseError::ExpectedSquare { at: p as usize })
            } else {
                match params_spec(ts, p + 1, Seq::empty()) {
                    Err(e) => Err(e),
                    Ok((params, p)) => match parse_end_list_spec(
                        ts,
                        forward(ts, pos, p),
                        Seq::empty(),
                    ) {
                        Err(e) => Err(e),
                        Ok((body, end)) => Ok((ExprView::DefCont { name, params, body }, end)),
                    },
                }
            },
        },
    }
}

/// `(letcc name body)` at `pos`.
pub open spec fn parse_letcc_spec(ts: Seq<TokenView>, pos: int) -> Parsed<ExprView>
    decreases ts.len() - pos, 0int,
{
    match head_at(ts, pos, "letcc"@) {
        Err(e) => Err(e),
        Ok(p) => match ident_at(ts, p) {
            Err(e) => Err(e),
            Ok((var, p)) => match parse_expr_spec(ts, forward(ts, pos, p)) {
                Err(e) => Err(e),
                Ok((body, p)) => match close_at(ts, p) {
                    Err(e) => Err(e),
                    Ok(end) => Ok((ExprView::LetCC { var, body: Box::new(body) }, end)),
                },
            },
        },
    }
}

/// `(apply target args...)` at `pos`.
pub open spec fn parse_apply_spec(ts: Seq<TokenView>, pos: int) -> Parsed<ExprView>
    decreases ts.len() - pos, 0int,
{
    match head_at(ts, pos, "apply"@) {
        Err(e) => Err(e),
        Ok(p) => match parse_expr_spec(ts, forward(ts, pos, p)) {
            Err(e) => Err(e),
            Ok((lhs, next)) => match parse_end_list_spec(
                ts,
                forward(ts, pos, next),
                Seq::empty(),
            ) {
                Err(e) => Err(e),
                Ok((args, end)) => Ok((ExprView::Apply { lhs: Box::new(lhs), args }, end)),
            },
        },
    }
}

/// `(set name value)` at `pos`.
pub open spec fn parse_set_spec(ts: Seq<TokenView>, pos: int) -> Parsed<ExprView>
    decreases ts.len() - pos, 0int,
{
    match head_at(ts, pos, "set"@) {
        Err(e) => Err(e),
        Ok(p) => match ident_at(ts, p) {
            Err(e) => Err(e),
            Ok((name, p)) => match parse_expr_spec(ts, forward(ts, pos, p)) {
                Err(e) => Err(e),
                Ok((data, p)) => match close_at(ts, p) {
                    Err(e) => Err(e),
                    Ok(end) => Ok((ExprView::SetVar(name, Box::new(data)), end)),
                },
            },
        },
    }
}

/// `(begin exprs...)` at `pos`.
pub open spec fn parse_begin_spec(ts: Seq<TokenView>, pos: int) -> Parsed<ExprView>
    decreases ts.len() - pos, 0int,
{
    match head_at(ts, pos, "begin"@) {
        Err(e) => Err(e),
        Ok(p) => match parse_end_list_spec(ts, forward(ts, pos, p), Seq::empty()) {
            Err(e) => Err(e),
            Ok((exprs, end)) => Ok((ExprView::Begin(exprs), end)),
        },
    }
}

/// `(if cond then)` or `(if cond then else)` at `pos`.
pub open spec fn parse_if_spec(ts: Seq<TokenView>, pos: int) -> Parsed<ExprView>
    decreases ts.len() - pos, 0int,
{
    match head_at(ts, pos, "if"@) {
        Err(e) => Err(e),
        Ok(p) => match parse_expr_spec(ts, forward(ts, pos, p)) {
            Err(e) => Err(e),
            Ok((cond, p)) => match parse_expr_spec(ts, forward(ts, pos, p)) {
                Err(e) => Err(e),
                Ok((expr, p)) => if token_or_eof(ts, p) == TokenView::Paren(StartOrEnd::End) {
                    Ok(
                        (
                            ExprView::IfElse {
                                cond: Box::new(cond),
                                expr: Box::new(expr),
                                default: None,
                            },
                            p + 1,
                        ),
                    )
                } else {
                    match parse_expr_spec(ts, forward(ts, pos, p)) {
                        Err(e) => Err(e),
                        Ok((default, p)) => match close_at(ts, p) {
                            Err(e) => Err(e),
                            Ok(end) => Ok(
                                (
                                    ExprView::IfElse {
                                        cond: Box::new(cond),
                                        expr: Box::new(expr),
                                        default: Some(Box::new(default)),
                                    },
                                    end,
                                ),
                            ),
                        },
                    }
                },
            },
        },
    }
}

/// `(target args...)` at `pos`.
pub open spec fn parse_call_spec(ts: Seq<TokenView>, pos: int) -> Parsed<ExprView>
    decreases ts.len() - pos, 0int,
{
    match open_at(ts, pos) {
        Err(e) => Err(e),
        Ok(p) => match parse_expr_spec(ts, forward(ts, pos, p)) {
            Err(e) => Err(e),
            Ok((to_call, next)) => match parse_end_list_spec(
                ts,
                forward(ts, pos, next),
                Seq::empty(),
            ) {
                Err(e) => Err(e),
                Ok((args, end)) => Ok((ExprView::Call { to_call: Box::new(to_call), args }, end)),
            },
        },
    }
}

/// The expressions from `pos` on, after those in `acc`, up to the end of
/// the source.
pub open spec fn parse_all_spec(ts: Seq<TokenView>, pos: int, acc: Seq<ExprView>) -> Result<
    Seq<ExprView>,
    ParseError,
>
    decreases ts.len() - pos,
{
    if token_or_eof(ts, pos) == TokenView::EOF {
        Ok(acc)
    } else {
        match parse_expr_spec(ts, pos) {
            Err(e) => Err(e),
            Ok((e, next)) => parse_all_spec(ts, forward(ts, pos, next), acc.push(e)),
        }
    }
}

/// `(field name record` at `pos`: a field read, whose closing bracket is
/// left to the caller.
pub open spec fn parse_field_spec(ts: Seq<TokenView>, pos: int) -> Parsed<ExprView> {
    match head_at(ts, pos, "field"@) {
        Err(e) => Err(e),
        Ok(p) => match ident_at(ts, p) {
            Err(e) => Err(e),
            Ok((field, p)) => match parse_expr_spec(ts, p) {
                Err(e) => Err(e),
                Ok((data, end)) => Ok((ExprView::GetField { data: Box::new(data), field }, end)),
            },
        },
    }
}

/// `(setf record / name value)` at `pos`: a field write.
pub open spec fn parse_setf_spec(ts: Seq<TokenView>, pos: int) -> Parsed<ExprView> {
    match head_at(ts, pos, "setf"@) {
        Err(e) => Err(e),
        Ok(p) => match parse_expr_spec(ts, p) {
            Err(e) => Err(e),
            Ok((lhs, p)) => if token_or_eof(ts, p) != TokenView::Slash {
                Err(ParseError::ExpectedSlash { at: p as usize })
            } else {
                match ident_at(ts, p + 1) {
                    Err(e) => Err(e),
                    Ok((field, p)) => match parse_expr_spec(ts, p) {
                        Err(e) => Err(e),
                        Ok((data, p)) => match close_at(ts, p) {
                            Err(e) => Err(e),
                            Ok(end) => Ok(
                                (
                                    ExprView::SetField {
                                        lhs: Box::new(lhs),
                                        field,
                                        data: Box::new(data),
                                    },
                                    end,
                                ),
                            ),
                        },
                    },
                }
            },
        },
    }
}

/// Whether a result, where it is a success, ends after `pos` and within
/// the tokens.
pub open spec fn advances<T>(ts: Seq<TokenView>, pos: int, r: Parsed<T>) -> bool {
    r matches Ok((_, next)) ==> pos < next <= ts.len()
}

/// Parameter names end after where they began, within the tokens.
pub proof fn lemma_params_advance(ts: Seq<TokenView>, pos: int, acc: Seq<Text>)
    ensures
        advances(ts, pos, params_spec(ts, pos, acc)),
    decreases ts.len() - pos,
{
    if 0 <= pos < ts.len() {
        if let TokenView::Ident(name) = ts[pos] {
            lemma_params_advance(ts, pos + 1, acc.push(name));
        }
    }
}

/// A list of expressions ends after where it began, within the tokens.
pub proof fn lemma_end_list_advances(ts: Seq<TokenView>, pos: int, acc: Seq<ExprView>)
    ensures
        advances(ts, pos, parse_end_list_spec(ts, pos, acc)),
    decreases ts.len() - pos, 2int,
{
    if 0 <= pos < ts.len() && ts[pos] != TokenView::Paren(StartOrEnd::End) {
        lemma_expr_advances(ts, pos);
        if let Ok((e, next)) = parse_expr_spec(ts, pos) {
            lemma_end_list_advances(ts, next, acc.push(e));
        }
    }
}

/// An expression ends after where it began, within the tokens: reading
/// never stands still and never runs past the end. So `forward` changes no
/// position that a successful parse hands to it.
pub proof fn lemma_expr_advances(ts: Seq<TokenView>, pos: int)
    ensures
        advances(ts, pos, parse_expr_spec(ts, pos)),
    decreases ts.len() - pos, 1int,
{
    if token_or_eof(ts, pos) == TokenView::Paren(StartOrEnd::Start) {
        lemma_def_cont_advances(ts, pos);
        lemma_letcc_advances(ts, pos);
        lemma_apply_advances(ts, pos);
        lemma_set_advances(ts, pos);
        lemma_begin_advances(ts, pos);
        lemma_if_advances(ts, pos);
        lemma_call_advances(ts, pos);
    }
}

/// A definition ends after where it began, within the tokens.
pub proof fn lemma_def_cont_advances(ts: Seq<TokenView>, pos: int)
    ensures
        advances(ts, pos, parse_def_cont_spec(ts, pos)),
    decreases ts.len() - pos, 0int,
{
    if let Ok(p) = head_at(ts, pos, "defCont"@) {
        if let Ok((name, p)) = ident_at(ts, p) {
            if token_or_eof(ts, p) == TokenView::Square(StartOrEnd::Start) {
                lemma_params_advance(ts, p + 1, Seq::empty());
                if let Ok((params, p)) = params_spec(ts, p + 1, Seq::empty()) {
                    lemma_end_list_advances(ts, p, Seq::empty());
                }
            }
        }
    }
}

/// An escape binding ends after where it began, within the tokens.
pub proof fn lemma_letcc_advances(ts: Seq<TokenView>, pos: int)
    ensures
        advances(ts, pos, parse_letcc_spec(ts, pos)),
    decreases ts.len() - pos, 0int,
{
    if let Ok(p) = head_at(ts, pos, "letcc"@) {
        if let Ok((var, p)) = ident_at(ts, p) {
            lemma_expr_advances(ts, p);
        }
    }
}

/// An `apply` ends after where it began, within the tokens.
pub proof fn lemma_apply_advances(ts: Seq<TokenView>, pos: int)
    ensures
        advances(ts, pos, parse_apply_spec(ts, pos)),
    decreases ts.len() - pos, 0int,
{
    if let Ok(p) = head_at(ts, pos, "apply"@) {
        lemma_expr_advances(ts, p);
        if let Ok((lhs, next)) = parse_expr_spec(ts, p) {
            lemma_end_list_advances(ts, next, Seq::empty());
        }
    }
}

/// A `set` ends after where it began, within the tokens.
pub proof fn lemma_set_advances(ts: Seq<TokenView>, pos: int)
    ensures
        advances(ts, pos, parse_set_spec(ts, pos)),
    decreases ts.len() - pos, 0int,
{
    if let Ok(p) = head_at(ts, pos, "set"@) {
        if let Ok((name, p)) = ident_at(ts, p) {
            lemma_expr_advances(ts, p);
        }
    }
}

/// A block ends after where it began, within the tokens.
pub proof fn lemma_begin_advances(ts: Seq<TokenView>, pos: int)
    ensures
        advances(ts, pos, parse_begin_spec(ts, pos)),
    decreases ts.len() - pos, 0int,
{
    if let Ok(p) = head_at(ts, pos, "begin"@) {
        lemma_end_list_advances(ts, p, Seq::empty());
    }
}

/// A conditional ends after where it began, within the tokens.
pub proof fn lemma_if_advances(ts: Seq<TokenView>, pos: int)
    ensures
        advances(ts, pos, parse_if_spec(ts, pos)),
    decreases ts.len() - pos, 0int,
{
    if let Ok(p) = head_at(ts, pos, "if"@) {
        lemma_expr_advances(ts, p);
        if let Ok((cond, p)) = parse_expr_spec(ts, p) {
            lemma_expr_advances(ts, p);
            if let Ok((expr, p)) = parse_expr_spec(ts, p) {
                if token_or_eof(ts, p) != TokenView::Paren(StartOrEnd::End) {
                    lemma_expr_advances(ts, p);
                }
            }
        }
    }
}

/// A call ends after where it began, within the tokens.
pub proof fn lemma_call_advances(ts: Seq<TokenView>, pos: int)
    ensures
        advances(ts, pos, parse_call_spec(ts, pos)),
    decreases ts.len() - pos, 0int,
{
    if let Ok(p) = open_at(ts, pos) {
        lemma_expr_advances(ts, p);
        if let Ok((to_call, next)) = parse_expr_spec(ts, p) {
            lemma_end_list_advances(ts, next, Seq::empty());
        }
    }
}

} // verus!
