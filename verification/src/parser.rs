//! The parser: from source text to syntax trees.

use vstd::prelude::*;
use vstd::string::*;
use crate::ast::{Expr, ExprView, Text, exprs_view, names_view};
use crate::grammar::{
    Parsed, close_at, head_at, ident_at, keyword_at, number_value, open_at, params_spec,
    parse_all_spec, parse_apply_spec, parse_begin_spec, parse_call_spec, parse_def_cont_spec,
    parse_end_list_spec, parse_expr_spec, parse_field_spec, parse_if_spec, parse_letcc_spec,
    parse_lit_spec, parse_set_spec, parse_setf_spec, token_or_eof,
};
use crate::lexer::{
    ParseError, StartOrEnd, Token, TokenView, chars_of, decimal_digit, lex_spec, text_of, tokenize,
    tokens_view,
};

verus! {

/// A parser over the tokens of one source text.
#[derive(Debug)]
pub struct Parser {
    /// The tokens of the source.
    pub tokens: Vec<Token>,
    /// The position of the next token.
    pub pos: usize,
    /// Why the source has no tokens, where it could not be read.
    pub failed: Option<ParseError>,
}

/// The model of the result of reading one tree that ended at `end`.
pub open spec fn parsed_expr(r: Result<Expr, ParseError>, end: int) -> Parsed<ExprView> {
    match r {
        Ok(e) => Ok((e@, end)),
        Err(e) => Err(e),
    }
}

/// The model of the result of reading a list of trees that ended at `end`.
pub open spec fn parsed_exprs(r: Result<Vec<Expr>, ParseError>, end: int) -> Parsed<Seq<ExprView>> {
    match r {
        Ok(es) => Ok((exprs_view(es@), end)),
        Err(e) => Err(e),
    }
}

/// The model of the result of reading a position.
pub open spec fn parsed_unit(r: Result<(), ParseError>, end: int) -> Result<int, ParseError> {
    match r {
        Ok(_) => Ok(end),
        Err(e) => Err(e),
    }
}

/// The value of a prefix of a number's text is at most that of the whole.
pub proof fn lemma_number_value_grows(text: Text, k: int)
    requires
        0 <= k <= text.len(),
    ensures
        number_value(text.take(k)) <= number_value(text),
    decreases text.len() - k,
{
    if k < text.len() {
        assert(text.take(k + 1).drop_last() =~= text.take(k));
        lemma_number_value_grows(text, k + 1);
    } else {
        assert(text.take(k) =~= text);
    }
}

/// The number that the text of a number token stands for, or `None` where
/// it does not fit in 64 bits with a sign.
pub fn number_of(text: &str) -> (r: Option<i64>)
    ensures
        match r {
            Some(n) => number_value(text@) == n,
            None => number_value(text@) > i64::MAX,
        },
{
    let chars = chars_of(text);
    let mut total: i64 = 0;
    let mut i: usize = 0;
    assert(chars@.take(0) =~= Seq::<char>::empty());
    while i < chars.len()
        invariant
            i <= chars.len(),
            chars@ == text@,
            0 <= total,
            total == number_value(chars@.take(i as int)),
        decreases chars.len() - i,
    {
        let c = chars[i];
        proof {
            assert(chars@.take(i + 1).drop_last() =~= chars@.take(i as int));
            assert(chars@.take(i + 1).last() == c);
            lemma_number_value_grows(chars@, i + 1);
        }
        if decimal_digit(c) {
            let d: i64 = (c as u32 - '0' as u32) as i64;
            match total.checked_mul(10) {
                Some(shifted) => match shifted.checked_add(d) {
                    Some(next) => {
                        total = next;
                    },
                    None => {
                        return None;
                    },
                },
                None => {
                    return None;
                },
            }
        }
        i += 1;
    }
    assert(chars@.take(chars.len() as int) =~= chars@);
    Some(total)
}

impl Parser {
    /// A parser at the start of the tokens of `source`. Where the source
    /// holds a character at which no token begins, the parser has no tokens
    /// and every parse fails with that.
    pub fn new_from_source(source: &str) -> (p: Parser)
        ensures
            p.pos == 0,
            match lex_spec(source@) {
                Ok(ts) => p.failed is None && tokens_view(p.tokens@) == ts,
                Err(e) => p.failed == Some(e) && p.tokens@.len() == 0,
            },
    {
        match tokenize(source) {
            Ok(tokens) => Parser { tokens, pos: 0, failed: None },
            Err(e) => Parser { tokens: Vec::new(), pos: 0, failed: Some(e) },
        }
    }

    /// The tokens as the grammar sees them.
    pub open spec fn ts(&self) -> Seq<TokenView> {
        tokens_view(self.tokens@)
    }

    /// Whether `after` is this parser moved on to a later position.
    pub open spec fn moved_to(&self, after: &Parser) -> bool {
        &&& after.tokens == self.tokens
        &&& after.failed == self.failed
    }

    /// Reads every expression of the source, up to its end.
    pub fn parse(&mut self) -> (r: Result<Vec<Expr>, ParseError>)
        ensures
            old(self).moved_to(final(self)),
            match old(self).failed {
                Some(e) => r == Err::<Vec<Expr>, ParseError>(e),
                None => match r {
                    Ok(es) => parse_all_spec(old(self).ts(), old(self).pos as int, Seq::empty())
                        == Ok::<Seq<ExprView>, ParseError>(exprs_view(es@)),
                    Err(e) => parse_all_spec(old(self).ts(), old(self).pos as int, Seq::empty())
                        == Err::<Seq<ExprView>, ParseError>(e),
                },
            },
    {
        if let Some(e) = self.failed {
            return Err(e);
        }
        let mut out: Vec<Expr> = Vec::new();
        assert(exprs_view(out@) =~= Seq::<ExprView>::empty());
        while !self.at_eof()
            invariant
                old(self).moved_to(self),
                self.failed is None,
                parse_all_spec(old(self).ts(), old(self).pos as int, Seq::empty())
                    == parse_all_spec(self.ts(), self.pos as int, exprs_view(out@)),
            decreases self.tokens.len() - self.pos,
        {
            let ghost before = exprs_view(out@);
            match self.parse_form() {
                Ok(e) => {
                    out.push(e);
                    assert(exprs_view(out@) =~= before.push(e@));
                },
                Err(e) => {
                    return Err(e);
                },
            }
        }
        Ok(out)
    }

    /// Reads one expression. Fails where the source could not be read, or
    /// where the tokens at the parser's position form no expression.
    pub fn parse_expr(&mut self) -> (r: Result<Expr, ParseError>)
        ensures
            old(self).moved_to(final(self)),
            match old(self).failed {
                Some(e) => r == Err::<Expr, ParseError>(e),
                None => parsed_expr(r, final(self).pos as int) == parse_expr_spec(
                    old(self).ts(),
                    old(self).pos as int,
                ),
            },
    {
        if let Some(e) = self.failed {
            return Err(e);
        }
        self.parse_form()
    }

    /// A copy of the next token, the end of the source where the tokens are
    /// over.
    pub fn peek(&self) -> (t: Token)
        ensures
            t@ == token_or_eof(self.ts(), self.pos as int),
    {
        if self.pos < self.tokens.len() {
            self.tokens[self.pos].copy()
        } else {
            Token::EOF
        }
    }

    /// A copy of the token after the next.
    pub fn peek1(&self) -> (t: Token)
        ensures
            t@ == token_or_eof(self.ts(), self.pos + 1),
    {
        if self.pos < self.tokens.len() && 1 < self.tokens.len() - self.pos {
            self.tokens[self.pos + 1].copy()
        } else {
            Token::EOF
        }
    }

    /// Takes the next token. At the end of the source the parser stays where
    /// it is.
    pub fn next(&mut self) -> (t: Token)
        ensures
            old(self).moved_to(final(self)),
            t@ == token_or_eof(old(self).ts(), old(self).pos as int),
            final(self).pos == if old(self).pos < old(self).tokens.len() {
                old(self).pos + 1
            } else {
                old(self).pos as int
            },
    {
        let t = self.peek();
        if self.pos < self.tokens.len() {
            self.pos = self.pos + 1;
        }
        t
    }

    /// Takes the next token where it is `tok`, and says whether it was.
    pub fn try_match_token(&mut self, tok: &Token) -> (r: bool)
        ensures
            old(self).moved_to(final(self)),
            r == (token_or_eof(old(self).ts(), old(self).pos as int) == tok@),
            final(self).pos == if r && old(self).pos < old(self).tokens.len() {
                old(self).pos + 1
            } else {
                old(self).pos as int
            },
    {
        if self.peek().same(tok) {
            if self.pos < self.tokens.len() {
                self.pos = self.pos + 1;
            }
            true
        } else {
            false
        }
    }

    /// Takes the next token, which has to be `tok`.
    pub fn match_token(&mut self, tok: &Token) -> (r: Result<(), ParseError>)
        ensures
            old(self).moved_to(final(self)),
            r is Ok <==> token_or_eof(old(self).ts(), old(self).pos as int) == tok@,
            r matches Err(e) ==> e == (ParseError::UnexpectedToken { at: old(self).pos }),
            final(self).pos == if r is Ok && old(self).pos < old(self).tokens.len() {
                old(self).pos + 1
            } else {
                old(self).pos as int
            },
    {
        let at = self.pos;
        if self.try_match_token(tok) {
            Ok(())
        } else {
            Err(ParseError::UnexpectedToken { at })
        }
    }

    /// Reads `(field name record`, a field read; the closing bracket is left.
    pub fn parse_field(&mut self) -> (r: Result<Expr, ParseError>)
        ensures
            old(self).moved_to(final(self)),
            parsed_expr(r, final(self).pos as int) == parse_field_spec(
                old(self).ts(),
                old(self).pos as int,
            ),
    {
        match self.head("field") {
            Err(e) => {
                return Err(e);
            },
            Ok(_) => {},
        }
        let field = match self.ident() {
            Err(e) => {
                return Err(e);
            },
            Ok(name) => name,
        };
        match self.parse_form() {
            Err(e) => Err(e),
            Ok(data) => Ok(Expr::GetField { data: Box::new(data), field }),
        }
    }

    /// Reads `(setf record / name value)`, a field write.
    pub fn parse_setf(&mut self) -> (r: Result<Expr, ParseError>)
        ensures
            old(self).moved_to(final(self)),
            parsed_expr(r, final(self).pos as int) == parse_setf_spec(
                old(self).ts(),
                old(self).pos as int,
            ),
    {
        match self.head("setf") {
            Err(e) => {
                return Err(e);
            },
            Ok(_) => {},
        }
        let lhs = match self.parse_form() {
            Err(e) => {
                return Err(e);
            },
            Ok(lhs) => lhs,
        };
        let at = self.pos;
        if !self.try_match_token(&Token::Slash) {
            return Err(ParseError::ExpectedSlash { at });
        }
        let field = match self.ident() {
            Err(e) => {
                return Err(e);
            },
            Ok(name) => name,
        };
        let data = match self.parse_form() {
            Err(e) => {
                return Err(e);
            },
            Ok(data) => data,
        };
        match self.paren_end() {
            Err(e) => Err(e),
            Ok(_) => Ok(Expr::SetField { lhs: Box::new(lhs), field, data: Box::new(data) }),
        }
    }

    /// Whether the tokens are over.
    fn at_eof(&self) -> (r: bool)
        ensures
            r == (token_or_eof(self.ts(), self.pos as int) == TokenView::EOF),
    {
        if self.pos < self.tokens.len() {
            match &self.tokens[self.pos] {
                Token::EOF => true,
                _ => false,
            }
        } else {
            true
        }
    }

    /// Whether the token `ahead` positions on is the bracket `(` or `)`.
    fn paren_ahead(&self, ahead: usize, which: StartOrEnd) -> (r: bool)
        requires
            ahead <= 1,
        ensures
            r == (token_or_eof(self.ts(), self.pos + ahead) == TokenView::Paren(which)),
            r ==> self.pos + ahead < self.tokens.len(),
    {
        if self.pos < self.tokens.len() && ahead < self.tokens.len() - self.pos {
            match &self.tokens[self.pos + ahead] {
                Token::Paren(p) => *p == which,
                _ => false,
            }
        } else {
            false
        }
    }

    /// Whether the token after the next is the name `word`.
    fn keyword_ahead(&self, word: &str) -> (r: bool)
        ensures
            r == (token_or_eof(self.ts(), self.pos + 1) == TokenView::Ident(word@)),
    {
        if self.pos < self.tokens.len() && 1 < self.tokens.len() - self.pos {
            match &self.tokens[self.pos + 1] {
                Token::Ident(name) => *name == String::from_str(word),
                _ => false,
            }
        } else {
            false
        }
    }

    /// Takes `(`.
    pub fn paren_start(&mut self) -> (r: Result<(), ParseError>)
        ensures
            old(self).moved_to(final(self)),
            parsed_unit(r, final(self).pos as int) == open_at(old(self).ts(), old(self).pos as int),
            r is Ok ==> old(self).pos < final(self).pos <= old(self).tokens.len(),
    {
        if self.paren_ahead(0, StartOrEnd::Start) {
            self.pos = self.pos + 1;
            Ok(())
        } else {
            Err(ParseError::ExpectedOpen { at: self.pos })
        }
    }

    /// Takes `)`.
    pub fn paren_end(&mut self) -> (r: Result<(), ParseError>)
        ensures
            old(self).moved_to(final(self)),
            parsed_unit(r, final(self).pos as int) == close_at(
                old(self).ts(),
                old(self).pos as int,
            ),
            r is Ok ==> old(self).pos < final(self).pos <= old(self).tokens.len(),
    {
        if self.paren_ahead(0, StartOrEnd::End) {
            self.pos = self.pos + 1;
            Ok(())
        } else {
            Err(ParseError::ExpectedClose { at: self.pos })
        }
    }

    /// Takes `)` where it is the next token, and says whether it was.
    pub fn try_paren_end(&mut self) -> (r: bool)
        ensures
            old(self).moved_to(final(self)),
            r == (token_or_eof(old(self).ts(), old(self).pos as int) == TokenView::Paren(
                StartOrEnd::End,
            )),
            r ==> final(self).pos == old(self).pos + 1 && final(self).pos <= old(self).tokens.len(),
            !r ==> final(self).pos == old(self).pos,
    {
        if self.paren_ahead(0, StartOrEnd::End) {
            self.pos = self.pos + 1;
            true
        } else {
            false
        }
    }

    /// Takes a name.
    pub fn ident(&mut self) -> (r: Result<String, ParseError>)
        ensures
            old(self).moved_to(final(self)),
            match r {
                Ok(name) => ident_at(old(self).ts(), old(self).pos as int) == Ok::<
                    (Text, int),
                    ParseError,
                >((name@, final(self).pos as int)) && old(self).pos < final(self).pos <= old(
                    self,
                ).tokens.len(),
                Err(e) => ident_at(old(self).ts(), old(self).pos as int) == Err::<
                    (Text, int),
                    ParseError,
                >(e),
            },
    {
        if self.pos < self.tokens.len() {
            match &self.tokens[self.pos] {
                Token::Ident(s) => {
                    let name = s.clone();
                    self.pos = self.pos + 1;
                    return Ok(name);
                },
                _ => {},
            }
        }
        Err(ParseError::ExpectedIdentifier { at: self.pos })
    }

    /// Takes the keyword `word`.
    pub fn match_ident(&mut self, word: &str) -> (r: Result<(), ParseError>)
        ensures
            old(self).moved_to(final(self)),
            parsed_unit(r, final(self).pos as int) == keyword_at(
                old(self).ts(),
                old(self).pos as int,
                word@,
            ),
            r is Ok ==> old(self).pos < final(self).pos <= old(self).tokens.len(),
    {
        if self.pos < self.tokens.len() {
            match &self.tokens[self.pos] {
                Token::Ident(s) => {
                    if *s == String::from_str(word) {
                        self.pos = self.pos + 1;
                        return Ok(());
                    } else {
                        return Err(ParseError::ExpectedKeyword { at: self.pos });
                    }
                },
                _ => {},
            }
        }
        Err(ParseError::ExpectedIdentifier { at: self.pos })
    }

    /// Takes `(` and the keyword `word`.
    fn head(&mut self, word: &str) -> (r: Result<(), ParseError>)
        ensures
            old(self).moved_to(final(self)),
            parsed_unit(r, final(self).pos as int) == head_at(
                old(self).ts(),
                old(self).pos as int,
                word@,
            ),
            r is Ok ==> old(self).pos < final(self).pos <= old(self).tokens.len(),
    {
        match self.paren_start() {
            Ok(_) => self.match_ident(word),
            Err(e) => Err(e),
        }
    }

    /// Reads a literal or a variable.
    pub fn parse_lit(&mut self) -> (r: Result<Expr, ParseError>)
        ensures
            old(self).moved_to(final(self)),
            parsed_expr(r, final(self).pos as int) == parse_lit_spec(
                old(self).ts(),
                old(self).pos as int,
            ),
            r is Ok ==> old(self).pos < final(self).pos <= old(self).tokens.len(),
    {
        let at = self.pos;
        if self.pos >= self.tokens.len() {
            return Err(ParseError::UnexpectedToken { at });
        }
        let e = match &self.tokens[self.pos] {
            Token::HashLit(lit) => {
                let chars = chars_of(lit.as_str());
                if chars.len() != 1 {
                    return Err(ParseError::UnknownLiteral { at });
                }
                assert(lit@ =~= seq![chars@[0]]);
                if chars[0] == 't' {
                    Expr::Bool(true)
                } else if chars[0] == 'f' {
                    Expr::Bool(false)
                } else if chars[0] == 'n' {
                    Expr::Nil
                } else {
                    return Err(ParseError::UnknownLiteral { at });
                }
            },
            Token::String(s) => {
                let chars = chars_of(s.as_str());
                if chars.len() < 2 {
                    return Err(ParseError::UnexpectedToken { at });
                }
                Expr::String(text_of(&chars, 1, chars.len() - 1))
            },
            Token::Number(n) => match number_of(n.as_str()) {
                Some(value) => Expr::Number(value),
                None => {
                    return Err(ParseError::IntegerOverflow { at });
                },
            },
            Token::Ident(name) => Expr::GetVar(name.clone()),
            _ => {
                return Err(ParseError::UnexpectedToken { at });
            },
        };
        self.pos = self.pos + 1;
        Ok(e)
    }

    /// Reads parameter names up to `]`.
    fn parse_params(&mut self) -> (r: Result<Vec<String>, ParseError>)
        ensures
            old(self).moved_to(final(self)),
            match r {
                Ok(names) => params_spec(old(self).ts(), old(self).pos as int, Seq::empty())
                    == Ok::<(Seq<Text>, int), ParseError>(
                    (names_view(names@), final(self).pos as int),
                ) && old(self).pos < final(self).pos <= old(self).tokens.len(),
                Err(e) => params_spec(old(self).ts(), old(self).pos as int, Seq::empty()) == Err::<
                    (Seq<Text>, int),
                    ParseError,
                >(e),
            },
    {
        let mut params: Vec<String> = Vec::new();
        assert(names_view(params@) =~= Seq::<Text>::empty());
        loop
            invariant
                old(self).moved_to(self),
                old(self).pos <= self.pos,
                params_spec(old(self).ts(), old(self).pos as int, Seq::empty()) == params_spec(
                    self.ts(),
                    self.pos as int,
                    names_view(params@),
                ),
            decreases self.tokens.len() - self.pos,
        {
            if self.pos >= self.tokens.len() {
                return Err(ParseError::UnexpectedToken { at: self.pos });
            }
            let ghost before = names_view(params@);
            match &self.tokens[self.pos] {
                Token::Ident(n) => {
                    params.push(n.clone());
                    assert(names_view(params@) =~= before.push(n@));
                    self.pos = self.pos + 1;
                },
                Token::Square(StartOrEnd::End) => {
                    self.pos = self.pos + 1;
                    return Ok(params);
                },
                _ => {
                    return Err(ParseError::UnexpectedToken { at: self.pos });
                },
            }
        }
    }

    /// Reads expressions up to the `)` that closes the list, and takes it.
    pub fn parse_end_list(&mut self) -> (r: Result<Vec<Expr>, ParseError>)
        ensures
            old(self).moved_to(final(self)),
            parsed_exprs(r, final(self).pos as int) == parse_end_list_spec(
                old(self).ts(),
                old(self).pos as int,
                Seq::empty(),
            ),
            r is Ok ==> old(self).pos < final(self).pos <= old(self).tokens.len(),
        decreases old(self).tokens.len() - old(self).pos, 2int,
    {
        let mut out: Vec<Expr> = Vec::new();
        assert(exprs_view(out@) =~= Seq::<ExprView>::empty());
        loop
            invariant
                old(self).moved_to(self),
                old(self).pos <= self.pos,
                parse_end_list_spec(old(self).ts(), old(self).pos as int, Seq::empty())
                    == parse_end_list_spec(self.ts(), self.pos as int, exprs_view(out@)),
            decreases self.tokens.len() - self.pos,
        {
            if self.pos >= self.tokens.len() {
                return Err(ParseError::UnexpectedToken { at: self.pos });
            }
            if self.try_paren_end() {
                return Ok(out);
            }
            let ghost before = exprs_view(out@);
            match self.parse_form() {
                Ok(e) => {
                    out.push(e);
                    assert(exprs_view(out@) =~= before.push(e@));
                },
                Err(e) => {
                    return Err(e);
                },
            }
        }
    }

    /// Reads the expression at the parser's position.
    fn parse_form(&mut self) -> (r: Result<Expr, ParseError>)
        ensures
            old(self).moved_to(final(self)),
            parsed_expr(r, final(self).pos as int) == parse_expr_spec(
                old(self).ts(),
                old(self).pos as int,
            ),
            r is Ok ==> old(self).pos < final(self).pos <= old(self).tokens.len(),
        decreases old(self).tokens.len() - old(self).pos, 1int,
    {
        if self.paren_ahead(0, StartOrEnd::Start) {
            if self.keyword_ahead("defCont") {
                self.parse_def_cont()
            } else if self.keyword_ahead("letcc") {
                self.parse_letcc()
            } else if self.keyword_ahead("apply") {
                self.parse_apply()
            } else if self.keyword_ahead("set") {
                self.parse_set()
            } else if self.keyword_ahead("begin") {
                self.parse_begin()
            } else if self.keyword_ahead("if") {
                self.parse_if()
            } else {
                self.parse_call()
            }
        } else {
            self.parse_lit()
        }
    }

    /// Reads `(defCont name [params] body...)`.
    pub fn parse_def_cont(&mut self) -> (r: Result<Expr, ParseError>)
        ensures
            old(self).moved_to(final(self)),
            parsed_expr(r, final(self).pos as int) == parse_def_cont_spec(
                old(self).ts(),
                old(self).pos as int,
            ),
            r is Ok ==> old(self).pos < final(self).pos <= old(self).tokens.len(),
        decreases old(self).tokens.len() - old(self).pos, 0int,
    {
        match self.head("defCont") {
            Err(e) => {
                return Err(e);
            },
            Ok(_) => {},
        }
        let name = match self.ident() {
            Err(e) => {
                return Err(e);
            },
            Ok(name) => name,
        };
        if !self.square_start() {
            return Err(ParseError::ExpectedSquare { at: self.pos });
        }
        let params = match self.parse_params() {
            Err(e) => {
                return Err(e);
            },
            Ok(params) => params,
        };
        match self.parse_end_list() {
            Err(e) => Err(e),
            Ok(body) => Ok(Expr::DefCont { name, params, body }),
        }
    }

    /// Takes `[` where it is the next token, and says whether it was.
    fn square_start(&mut self) -> (r: bool)
        ensures
            old(self).moved_to(final(self)),
            r == (token_or_eof(old(self).ts(), old(self).pos as int) == TokenView::Square(
                StartOrEnd::Start,
            )),
            r ==> final(self).pos == old(self).pos + 1 && final(self).pos <= old(self).tokens.len(),
            !r ==> final(self).pos == old(self).pos,
    {
        if self.pos < self.tokens.len() {
            match &self.tokens[self.pos] {
                Token::Square(StartOrEnd::Start) => {
                    self.pos = self.pos + 1;
                    return true;
                },
                _ => {},
            }
        }
        false
    }

    /// Reads `(letcc name body)`.
    pub fn parse_letcc(&mut self) -> (r: Result<Expr, ParseError>)
        ensures
            old(self).moved_to(final(self)),
            parsed_expr(r, final(self).pos as int) == parse_letcc_spec(
                old(self).ts(),
                old(self).pos as int,
            ),
            r is Ok ==> old(self).pos < final(self).pos <= old(self).tokens.len(),
        decreases old(self).tokens.len() - old(self).pos, 0int,
    {
        match self.head("letcc") {
            Err(e) => {
                return Err(e);
            },
            Ok(_) => {},
        }
        let var = match self.ident() {
            Err(e) => {
                return Err(e);
            },
            Ok(name) => name,
        };
        let body = match self.parse_form() {
            Err(e) => {
                return Err(e);
            },
            Ok(body) => body,
        };
        match self.paren_end() {
            Err(e) => Err(e),
            Ok(_) => Ok(Expr::LetCC { var, body: Box::new(body) }),
        }
    }

    /// Reads `(apply target args...)`.
    pub fn parse_apply(&mut self) -> (r: Result<Expr, ParseError>)
        ensures
            old(self).moved_to(final(self)),
            parsed_expr(r, final(self).pos as int) == parse_apply_spec(
                old(self).ts(),
                old(self).pos as int,
            ),
            r is Ok ==> old(self).pos < final(self).pos <= old(self).tokens.len(),
        decreases old(self).tokens.len() - old(self).pos, 0int,
    {
        match self.head("apply") {
            Err(e) => {
                return Err(e);
            },
            Ok(_) => {},
        }
        let lhs = match self.parse_form() {
            Err(e) => {
                return Err(e);
            },
            Ok(lhs) => lhs,
        };
        match self.parse_end_list() {
            Err(e) => Err(e),
            Ok(args) => Ok(Expr::Apply { lhs: Box::new(lhs), args }),
        }
    }

    /// Reads `(set name value)`.
    pub fn parse_set(&mut self) -> (r: Result<Expr, ParseError>)
        ensures
            old(self).moved_to(final(self)),
            parsed_expr(r, final(self).pos as int) == parse_set_spec(
                old(self).ts(),
                old(self).pos as int,
            ),
            r is Ok ==> old(self).pos < final(self).pos <= old(self).tokens.len(),
        decreases old(self).tokens.len() - old(self).pos, 0int,
    {
        match self.head("set") {
            Err(e) => {
                return Err(e);
            },
            Ok(_) => {},
        }
        let name = match self.ident() {
            Err(e) => {
                return Err(e);
            },
            Ok(name) => name,
        };
        let data = match self.parse_form() {
            Err(e) => {
                return Err(e);
            },
            Ok(data) => data,
        };
        match self.paren_end() {
            Err(e) => Err(e),
            Ok(_) => Ok(Expr::SetVar(name, Box::new(data))),
        }
    }

    /// Reads `(begin exprs...)`.
    pub fn parse_begin(&mut self) -> (r: Result<Expr, ParseError>)
        ensures
            old(self).moved_to(final(self)),
            parsed_expr(r, final(self).pos as int) == parse_begin_spec(
                old(self).ts(),
                old(self).pos as int,
            ),
            r is Ok ==> old(self).pos < final(self).pos <= old(self).tokens.len(),
        decreases old(self).tokens.len() - old(self).pos, 0int,
    {
        match self.head("begin") {
            Err(e) => {
                return Err(e);
            },
            Ok(_) => {},
        }
        match self.parse_end_list() {
            Err(e) => Err(e),
            Ok(exprs) => Ok(Expr::Begin(exprs)),
        }
    }

    /// Reads `(if cond then)` or `(if cond then else)`.
    pub fn parse_if(&mut self) -> (r: Result<Expr, ParseError>)
        ensures
            old(self).moved_to(final(self)),
            parsed_expr(r, final(self).pos as int) == parse_if_spec(
                old(self).ts(),
                old(self).pos as int,
            ),
            r is Ok ==> old(self).pos < final(self).pos <= old(self).tokens.len(),
        decreases old(self).tokens.len() - old(self).pos, 0int,
    {
        match self.head("if") {
            Err(e) => {
                return Err(e);
            },
            Ok(_) => {},
        }
        let cond = match self.parse_form() {
            Err(e) => {
                return Err(e);
            },
            Ok(cond) => cond,
        };
        let expr = match self.parse_form() {
            Err(e) => {
                return Err(e);
            },
            Ok(expr) => expr,
        };
        if self.try_paren_end() {
            return Ok(Expr::IfElse { cond: Box::new(cond), expr: Box::new(expr), default: None });
        }
        let default = match self.parse_form() {
            Err(e) => {
                return Err(e);
            },
            Ok(default) => default,
        };
        match self.paren_end() {
            Err(e) => Err(e),
            Ok(_) => Ok(
                Expr::IfElse {
                    cond: Box::new(cond),
                    expr: Box::new(expr),
                    default: Some(Box::new(default)),
                },
            ),
        }
    }

    /// Reads `(target args...)`.
    pub fn parse_call(&mut self) -> (r: Result<Expr, ParseError>)
        ensures
            old(self).moved_to(final(self)),
            parsed_expr(r, final(self).pos as int) == parse_call_spec(
                old(self).ts(),
                old(self).pos as int,
            ),
            r is Ok ==> old(self).pos < final(self).pos <= old(self).tokens.len(),
        decreases old(self).tokens.len() - old(self).pos, 0int,
    {
        match self.paren_start() {
            Err(e) => {
                return Err(e);
            },
            Ok(_) => {},
        }
        let to_call = match self.parse_form() {
            Err(e) => {
                return Err(e);
            },
            Ok(to_call) => to_call,
        };
        match self.parse_end_list() {
            Err(e) => Err(e),
            Ok(args) => Ok(Expr::Call { to_call: Box::new(to_call), args }),
        }
    }
}

} // verus!
