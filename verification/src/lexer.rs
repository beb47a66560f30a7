//! Turning source text into tokens.

use vstd::prelude::*;
use vstd::string::*;
use crate::ast::Text;
use crate::text::{digits_of, push_digits};

verus! {

/// Whether a bracket opens or closes.
#[derive(Debug, Clone, Copy, PartialEq, Eq, Structural)]
pub enum StartOrEnd {
    Start,
    End,
}

/// A token of the source text.
#[derive(Debug, PartialEq)]
pub enum Token {
    /// A name: a letter or `_`, then letters, digits and `_`.
    Ident(String),
    /// A number: a digit, then digits and `_`.
    Number(String),
    /// A `#` literal: the letters after the `#`.
    HashLit(String),
    /// A text literal, with the quotes round it.
    String(String),
    /// `/`
    Slash,
    /// `(` or `)`
    Paren(StartOrEnd),
    /// `[` or `]`
    Square(StartOrEnd),
    /// The end of the source.
    EOF,
}

/// The model of a token.
pub ghost enum TokenView {
    Ident(Text),
    Number(Text),
    HashLit(Text),
    String(Text),
    Slash,
    Paren(StartOrEnd),
    Square(StartOrEnd),
    EOF,
}

impl View for Token {
    type V = TokenView;

    open spec fn view(&self) -> TokenView {
        match self {
            Token::Ident(s) => TokenView::Ident(s@),
            Token::Number(s) => TokenView::Number(s@),
            Token::HashLit(s) => TokenView::HashLit(s@),
            Token::String(s) => TokenView::String(s@),
            Token::Slash => TokenView::Slash,
            Token::Paren(p) => TokenView::Paren(*p),
            Token::Square(p) => TokenView::Square(*p),
            Token::EOF => TokenView::EOF,
        }
    }
}

impl Clone for Token {
    fn clone(&self) -> (r: Self)
        ensures
            r@ == self@,
    {
        self.copy()
    }
}

impl Token {
    /// A copy of the token.
    pub fn copy(&self) -> (r: Token)
        ensures
            r@ == self@,
    {
        match self {
            Token::Ident(s) => Token::Ident(s.clone()),
            Token::Number(s) => Token::Number(s.clone()),
            Token::HashLit(s) => Token::HashLit(s.clone()),
            Token::String(s) => Token::String(s.clone()),
            Token::Slash => Token::Slash,
            Token::Paren(p) => Token::Paren(*p),
            Token::Square(p) => Token::Square(*p),
            Token::EOF => Token::EOF,
        }
    }

    /// Whether the two tokens are of one kind and hold the same text.
    pub fn same(&self, other: &Token) -> (r: bool)
        ensures
            r == (self@ == other@),
    {
        match (self, other) {
            (Token::Ident(a), Token::Ident(b)) => *a == *b,
            (Token::Number(a), Token::Number(b)) => *a == *b,
            (Token::HashLit(a), Token::HashLit(b)) => *a == *b,
            (Token::String(a), Token::String(b)) => *a == *b,
            (Token::Slash, Token::Slash) => true,
            (Token::Paren(a), Token::Paren(b)) => *a == *b,
            (Token::Square(a), Token::Square(b)) => *a == *b,
            (Token::EOF, Token::EOF) => true,
            _ => false,
        }
    }
}

/// The models of a list of tokens.
pub open spec fn tokens_view(tokens: Seq<Token>) -> Seq<TokenView> {
    Seq::new(tokens.len(), |i: int| tokens[i]@)
}

/// Why a source text could not be read.
#[derive(Debug, Clone, Copy, PartialEq, Eq, Structural)]
pub enum ParseError {
    /// No token begins at the character at this position of the source.
    InvalidToken { at: usize },
    /// The token at this position is where `(` had to stand.
    ExpectedOpen { at: usize },
    /// The token at this position is where `)` had to stand.
    ExpectedClose { at: usize },
    /// The token at this position is where `[` had to stand.
    ExpectedSquare { at: usize },
    /// The token at this position is where `/` had to stand.
    ExpectedSlash { at: usize },
    /// The token at this position is where a name had to stand.
    ExpectedIdentifier { at: usize },
    /// The name at this position is not the keyword that had to stand there.
    ExpectedKeyword { at: usize },
    /// The token at this position begins no expression, or is no parameter.
    UnexpectedToken { at: usize },
    /// The `#` literal at this position is none of `#t`, `#f`, `#n`.
    UnknownLiteral { at: usize },
    /// The number at this position does not fit in 64 bits with a sign.
    IntegerOverflow { at: usize },
}

/// The classes of characters that a token goes on with.
#[derive(Debug, Clone, Copy, PartialEq, Eq, Structural)]
pub enum CharClass {
    /// Letters, digits and `_`.
    IdentPart,
    /// Digits and `_`.
    NumberPart,
    /// Letters.
    Letter,
    /// Everything but `"`.
    NotQuote,
}

/// Whether the character is blank: a space, a tab or a line end.
pub open spec fn is_blank(c: char) -> bool {
    c == ' ' || c == '\t' || c == '\r' || c == '\n'
}

/// Whether the character is a letter of the basic alphabet.
pub open spec fn is_letter(c: char) -> bool {
    ('a' <= c && c <= 'z') || ('A' <= c && c <= 'Z')
}

/// Whether the character is a decimal digit.
pub open spec fn is_digit(c: char) -> bool {
    '0' <= c && c <= '9'
}

/// Whether the character belongs to the class.
pub open spec fn in_class(class: CharClass, c: char) -> bool {
    match class {
        CharClass::IdentPart => is_letter(c) || is_digit(c) || c == '_',
        CharClass::NumberPart => is_digit(c) || c == '_',
        CharClass::Letter => is_letter(c),
        CharClass::NotQuote => c != '"',
    }
}

/// How many characters from `pos` on belong to the class, up to the first
/// that does not.
pub open spec fn run_len(s: Seq<char>, pos: int, class: CharClass) -> nat
    decreases s.len() - pos,
{
    if 0 <= pos < s.len() && in_class(class, s[pos]) {
        1 + run_len(s, pos + 1, class)
    } else {
        0
    }
}

/// The token that begins at `pos`, which holds no blank, and the position
/// after it: the longest token that the characters allow. `None` where no
/// token begins there.
pub open spec fn token_at(s: Seq<char>, pos: int) -> Option<(TokenView, int)> {
    let c = s[pos];
    if is_letter(c) || c == '_' {
        let end = pos + 1 + run_len(s, pos + 1, CharClass::IdentPart);
        Some((TokenView::Ident(s.subrange(pos, end)), end))
    } else if is_digit(c) {
        let end = pos + 1 + run_len(s, pos + 1, CharClass::NumberPart);
        Some((TokenView::Number(s.subrange(pos, end)), end))
    } else if c == '#' {
        let end = pos + 1 + run_len(s, pos + 1, CharClass::Letter);
        if end == pos + 1 {
            None
        } else {
            Some((TokenView::HashLit(s.subrange(pos + 1, end)), end))
        }
    } else if c == '"' {
        let close = pos + 1 + run_len(s, pos + 1, CharClass::NotQuote);
        if close >= s.len() {
            None
        } else {
            Some((TokenView::String(s.subrange(pos, close + 1)), close + 1))
        }
    } else if c == '/' {
        Some((TokenView::Slash, pos + 1))
    } else if c == '(' {
        Some((TokenView::Paren(StartOrEnd::Start), pos + 1))
    } else if c == ')' {
        Some((TokenView::Paren(StartOrEnd::End), pos + 1))
    } else if c == '[' {
        Some((TokenView::Square(StartOrEnd::Start), pos + 1))
    } else if c == ']' {
        Some((TokenView::Square(StartOrEnd::End), pos + 1))
    } else {
        None
    }
}

/// The tokens of the text from `pos` on, after those in `acc`: blanks are
/// passed over, and the first character at which no token begins fails the
/// whole text. A token always ends after where it begins and within the
/// text (`lemma_token_within`), so the last branch is never taken.
pub open spec fn lex_from(s: Seq<char>, pos: int, acc: Seq<TokenView>) -> Result<
    Seq<TokenView>,
    ParseError,
>
    decreases s.len() - pos,
{
    if pos < 0 || pos >= s.len() {
        Ok(acc)
    } else if is_blank(s[pos]) {
        lex_from(s, pos + 1, acc)
    } else {
        let found = token_at(s, pos);
        if found is None {
            Err(ParseError::InvalidToken { at: pos as usize })
        } else if pos < found.unwrap().1 <= s.len() {
            lex_from(s, found.unwrap().1, acc.push(found.unwrap().0))
        } else {
            Ok(acc)
        }
    }
}

/// A run of characters ends within the text.
pub proof fn lemma_run_within(s: Seq<char>, pos: int, class: CharClass)
    requires
        0 <= pos <= s.len(),
    ensures
        pos + run_len(s, pos, class) <= s.len(),
    decreases s.len() - pos,
{
    if pos < s.len() && in_class(class, s[pos]) {
        lemma_run_within(s, pos + 1, class);
    }
}

/// A token ends after where it begins and within the text, so reading
/// tokens never stands still and never runs past the end.
pub proof fn lemma_token_within(s: Seq<char>, pos: int)
    requires
        0 <= pos < s.len(),
    ensures
        token_at(s, pos) matches Some((_, end)) ==> pos < end <= s.len(),
{
    lemma_run_within(s, pos + 1, CharClass::IdentPart);
    lemma_run_within(s, pos + 1, CharClass::NumberPart);
    lemma_run_within(s, pos + 1, CharClass::Letter);
    lemma_run_within(s, pos + 1, CharClass::NotQuote);
}

/// The tokens of a source text.
pub open spec fn lex_spec(s: Seq<char>) -> Result<Seq<TokenView>, ParseError> {
    lex_from(s, 0, Seq::empty())
}

/// The characters of a text, in order.
pub fn chars_of(source: &str) -> (r: Vec<char>)
    ensures
        r@ == source@,
{
    let mut v: Vec<char> = Vec::new();
    for c in iter: source.chars()
        invariant
            iter.seq() == source@,
            v@ == iter.seq().take(iter.index() as int),
    {
        v.push(c);
        assert(v@ =~= iter.seq().take(iter.index() + 1));
    }
    assert(v@ =~= source@);
    v
}

/// Whether the character is blank.
pub fn blank(c: char) -> (r: bool)
    ensures
        r == is_blank(c),
{
    c == ' ' || c == '\t' || c == '\r' || c == '\n'
}

/// Whether the character is a letter of the basic alphabet.
pub fn letter(c: char) -> (r: bool)
    ensures
        r == is_letter(c),
{
    ('a' <= c && c <= 'z') || ('A' <= c && c <= 'Z')
}

/// Whether the character is a decimal digit.
pub fn decimal_digit(c: char) -> (r: bool)
    ensures
        r == is_digit(c),
{
    '0' <= c && c <= '9'
}

/// Whether the character belongs to the class.
pub fn belongs(class: CharClass, c: char) -> (r: bool)
    ensures
        r == in_class(class, c),
{
    match class {
        CharClass::IdentPart => letter(c) || decimal_digit(c) || c == '_',
        CharClass::NumberPart => decimal_digit(c) || c == '_',
        CharClass::Letter => letter(c),
        CharClass::NotQuote => c != '"',
    }
}

/// The position after the characters from `start` on that belong to the
/// class.
pub fn scan(chars: &Vec<char>, start: usize, class: CharClass) -> (end: usize)
    requires
        start <= chars.len(),
    ensures
        end == start + run_len(chars@, start as int, class),
        end <= chars.len(),
{
    let mut end: usize = start;
    while end < chars.len() && belongs(class, chars[end])
        invariant
            start <= end <= chars.len(),
            start + run_len(chars@, start as int, class) == end + run_len(
                chars@,
                end as int,
                class,
            ),
        decreases chars.len() - end,
    {
        end += 1;
    }
    end
}

/// The text of the characters from `from` up to `to`.
pub fn text_of(chars: &Vec<char>, from: usize, to: usize) -> (s: String)
    requires
        from <= to <= chars.len(),
    ensures
        s@ == chars@.subrange(from as int, to as int),
{
    let mut s = String::new();
    let mut i: usize = from;
    while i < to
        invariant
            from <= i <= to <= chars.len(),
            s@ == chars@.subrange(from as int, i as int),
        decreases to - i,
    {
        s.push(chars[i]);
        assert(s@ =~= chars@.subrange(from as int, i + 1));
        i += 1;
    }
    s
}

/// The model of the result of reading tokens.
pub open spec fn tokens_result_view(r: Result<Vec<Token>, ParseError>) -> Result<
    Seq<TokenView>,
    ParseError,
> {
    match r {
        Ok(tokens) => Ok(tokens_view(tokens@)),
        Err(e) => Err(e),
    }
}

/// Reads the tokens of a source text.
pub fn tokenize(source: &str) -> (r: Result<Vec<Token>, ParseError>)
    ensures
        tokens_result_view(r) == lex_spec(source@),
{
    let chars = chars_of(source);
    let mut tokens: Vec<Token> = Vec::new();
    let mut pos: usize = 0;
    assert(tokens_view(tokens@) =~= Seq::<TokenView>::empty());
    while pos < chars.len()
        invariant
            pos <= chars.len(),
            chars@ == source@,
            lex_spec(source@) == lex_from(chars@, pos as int, tokens_view(tokens@)),
        decreases chars.len() - pos,
    {
        let c = chars[pos];
        let ghost before = tokens_view(tokens@);
        if blank(c) {
            pos += 1;
        } else if letter(c) || c == '_' {
            let end = scan(&chars, pos + 1, CharClass::IdentPart);
            tokens.push(Token::Ident(text_of(&chars, pos, end)));
            assert(tokens_view(tokens@) =~= before.push(token_at(chars@, pos as int).unwrap().0));
            pos = end;
        } else if decimal_digit(c) {
            let end = scan(&chars, pos + 1, CharClass::NumberPart);
            tokens.push(Token::Number(text_of(&chars, pos, end)));
            assert(tokens_view(tokens@) =~= before.push(token_at(chars@, pos as int).unwrap().0));
            pos = end;
        } else if c == '#' {
            let end = scan(&chars, pos + 1, CharClass::Letter);
            if end == pos + 1 {
                return Err(ParseError::InvalidToken { at: pos });
            }
            tokens.push(Token::HashLit(text_of(&chars, pos + 1, end)));
            assert(tokens_view(tokens@) =~= before.push(token_at(chars@, pos as int).unwrap().0));
            pos = end;
        } else if c == '"' {
            let close = scan(&chars, pos + 1, CharClass::NotQuote);
            if close >= chars.len() {
                return Err(ParseError::InvalidToken { at: pos });
            }
            tokens.push(Token::String(text_of(&chars, pos, close + 1)));
            assert(tokens_view(tokens@) =~= before.push(token_at(chars@, pos as int).unwrap().0));
            pos = close + 1;
        } else {
            let token = if c == '/' {
                Token::Slash
            } else if c == '(' {
                Token::Paren(StartOrEnd::Start)
            } else if c == ')' {
                Token::Paren(StartOrEnd::End)
            } else if c == '[' {
                Token::Square(StartOrEnd::Start)
            } else if c == ']' {
                Token::Square(StartOrEnd::End)
            } else {
                return Err(ParseError::InvalidToken { at: pos });
            };
            tokens.push(token);
            assert(tokens_view(tokens@) =~= before.push(token_at(chars@, pos as int).unwrap().0));
            pos += 1;
        }
    }
    Ok(tokens)
}

impl ParseError {
    /// The position that the failure names: a character of the source for
    /// an invalid token, else a token.
    pub open spec fn position(self) -> usize {
        match self {
            ParseError::InvalidToken { at } => at,
            ParseError::ExpectedOpen { at } => at,
            ParseError::ExpectedClose { at } => at,
            ParseError::ExpectedSquare { at } => at,
            ParseError::ExpectedSlash { at } => at,
            ParseError::ExpectedIdentifier { at } => at,
            ParseError::ExpectedKeyword { at } => at,
            ParseError::UnexpectedToken { at } => at,
            ParseError::UnknownLiteral { at } => at,
            ParseError::IntegerOverflow { at } => at,
        }
    }

    /// What went wrong, without the position.
    pub open spec fn reason(self) -> Text {
        match self {
            ParseError::InvalidToken { .. } => "Invalid token at character "@,
            ParseError::ExpectedOpen { .. } => "Expected `(` at token "@,
            ParseError::ExpectedClose { .. } => "Expected `)` at token "@,
            ParseError::ExpectedSquare { .. } => "Expected `[` at token "@,
            ParseError::ExpectedSlash { .. } => "Expected `/` at token "@,
            ParseError::ExpectedIdentifier { .. } => "Expected identifier at token "@,
            ParseError::ExpectedKeyword { .. } => "Expected another identifier at token "@,
            ParseError::UnexpectedToken { .. } => "Unexpected token at token "@,
            ParseError::UnknownLiteral { .. } => "Unknown literal at token "@,
            ParseError::IntegerOverflow { .. } => "Integer overflow at token "@,
        }
    }

    /// The position that the failure names.
    pub fn at(&self) -> (r: usize)
        ensures
            r == self.position(),
    {
        match self {
            ParseError::InvalidToken { at } => *at,
            ParseError::ExpectedOpen { at } => *at,
            ParseError::ExpectedClose { at } => *at,
            ParseError::ExpectedSquare { at } => *at,
            ParseError::ExpectedSlash { at } => *at,
            ParseError::ExpectedIdentifier { at } => *at,
            ParseError::ExpectedKeyword { at } => *at,
            ParseError::UnexpectedToken { at } => *at,
            ParseError::UnknownLiteral { at } => *at,
            ParseError::IntegerOverflow { at } => *at,
        }
    }

    /// The failure in words: what went wrong, then the position in decimal.
    pub fn message(&self) -> (r: String)
        ensures
            r@ == self.reason() + digits_of(self.position() as nat),
    {
        let mut r = match self {
            ParseError::InvalidToken { .. } => String::from_str("Invalid token at character "),
            ParseError::ExpectedOpen { .. } => String::from_str("Expected `(` at token "),
            ParseError::ExpectedClose { .. } => String::from_str("Expected `)` at token "),
            ParseError::ExpectedSquare { .. } => String::from_str("Expected `[` at token "),
            ParseError::ExpectedSlash { .. } => String::from_str("Expected `/` at token "),
            ParseError::ExpectedIdentifier { .. } => String::from_str(
                "Expected identifier at token ",
            ),
            ParseError::ExpectedKeyword { .. } => String::from_str(
                "Expected another identifier at token ",
            ),
            ParseError::UnexpectedToken { .. } => String::from_str("Unexpected token at token "),
            ParseError::UnknownLiteral { .. } => String::from_str("Unknown literal at token "),
            ParseError::IntegerOverflow { .. } => String::from_str("Integer overflow at token "),
        };
        push_digits(&mut r, self.at() as u64);
        r
    }
}

} // verus!
