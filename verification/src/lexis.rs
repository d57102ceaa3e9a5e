//! The lexical grammar, stated over the sequence of source characters.
//!
//! Everything here is mathematics: which characters are trivia, where a
//! token ends, which token a run of characters denotes, and the place
//! (line and column) of every position in a source text.
use crate::token::{Coordinate, LiteralView, TokenType, TokenView};
use vstd::prelude::*;

verus! {

#[derive(Debug, PartialEq, Eq, Clone, Copy, Structural)]
pub enum LexicalError {
    InvalidCharacter(char, Coordinate),
    InvalidNumber(Coordinate),
    UnterminatedString(Coordinate),
    UnexpectedEndOfFile,
}

pub open spec fn is_digit(c: char) -> bool {
    '0' <= c <= '9'
}

pub open spec fn is_alpha(c: char) -> bool {
    ('a' <= c <= 'z') || ('A' <= c <= 'Z') || c == '_'
}

pub open spec fn is_alphanumeric(c: char) -> bool {
    is_alpha(c) || is_digit(c)
}

pub open spec fn is_space(c: char) -> bool {
    c == ' ' || c == '\r' || c == '\t' || c == '\n'
}

/// The line (1-based) of position `p`: one more than the number of line
/// feeds before it.
pub open spec fn line_at(s: Seq<char>, p: int) -> nat
    decreases p,
{
    if p <= 0 {
        1
    } else if s[p - 1] == '\n' {
        line_at(s, p - 1) + 1
    } else {
        line_at(s, p - 1)
    }
}

/// The column (1-based) of position `p`: one more than the number of
/// characters between the last line feed before it and itself.
pub open spec fn column_at(s: Seq<char>, p: int) -> nat
    decreases p,
{
    if p <= 0 {
        1
    } else if s[p - 1] == '\n' {
        1
    } else {
        column_at(s, p - 1) + 1
    }
}

/// How many bytes the UTF-8 encoding of a character takes.
pub open spec fn utf8_width(c: char) -> nat {
    if (c as u32) < 0x80 {
        1
    } else if (c as u32) < 0x800 {
        2
    } else if (c as u32) < 0x10000 {
        3
    } else {
        4
    }
}

/// How many bytes the UTF-8 encoding of the first `p` characters takes:
/// the index of the character at position `p` in the encoded text.
pub open spec fn byte_offset(s: Seq<char>, p: int) -> nat
    decreases p,
{
    if p <= 0 {
        0
    } else {
        byte_offset(s, p - 1) + utf8_width(s[p - 1])
    }
}

/// The coordinate of the character at position `p` of `s`: its index in
/// the UTF-8 encoding of `s`, its line and its column.
pub open spec fn coordinate_at(s: Seq<char>, p: int) -> Coordinate {
    Coordinate::at(byte_offset(s, p) as usize, line_at(s, p) as usize, column_at(s, p) as usize)
}

/// How many digits stand at `p` and directly after it.
pub open spec fn digits_len(s: Seq<char>, p: int) -> nat
    decreases s.len() - p,
{
    if 0 <= p < s.len() && is_digit(s[p]) {
        1 + digits_len(s, p + 1)
    } else {
        0
    }
}

/// How many letters, digits and underscores stand at `p` and directly after it.
pub open spec fn word_len(s: Seq<char>, p: int) -> nat
    decreases s.len() - p,
{
    if 0 <= p < s.len() && is_alphanumeric(s[p]) {
        1 + word_len(s, p + 1)
    } else {
        0
    }
}

/// How many characters a comment takes whose text starts at `p`: all up to
/// and including the next line feed, or up to the end of the source.
pub open spec fn comment_len(s: Seq<char>, p: int) -> nat
    decreases s.len() - p,
{
    if 0 <= p < s.len() {
        if s[p] == '\n' {
            1
        } else {
            1 + comment_len(s, p + 1)
        }
    } else {
        0
    }
}

/// How many characters stand between `p` and the next double quote, or
/// `None` where no double quote follows.
pub open spec fn quote_distance(s: Seq<char>, p: int) -> Option<nat>
    decreases s.len() - p,
{
    if 0 <= p < s.len() {
        if s[p] == '"' {
            Some(0nat)
        } else {
            match quote_distance(s, p + 1) {
                Some(d) => Some(d + 1),
                None => None,
            }
        }
    } else {
        None
    }
}

/// How many characters of `s` stand at position `p` and after it.
pub open spec fn left(s: Seq<char>, p: int) -> nat {
    if p <= s.len() {
        (s.len() - p) as nat
    } else {
        0
    }
}

pub open spec fn starts_comment(s: Seq<char>, p: int) -> bool {
    0 <= p && p + 1 < s.len() && s[p] == '/' && s[p + 1] == '/'
}

/// The first position at or after `p` that is neither white space nor
/// inside a `//` comment; the length of `s` where there is none.
pub open spec fn skip_trivia(s: Seq<char>, p: int) -> int
    decreases left(s, p),
{
    if 0 <= p < s.len() {
        if is_space(s[p]) {
            skip_trivia(s, p + 1)
        } else if starts_comment(s, p) {
            skip_trivia(s, p + 2 + comment_len(s, p + 2))
        } else {
            p
        }
    } else {
        p
    }
}

/// The token type of a word: that of the keyword it spells, else `Identifier`.
pub open spec fn word_type(text: Seq<char>) -> TokenType {
    if text == "and"@ {
        TokenType::And
    } else if text == "class"@ {
        TokenType::Class
    } else if text == "else"@ {
        TokenType::Else
    } else if text == "false"@ {
        TokenType::False
    } else if text == "for"@ {
        TokenType::For
    } else if text == "fun"@ {
        TokenType::Fun
    } else if text == "if"@ {
        TokenType::If
    } else if text == "nil"@ {
        TokenType::Nil
    } else if text == "or"@ {
        TokenType::Or
    } else if text == "print"@ {
        TokenType::Print
    } else if text == "return"@ {
        TokenType::Return
    } else if text == "super"@ {
        TokenType::Super
    } else if text == "this"@ {
        TokenType::This
    } else if text == "true"@ {
        TokenType::True
    } else if text == "var"@ {
        TokenType::Var
    } else if text == "while"@ {
        TokenType::While
    } else if text == "break"@ {
        TokenType::Break
    } else {
        TokenType::Identifier
    }
}

/// The payload of a word: `true` and `false` carry their truth value.
pub open spec fn word_literal(t: TokenType) -> LiteralView {
    match t {
        TokenType::True => LiteralView::Boolean(true),
        TokenType::False => LiteralView::Boolean(false),
        _ => LiteralView::Nil,
    }
}

/// The token type of the operator character `c` standing alone.
pub open spec fn operator_type(c: char) -> Option<TokenType> {
    if c == '-' {
        Some(TokenType::Minus)
    } else if c == '+' {
        Some(TokenType::Plus)
    } else if c == '*' {
        Some(TokenType::Star)
    } else if c == '!' {
        Some(TokenType::Bang)
    } else if c == '=' {
        Some(TokenType::Equal)
    } else if c == '<' {
        Some(TokenType::Less)
    } else if c == '>' {
        Some(TokenType::Greater)
    } else if c == '/' {
        Some(TokenType::Slash)
    } else {
        None
    }
}

/// The token type of the operator `t` followed by `=`.
pub open spec fn with_equal(t: TokenType) -> TokenType {
    match t {
        TokenType::Minus => TokenType::MinusEqual,
        TokenType::Plus => TokenType::PlusEqual,
        TokenType::Star => TokenType::StarEqual,
        TokenType::Bang => TokenType::BangEqual,
        TokenType::Equal => TokenType::EqualEqual,
        TokenType::Less => TokenType::LessEqual,
        TokenType::Greater => TokenType::GreaterEqual,
        TokenType::Slash => TokenType::SlashEqual,
        other => other,
    }
}

/// The token type of a punctuation character that never forms a longer token.
pub open spec fn punctuation_type(c: char) -> Option<TokenType> {
    if c == '(' {
        Some(TokenType::LeftParen)
    } else if c == ')' {
        Some(TokenType::RightParen)
    } else if c == '{' {
        Some(TokenType::LeftBrace)
    } else if c == '}' {
        Some(TokenType::RightBrace)
    } else if c == ',' {
        Some(TokenType::Comma)
    } else if c == ';' {
        Some(TokenType::Semicolon)
    } else {
        None
    }
}

/// What the scanner reads at a position: a token of `1 + tail`
/// characters, or the error that stops the scan.
pub enum Lexed {
    Token { token_type: TokenType, literal: LiteralView, tail: nat },
    Error(LexicalError),
}

/// The number that starts at `p` with a digit or a dot. A dot after the
/// whole part must be followed by a digit, and a numeral that starts with
/// a dot has no second dot.
pub open spec fn number_at(s: Seq<char>, p: int) -> Lexed {
    let whole = 1 + digits_len(s, p + 1);
    let dot = p + whole;
    if 0 <= dot < s.len() && s[dot] == '.' {
        let fraction = digits_len(s, dot + 1);
        let len = whole + 1 + fraction;
        if fraction == 0 || s[p] == '.' {
            Lexed::Error(LexicalError::InvalidNumber(coordinate_at(s, p)))
        } else {
            Lexed::Token {
                token_type: TokenType::Number,
                literal: LiteralView::Number(s.subrange(p, p + len)),
                tail: (len - 1) as nat,
            }
        }
    } else {
        Lexed::Token {
            token_type: TokenType::Number,
            literal: LiteralView::Number(s.subrange(p, p + whole)),
            tail: (whole - 1) as nat,
        }
    }
}

/// What stands at position `p`, which holds a character that is not trivia.
pub open spec fn lexed_at(s: Seq<char>, p: int) -> Lexed {
    let c = s[p];
    if punctuation_type(c) is Some {
        Lexed::Token { token_type: punctuation_type(c)->0, literal: LiteralView::Nil, tail: 0 }
    } else if operator_type(c) is Some {
        if p + 1 < s.len() && s[p + 1] == '=' {
            Lexed::Token {
                token_type: with_equal(operator_type(c)->0),
                literal: LiteralView::Nil,
                tail: 1,
            }
        } else {
            Lexed::Token { token_type: operator_type(c)->0, literal: LiteralView::Nil, tail: 0 }
        }
    } else if c == '.' {
        if p + 1 < s.len() && is_digit(s[p + 1]) {
            number_at(s, p)
        } else {
            Lexed::Token { token_type: TokenType::Dot, literal: LiteralView::Nil, tail: 0 }
        }
    } else if c == '"' {
        match quote_distance(s, p + 1) {
            Some(d) => Lexed::Token {
                token_type: TokenType::String,
                literal: LiteralView::String(s.subrange(p + 1, p + 1 + d)),
                tail: d + 1,
            },
            None => Lexed::Error(LexicalError::UnterminatedString(coordinate_at(s, p))),
        }
    } else if is_digit(c) {
        number_at(s, p)
    } else if is_alpha(c) {
        let len = 1 + word_len(s, p + 1);
        let t = word_type(s.subrange(p, p + len));
        Lexed::Token { token_type: t, literal: word_literal(t), tail: (len - 1) as nat }
    } else {
        Lexed::Error(LexicalError::InvalidCharacter(c, coordinate_at(s, p)))
    }
}

/// The token of `1 + tail` characters that starts at `p`: its lexeme is
/// the slice of the source that it was read from.
pub open spec fn token_at(
    s: Seq<char>,
    p: int,
    token_type: TokenType,
    literal: LiteralView,
    tail: nat,
) -> TokenView {
    TokenView {
        token_type,
        lexeme: Some(s.subrange(p, p + 1 + tail)),
        literal,
        coordinate: coordinate_at(s, p),
    }
}

/// The tokens of `s` from position `p` on, or the first lexical error.
pub open spec fn scan_from(s: Seq<char>, p: int) -> Result<Seq<TokenView>, LexicalError>
    decreases left(s, p),
    via scan_from_terminates
{
    let q = skip_trivia(s, p);
    if q >= s.len() {
        Ok(Seq::empty())
    } else {
        match lexed_at(s, q) {
            Lexed::Error(e) => Err(e),
            Lexed::Token { token_type, literal, tail } => match scan_from(s, q + 1 + tail) {
                Err(e) => Err(e),
                Ok(rest) => Ok(seq![token_at(s, q, token_type, literal, tail)] + rest),
            },
        }
    }
}

#[via_fn]
proof fn scan_from_terminates(s: Seq<char>, p: int) {
    skip_trivia_bounds(s, p);
}

/// Skipping trivia never moves backwards, stops inside the source, and
/// stops on a character that starts a token.
pub proof fn skip_trivia_bounds(s: Seq<char>, p: int)
    ensures
        p <= skip_trivia(s, p),
        0 <= p <= s.len() ==> skip_trivia(s, p) <= s.len(),
        0 <= p && skip_trivia(s, p) < s.len() ==> !is_space(s[skip_trivia(s, p)])
            && !starts_comment(s, skip_trivia(s, p)),
        skip_trivia(s, skip_trivia(s, p)) == skip_trivia(s, p),
    decreases left(s, p),
{
    if 0 <= p < s.len() {
        if is_space(s[p]) {
            skip_trivia_bounds(s, p + 1);
        } else if starts_comment(s, p) {
            comment_len_bounds(s, p + 2);
            skip_trivia_bounds(s, p + 2 + comment_len(s, p + 2));
        }
    }
}

/// A comment ends inside the source.
pub proof fn comment_len_bounds(s: Seq<char>, p: int)
    requires
        0 <= p <= s.len(),
    ensures
        p + comment_len(s, p) <= s.len(),
    decreases s.len() - p,
{
    if p < s.len() && s[p] != '\n' {
        comment_len_bounds(s, p + 1);
    }
}

/// The token that ends a scan: it has the empty lexeme and stands at the
/// coordinate of the token before it.
pub open spec fn eof_after(last: TokenView) -> TokenView {
    TokenView {
        token_type: TokenType::Eof,
        lexeme: Some(Seq::empty()),
        literal: LiteralView::Nil,
        coordinate: last.coordinate,
    }
}

/// The token that ends the scan of a source without tokens: it has the
/// empty lexeme and stands where the source starts.
pub open spec fn eof_alone() -> TokenView {
    TokenView {
        token_type: TokenType::Eof,
        lexeme: Some(Seq::empty()),
        literal: LiteralView::Nil,
        coordinate: Coordinate::at(0, 1, 1),
    }
}

/// The closing `Eof` of a scan that found `tokens`.
pub open spec fn closing(tokens: Seq<TokenView>) -> TokenView {
    if tokens.len() == 0 {
        eof_alone()
    } else {
        eof_after(tokens.last())
    }
}

/// The tokens from position `p` on, closed by `Eof`.
pub open spec fn scan_at(s: Seq<char>, p: int) -> Result<Seq<TokenView>, LexicalError> {
    match scan_from(s, p) {
        Err(e) => Err(e),
        Ok(tokens) => Ok(tokens.push(closing(tokens))),
    }
}

/// The result of scanning `s`: its tokens followed by `Eof`, which stands
/// alone where `s` holds only trivia, or the first lexical error.
pub open spec fn scan(s: Seq<char>) -> Result<Seq<TokenView>, LexicalError> {
    scan_at(s, 0)
}

} // verus!
