//! Tokens: the record shared by the scanner, the parser and the evaluator.
use crate::text::{push_decimal, push_str};
use vstd::prelude::*;

verus! {

#[derive(Clone, Copy, Debug, PartialEq, Eq, Structural)]
pub enum TokenType {
    // Single-character tokens.
    LeftParen,
    RightParen,
    LeftBrace,
    RightBrace,
    Comma,
    Dot,
    // One or two character tokens.
    Minus,
    MinusEqual,
    Plus,
    PlusEqual,
    Semicolon,
    Slash,
    SlashEqual,
    Star,
    StarEqual,
    Bang,
    BangEqual,
    Equal,
    EqualEqual,
    Greater,
    GreaterEqual,
    Less,
    LessEqual,
    // Literals.
    Identifier,
    String,
    Number,
    // Keywords.
    And,
    Class,
    False,
    Fun,
    For,
    If,
    Else,
    Nil,
    Or,
    Print,
    Return,
    Super,
    This,
    True,
    Var,
    While,
    Break,
    // End of file
    Eof,
}

impl TokenType {
    /// The name of the token type, as it is written in this enumeration.
    pub open spec fn spec_name(self) -> Seq<char> {
        match self {
            TokenType::LeftParen => "LeftParen"@,
            TokenType::RightParen => "RightParen"@,
            TokenType::LeftBrace => "LeftBrace"@,
            TokenType::RightBrace => "RightBrace"@,
            TokenType::Comma => "Comma"@,
            TokenType::Dot => "Dot"@,
            TokenType::Minus => "Minus"@,
            TokenType::MinusEqual => "MinusEqual"@,
            TokenType::Plus => "Plus"@,
            TokenType::PlusEqual => "PlusEqual"@,
            TokenType::Semicolon => "Semicolon"@,
            TokenType::Slash => "Slash"@,
            TokenType::SlashEqual => "SlashEqual"@,
            TokenType::Star => "Star"@,
            TokenType::StarEqual => "StarEqual"@,
            TokenType::Bang => "Bang"@,
            TokenType::BangEqual => "BangEqual"@,
            TokenType::Equal => "Equal"@,
            TokenType::EqualEqual => "EqualEqual"@,
            TokenType::Greater => "Greater"@,
            TokenType::GreaterEqual => "GreaterEqual"@,
            TokenType::Less => "Less"@,
            TokenType::LessEqual => "LessEqual"@,
            TokenType::Identifier => "Identifier"@,
            TokenType::String => "String"@,
            TokenType::Number => "Number"@,
            TokenType::And => "And"@,
            TokenType::Class => "Class"@,
            TokenType::False => "False"@,
            TokenType::Fun => "Fun"@,
            TokenType::For => "For"@,
            TokenType::If => "If"@,
            TokenType::Else => "Else"@,
            TokenType::Nil => "Nil"@,
            TokenType::Or => "Or"@,
            TokenType::Print => "Print"@,
            TokenType::Return => "Return"@,
            TokenType::Super => "Super"@,
            TokenType::This => "This"@,
            TokenType::True => "True"@,
            TokenType::Var => "Var"@,
            TokenType::While => "While"@,
            TokenType::Break => "Break"@,
            TokenType::Eof => "Eof"@,
        }
    }

    pub fn name(&self) -> (r: &'static str)
        ensures
            r@ == self.spec_name(),
    {
        match self {
            TokenType::LeftParen => "LeftParen",
            TokenType::RightParen => "RightParen",
            TokenType::LeftBrace => "LeftBrace",
            TokenType::RightBrace => "RightBrace",
            TokenType::Comma => "Comma",
            TokenType::Dot => "Dot",
            TokenType::Minus => "Minus",
            TokenType::MinusEqual => "MinusEqual",
            TokenType::Plus => "Plus",
            TokenType::PlusEqual => "PlusEqual",
            TokenType::Semicolon => "Semicolon",
            TokenType::Slash => "Slash",
            TokenType::SlashEqual => "SlashEqual",
            TokenType::Star => "Star",
            TokenType::StarEqual => "StarEqual",
            TokenType::Bang => "Bang",
            TokenType::BangEqual => "BangEqual",
            TokenType::Equal => "Equal",
            TokenType::EqualEqual => "EqualEqual",
            TokenType::Greater => "Greater",
            TokenType::GreaterEqual => "GreaterEqual",
            TokenType::Less => "Less",
            TokenType::LessEqual => "LessEqual",
            TokenType::Identifier => "Identifier",
            TokenType::String => "String",
            TokenType::Number => "Number",
            TokenType::And => "And",
            TokenType::Class => "Class",
            TokenType::False => "False",
            TokenType::Fun => "Fun",
            TokenType::For => "For",
            TokenType::If => "If",
            TokenType::Else => "Else",
            TokenType::Nil => "Nil",
            TokenType::Or => "Or",
            TokenType::Print => "Print",
            TokenType::Return => "Return",
            TokenType::Super => "Super",
            TokenType::This => "This",
            TokenType::True => "True",
            TokenType::Var => "Var",
            TokenType::While => "While",
            TokenType::Break => "Break",
            TokenType::Eof => "Eof",
        }
    }
}

/// The payload a token carries for the parser and the evaluator.
///
/// A number is held as the decimal text that was written in the source
/// (`digits`, `digits.digits` or `.digits`); its numeric value is only
/// taken when the literal is evaluated.
#[derive(Debug, PartialEq)]
pub enum Literal {
    Number(String),
    String(String),
    Boolean(bool),
    Nil,
}

/// The mathematical value of a [`Literal`].
pub enum LiteralView {
    Number(Seq<char>),
    String(Seq<char>),
    Boolean(bool),
    Nil,
}

impl View for Literal {
    type V = LiteralView;

    open spec fn view(&self) -> LiteralView {
        match self {
            Literal::Number(text) => LiteralView::Number(text@),
            Literal::String(text) => LiteralView::String(text@),
            Literal::Boolean(b) => LiteralView::Boolean(*b),
            Literal::Nil => LiteralView::Nil,
        }
    }
}

impl DeepView for Literal {
    type V = LiteralView;

    open spec fn deep_view(&self) -> LiteralView {
        self@
    }
}

impl LiteralView {
    /// Everything but `false` and `nil` counts as true.
    pub open spec fn is_truthy(self) -> bool {
        match self {
            LiteralView::Boolean(b) => b,
            LiteralView::Nil => false,
            _ => true,
        }
    }
}

impl Clone for Literal {
    fn clone(&self) -> (r: Self)
        ensures
            r == *self,
    {
        match self {
            Literal::Number(text) => Literal::Number(text.clone()),
            Literal::String(text) => Literal::String(text.clone()),
            Literal::Boolean(b) => Literal::Boolean(*b),
            Literal::Nil => Literal::Nil,
        }
    }
}

impl Literal {
    pub fn is_truthy(&self) -> (r: bool)
        ensures
            r == self@.is_truthy(),
    {
        match self {
            Literal::Boolean(value) => *value,
            Literal::Nil => false,
            _ => true,
        }
    }

    /// The decimal text of a number literal; any other literal is refused.
    pub fn to_number(&self) -> (r: Result<String, &'static str>)
        ensures
            match self@ {
                LiteralView::Number(text) => r is Ok && r->Ok_0@ == text,
                _ => r is Err && r->Err_0@ == "Cannot convert to number"@,
            },
    {
        match self {
            Literal::Number(value) => Ok(value.clone()),
            _ => Err("Cannot convert to number"),
        }
    }

    /// The text shown for a literal: the text of a number or a string as
    /// it is held, `true`, `false` or `nil`.
    pub open spec fn spec_describe(self) -> Seq<char> {
        match self {
            Literal::Number(text) => text@,
            Literal::String(text) => text@,
            Literal::Boolean(b) => if b {
                "true"@
            } else {
                "false"@
            },
            Literal::Nil => "nil"@,
        }
    }

    pub fn describe(&self) -> (r: String)
        ensures
            r@ == self.spec_describe(),
    {
        match self {
            Literal::Number(text) => text.clone(),
            Literal::String(text) => text.clone(),
            Literal::Boolean(b) => if *b {
                "true".to_owned()
            } else {
                "false".to_owned()
            },
            Literal::Nil => "nil".to_owned(),
        }
    }
}

/// A place in the source text: the index into the flat buffer, which
/// holds the text in UTF-8, and the 1-based line and column, which count
/// characters. A coordinate made by
/// [`Coordinate::synthetic`] marks a token that the parser injected; all
/// such coordinates are one and the same value.
#[derive(Clone, Copy, Debug, PartialEq, Eq, Structural)]
pub struct Coordinate {
    pub index: usize,
    pub line: usize,
    pub column: usize,
    pub is_synthetic: bool,
}

impl Coordinate {
    /// The coordinate of a place in the source.
    pub open spec fn at(index: usize, line: usize, column: usize) -> Coordinate {
        Coordinate { index, line, column, is_synthetic: false }
    }

    /// The coordinate of every token that does not come from the source.
    pub open spec fn spec_synthetic() -> Coordinate {
        Coordinate { index: 0, line: 0, column: 0, is_synthetic: true }
    }

    pub fn new(index: usize, line: usize, column: usize) -> (r: Coordinate)
        ensures
            r == Coordinate::at(index, line, column),
    {
        Coordinate { index, line, column, is_synthetic: false }
    }

    pub fn synthetic() -> (r: Self)
        ensures
            r == Coordinate::spec_synthetic(),
    {
        Coordinate { index: 0, line: 0, column: 0, is_synthetic: true }
    }

    pub fn is_synthetic(&self) -> (r: bool)
        ensures
            r == self.is_synthetic,
    {
        self.is_synthetic
    }

    /// `@(line:column)`.
    pub open spec fn spec_describe(self) -> Seq<char> {
        "@("@ + crate::text::decimal(self.line as nat) + ":"@ + crate::text::decimal(
            self.column as nat,
        ) + ")"@
    }

    pub fn describe(&self) -> (r: String)
        ensures
            r@ == self.spec_describe(),
    {
        let mut out = String::new();
        push_str(&mut out, "@(");
        push_decimal(&mut out, self.line);
        push_str(&mut out, ":");
        push_decimal(&mut out, self.column);
        push_str(&mut out, ")");
        proof {
            assert(out@ =~= self.spec_describe());
        }
        out
    }
}

impl Default for Coordinate {
    fn default() -> (r: Self)
        ensures
            r == Coordinate::at(0, 1, 1),
    {
        Coordinate::new(0, 1, 1)
    }
}

#[derive(Debug, PartialEq)]
pub struct Token {
    pub token_type: TokenType,
    pub lexeme: Option<String>,
    pub literal: Literal,
    pub coordinate: Coordinate,
}

/// The mathematical value of a [`Token`].
pub struct TokenView {
    pub token_type: TokenType,
    pub lexeme: Option<Seq<char>>,
    pub literal: LiteralView,
    pub coordinate: Coordinate,
}

impl View for Token {
    type V = TokenView;

    open spec fn view(&self) -> TokenView {
        TokenView {
            token_type: self.token_type,
            lexeme: match self.lexeme {
                Some(text) => Some(text@),
                None => None,
            },
            literal: self.literal@,
            coordinate: self.coordinate,
        }
    }
}

impl DeepView for Token {
    type V = TokenView;

    open spec fn deep_view(&self) -> TokenView {
        self@
    }
}

impl TokenView {
    /// The lexeme, or the empty text where the token has none.
    pub open spec fn lexeme_or_empty(self) -> Seq<char> {
        match self.lexeme {
            Some(text) => text,
            None => Seq::empty(),
        }
    }

    /// The token that the parser injects when it rewrites an expression:
    /// it has no lexeme and a synthetic coordinate.
    pub open spec fn synthetic(t: TokenType, literal: LiteralView) -> TokenView {
        TokenView {
            token_type: t,
            lexeme: None,
            literal,
            coordinate: Coordinate::spec_synthetic(),
        }
    }
}

impl Clone for Token {
    fn clone(&self) -> (r: Self)
        ensures
            r == *self,
    {
        let lexeme = match &self.lexeme {
            Some(text) => Some(text.clone()),
            None => None,
        };
        Token {
            token_type: self.token_type,
            lexeme,
            literal: self.literal.clone(),
            coordinate: self.coordinate,
        }
    }
}

impl Token {
    pub fn new(
        token_type: TokenType,
        lexeme: Option<String>,
        literal: Literal,
        coordinate: Coordinate,
    ) -> (r: Token)
        ensures
            r == (Token { token_type, lexeme, literal, coordinate }),
    {
        Token { token_type, lexeme, literal, coordinate }
    }

    pub fn synthetic(t: TokenType, literal: Literal) -> (r: Self)
        ensures
            r@ == TokenView::synthetic(t, literal@),
            r.literal == literal,
    {
        Token::new(t, None, literal, Coordinate::synthetic())
    }

    /// Hands the lexeme to `f`, or the empty text where there is none.
    pub fn with_lexeme<T, R>(&self, f: T) -> (r: R) where T: FnOnce(&str) -> R
        requires
            forall|s: &str| s@ == self@.lexeme_or_empty() ==> f.requires((s,)),
        ensures
            exists|s: &str| s@ == self@.lexeme_or_empty() && f.ensures((s,), r),
    {
        if let Some(ref lex) = self.lexeme {
            f(lex.as_str())
        } else {
            let empty: &str = "";
            proof {
                reveal_strlit("");
                assert(empty@ =~= self@.lexeme_or_empty());
            }
            f(empty)
        }
    }

    pub fn lexeme_or_empty(&self) -> (r: String)
        ensures
            r@ == self@.lexeme_or_empty(),
    {
        match &self.lexeme {
            Some(text) => text.clone(),
            None => String::new(),
        }
    }
}

} // verus!
