//! The errors of the parser, with the text that reports each.
use crate::text::push_str;
use crate::token::{Coordinate, Token, TokenType, TokenView};
use vstd::prelude::*;

verus! {

#[derive(Debug, Clone, PartialEq)]
pub enum ParseError {
    TokenAssertionFailure {
        msg: &'static str,
        expected: TokenType,
        found: TokenType,
        coordinate: Coordinate,
    },
    UnexpectedToken { msg: &'static str, token_lexeme: String, coordinate: Coordinate },
    UnexpectedEndOfFile { after_token: String },
    InvalidAssignmentTarget { token_lexeme: String, coordinate: Coordinate },
    LikelyLogicalError,
}

/// The mathematical value of a [`ParseError`].
pub enum ParseErrorView {
    TokenAssertionFailure {
        msg: Seq<char>,
        expected: TokenType,
        found: TokenType,
        coordinate: Coordinate,
    },
    UnexpectedToken { msg: Seq<char>, token_lexeme: Seq<char>, coordinate: Coordinate },
    UnexpectedEndOfFile { after_token: Seq<char> },
    InvalidAssignmentTarget { token_lexeme: Seq<char>, coordinate: Coordinate },
    LikelyLogicalError,
}

impl View for ParseError {
    type V = ParseErrorView;

    open spec fn view(&self) -> ParseErrorView {
        match self {
            ParseError::TokenAssertionFailure { msg, expected, found, coordinate } => {
                ParseErrorView::TokenAssertionFailure {
                    msg: msg@,
                    expected: *expected,
                    found: *found,
                    coordinate: *coordinate,
                }
            },
            ParseError::UnexpectedToken { msg, token_lexeme, coordinate } => {
                ParseErrorView::UnexpectedToken {
                    msg: msg@,
                    token_lexeme: token_lexeme@,
                    coordinate: *coordinate,
                }
            },
            ParseError::UnexpectedEndOfFile { after_token } => ParseErrorView::UnexpectedEndOfFile {
                after_token: after_token@,
            },
            ParseError::InvalidAssignmentTarget { token_lexeme, coordinate } => {
                ParseErrorView::InvalidAssignmentTarget {
                    token_lexeme: token_lexeme@,
                    coordinate: *coordinate,
                }
            },
            ParseError::LikelyLogicalError => ParseErrorView::LikelyLogicalError,
        }
    }
}

impl DeepView for ParseError {
    type V = ParseErrorView;

    open spec fn deep_view(&self) -> ParseErrorView {
        self@
    }
}

impl ParseErrorView {
    /// The line that reports the error.
    pub open spec fn describe(self) -> Seq<char> {
        match self {
            ParseErrorView::TokenAssertionFailure { msg, expected, found, coordinate } => {
                "ParseError: Expected token of type \""@ + expected.spec_name()
                    + "\" but got token \""@ + found.spec_name() + "\", "@ + msg + " "@
                    + coordinate.spec_describe()
            },
            ParseErrorView::UnexpectedToken { msg, token_lexeme, coordinate } => {
                "ParseError: Unexpected token "@ + token_lexeme + ", "@ + msg + " "@
                    + coordinate.spec_describe()
            },
            ParseErrorView::UnexpectedEndOfFile { after_token } => {
                "ParseError: Unexpected end of file "@ + after_token
            },
            ParseErrorView::InvalidAssignmentTarget { token_lexeme, coordinate } => {
                "Invalid assignment target: "@ + token_lexeme + " "@ + coordinate.spec_describe()
            },
            ParseErrorView::LikelyLogicalError => {
                "ParseError: Likely logical error with your parser..."@
            },
        }
    }
}

impl ParseError {
    /// The line that reports the error.
    pub fn describe(&self) -> (r: String)
        ensures
            r@ == self@.describe(),
    {
        let mut out = String::new();
        match self {
            ParseError::TokenAssertionFailure { msg, expected, found, coordinate } => {
                push_str(&mut out, "ParseError: Expected token of type \"");
                push_str(&mut out, expected.name());
                push_str(&mut out, "\" but got token \"");
                push_str(&mut out, found.name());
                push_str(&mut out, "\", ");
                push_str(&mut out, msg);
                push_str(&mut out, " ");
                let place = coordinate.describe();
                push_str(&mut out, place.as_str());
            },
            ParseError::UnexpectedToken { msg, token_lexeme, coordinate } => {
                push_str(&mut out, "ParseError: Unexpected token ");
                push_str(&mut out, token_lexeme.as_str());
                push_str(&mut out, ", ");
                push_str(&mut out, msg);
                push_str(&mut out, " ");
                let place = coordinate.describe();
                push_str(&mut out, place.as_str());
            },
            ParseError::UnexpectedEndOfFile { after_token } => {
                push_str(&mut out, "ParseError: Unexpected end of file ");
                push_str(&mut out, after_token.as_str());
            },
            ParseError::InvalidAssignmentTarget { token_lexeme, coordinate } => {
                push_str(&mut out, "Invalid assignment target: ");
                push_str(&mut out, token_lexeme.as_str());
                push_str(&mut out, " ");
                let place = coordinate.describe();
                push_str(&mut out, place.as_str());
            },
            ParseError::LikelyLogicalError => {
                push_str(&mut out, "ParseError: Likely logical error with your parser...");
            },
        }
        proof {
            assert(out@ =~= self@.describe());
        }
        out
    }
}

/// The errors of the evaluator. Each but `Native` carries the token that
/// it arose at; operands stand in it as the texts that show them.
#[derive(Debug, PartialEq)]
pub enum RuntimeError {
    InvalidMathOp(String, Token, String),
    InvalidComparisonOp(String, Token, String),
    InvalidUnaryOp(Token, String),
    InvalidLogicalOp(Token),
    UndefinedVariable(Token),
    Uncallable(String, Token),
    Native(String),
}

/// The mathematical value of a [`RuntimeError`].
pub enum RuntimeErrorView {
    InvalidMathOp(Seq<char>, TokenView, Seq<char>),
    InvalidComparisonOp(Seq<char>, TokenView, Seq<char>),
    InvalidUnaryOp(TokenView, Seq<char>),
    InvalidLogicalOp(TokenView),
    UndefinedVariable(TokenView),
    Uncallable(Seq<char>, TokenView),
    Native(Seq<char>),
}

impl View for RuntimeError {
    type V = RuntimeErrorView;

    open spec fn view(&self) -> RuntimeErrorView {
        match self {
            RuntimeError::InvalidMathOp(l, op, r) => RuntimeErrorView::InvalidMathOp(l@, op@, r@),
            RuntimeError::InvalidComparisonOp(l, op, r) => RuntimeErrorView::InvalidComparisonOp(
                l@,
                op@,
                r@,
            ),
            RuntimeError::InvalidUnaryOp(op, r) => RuntimeErrorView::InvalidUnaryOp(op@, r@),
            RuntimeError::InvalidLogicalOp(op) => RuntimeErrorView::InvalidLogicalOp(op@),
            RuntimeError::UndefinedVariable(name) => RuntimeErrorView::UndefinedVariable(name@),
            RuntimeError::Uncallable(value, paren) => RuntimeErrorView::Uncallable(value@, paren@),
            RuntimeError::Native(msg) => RuntimeErrorView::Native(msg@),
        }
    }
}

impl RuntimeErrorView {
    /// The line that reports the error; it ends in the coordinate of the
    /// token that the error arose at.
    pub open spec fn describe(self) -> Seq<char> {
        "RuntimeError: "@ + match self {
            RuntimeErrorView::InvalidMathOp(l, op, r) => "Invalid math operation \""@ + l + " "@
                + op.lexeme_or_empty() + " "@ + r + "\" "@ + op.coordinate.spec_describe(),
            RuntimeErrorView::InvalidComparisonOp(l, op, r) => "Invalid comparison operation \""@
                + l + " "@ + op.lexeme_or_empty() + " "@ + r + "\" "@
                + op.coordinate.spec_describe(),
            RuntimeErrorView::InvalidUnaryOp(op, r) => "Invalid unary operation \""@
                + op.lexeme_or_empty() + " "@ + r + "\" "@ + op.coordinate.spec_describe(),
            RuntimeErrorView::InvalidLogicalOp(op) => "Invalid logical operation \""@
                + op.lexeme_or_empty() + "\" "@ + op.coordinate.spec_describe(),
            RuntimeErrorView::UndefinedVariable(name) => "Undefined variable \""@
                + name.lexeme_or_empty() + "\" "@ + name.coordinate.spec_describe(),
            RuntimeErrorView::Uncallable(value, paren) => {
                "Invalid call expression trying to call literal value -> "@ + value + " "@
                    + paren.coordinate.spec_describe()
            },
            RuntimeErrorView::Native(msg) => msg,
        }
    }
}

fn push_operation(out: &mut String, l: &String, op: &Token, r: &String)
    ensures
        final(out)@ == old(out)@ + l@ + " "@ + op@.lexeme_or_empty() + " "@ + r@ + "\" "@
            + op.coordinate.spec_describe(),
{
    push_str(out, l.as_str());
    push_str(out, " ");
    let lexeme = op.lexeme_or_empty();
    push_str(out, lexeme.as_str());
    push_str(out, " ");
    push_str(out, r.as_str());
    push_str(out, "\" ");
    let place = op.coordinate.describe();
    push_str(out, place.as_str());
}

fn push_token(out: &mut String, token: &Token)
    ensures
        final(out)@ == old(out)@ + token@.lexeme_or_empty() + "\" "@
            + token.coordinate.spec_describe(),
{
    let lexeme = token.lexeme_or_empty();
    push_str(out, lexeme.as_str());
    push_str(out, "\" ");
    let place = token.coordinate.describe();
    push_str(out, place.as_str());
}

impl RuntimeError {
    /// The line that reports the error.
    pub fn describe(&self) -> (r: String)
        ensures
            r@ == self@.describe(),
    {
        let mut out = String::new();
        push_str(&mut out, "RuntimeError: ");
        match self {
            RuntimeError::InvalidMathOp(l, op, r) => {
                push_str(&mut out, "Invalid math operation \"");
                push_operation(&mut out, l, op, r);
            },
            RuntimeError::InvalidComparisonOp(l, op, r) => {
                push_str(&mut out, "Invalid comparison operation \"");
                push_operation(&mut out, l, op, r);
            },
            RuntimeError::InvalidUnaryOp(op, r) => {
                push_str(&mut out, "Invalid unary operation \"");
                let lexeme = op.lexeme_or_empty();
                push_str(&mut out, lexeme.as_str());
                push_str(&mut out, " ");
                push_str(&mut out, r.as_str());
                push_str(&mut out, "\" ");
                let place = op.coordinate.describe();
                push_str(&mut out, place.as_str());
            },
            RuntimeError::InvalidLogicalOp(op) => {
                push_str(&mut out, "Invalid logical operation \"");
                push_token(&mut out, op);
            },
            RuntimeError::UndefinedVariable(name) => {
                push_str(&mut out, "Undefined variable \"");
                push_token(&mut out, name);
            },
            RuntimeError::Uncallable(value, paren) => {
                push_str(&mut out, "Invalid call expression trying to call literal value -> ");
                push_str(&mut out, value.as_str());
                push_str(&mut out, " ");
                let place = paren.coordinate.describe();
                push_str(&mut out, place.as_str());
            },
            RuntimeError::Native(msg) => {
                push_str(&mut out, msg.as_str());
            },
        }
        proof {
            assert(out@ =~= self@.describe());
        }
        out
    }
}

} // verus!
