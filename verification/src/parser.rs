//! The recursive-descent parser: tokens to abstract syntax.
use crate::ast::{expr_view, stmt_view, stmts_view, Expr, ExprView, Stmt, StmtView};
use crate::errors::{ParseError, ParseErrorView};
use crate::grammar;
use crate::grammar::{after, found, remaining, Parsed};
use crate::token::{Literal, LiteralView, Token, TokenType, TokenView};
use vstd::prelude::*;

verus! {

/// A list of tokens and a cursor into it.
#[derive(Debug)]
pub struct TokenStream {
    tokens: Vec<Token>,
    current: usize,
}

impl TokenStream {
    /// All the tokens of the stream.
    pub closed spec fn tokens(&self) -> Seq<TokenView> {
        self.tokens.deep_view()
    }

    /// The place of the next token in the list.
    pub open spec fn position(&self) -> int {
        self.taken() as int
    }

    /// How many tokens have been taken.
    pub closed spec fn taken(&self) -> nat {
        self.current as nat
    }

    /// The cursor stands inside the list or at its end.
    pub closed spec fn wf(&self) -> bool {
        self.current <= self.tokens.len()
    }

    pub fn new(tokens: Vec<Token>) -> (r: Self)
        ensures
            r.wf(),
            r.tokens() == tokens.deep_view(),
            r.position() == 0,
    {
        Self { tokens, current: 0 }
    }

    /// The next token, without taking it.
    pub fn peek(&self) -> (r: Option<&Token>)
        requires
            self.wf(),
        ensures
            self.position() < self.tokens().len() ==> r is Some && r->0@ == self.tokens()[self.position()],
            self.position() >= self.tokens().len() ==> r is None,
    {
        if self.current < self.tokens.len() {
            Some(&self.tokens[self.current])
        } else {
            None
        }
    }

    /// Takes the next token.
    pub fn next(&mut self) -> (r: Option<&Token>)
        requires
            old(self).wf(),
        ensures
            final(self).wf(),
            final(self).tokens() == old(self).tokens(),
            old(self).position() < old(self).tokens().len() ==> r is Some && r->0@ == old(self).tokens()[old(self).position()] && final(self).position() == old(self).position() + 1,
            old(self).position() >= old(self).tokens().len() ==> r is None && final(self).position()
                == old(self).position(),
    {
        if self.current >= self.tokens.len() {
            return None;
        }
        self.current += 1;
        Some(&self.tokens[self.current - 1])
    }

    /// The token taken last.
    pub fn previous(&self) -> (r: Option<&Token>)
        requires
            self.wf(),
        ensures
            self.position() > 0 ==> r is Some && r->0@ == self.tokens()[self.position() - 1],
            self.position() == 0 ==> r is None,
    {
        if self.current == 0 {
            return None;
        }
        Some(&self.tokens[self.current - 1])
    }

    /// Takes the next token if `f` accepts it.
    pub fn take_if<F: Fn(&Token) -> bool>(&mut self, f: F) -> (r: Option<&Token>)
        requires
            old(self).wf(),
            forall|t: &Token| f.requires((t,)),
        ensures
            final(self).wf(),
            final(self).tokens() == old(self).tokens(),
            r is Some ==> {
                &&& old(self).position() < old(self).tokens().len()
                &&& r->0@ == old(self).tokens()[old(self).position()]
                &&& exists|t: &Token|
                    t@ == old(self).tokens()[old(self).position()] && f.ensures((t,), true)
                &&& final(self).position() == old(self).position() + 1
            },
            r is None ==> {
                &&& final(self).position() == old(self).position()
                &&& old(self).position() < old(self).tokens().len() ==> exists|t: &Token|
                    t@ == old(self).tokens()[old(self).position()] && f.ensures((t,), false)
            },
    {
        if let Some(toke) = self.peek() {
            let accepted = f(toke);
            proof {
                assert(toke@ == self.tokens()[self.position()] && f.ensures((toke,), accepted));
            }
            if accepted {
                return self.next();
            }
        }
        None
    }
}

/// What a rule that yields an expression owes: the parser has moved on by
/// the tokens that the grammar says are taken, and the result is the
/// grammar's.
pub open spec fn expr_rule(
    pre: Parser,
    post: Parser,
    r: Result<Expr, ParseError>,
    m: Parsed<ExprView>,
) -> bool {
    &&& moved(pre, post, m.taken)
    &&& match r {
        Ok(e) => m.result == Ok::<ExprView, ParseErrorView>(expr_view(e)),
        Err(e) => m.result == Err::<ExprView, ParseErrorView>(e@),
    }
}

/// What a rule that yields a statement owes.
pub open spec fn stmt_rule(
    pre: Parser,
    post: Parser,
    r: Result<Stmt, ParseError>,
    m: Parsed<StmtView>,
) -> bool {
    &&& moved(pre, post, m.taken)
    &&& match r {
        Ok(s) => m.result == Ok::<StmtView, ParseErrorView>(stmt_view(s)),
        Err(e) => m.result == Err::<StmtView, ParseErrorView>(e@),
    }
}

/// What a rule that yields a token owes.
pub open spec fn token_rule(
    pre: Parser,
    post: Parser,
    r: Result<&Token, ParseError>,
    m: Parsed<TokenView>,
) -> bool {
    &&& moved(pre, post, m.taken)
    &&& match r {
        Ok(t) => m.result == Ok::<TokenView, ParseErrorView>(t@),
        Err(e) => m.result == Err::<TokenView, ParseErrorView>(e@),
    }
}

/// The parser `post` is the parser `pre` after `taken` more tokens.
pub open spec fn moved(pre: Parser, post: Parser, taken: nat) -> bool {
    &&& post.wf()
    &&& post.tokens() == pre.tokens()
    &&& post.in_loop() == pre.in_loop()
    &&& post.position() == pre.position() + taken
}

pub open spec fn option_stmt_view(s: Option<Stmt>) -> Option<StmtView> {
    match s {
        Some(s) => Some(stmt_view(s)),
        None => None,
    }
}

pub open spec fn option_expr_view(e: Option<Expr>) -> Option<ExprView> {
    match e {
        Some(e) => Some(expr_view(e)),
        None => None,
    }
}

pub(crate) fn literal_type(t: TokenType) -> (r: bool)
    ensures
        r == grammar::is_literal_type(t),
{
    t == TokenType::Number || t == TokenType::String || t == TokenType::True || t
        == TokenType::False || t == TokenType::Nil
}

fn is_assignment_type(t: TokenType) -> (r: bool)
    ensures
        r == grammar::is_assignment_type(t),
{
    t == TokenType::Equal || t == TokenType::PlusEqual || t == TokenType::MinusEqual || t
        == TokenType::StarEqual || t == TokenType::SlashEqual
}

fn is_unary_type(t: TokenType) -> (r: bool)
    ensures
        r == grammar::is_unary_type(t),
{
    t == TokenType::Bang || t == TokenType::Minus
}

fn is_operator_of(level: u8, t: TokenType) -> (r: bool)
    ensures
        r == grammar::is_operator_of(level as nat, t),
{
    if level == 0 {
        t == TokenType::Or
    } else if level == 1 {
        t == TokenType::And
    } else if level == 2 {
        t == TokenType::BangEqual || t == TokenType::EqualEqual
    } else if level == 3 {
        t == TokenType::Greater || t == TokenType::GreaterEqual || t == TokenType::Less || t
            == TokenType::LessEqual
    } else if level == 4 {
        t == TokenType::Minus || t == TokenType::Plus
    } else if level == 5 {
        t == TokenType::Slash || t == TokenType::Star
    } else {
        false
    }
}

fn starts_declaration(t: TokenType) -> (r: bool)
    ensures
        r == grammar::starts_declaration(t),
{
    t == TokenType::Class || t == TokenType::Fun || t == TokenType::Var || t == TokenType::For
        || t == TokenType::If || t == TokenType::While || t == TokenType::Print || t
        == TokenType::Return
}

/// The literal `true`, on a synthetic token.
pub fn literal_true() -> (r: Expr)
    ensures
        expr_view(r) == grammar::literal_true(),
{
    Expr::Literal { value: Token::synthetic(TokenType::True, Literal::Boolean(true)) }
}

/// Rewrites `name op= value` as `name = name op value`.
pub fn desugar_assignment(name: Token, t: TokenType, value: Expr) -> (r: Result<Expr, ParseError>)
    ensures
        match r {
            Ok(e) => grammar::desugar_assignment(name@, t, expr_view(value)) == Ok::<
                ExprView,
                ParseErrorView,
            >(expr_view(e)),
            Err(e) => grammar::desugar_assignment(name@, t, expr_view(value)) == Err::<
                ExprView,
                ParseErrorView,
            >(e@),
        },
{
    let operator = match t {
        TokenType::PlusEqual => TokenType::Plus,
        TokenType::MinusEqual => TokenType::Minus,
        TokenType::StarEqual => TokenType::Star,
        TokenType::SlashEqual => TokenType::Slash,
        _ => {
            return Err(
                ParseError::InvalidAssignmentTarget {
                    token_lexeme: name.lexeme_or_empty(),
                    coordinate: name.coordinate,
                },
            );
        },
    };
    let target = name.clone();
    let variable = Expr::Variable { name };
    assert(expr_view(variable) == ExprView::Variable { name: name@ });
    let sum = Expr::Binary {
        left: Box::new(variable),
        operator: Token::synthetic(operator, Literal::Nil),
        right: Box::new(value),
    };
    assert(expr_view(sum) == ExprView::Binary {
        left: Box::new(ExprView::Variable { name: name@ }),
        operator: TokenView::synthetic(operator, LiteralView::Nil),
        right: Box::new(expr_view(value)),
    });
    Ok(Expr::Assign { name: target, value: Box::new(sum) })
}

/// The loop whose body is `body` followed by `increment`, in one block.
pub fn while_loop_with_increment(condition: Expr, body: Stmt, increment: Option<Stmt>) -> (r: Stmt)
    ensures
        stmt_view(r) == grammar::while_loop_with_increment(
            expr_view(condition),
            stmt_view(body),
            option_stmt_view(increment),
        ),
{
    let ghost inner = grammar::optional(option_stmt_view(increment));
    let mut statements = match body {
        Stmt::Block { statements } => {
            proof {
                stmts_view(statements);
            }
            statements
        },
        other => {
            let mut list = Vec::new();
            list.push(other);
            proof {
                assert(list.deep_view() =~= seq![stmt_view(body)]);
            }
            list
        },
    };
    let ghost first = statements.deep_view();
    if let Some(i) = increment {
        statements.push(i);
    }
    proof {
        assert(statements.deep_view() =~= first + inner);
        stmts_view(statements);
    }
    Stmt::While { condition, body: Box::new(Stmt::Block { statements }) }
}

/// Rewrites `for (init; condition; increment) body` with `while`.
pub fn desugar_for_loop(
    init: Option<Stmt>,
    condition: Option<Expr>,
    increment: Option<Stmt>,
    body: Stmt,
) -> (r: Stmt)
    ensures
        stmt_view(r) == grammar::desugar_for_loop(
            option_stmt_view(init),
            option_expr_view(condition),
            option_stmt_view(increment),
            stmt_view(body),
        ),
{
    let mut statements: Vec<Stmt> = Vec::new();
    if let Some(s) = init {
        statements.push(s);
    }
    let ghost first = statements.deep_view();
    proof {
        assert(first =~= grammar::optional(option_stmt_view(init)));
    }
    let condition = match condition {
        Some(c) => c,
        None => literal_true(),
    };
    let inner = while_loop_with_increment(condition, body, increment);
    statements.push(inner);
    proof {
        assert(statements.deep_view() =~= first.push(stmt_view(inner)));
        stmts_view(statements);
    }
    Stmt::Block { statements }
}

pub struct Parser {
    stream: TokenStream,
    is_in_loop: bool,
}

impl Parser {
    /// The tokens that the parser reads.
    pub closed spec fn tokens(&self) -> Seq<TokenView> {
        self.stream.tokens()
    }

    /// The place of the next token in the list.
    pub open spec fn position(&self) -> int {
        self.taken() as int
    }

    /// How many tokens have been taken.
    pub closed spec fn taken(&self) -> nat {
        self.stream.taken()
    }

    /// Whether a `break` is legal where the parser stands.
    pub closed spec fn in_loop(&self) -> bool {
        self.is_in_loop
    }

    pub closed spec fn wf(&self) -> bool {
        self.stream.wf()
    }

    /// The parser stands at position `p` of the tokens `ts`.
    pub open spec fn at(&self, ts: Seq<TokenView>, in_loop: bool, p: int) -> bool {
        &&& self.wf()
        &&& self.tokens() == ts
        &&& self.in_loop() == in_loop
        &&& self.position() == p
    }

    pub fn new(tokens: Vec<Token>) -> (r: Self)
        ensures
            r.wf(),
            r.tokens() == tokens.deep_view(),
            r.position() == 0,
            !r.in_loop(),
    {
        Self { stream: TokenStream::new(tokens), is_in_loop: false }
    }

    /// How many tokens have been taken.
    pub(crate) fn cursor(&self) -> (r: usize)
        ensures
            r == self.position(),
    {
        self.stream.current
    }

    /// Whether a `break` is legal where the parser stands.
    pub(crate) fn breakable(&self) -> (r: bool)
        ensures
            r == self.in_loop(),
    {
        self.is_in_loop
    }

    /// Parses the rest of the tokens as a program: all its statements, or
    /// all the errors that were met.
    #[verifier::loop_isolation(false)]
    pub fn parse(&mut self) -> (r: Result<Vec<Stmt>, Vec<ParseError>>)
        requires
            old(self).wf(),
        ensures
            final(self).wf(),
            final(self).tokens() == old(self).tokens(),
            final(self).in_loop() == old(self).in_loop(),
            old(self).position() <= final(self).position() <= final(self).tokens().len(),
            match r {
                Ok(statements) => grammar::parse_program(
                    old(self).tokens(),
                    old(self).position(),
                    old(self).in_loop(),
                    Seq::empty(),
                    Seq::empty(),
                ) == Ok::<Seq<StmtView>, Seq<ParseErrorView>>(statements.deep_view()),
                Err(errors) => grammar::parse_program(
                    old(self).tokens(),
                    old(self).position(),
                    old(self).in_loop(),
                    Seq::empty(),
                    Seq::empty(),
                ) == Err::<Seq<StmtView>, Seq<ParseErrorView>>(errors.deep_view()),
            },
    {
        let ghost ts = self.tokens();
        let ghost start = self.position();
        let ghost il = self.in_loop();
        let mut stmts: Vec<Stmt> = Vec::new();
        let mut errors: Vec<ParseError> = Vec::new();
        proof {
            assert(stmts.deep_view() =~= Seq::<StmtView>::empty());
            assert(errors.deep_view() =~= Seq::<ParseErrorView>::empty());
        }
        while !self.is_done()
            invariant
                self.wf(),
                self.tokens() == ts,
                self.in_loop() == il,
                start <= self.position() <= ts.len(),
                grammar::parse_program(ts, start, il, Seq::empty(), Seq::empty())
                    == grammar::parse_program(
                    ts,
                    self.position(),
                    il,
                    stmts.deep_view(),
                    errors.deep_view(),
                ),
            decreases remaining(ts, self.position()),
        {
            let before = self.stream.current;
            let ghost seen = stmts.deep_view();
            let ghost met = errors.deep_view();
            match self.declaration() {
                Ok(s) => {
                    if self.stream.current == before {
                        errors.push(ParseError::LikelyLogicalError);
                        proof {
                            assert(errors.deep_view() =~= met.push(
                                ParseErrorView::LikelyLogicalError,
                            ));
                        }
                        return Err(errors);
                    }
                    stmts.push(s);
                    proof {
                        assert(stmts.deep_view() =~= seen.push(stmt_view(s)));
                    }
                },
                Err(e) => {
                    let ghost error = e@;
                    errors.push(e);
                    proof {
                        assert(errors.deep_view() =~= met.push(error));
                    }
                    self.syncronize();
                    if self.stream.current == before {
                        let ghost met2 = errors.deep_view();
                        errors.push(ParseError::LikelyLogicalError);
                        proof {
                            assert(errors.deep_view() =~= met2.push(
                                ParseErrorView::LikelyLogicalError,
                            ));
                        }
                        return Err(errors);
                    }
                },
            }
        }
        if errors.len() == 0 {
            Ok(stmts)
        } else {
            Err(errors)
        }
    }

    /// Discards tokens up to and including the next `;`, or up to the
    /// next token that may start a declaration.
    #[verifier::loop_isolation(false)]
    pub(crate) fn syncronize(&mut self)
        requires
            old(self).wf(),
        ensures
            moved(
                *old(self),
                *final(self),
                grammar::synchronize_len(old(self).tokens(), old(self).position()),
            ),
    {
        let ghost ts = self.tokens();
        let ghost start = self.position();
        loop
            invariant
                self.wf(),
                self.tokens() == ts,
                self.in_loop() == old(self).in_loop(),
                start <= self.position(),
                grammar::synchronize_len(ts, start) == (self.position() - start)
                    + grammar::synchronize_len(ts, self.position()),
            decreases remaining(ts, self.position()),
        {
            let t = match self.stream.peek() {
                None => {
                    return ;
                },
                Some(tok) => tok.token_type,
            };
            if t == TokenType::Semicolon {
                let _ = self.stream.next();
                return ;
            }
            if starts_declaration(t) {
                return ;
            }
            let _ = self.stream.next();
        }
    }

    /// Says whether a `break` is legal from here on.
    pub(crate) fn set_loop(&mut self, inside: bool)
        ensures
            final(self).wf() == old(self).wf(),
            final(self).tokens() == old(self).tokens(),
            final(self).position() == old(self).position(),
            final(self).in_loop() == inside,
    {
        self.is_in_loop = inside;
    }

    /// Takes a token, which must be of type `t`.
    pub(crate) fn expect(&mut self, msg: &'static str, t: TokenType) -> (r: Result<&Token, ParseError>)
        requires
            old(self).wf(),
        ensures
            token_rule(
                *old(self),
                *final(self),
                r,
                grammar::expect(old(self).tokens(), old(self).position(), msg@, t),
            ),
    {
        let tok = self.take_token()?;
        if tok.token_type == t {
            Ok(tok)
        } else {
            Err(
                ParseError::TokenAssertionFailure {
                    msg,
                    expected: t,
                    found: tok.token_type,
                    coordinate: tok.coordinate,
                },
            )
        }
    }

    pub(crate) fn next_is(&mut self, t: TokenType) -> (r: bool)
        requires
            old(self).wf(),
        ensures
            *final(self) == *old(self),
            r == grammar::next_is(old(self).tokens(), old(self).position(), t),
    {
        match self.stream.peek() {
            Some(tok) => tok.token_type == t,
            None => false,
        }
    }

    /// Takes the next token if it is of type `t`.
    pub(crate) fn match_exact(&mut self, t: TokenType) -> (r: Option<&Token>)
        requires
            old(self).wf(),
        ensures
            r is Some == grammar::next_is(old(self).tokens(), old(self).position(), t),
            r is Some ==> r->0@ == old(self).tokens()[old(self).position()],
            moved(
                *old(self),
                *final(self),
                if r is Some {
                    1nat
                } else {
                    0nat
                },
            ),
    {
        self.stream.take_if(
            |tok: &Token| -> (b: bool)
                ensures
                    b == (tok.token_type == t),
                { tok.token_type == t })
    }

    /// Takes the next token if it is an operator of the given level.
    pub(crate) fn match_operator(&mut self, level: u8) -> (r: Option<&Token>)
        requires
            old(self).wf(),
        ensures
            r is Some == (old(self).position() < old(self).tokens().len()
                && grammar::is_operator_of(
                level as nat,
                old(self).tokens()[old(self).position()].token_type,
            )),
            r is Some ==> r->0@ == old(self).tokens()[old(self).position()],
            moved(
                *old(self),
                *final(self),
                if r is Some {
                    1nat
                } else {
                    0nat
                },
            ),
    {
        self.stream.take_if(
            |tok: &Token| -> (b: bool)
                ensures
                    b == grammar::is_operator_of(level as nat, tok.token_type),
                { is_operator_of(level, tok.token_type) })
    }

    /// Takes the next token if it is an assignment operator.
    pub(crate) fn match_where_assignment(&mut self) -> (r: Option<&Token>)
        requires
            old(self).wf(),
        ensures
            r is Some == (old(self).position() < old(self).tokens().len()
                && grammar::is_assignment_type(
                old(self).tokens()[old(self).position()].token_type,
            )),
            r is Some ==> r->0@ == old(self).tokens()[old(self).position()],
            moved(
                *old(self),
                *final(self),
                if r is Some {
                    1nat
                } else {
                    0nat
                },
            ),
    {
        self.stream.take_if(
            |tok: &Token| -> (b: bool)
                ensures
                    b == grammar::is_assignment_type(tok.token_type),
                { is_assignment_type(tok.token_type) })
    }

    /// Takes the next token if it is a unary operator.
    pub(crate) fn match_where_unary(&mut self) -> (r: Option<&Token>)
        requires
            old(self).wf(),
        ensures
            r is Some == (old(self).position() < old(self).tokens().len()
                && grammar::is_unary_type(old(self).tokens()[old(self).position()].token_type)),
            r is Some ==> r->0@ == old(self).tokens()[old(self).position()],
            moved(
                *old(self),
                *final(self),
                if r is Some {
                    1nat
                } else {
                    0nat
                },
            ),
    {
        self.stream.take_if(
            |tok: &Token| -> (b: bool)
                ensures
                    b == grammar::is_unary_type(tok.token_type),
                { is_unary_type(tok.token_type) })
    }

    /// Takes a token; where none is left, that is an error.
    pub(crate) fn take_token(&mut self) -> (r: Result<&Token, ParseError>)
        requires
            old(self).wf(),
        ensures
            token_rule(
                *old(self),
                *final(self),
                r,
                grammar::take_token(old(self).tokens(), old(self).position()),
            ),
    {
        if self.stream.current >= self.stream.tokens.len() {
            let after_token = match self.stream.previous() {
                Some(tok) => tok.lexeme_or_empty(),
                None => String::new(),
            };
            return Err(ParseError::UnexpectedEndOfFile { after_token });
        }
        match self.stream.next() {
            Some(tok) => Ok(tok),
            None => Err(ParseError::LikelyLogicalError),
        }
    }

    pub(crate) fn is_done(&self) -> (r: bool)
        requires
            self.wf(),
        ensures
            r == grammar::is_done(self.tokens(), self.position()),
    {
        if let Some(tok) = self.stream.peek() {
            tok.token_type == TokenType::Eof
        } else {
            true
        }
    }
}

} // verus!
