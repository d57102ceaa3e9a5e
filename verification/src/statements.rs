//! The rules of the grammar for declarations and statements.
use crate::ast::{function_view, stmt_view, stmts_view, Expr, ExprView, Stmt, StmtView};
use crate::errors::{ParseError, ParseErrorView};
use crate::grammar;
use crate::grammar::{after, remaining};
use crate::parser::{
    desugar_for_loop, moved, option_expr_view, option_stmt_view, stmt_rule, Parser,
};
use crate::token::{Token, TokenType, TokenView};
use vstd::prelude::*;

verus! {

impl Parser {
    /// A declaration: of a variable, of a function, or any other statement.
    pub fn declaration(&mut self) -> (r: Result<Stmt, ParseError>)
        requires
            old(self).wf(),
        ensures
            stmt_rule(
                *old(self),
                *final(self),
                r,
                grammar::parse_declaration(
                    old(self).tokens(),
                    old(self).position(),
                    old(self).in_loop(),
                ),
            ),
        decreases remaining(old(self).tokens(), old(self).position()), 60int,
    {
        if self.match_exact(TokenType::Var).is_some() {
            self.var_declaration()
        } else if self.match_exact(TokenType::Fun).is_some() {
            self.function_declaration()
        } else {
            self.statement()
        }
    }

    /// A named function, after its `fun`.
    pub fn function_declaration(&mut self) -> (r: Result<Stmt, ParseError>)
        requires
            old(self).wf(),
        ensures
            stmt_rule(
                *old(self),
                *final(self),
                r,
                grammar::parse_function_declaration(
                    old(self).tokens(),
                    old(self).position(),
                    old(self).in_loop(),
                ),
            ),
        decreases remaining(old(self).tokens(), old(self).position()), 58int,
    {
        let ghost ts = self.tokens();
        let ghost here = self.position();
        let ghost il = self.in_loop();
        let name = self.expect("functions should have a name", TokenType::Identifier)?.clone();
        assert(self.at(ts, il, here + 1));
        self.expect("function dec should be followed by \"(\"", TokenType::LeftParen)?;
        assert(self.at(ts, il, here + 2));
        let ghost m = grammar::parse_function_rest(ts, here + 2, il);
        let (params, body) = self.function_rest()?;
        assert(self.at(ts, il, here + 2 + m.taken));
        proof {
            function_view(name, params, body);
        }
        Ok(Stmt::Function { name, params, body })
    }

    /// The parameters and the body of a function, after its `(`.
    #[verifier::loop_isolation(false)]
    pub(crate) fn function_rest(&mut self) -> (r: Result<(Vec<Token>, Vec<Stmt>), ParseError>)
        requires
            old(self).wf(),
        ensures
            ({
                let m = grammar::parse_function_rest(
                    old(self).tokens(),
                    old(self).position(),
                    old(self).in_loop(),
                );
                &&& moved(*old(self), *final(self), m.taken)
                &&& match r {
                    Ok(f) => m.result == Ok::<(Seq<TokenView>, Seq<StmtView>), ParseErrorView>(
                        (f.0.deep_view(), f.1.deep_view()),
                    ),
                    Err(e) => m.result == Err::<(Seq<TokenView>, Seq<StmtView>), ParseErrorView>(
                        e@,
                    ),
                }
            }),
        decreases remaining(old(self).tokens(), old(self).position()), 50int,
    {
        let ghost ts = self.tokens();
        let ghost start = self.position();
        let ghost il = self.in_loop();
        let mut params: Vec<Token> = Vec::new();
        proof {
            assert(params.deep_view() =~= Seq::<TokenView>::empty());
        }
        if !self.next_is(TokenType::RightParen) {
            loop
                invariant
                    self.wf(),
                    self.tokens() == ts,
                    self.in_loop() == il,
                    start <= self.position(),
                    grammar::parse_parameters_rest(ts, start, Seq::empty()) == after(
                        (self.position() - start) as nat,
                        grammar::parse_parameters_rest(ts, self.position(), params.deep_view()),
                    ),
                decreases remaining(ts, self.position()),
            {
                let ghost seen = params.deep_view();
                let ghost q = self.position();
                let param = self.expect("expected a list of parameters", TokenType::Identifier)?.clone();
                assert(self.at(ts, il, q + 1));
                params.push(param);
                proof {
                    assert(params.deep_view() =~= seen.push(param@));
                }
                if !self.match_exact(TokenType::Comma).is_some() {
                    assert(self.at(ts, il, q + 1));
                    break ;
                }
                assert(self.at(ts, il, q + 2));
            }
        }
        let ghost names = grammar::parse_parameters_list(ts, start);
        assert(names.result == Ok::<Seq<TokenView>, ParseErrorView>(params.deep_view()));
        assert(self.at(ts, il, start + names.taken));
        self.expect("function declaration to close parens properly", TokenType::RightParen)?;
        assert(self.at(ts, il, start + names.taken + 1));
        self.expect("function to be followed by a block scope", TokenType::LeftBrace)?;
        assert(self.at(ts, il, start + names.taken + 2));
        let ghost m = grammar::parse_block_rest(ts, start + names.taken + 2, il, Seq::empty());
        let body = self.block_statements()?;
        assert(self.at(ts, il, start + names.taken + 2 + m.taken));
        Ok((params, body))
    }

    /// A variable declaration, after its `var`.
    pub fn var_declaration(&mut self) -> (r: Result<Stmt, ParseError>)
        requires
            old(self).wf(),
        ensures
            stmt_rule(
                *old(self),
                *final(self),
                r,
                grammar::parse_var_declaration(
                    old(self).tokens(),
                    old(self).position(),
                    old(self).in_loop(),
                ),
            ),
        decreases remaining(old(self).tokens(), old(self).position()), 58int,
    {
        let ghost ts = self.tokens();
        let ghost here = self.position();
        let ghost il = self.in_loop();
        let name = self.expect("var statment missing identifier", TokenType::Identifier)?.clone();
        assert(self.at(ts, il, here + 1));
        let ghost m = grammar::parse_expression(ts, here + 2, il);
        let assigned = self.match_exact(TokenType::Equal).is_some();
        let ghost n: nat = if assigned {
            1 + m.taken
        } else {
            0
        };
        let initializer = if assigned {
            assert(self.at(ts, il, here + 2));
            let value = self.expression()?;
            Some(value)
        } else {
            None
        };
        assert(self.at(ts, il, here + 1 + n));
        self.expect("unterminated var statement", TokenType::Semicolon)?;
        assert(self.at(ts, il, here + 2 + n));
        Ok(Stmt::Var { name, initializer })
    }

    /// A statement that is no declaration.
    pub fn statement(&mut self) -> (r: Result<Stmt, ParseError>)
        requires
            old(self).wf(),
        ensures
            stmt_rule(
                *old(self),
                *final(self),
                r,
                grammar::parse_statement(
                    old(self).tokens(),
                    old(self).position(),
                    old(self).in_loop(),
                ),
            ),
        decreases remaining(old(self).tokens(), old(self).position()), 59int,
    {
        if self.match_exact(TokenType::Print).is_some() {
            self.print_statement()
        } else if self.match_exact(TokenType::LeftBrace).is_some() {
            self.block()
        } else if self.match_exact(TokenType::If).is_some() {
            self.if_statement()
        } else if self.next_is(TokenType::While) || self.next_is(TokenType::For) {
            self.loop_statment()
        } else if self.next_is(TokenType::Break) {
            self.break_statement()
        } else if self.next_is(TokenType::Return) {
            self.return_statement()
        } else {
            self.expression_statement()
        }
    }

    /// A `return`, which the next token is.
    pub(crate) fn return_statement(&mut self) -> (r: Result<Stmt, ParseError>)
        requires
            old(self).wf(),
            grammar::next_is(old(self).tokens(), old(self).position(), TokenType::Return),
        ensures
            stmt_rule(
                *old(self),
                *final(self),
                r,
                after(
                    1,
                    grammar::parse_return_rest(
                        old(self).tokens(),
                        old(self).position() + 1,
                        old(self).in_loop(),
                        old(self).tokens()[old(self).position()],
                    ),
                ),
            ),
        decreases remaining(old(self).tokens(), old(self).position()), 58int,
    {
        let ghost ts = self.tokens();
        let ghost here = self.position();
        let ghost il = self.in_loop();
        let keyword = self.take_token()?.clone();
        assert(self.at(ts, il, here + 1));
        let ghost m = grammar::parse_expression(ts, here + 1, il);
        let value = if self.next_is(TokenType::Semicolon) {
            None
        } else {
            let inner = self.expression()?;
            assert(self.at(ts, il, here + 1 + m.taken));
            Some(inner)
        };
        assert(self.tokens() == ts);
        self.expect("unterminated return statement", TokenType::Semicolon)?;
        Ok(Stmt::Return { keyword, value })
    }

    pub(crate) fn break_statement(&mut self) -> (r: Result<Stmt, ParseError>)
        requires
            old(self).wf(),
        ensures
            stmt_rule(
                *old(self),
                *final(self),
                r,
                grammar::parse_break_statement(
                    old(self).tokens(),
                    old(self).position(),
                    old(self).in_loop(),
                ),
            ),
    {
        let ghost ts = self.tokens();
        let ghost here = self.position();
        let ghost il = self.in_loop();
        let keyword = self.take_token()?.clone();
        assert(self.at(ts, il, here + 1));
        if !self.breakable() {
            return Err(
                ParseError::UnexpectedToken {
                    msg: "\"break\" can only occur inside a loop",
                    token_lexeme: keyword.lexeme_or_empty(),
                    coordinate: keyword.coordinate,
                },
            );
        }
        self.expect("unterminated \"break\"", TokenType::Semicolon)?;
        Ok(Stmt::Break { keyword })
    }

    /// A `while` or a `for`, which the next token is. Inside it `break` is
    /// legal; after it, on every path, the mark is what it was before.
    pub(crate) fn loop_statment(&mut self) -> (r: Result<Stmt, ParseError>)
        requires
            old(self).wf(),
            grammar::next_is(old(self).tokens(), old(self).position(), TokenType::While)
                || grammar::next_is(old(self).tokens(), old(self).position(), TokenType::For),
        ensures
            stmt_rule(
                *old(self),
                *final(self),
                r,
                grammar::parse_statement(
                    old(self).tokens(),
                    old(self).position(),
                    old(self).in_loop(),
                ),
            ),
        decreases remaining(old(self).tokens(), old(self).position()), 58int,
    {
        let ghost ts = self.tokens();
        let ghost here = self.position();
        let ghost il = self.in_loop();
        let outside = self.breakable();
        self.set_loop(true);
        let is_for = self.match_exact(TokenType::For).is_some();
        let res = if is_for {
            assert(self.at(ts, true, here + 1));
            self.for_statement()
        } else {
            let _ = self.match_exact(TokenType::While);
            assert(self.at(ts, true, here + 1));
            self.while_statement()
        };
        self.set_loop(outside);
        res
    }

    /// The initializer of a `for`.
    pub(crate) fn for_initializer(&mut self) -> (r: Result<Option<Stmt>, ParseError>)
        requires
            old(self).wf(),
        ensures
            ({
                let m = grammar::parse_for_initializer(
                    old(self).tokens(),
                    old(self).position(),
                    old(self).in_loop(),
                );
                &&& moved(*old(self), *final(self), m.taken)
                &&& match r {
                    Ok(s) => m.result == Ok::<Option<StmtView>, ParseErrorView>(
                        option_stmt_view(s),
                    ),
                    Err(e) => m.result == Err::<Option<StmtView>, ParseErrorView>(e@),
                }
            }),
        decreases remaining(old(self).tokens(), old(self).position()), 58int,
    {
        let ghost ts = self.tokens();
        let ghost here = self.position();
        let ghost il = self.in_loop();
        if self.match_exact(TokenType::Semicolon).is_some() {
            Ok(None)
        } else if self.match_exact(TokenType::Var).is_some() {
            assert(self.at(ts, il, here + 1));
            let s = self.var_declaration()?;
            Ok(Some(s))
        } else {
            assert(self.at(ts, il, here));
            let s = self.expression_statement()?;
            Ok(Some(s))
        }
    }

    /// The condition of a `for` and the `;` after it.
    pub(crate) fn for_condition(&mut self) -> (r: Result<Option<Expr>, ParseError>)
        requires
            old(self).wf(),
        ensures
            ({
                let m = grammar::parse_for_condition(
                    old(self).tokens(),
                    old(self).position(),
                    old(self).in_loop(),
                );
                &&& moved(*old(self), *final(self), m.taken)
                &&& match r {
                    Ok(c) => m.result == Ok::<Option<ExprView>, ParseErrorView>(
                        option_expr_view(c),
                    ),
                    Err(e) => m.result == Err::<Option<ExprView>, ParseErrorView>(e@),
                }
            }),
        decreases remaining(old(self).tokens(), old(self).position()), 58int,
    {
        let ghost ts = self.tokens();
        let ghost here = self.position();
        let ghost il = self.in_loop();
        if self.match_exact(TokenType::Semicolon).is_some() {
            Ok(None)
        } else {
            let ghost m = grammar::parse_expression(ts, here, il);
            let cond = Some(self.expression()?);
            assert(self.at(ts, il, here + m.taken));
            self.expect("for loop condition missing termating \";\"", TokenType::Semicolon)?;
            Ok(cond)
        }
    }

    /// The increment of a `for` and the `)` after it.
    pub(crate) fn for_increment(&mut self) -> (r: Result<Option<Stmt>, ParseError>)
        requires
            old(self).wf(),
        ensures
            ({
                let m = grammar::parse_for_increment(
                    old(self).tokens(),
                    old(self).position(),
                    old(self).in_loop(),
                );
                &&& moved(*old(self), *final(self), m.taken)
                &&& match r {
                    Ok(s) => m.result == Ok::<Option<StmtView>, ParseErrorView>(
                        option_stmt_view(s),
                    ),
                    Err(e) => m.result == Err::<Option<StmtView>, ParseErrorView>(e@),
                }
            }),
        decreases remaining(old(self).tokens(), old(self).position()), 58int,
    {
        let ghost ts = self.tokens();
        let ghost here = self.position();
        let ghost il = self.in_loop();
        if self.match_exact(TokenType::RightParen).is_some() {
            Ok(None)
        } else {
            let ghost m = grammar::parse_expression(ts, here, il);
            let expression = self.expression()?;
            assert(self.at(ts, il, here + m.taken));
            let inc = Some(Stmt::Expression { expression });
            self.expect("for loop unclosed parens", TokenType::RightParen)?;
            Ok(inc)
        }
    }

    /// A `for`, after its keyword.
    pub(crate) fn for_statement(&mut self) -> (r: Result<Stmt, ParseError>)
        requires
            old(self).wf(),
        ensures
            stmt_rule(
                *old(self),
                *final(self),
                r,
                grammar::parse_for_statement(
                    old(self).tokens(),
                    old(self).position(),
                    old(self).in_loop(),
                ),
            ),
        decreases remaining(old(self).tokens(), old(self).position()), 59int,
    {
        let ghost ts = self.tokens();
        let ghost here = self.position();
        let ghost il = self.in_loop();
        self.expect("for loop requires \"(...'", TokenType::LeftParen)?;
        assert(self.at(ts, il, here + 1));
        let ghost m1 = grammar::parse_for_initializer(ts, here + 1, il);
        let intializer = self.for_initializer()?;
        let ghost n1 = 1 + m1.taken;
        assert(self.at(ts, il, here + n1));
        let ghost m2 = grammar::parse_for_condition(ts, here + n1, il);
        let condition = self.for_condition()?;
        let ghost n2 = n1 + m2.taken;
        assert(self.at(ts, il, here + n2));
        let ghost m3 = grammar::parse_for_increment(ts, here + n2, il);
        let increment = self.for_increment()?;
        let ghost n3 = n2 + m3.taken;
        assert(self.at(ts, il, here + n3));
        let ghost m4 = grammar::parse_statement(ts, here + n3, il);
        let body = self.statement()?;
        assert(self.at(ts, il, here + n3 + m4.taken));
        Ok(desugar_for_loop(intializer, condition, increment, body))
    }

    /// A `while`, after its keyword.
    pub(crate) fn while_statement(&mut self) -> (r: Result<Stmt, ParseError>)
        requires
            old(self).wf(),
        ensures
            stmt_rule(
                *old(self),
                *final(self),
                r,
                grammar::parse_while_statement(
                    old(self).tokens(),
                    old(self).position(),
                    old(self).in_loop(),
                ),
            ),
        decreases remaining(old(self).tokens(), old(self).position()), 58int,
    {
        let ghost ts = self.tokens();
        let ghost here = self.position();
        let ghost il = self.in_loop();
        self.expect("while statement requires \"(...\"", TokenType::LeftParen)?;
        assert(self.at(ts, il, here + 1));
        let ghost m1 = grammar::parse_expression(ts, here + 1, il);
        let condition = self.expression()?;
        let ghost n1 = 1 + m1.taken;
        assert(self.at(ts, il, here + n1));
        self.expect("while statement unclosed parens", TokenType::RightParen)?;
        assert(self.at(ts, il, here + n1 + 1));
        let ghost m2 = grammar::parse_statement(ts, here + n1 + 1, il);
        let inner = self.statement()?;
        assert(self.at(ts, il, here + n1 + 1 + m2.taken));
        let body = Box::new(inner);
        Ok(Stmt::While { condition, body })
    }

    /// The `else` branch of an `if`, where there is one.
    pub(crate) fn else_branch(&mut self) -> (r: Result<Option<Box<Stmt>>, ParseError>)
        requires
            old(self).wf(),
        ensures
            ({
                let m = grammar::parse_else_branch(
                    old(self).tokens(),
                    old(self).position(),
                    old(self).in_loop(),
                );
                &&& moved(*old(self), *final(self), m.taken)
                &&& match r {
                    Ok(Some(s)) => m.result == Ok::<Option<Box<StmtView>>, ParseErrorView>(
                        Some(Box::new(stmt_view(*s))),
                    ),
                    Ok(None) => m.result == Ok::<Option<Box<StmtView>>, ParseErrorView>(None),
                    Err(e) => m.result == Err::<Option<Box<StmtView>>, ParseErrorView>(e@),
                }
            }),
        decreases remaining(old(self).tokens(), old(self).position()), 60int,
    {
        let ghost ts = self.tokens();
        let ghost here = self.position();
        let ghost il = self.in_loop();
        if self.match_exact(TokenType::Else).is_some() {
            assert(self.at(ts, il, here + 1));
            let inner = self.statement()?;
            Ok(Some(Box::new(inner)))
        } else {
            Ok(None)
        }
    }

    /// An `if`, after its keyword.
    pub(crate) fn if_statement(&mut self) -> (r: Result<Stmt, ParseError>)
        requires
            old(self).wf(),
        ensures
            stmt_rule(
                *old(self),
                *final(self),
                r,
                grammar::parse_if_statement(
                    old(self).tokens(),
                    old(self).position(),
                    old(self).in_loop(),
                ),
            ),
        decreases remaining(old(self).tokens(), old(self).position()), 58int,
    {
        let ghost ts = self.tokens();
        let ghost here = self.position();
        let ghost il = self.in_loop();
        self.expect("if statement requires \"(...\"", TokenType::LeftParen)?;
        assert(self.at(ts, il, here + 1));
        let ghost m1 = grammar::parse_expression(ts, here + 1, il);
        let condition = self.expression()?;
        let ghost n1 = 1 + m1.taken;
        assert(self.at(ts, il, here + n1));
        self.expect("if statement unclosed parens", TokenType::RightParen)?;
        let ghost n2 = n1 + 1;
        assert(self.at(ts, il, here + n2));
        let ghost m2 = grammar::parse_statement(ts, here + n2, il);
        let inner = self.statement()?;
        let ghost n3 = n2 + m2.taken;
        assert(self.at(ts, il, here + n3));
        let then_branch = Box::new(inner);
        let ghost m3 = grammar::parse_else_branch(ts, here + n3, il);
        let else_branch = self.else_branch()?;
        assert(self.at(ts, il, here + n3 + m3.taken));
        Ok(Stmt::If { condition, then_branch, else_branch })
    }

    /// The statements of a block and its `}`, after its `{`.
    #[verifier::loop_isolation(false)]
    pub(crate) fn block_statements(&mut self) -> (r: Result<Vec<Stmt>, ParseError>)
        requires
            old(self).wf(),
        ensures
            ({
                let m = grammar::parse_block_rest(
                    old(self).tokens(),
                    old(self).position(),
                    old(self).in_loop(),
                    Seq::empty(),
                );
                &&& moved(*old(self), *final(self), m.taken)
                &&& match r {
                    Ok(list) => m.result == Ok::<Seq<StmtView>, ParseErrorView>(list.deep_view()),
                    Err(e) => m.result == Err::<Seq<StmtView>, ParseErrorView>(e@),
                }
            }),
        decreases remaining(old(self).tokens(), old(self).position()), 70int,
    {
        let ghost ts = self.tokens();
        let ghost start = self.position();
        let ghost il = self.in_loop();
        let mut statements: Vec<Stmt> = Vec::new();
        proof {
            assert(statements.deep_view() =~= Seq::<StmtView>::empty());
        }
        while !(self.next_is(TokenType::RightBrace) || self.is_done())
            invariant
                self.wf(),
                self.tokens() == ts,
                self.in_loop() == il,
                start <= self.position(),
                grammar::parse_block_rest(ts, start, il, Seq::empty()) == after(
                    (self.position() - start) as nat,
                    grammar::parse_block_rest(ts, self.position(), il, statements.deep_view()),
                ),
            decreases remaining(ts, self.position()),
        {
            let before = self.cursor();
            let ghost seen = statements.deep_view();
            let ghost m = grammar::parse_declaration(ts, before as int, il);
            let s = self.declaration()?;
            assert(self.at(ts, il, before + m.taken));
            if self.cursor() == before {
                return Err(ParseError::LikelyLogicalError);
            }
            statements.push(s);
            proof {
                assert(statements.deep_view() =~= seen.push(stmt_view(s)));
            }
        }
        let ghost q = self.position();
        self.expect("unterminated block scope", TokenType::RightBrace)?;
        assert(self.at(ts, il, q + 1));
        Ok(statements)
    }

    /// A block, after its `{`.
    pub(crate) fn block(&mut self) -> (r: Result<Stmt, ParseError>)
        requires
            old(self).wf(),
        ensures
            stmt_rule(
                *old(self),
                *final(self),
                r,
                grammar::parse_block(old(self).tokens(), old(self).position(), old(self).in_loop()),
            ),
        decreases remaining(old(self).tokens(), old(self).position()), 71int,
    {
        let statements = self.block_statements()?;
        proof {
            stmts_view(statements);
        }
        Ok(Stmt::Block { statements })
    }

    /// A `print`, after its keyword.
    pub(crate) fn print_statement(&mut self) -> (r: Result<Stmt, ParseError>)
        requires
            old(self).wf(),
        ensures
            stmt_rule(
                *old(self),
                *final(self),
                r,
                grammar::parse_print_statement(
                    old(self).tokens(),
                    old(self).position(),
                    old(self).in_loop(),
                ),
            ),
        decreases remaining(old(self).tokens(), old(self).position()), 57int,
    {
        let ghost ts = self.tokens();
        let ghost here = self.position();
        let ghost il = self.in_loop();
        let ghost m = grammar::parse_expression(ts, here, il);
        let expression = self.expression()?;
        assert(self.at(ts, il, here + m.taken));
        self.expect("unterminated \"print\" statement", TokenType::Semicolon)?;
        Ok(Stmt::Print { expression })
    }

    pub(crate) fn expression_statement(&mut self) -> (r: Result<Stmt, ParseError>)
        requires
            old(self).wf(),
        ensures
            stmt_rule(
                *old(self),
                *final(self),
                r,
                grammar::parse_expression_statement(
                    old(self).tokens(),
                    old(self).position(),
                    old(self).in_loop(),
                ),
            ),
        decreases remaining(old(self).tokens(), old(self).position()), 57int,
    {
        let ghost ts = self.tokens();
        let ghost here = self.position();
        let ghost il = self.in_loop();
        let ghost m = grammar::parse_expression(ts, here, il);
        let expression = self.expression()?;
        assert(self.at(ts, il, here + m.taken));
        self.expect("unterminated statement", TokenType::Semicolon)?;
        Ok(Stmt::Expression { expression })
    }

}

} // verus!
