//! The rules of the grammar for expressions.
use crate::ast::{call_view, expr_view, function_expr_view, Expr, ExprView};
use crate::errors::{ParseError, ParseErrorView};
use crate::grammar;
use crate::grammar::{after, remaining};
use crate::parser::{desugar_assignment, expr_rule, literal_type, Parser};
use crate::token::TokenType;
use vstd::prelude::*;

verus! {

impl Parser {
    pub(crate) fn expression(&mut self) -> (r: Result<Expr, ParseError>)
        requires
            old(self).wf(),
        ensures
            expr_rule(
                *old(self),
                *final(self),
                r,
                grammar::parse_expression(
                    old(self).tokens(),
                    old(self).position(),
                    old(self).in_loop(),
                ),
            ),
        decreases remaining(old(self).tokens(), old(self).position()), 40int,
    {
        self.assignment()
    }

    pub(crate) fn assignment(&mut self) -> (r: Result<Expr, ParseError>)
        requires
            old(self).wf(),
        ensures
            expr_rule(
                *old(self),
                *final(self),
                r,
                grammar::parse_assignment(
                    old(self).tokens(),
                    old(self).position(),
                    old(self).in_loop(),
                ),
            ),
        decreases remaining(old(self).tokens(), old(self).position()), 39int,
    {
        let ghost ts = self.tokens();
        let ghost here = self.position();
        let ghost il = self.in_loop();
        let ghost m = grammar::parse_binary(ts, here, il, 0);
        let expr = self.binary(0)?;
        assert(self.at(ts, il, here + m.taken));
        let operator = match self.match_where_assignment() {
            Some(tok) => tok.clone(),
            None => {
                return Ok(expr);
            },
        };
        assert(self.at(ts, il, here + m.taken + 1));
        if let Expr::Variable { name } = expr {
            let ghost m2 = grammar::parse_assignment(ts, here + m.taken + 1, il);
            let value = self.assignment()?;
            assert(self.at(ts, il, here + m.taken + 1 + m2.taken));
            if operator.token_type != TokenType::Equal {
                return desugar_assignment(name, operator.token_type, value);
            }
            Ok(Expr::Assign { name, value: Box::new(value) })
        } else {
            Err(
                ParseError::InvalidAssignmentTarget {
                    token_lexeme: operator.lexeme_or_empty(),
                    coordinate: operator.coordinate,
                },
            )
        }
    }

    /// An expression of the binary operators of `level` and of all tighter
    /// ones: `or`, `and`, equality, comparison, term, factor.
    #[verifier::loop_isolation(false)]
    pub(crate) fn binary(&mut self, level: u8) -> (r: Result<Expr, ParseError>)
        requires
            old(self).wf(),
        ensures
            expr_rule(
                *old(self),
                *final(self),
                r,
                grammar::parse_binary(
                    old(self).tokens(),
                    old(self).position(),
                    old(self).in_loop(),
                    level as nat,
                ),
            ),
        decreases remaining(old(self).tokens(), old(self).position()),
            grammar::binary_rank(level as nat),
    {
        if level >= 6 {
            return self.unary();
        }
        let ghost ts = self.tokens();
        let ghost il = self.in_loop();
        let mut expr = self.binary(level + 1)?;
        let ghost first = self.position();
        let ghost first_view = expr_view(expr);
        loop
            invariant
                self.wf(),
                self.tokens() == ts,
                self.in_loop() == il,
                first <= self.position(),
                level < 6,
                grammar::parse_binary_rest(ts, first, il, level as nat, first_view) == after(
                    (self.position() - first) as nat,
                    grammar::parse_binary_rest(
                        ts,
                        self.position(),
                        il,
                        level as nat,
                        expr_view(expr),
                    ),
                ),
            decreases remaining(ts, self.position()),
        {
            let ghost q = self.position();
            let operator = match self.match_operator(level) {
                Some(tok) => tok.clone(),
                None => {
                    break ;
                },
            };
            assert(self.at(ts, il, q + 1));
            let ghost m = grammar::parse_binary(ts, q + 1, il, (level + 1) as nat);
            let right = self.binary(level + 1)?;
            assert(self.at(ts, il, q + 1 + m.taken));
            expr = if level <= 1 {
                Expr::Logical { left: Box::new(expr), operator, right: Box::new(right) }
            } else {
                Expr::Binary { left: Box::new(expr), operator, right: Box::new(right) }
            };
        }
        Ok(expr)
    }

    pub(crate) fn unary(&mut self) -> (r: Result<Expr, ParseError>)
        requires
            old(self).wf(),
        ensures
            expr_rule(
                *old(self),
                *final(self),
                r,
                grammar::parse_unary(old(self).tokens(), old(self).position(), old(self).in_loop()),
            ),
        decreases remaining(old(self).tokens(), old(self).position()), 10int,
    {
        let ghost ts = self.tokens();
        let ghost here = self.position();
        let ghost il = self.in_loop();
        let operator = match self.match_where_unary() {
            Some(tok) => tok.clone(),
            None => {
                return self.call();
            },
        };
        assert(self.at(ts, il, here + 1));
        let right = self.unary()?;
        Ok(Expr::Unary { operator, right: Box::new(right) })
    }

    #[verifier::loop_isolation(false)]
    pub(crate) fn call(&mut self) -> (r: Result<Expr, ParseError>)
        requires
            old(self).wf(),
        ensures
            expr_rule(
                *old(self),
                *final(self),
                r,
                grammar::parse_call(old(self).tokens(), old(self).position(), old(self).in_loop()),
            ),
        decreases remaining(old(self).tokens(), old(self).position()), 9int,
    {
        let ghost ts = self.tokens();
        let ghost il = self.in_loop();
        let mut expr = self.primary()?;
        let ghost first = self.position();
        let ghost first_view = expr_view(expr);
        loop
            invariant
                self.wf(),
                self.tokens() == ts,
                self.in_loop() == il,
                first <= self.position(),
                grammar::parse_call_rest(ts, first, il, first_view) == after(
                    (self.position() - first) as nat,
                    grammar::parse_call_rest(ts, self.position(), il, expr_view(expr)),
                ),
            decreases remaining(ts, self.position()),
        {
            let ghost q = self.position();
            if self.match_exact(TokenType::LeftParen).is_some() {
                assert(self.at(ts, il, q + 1));
                let ghost m = grammar::parse_finish_call(ts, q + 1, il, expr_view(expr));
                expr = self.finish_call(expr)?;
                assert(self.at(ts, il, q + 1 + m.taken));
            } else {
                break ;
            }
        }
        Ok(expr)
    }

    /// The arguments of a call of `expr` and its closing parenthesis.
    #[verifier::loop_isolation(false)]
    pub(crate) fn finish_call(&mut self, expr: Expr) -> (r: Result<Expr, ParseError>)
        requires
            old(self).wf(),
        ensures
            expr_rule(
                *old(self),
                *final(self),
                r,
                grammar::parse_finish_call(
                    old(self).tokens(),
                    old(self).position(),
                    old(self).in_loop(),
                    expr_view(expr),
                ),
            ),
        decreases remaining(old(self).tokens(), old(self).position()), 47int,
    {
        let ghost ts = self.tokens();
        let ghost start = self.position();
        let ghost il = self.in_loop();
        let mut args: Vec<Expr> = Vec::new();
        proof {
            assert(args.deep_view() =~= Seq::<ExprView>::empty());
        }
        if !self.next_is(TokenType::RightParen) {
            loop
                invariant
                    self.wf(),
                    self.tokens() == ts,
                    self.in_loop() == il,
                    start <= self.position(),
                    grammar::parse_arguments_rest(ts, start, il, Seq::empty()) == after(
                        (self.position() - start) as nat,
                        grammar::parse_arguments_rest(ts, self.position(), il, args.deep_view()),
                    ),
                decreases remaining(ts, self.position()),
            {
                let ghost seen = args.deep_view();
                let ghost q = self.position();
                let ghost m = grammar::parse_expression(ts, q, il);
                let arg = self.expression()?;
                assert(self.at(ts, il, q + m.taken));
                args.push(arg);
                proof {
                    assert(args.deep_view() =~= seen.push(expr_view(arg)));
                }
                if !self.match_exact(TokenType::Comma).is_some() {
                    break ;
                }
                assert(self.at(ts, il, q + m.taken + 1));
            }
        }
        let ghost list = grammar::parse_arguments_list(ts, start, il);
        assert(list.result == Ok::<Seq<ExprView>, ParseErrorView>(args.deep_view()));
        assert(self.at(ts, il, start + list.taken));
        let paren = self.expect("function calls should end in \")\"", TokenType::RightParen)?.clone();
        proof {
            call_view(expr, paren, args);
        }
        Ok(Expr::Call { callee: Box::new(expr), paren, args })
    }

    pub(crate) fn primary(&mut self) -> (r: Result<Expr, ParseError>)
        requires
            old(self).wf(),
        ensures
            expr_rule(
                *old(self),
                *final(self),
                r,
                grammar::parse_primary(
                    old(self).tokens(),
                    old(self).position(),
                    old(self).in_loop(),
                ),
            ),
        decreases remaining(old(self).tokens(), old(self).position()), 7int,
    {
        let ghost ts = self.tokens();
        let ghost here = self.position();
        let ghost il = self.in_loop();
        let tok = self.take_token()?.clone();
        assert(self.at(ts, il, here + 1));
        if literal_type(tok.token_type) {
            return Ok(Expr::Literal { value: tok });
        }
        if tok.token_type == TokenType::Identifier {
            return Ok(Expr::Variable { name: tok });
        }
        if tok.token_type == TokenType::LeftParen {
            let ghost m = grammar::parse_expression(ts, here + 1, il);
            let expr = self.expression()?;
            assert(self.at(ts, il, here + 1 + m.taken));
            self.expect("unterminated left parens", TokenType::RightParen)?;
            return Ok(Expr::Grouping { expression: Box::new(expr) });
        }
        if tok.token_type == TokenType::Fun {
            return self.function_expression();
        }
        Err(
            ParseError::UnexpectedToken {
                msg: "parsing \"primary\"",
                token_lexeme: tok.lexeme_or_empty(),
                coordinate: tok.coordinate,
            },
        )
    }

    /// An anonymous function, after its `fun`.
    pub(crate) fn function_expression(&mut self) -> (r: Result<Expr, ParseError>)
        requires
            old(self).wf(),
        ensures
            expr_rule(
                *old(self),
                *final(self),
                r,
                grammar::parse_function_expression(
                    old(self).tokens(),
                    old(self).position(),
                    old(self).in_loop(),
                ),
            ),
        decreases remaining(old(self).tokens(), old(self).position()), 51int,
    {
        let ghost ts = self.tokens();
        let ghost here = self.position();
        let ghost il = self.in_loop();
        self.expect("function expression should be followed by \"(\"", TokenType::LeftParen)?;
        assert(self.at(ts, il, here + 1));
        let (params, body) = self.function_rest()?;
        proof {
            function_expr_view(params, body);
        }
        Ok(Expr::Function { params, body })
    }

}

} // verus!
