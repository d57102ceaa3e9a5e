//! The grammar, as a function from a list of tokens to syntax.
//!
//! Every rule reads the tokens from a position on and says what it found,
//! or the error it met, and how many tokens it took in either case.
use crate::ast::{ExprView, StmtView};
use crate::errors::ParseErrorView;
use crate::token::{LiteralView, TokenType, TokenView};
use vstd::prelude::*;

verus! {

/// The outcome of a rule: what it found or the error it met, and the number
/// of tokens it took.
pub struct Parsed<T> {
    pub result: Result<T, ParseErrorView>,
    pub taken: nat,
}

/// The outcome `x` of a rule that ran after `k` tokens had been taken.
pub open spec fn after<T>(k: nat, x: Parsed<T>) -> Parsed<T> {
    Parsed { result: x.result, taken: k + x.taken }
}

pub open spec fn found<T>(value: T, taken: nat) -> Parsed<T> {
    Parsed { result: Ok(value), taken }
}

pub open spec fn failed<T>(error: ParseErrorView, taken: nat) -> Parsed<T> {
    Parsed { result: Err(error), taken }
}

/// How many tokens stand at position `p` and after it.
pub open spec fn remaining(ts: Seq<TokenView>, p: int) -> nat {
    if p <= ts.len() {
        (ts.len() - p) as nat
    } else {
        0
    }
}

pub open spec fn next_is(ts: Seq<TokenView>, p: int, t: TokenType) -> bool {
    0 <= p < ts.len() && ts[p].token_type == t
}

/// Nothing is left to parse: the next token is `Eof`, or there is none.
pub open spec fn is_done(ts: Seq<TokenView>, p: int) -> bool {
    !(0 <= p < ts.len()) || ts[p].token_type == TokenType::Eof
}

/// The error for a token that is wanted where the list has ended; it
/// names the lexeme of the last token.
pub open spec fn end_of_file(ts: Seq<TokenView>, p: int) -> ParseErrorView {
    ParseErrorView::UnexpectedEndOfFile {
        after_token: if 0 < p <= ts.len() {
            ts[p - 1].lexeme_or_empty()
        } else {
            Seq::empty()
        },
    }
}

pub open spec fn take_token(ts: Seq<TokenView>, p: int) -> Parsed<TokenView> {
    if 0 <= p < ts.len() {
        found(ts[p], 1)
    } else {
        failed(end_of_file(ts, p), 0)
    }
}

/// Takes a token, which must be of type `t`.
pub open spec fn expect(ts: Seq<TokenView>, p: int, msg: Seq<char>, t: TokenType) -> Parsed<
    TokenView,
> {
    if 0 <= p < ts.len() {
        if ts[p].token_type == t {
            found(ts[p], 1)
        } else {
            failed(
                ParseErrorView::TokenAssertionFailure {
                    msg,
                    expected: t,
                    found: ts[p].token_type,
                    coordinate: ts[p].coordinate,
                },
                1,
            )
        }
    } else {
        failed(end_of_file(ts, p), 0)
    }
}

pub open spec fn unexpected(msg: Seq<char>, token: TokenView) -> ParseErrorView {
    ParseErrorView::UnexpectedToken {
        msg,
        token_lexeme: token.lexeme_or_empty(),
        coordinate: token.coordinate,
    }
}

pub open spec fn is_literal_type(t: TokenType) -> bool {
    t == TokenType::Number || t == TokenType::String || t == TokenType::True || t
        == TokenType::False || t == TokenType::Nil
}

pub open spec fn is_assignment_type(t: TokenType) -> bool {
    t == TokenType::Equal || t == TokenType::PlusEqual || t == TokenType::MinusEqual || t
        == TokenType::StarEqual || t == TokenType::SlashEqual
}

pub open spec fn is_unary_type(t: TokenType) -> bool {
    t == TokenType::Bang || t == TokenType::Minus
}

/// Whether `t` is an operator of the given level of precedence. There are
/// six levels: `or`, `and`, equality, comparison, term and factor, from
/// the loosest, level 0, on.
pub open spec fn is_operator_of(level: nat, t: TokenType) -> bool {
    if level == 0 {
        t == TokenType::Or
    } else if level == 1 {
        t == TokenType::And
    } else if level == 2 {
        t == TokenType::BangEqual || t == TokenType::EqualEqual
    } else if level == 3 {
        t == TokenType::Greater || t == TokenType::GreaterEqual || t == TokenType::Less || t
            == TokenType::LessEqual
    } else if level == 4 {
        t == TokenType::Minus || t == TokenType::Plus
    } else if level == 5 {
        t == TokenType::Slash || t == TokenType::Star
    } else {
        false
    }
}

/// The node for `left operator right`: `or` and `and` are logical, the
/// other operators binary.
pub open spec fn join(level: nat, left: ExprView, operator: TokenView, right: ExprView) -> ExprView {
    if level <= 1 {
        ExprView::Logical { left: Box::new(left), operator, right: Box::new(right) }
    } else {
        ExprView::Binary { left: Box::new(left), operator, right: Box::new(right) }
    }
}

/// The plain operator of a compound assignment operator.
pub open spec fn plain_operator(t: TokenType) -> Option<TokenType> {
    match t {
        TokenType::PlusEqual => Some(TokenType::Plus),
        TokenType::MinusEqual => Some(TokenType::Minus),
        TokenType::StarEqual => Some(TokenType::Star),
        TokenType::SlashEqual => Some(TokenType::Slash),
        _ => None,
    }
}

/// `name op= value` is `name = name op value`, with `op` on a synthetic token.
pub open spec fn desugar_assignment(name: TokenView, t: TokenType, value: ExprView) -> Result<
    ExprView,
    ParseErrorView,
> {
    match plain_operator(t) {
        Some(operator) => Ok(
            ExprView::Assign {
                name,
                value: Box::new(
                    ExprView::Binary {
                        left: Box::new(ExprView::Variable { name }),
                        operator: TokenView::synthetic(operator, LiteralView::Nil),
                        right: Box::new(value),
                    },
                ),
            },
        ),
        None => Err(
            ParseErrorView::InvalidAssignmentTarget {
                token_lexeme: name.lexeme_or_empty(),
                coordinate: name.coordinate,
            },
        ),
    }
}

/// The assignment of `value` to `name` by the operator `t`.
pub open spec fn assignment_of(name: TokenView, t: TokenType, value: ExprView) -> Result<
    ExprView,
    ParseErrorView,
> {
    if t == TokenType::Equal {
        Ok(ExprView::Assign { name, value: Box::new(value) })
    } else {
        desugar_assignment(name, t, value)
    }
}

/// The literal `true`, on a synthetic token.
pub open spec fn literal_true() -> ExprView {
    ExprView::Literal { value: TokenView::synthetic(TokenType::True, LiteralView::Boolean(true)) }
}

pub open spec fn optional(s: Option<StmtView>) -> Seq<StmtView> {
    match s {
        Some(s) => seq![s],
        None => Seq::empty(),
    }
}

/// The loop whose body is `body` followed by `increment`, in one block: the
/// block that `body` is, where it is one, else a new one.
pub open spec fn while_loop_with_increment(
    condition: ExprView,
    body: StmtView,
    increment: Option<StmtView>,
) -> StmtView {
    match body {
        StmtView::Block { statements } => StmtView::While {
            condition,
            body: Box::new(StmtView::Block { statements: statements + optional(increment) }),
        },
        other => StmtView::While {
            condition,
            body: Box::new(StmtView::Block { statements: seq![other] + optional(increment) }),
        },
    }
}

/// `for (init; condition; increment) body` is a block of the initializer,
/// where there is one, and the loop; a missing condition is `true`.
pub open spec fn desugar_for_loop(
    init: Option<StmtView>,
    condition: Option<ExprView>,
    increment: Option<StmtView>,
    body: StmtView,
) -> StmtView {
    StmtView::Block {
        statements: optional(init).push(
            while_loop_with_increment(
                match condition {
                    Some(c) => c,
                    None => literal_true(),
                },
                body,
                increment,
            ),
        ),
    }
}

pub open spec fn binary_rank(level: nat) -> int {
    if level <= 6 {
        30 - 2 * level
    } else {
        18
    }
}

pub open spec fn parse_expression(ts: Seq<TokenView>, p: int, in_loop: bool) -> Parsed<ExprView>
    decreases remaining(ts, p), 40int,
{
    parse_assignment(ts, p, in_loop)
}

/// `assignment := logic_or ( ("=" | "+=" | "-=" | "*=" | "/=") assignment )?`;
/// only a variable can be assigned to.
pub open spec fn parse_assignment(ts: Seq<TokenView>, p: int, in_loop: bool) -> Parsed<ExprView>
    decreases remaining(ts, p), 39int,
{
    let left = parse_binary(ts, p, in_loop, 0);
    let q = p + left.taken;
    match left.result {
        Err(e) => left,
        Ok(target) => if 0 <= q < ts.len() && is_assignment_type(ts[q].token_type) {
            match target {
                ExprView::Variable { name } => {
                    let value = parse_assignment(ts, q + 1, in_loop);
                    match value.result {
                        Err(e) => failed(e, left.taken + 1 + value.taken),
                        Ok(v) => Parsed {
                            result: assignment_of(name, ts[q].token_type, v),
                            taken: left.taken + 1 + value.taken,
                        },
                    }
                },
                _ => failed(
                    ParseErrorView::InvalidAssignmentTarget {
                        token_lexeme: ts[q].lexeme_or_empty(),
                        coordinate: ts[q].coordinate,
                    },
                    left.taken + 1,
                ),
            }
        } else {
            left
        },
    }
}

/// The operands of one level of binary operators are expressions of the
/// next level; past the last level stands `unary`.
pub open spec fn parse_binary(ts: Seq<TokenView>, p: int, in_loop: bool, level: nat) -> Parsed<
    ExprView,
>
    decreases remaining(ts, p), binary_rank(level),
{
    if level >= 6 {
        parse_unary(ts, p, in_loop)
    } else {
        let first = parse_binary(ts, p, in_loop, level + 1);
        match first.result {
            Err(e) => first,
            Ok(left) => after(
                first.taken,
                parse_binary_rest(ts, p + first.taken, in_loop, level, left),
            ),
        }
    }
}

/// The operators of a level associate to the left.
pub open spec fn parse_binary_rest(
    ts: Seq<TokenView>,
    p: int,
    in_loop: bool,
    level: nat,
    left: ExprView,
) -> Parsed<ExprView>
    decreases remaining(ts, p), binary_rank(level) - 1,
{
    if level < 6 && 0 <= p < ts.len() && is_operator_of(level, ts[p].token_type) {
        let right = parse_binary(ts, p + 1, in_loop, level + 1);
        match right.result {
            Err(e) => failed(e, 1 + right.taken),
            Ok(r) => after(
                1 + right.taken,
                parse_binary_rest(
                    ts,
                    p + 1 + right.taken,
                    in_loop,
                    level,
                    join(level, left, ts[p], r),
                ),
            ),
        }
    } else {
        found(left, 0)
    }
}

/// `unary := ("!" | "-") unary | call`.
pub open spec fn parse_unary(ts: Seq<TokenView>, p: int, in_loop: bool) -> Parsed<ExprView>
    decreases remaining(ts, p), 10int,
{
    if 0 <= p < ts.len() && is_unary_type(ts[p].token_type) {
        let right = parse_unary(ts, p + 1, in_loop);
        match right.result {
            Err(e) => failed(e, 1 + right.taken),
            Ok(r) => found(
                ExprView::Unary { operator: ts[p], right: Box::new(r) },
                1 + right.taken,
            ),
        }
    } else {
        parse_call(ts, p, in_loop)
    }
}

/// `call := primary ( "(" args? ")" )*`.
pub open spec fn parse_call(ts: Seq<TokenView>, p: int, in_loop: bool) -> Parsed<ExprView>
    decreases remaining(ts, p), 9int,
{
    let first = parse_primary(ts, p, in_loop);
    match first.result {
        Err(e) => first,
        Ok(callee) => after(first.taken, parse_call_rest(ts, p + first.taken, in_loop, callee)),
    }
}

pub open spec fn parse_call_rest(ts: Seq<TokenView>, p: int, in_loop: bool, callee: ExprView) -> Parsed<
    ExprView,
>
    decreases remaining(ts, p), 8int,
{
    if next_is(ts, p, TokenType::LeftParen) {
        let call = parse_finish_call(ts, p + 1, in_loop, callee);
        match call.result {
            Err(e) => failed(e, 1 + call.taken),
            Ok(c) => after(
                1 + call.taken,
                parse_call_rest(ts, p + 1 + call.taken, in_loop, c),
            ),
        }
    } else {
        found(callee, 0)
    }
}

/// The arguments of a call and its closing parenthesis.
pub open spec fn parse_finish_call(ts: Seq<TokenView>, p: int, in_loop: bool, callee: ExprView) -> Parsed<
    ExprView,
>
    decreases remaining(ts, p), 47int,
{
    let args = parse_arguments_list(ts, p, in_loop);
    match args.result {
        Err(e) => failed(e, args.taken),
        Ok(list) => {
            let paren = expect(
                ts,
                p + args.taken,
                "function calls should end in \")\""@,
                TokenType::RightParen,
            );
            match paren.result {
                Err(e) => failed(e, args.taken + paren.taken),
                Ok(token) => found(
                    ExprView::Call { callee: Box::new(callee), paren: token, args: list },
                    args.taken + paren.taken,
                ),
            }
        },
    }
}

/// The arguments of a call: none where the call closes at once.
pub open spec fn parse_arguments_list(ts: Seq<TokenView>, p: int, in_loop: bool) -> Parsed<
    Seq<ExprView>,
>
    decreases remaining(ts, p), 46int,
{
    if next_is(ts, p, TokenType::RightParen) {
        found(Seq::empty(), 0)
    } else {
        parse_arguments_rest(ts, p, in_loop, Seq::empty())
    }
}

/// `args := expression ("," expression)*`, after the arguments `seen`.
pub open spec fn parse_arguments_rest(
    ts: Seq<TokenView>,
    p: int,
    in_loop: bool,
    seen: Seq<ExprView>,
) -> Parsed<Seq<ExprView>>
    decreases remaining(ts, p), 45int,
{
    let arg = parse_expression(ts, p, in_loop);
    match arg.result {
        Err(e) => failed(e, arg.taken),
        Ok(a) => if next_is(ts, p + arg.taken, TokenType::Comma) {
            after(
                arg.taken + 1,
                parse_arguments_rest(ts, p + arg.taken + 1, in_loop, seen.push(a)),
            )
        } else {
            found(seen.push(a), arg.taken)
        },
    }
}

/// `primary := NUMBER | STRING | true | false | nil | IDENT | "(" expression ")"
/// | "fun" "(" params? ")" block`.
pub open spec fn parse_primary(ts: Seq<TokenView>, p: int, in_loop: bool) -> Parsed<ExprView>
    decreases remaining(ts, p), 7int,
{
    if !(0 <= p < ts.len()) {
        failed(end_of_file(ts, p), 0)
    } else {
        let token = ts[p];
        if is_literal_type(token.token_type) {
            found(ExprView::Literal { value: token }, 1)
        } else if token.token_type == TokenType::Identifier {
            found(ExprView::Variable { name: token }, 1)
        } else if token.token_type == TokenType::LeftParen {
            let inner = parse_expression(ts, p + 1, in_loop);
            match inner.result {
                Err(e) => failed(e, 1 + inner.taken),
                Ok(e) => {
                    let close = expect(
                        ts,
                        p + 1 + inner.taken,
                        "unterminated left parens"@,
                        TokenType::RightParen,
                    );
                    match close.result {
                        Err(e) => failed(e, 1 + inner.taken + close.taken),
                        Ok(_) => found(
                            ExprView::Grouping { expression: Box::new(e) },
                            1 + inner.taken + close.taken,
                        ),
                    }
                },
            }
        } else if token.token_type == TokenType::Fun {
            after(1, parse_function_expression(ts, p + 1, in_loop))
        } else {
            failed(unexpected("parsing \"primary\""@, token), 1)
        }
    }
}

/// An anonymous function, after its `fun`.
pub open spec fn parse_function_expression(ts: Seq<TokenView>, p: int, in_loop: bool) -> Parsed<
    ExprView,
>
    decreases remaining(ts, p), 51int,
{
    let open = expect(
        ts,
        p,
        "function expression should be followed by \"(\""@,
        TokenType::LeftParen,
    );
    match open.result {
        Err(e) => failed(e, open.taken),
        Ok(_) => {
            let rest = parse_function_rest(ts, p + 1, in_loop);
            match rest.result {
                Err(e) => failed(e, 1 + rest.taken),
                Ok(f) => found(ExprView::Function { params: f.0, body: f.1 }, 1 + rest.taken),
            }
        },
    }
}

/// The parameters and the body of a function, after its `(`.
pub open spec fn parse_function_rest(ts: Seq<TokenView>, p: int, in_loop: bool) -> Parsed<
    (Seq<TokenView>, Seq<StmtView>),
>
    decreases remaining(ts, p), 50int,
{
    let params = parse_parameters_list(ts, p);
    match params.result {
        Err(e) => failed(e, params.taken),
        Ok(names) => {
            let close = expect(
                ts,
                p + params.taken,
                "function declaration to close parens properly"@,
                TokenType::RightParen,
            );
            match close.result {
                Err(e) => failed(e, params.taken + close.taken),
                Ok(_) => {
                    let brace = expect(
                        ts,
                        p + params.taken + 1,
                        "function to be followed by a block scope"@,
                        TokenType::LeftBrace,
                    );
                    match brace.result {
                        Err(e) => failed(e, params.taken + 1 + brace.taken),
                        Ok(_) => {
                            let body = parse_block_rest(
                                ts,
                                p + params.taken + 2,
                                in_loop,
                                Seq::empty(),
                            );
                            match body.result {
                                Err(e) => failed(e, params.taken + 2 + body.taken),
                                Ok(statements) => found(
                                    (names, statements),
                                    params.taken + 2 + body.taken,
                                ),
                            }
                        },
                    }
                },
            }
        },
    }
}

/// The parameters of a function: none where the list closes at once.
pub open spec fn parse_parameters_list(ts: Seq<TokenView>, p: int) -> Parsed<Seq<TokenView>> {
    if next_is(ts, p, TokenType::RightParen) {
        found(Seq::empty(), 0)
    } else {
        parse_parameters_rest(ts, p, Seq::empty())
    }
}

/// `params := IDENT ("," IDENT)*`, after the parameters `seen`.
pub open spec fn parse_parameters_rest(ts: Seq<TokenView>, p: int, seen: Seq<TokenView>) -> Parsed<
    Seq<TokenView>,
>
    decreases remaining(ts, p), 0int,
{
    let name = expect(ts, p, "expected a list of parameters"@, TokenType::Identifier);
    match name.result {
        Err(e) => failed(e, name.taken),
        Ok(token) => if next_is(ts, p + 1, TokenType::Comma) {
            after(2, parse_parameters_rest(ts, p + 2, seen.push(token)))
        } else {
            found(seen.push(token), 1)
        },
    }
}

/// `block := "{" declaration* "}"`, after its `{` and the statements `seen`.
/// A declaration that takes no token would never end the block, so it is
/// taken for an error of the parser itself.
pub open spec fn parse_block_rest(
    ts: Seq<TokenView>,
    p: int,
    in_loop: bool,
    seen: Seq<StmtView>,
) -> Parsed<Seq<StmtView>>
    decreases remaining(ts, p), 70int,
{
    if next_is(ts, p, TokenType::RightBrace) || is_done(ts, p) {
        let close = expect(ts, p, "unterminated block scope"@, TokenType::RightBrace);
        match close.result {
            Err(e) => failed(e, close.taken),
            Ok(_) => found(seen, 1),
        }
    } else {
        let inner = parse_declaration(ts, p, in_loop);
        match inner.result {
            Err(e) => failed(e, inner.taken),
            Ok(s) => if inner.taken == 0 {
                failed(ParseErrorView::LikelyLogicalError, 0)
            } else {
                after(
                    inner.taken,
                    parse_block_rest(ts, p + inner.taken, in_loop, seen.push(s)),
                )
            },
        }
    }
}

/// A block, after its `{`.
pub open spec fn parse_block(ts: Seq<TokenView>, p: int, in_loop: bool) -> Parsed<StmtView>
    decreases remaining(ts, p), 71int,
{
    let body = parse_block_rest(ts, p, in_loop, Seq::empty());
    match body.result {
        Err(e) => failed(e, body.taken),
        Ok(statements) => found(StmtView::Block { statements }, body.taken),
    }
}

/// `declaration := varDecl | funDecl | statement`.
pub open spec fn parse_declaration(ts: Seq<TokenView>, p: int, in_loop: bool) -> Parsed<StmtView>
    decreases remaining(ts, p), 60int,
{
    if next_is(ts, p, TokenType::Var) {
        after(1, parse_var_declaration(ts, p + 1, in_loop))
    } else if next_is(ts, p, TokenType::Fun) {
        after(1, parse_function_declaration(ts, p + 1, in_loop))
    } else {
        parse_statement(ts, p, in_loop)
    }
}

/// `funDecl := "fun" IDENT "(" params? ")" block`, after its `fun`.
pub open spec fn parse_function_declaration(ts: Seq<TokenView>, p: int, in_loop: bool) -> Parsed<
    StmtView,
>
    decreases remaining(ts, p), 58int,
{
    let name = expect(ts, p, "functions should have a name"@, TokenType::Identifier);
    match name.result {
        Err(e) => failed(e, name.taken),
        Ok(token) => {
            let open = expect(
                ts,
                p + 1,
                "function dec should be followed by \"(\""@,
                TokenType::LeftParen,
            );
            match open.result {
                Err(e) => failed(e, 1 + open.taken),
                Ok(_) => {
                    let rest = parse_function_rest(ts, p + 2, in_loop);
                    match rest.result {
                        Err(e) => failed(e, 2 + rest.taken),
                        Ok(f) => found(
                            StmtView::Function { name: token, params: f.0, body: f.1 },
                            2 + rest.taken,
                        ),
                    }
                },
            }
        },
    }
}

/// `varDecl := "var" IDENT ("=" expression)? ";"`, after its `var`.
pub open spec fn parse_var_declaration(ts: Seq<TokenView>, p: int, in_loop: bool) -> Parsed<
    StmtView,
>
    decreases remaining(ts, p), 58int,
{
    let name = expect(ts, p, "var statment missing identifier"@, TokenType::Identifier);
    match name.result {
        Err(e) => failed(e, name.taken),
        Ok(token) => {
            let init = if next_is(ts, p + 1, TokenType::Equal) {
                let value = parse_expression(ts, p + 2, in_loop);
                match value.result {
                    Err(e) => failed(e, 1 + value.taken),
                    Ok(v) => found(Some(v), 1 + value.taken),
                }
            } else {
                found(None, 0)
            };
            match init.result {
                Err(e) => failed(e, 1 + init.taken),
                Ok(initializer) => {
                    let end = expect(
                        ts,
                        p + 1 + init.taken,
                        "unterminated var statement"@,
                        TokenType::Semicolon,
                    );
                    match end.result {
                        Err(e) => failed(e, 1 + init.taken + end.taken),
                        Ok(_) => found(
                            StmtView::Var { name: token, initializer },
                            1 + init.taken + end.taken,
                        ),
                    }
                },
            }
        },
    }
}

/// `statement := printStmt | block | ifStmt | whileStmt | forStmt | breakStmt
/// | returnStmt | exprStmt`. Inside a loop, at any depth, `break` is legal;
/// after the loop it is as legal as it was before.
pub open spec fn parse_statement(ts: Seq<TokenView>, p: int, in_loop: bool) -> Parsed<StmtView>
    decreases remaining(ts, p), 59int,
{
    if next_is(ts, p, TokenType::Print) {
        after(1, parse_print_statement(ts, p + 1, in_loop))
    } else if next_is(ts, p, TokenType::LeftBrace) {
        after(1, parse_block(ts, p + 1, in_loop))
    } else if next_is(ts, p, TokenType::If) {
        after(1, parse_if_statement(ts, p + 1, in_loop))
    } else if next_is(ts, p, TokenType::While) {
        after(1, parse_while_statement(ts, p + 1, true))
    } else if next_is(ts, p, TokenType::For) {
        after(1, parse_for_statement(ts, p + 1, true))
    } else if next_is(ts, p, TokenType::Break) {
        parse_break_statement(ts, p, in_loop)
    } else if next_is(ts, p, TokenType::Return) {
        after(1, parse_return_rest(ts, p + 1, in_loop, ts[p]))
    } else {
        parse_expression_statement(ts, p, in_loop)
    }
}

/// `returnStmt := "return" expression? ";"`, after its keyword.
pub open spec fn parse_return_rest(ts: Seq<TokenView>, p: int, in_loop: bool, keyword: TokenView) -> Parsed<
    StmtView,
>
    decreases remaining(ts, p), 58int,
{
    let value = if next_is(ts, p, TokenType::Semicolon) {
        found(None, 0)
    } else {
        let inner = parse_expression(ts, p, in_loop);
        match inner.result {
            Err(e) => failed(e, inner.taken),
            Ok(v) => found(Some(v), inner.taken),
        }
    };
    match value.result {
        Err(e) => failed(e, value.taken),
        Ok(v) => {
            let end = expect(
                ts,
                p + value.taken,
                "unterminated return statement"@,
                TokenType::Semicolon,
            );
            match end.result {
                Err(e) => failed(e, value.taken + end.taken),
                Ok(_) => found(StmtView::Return { keyword, value: v }, value.taken + end.taken),
            }
        },
    }
}

/// `breakStmt := "break" ";"`, legal only inside a loop.
pub open spec fn parse_break_statement(ts: Seq<TokenView>, p: int, in_loop: bool) -> Parsed<
    StmtView,
> {
    let keyword = take_token(ts, p);
    match keyword.result {
        Err(e) => failed(e, keyword.taken),
        Ok(token) => if !in_loop {
            failed(unexpected("\"break\" can only occur inside a loop"@, token), 1)
        } else {
            let end = expect(ts, p + 1, "unterminated \"break\""@, TokenType::Semicolon);
            match end.result {
                Err(e) => failed(e, 1 + end.taken),
                Ok(_) => found(StmtView::Break { keyword: token }, 1 + end.taken),
            }
        },
    }
}

/// The initializer of a `for`: none, a variable declaration, or an
/// expression statement.
pub open spec fn parse_for_initializer(ts: Seq<TokenView>, p: int, in_loop: bool) -> Parsed<
    Option<StmtView>,
>
    decreases remaining(ts, p), 58int,
{
    if next_is(ts, p, TokenType::Semicolon) {
        found(None, 1)
    } else {
        let init = if next_is(ts, p, TokenType::Var) {
            after(1, parse_var_declaration(ts, p + 1, in_loop))
        } else {
            parse_expression_statement(ts, p, in_loop)
        };
        match init.result {
            Err(e) => failed(e, init.taken),
            Ok(s) => found(Some(s), init.taken),
        }
    }
}

/// The condition of a `for` and the `;` after it.
pub open spec fn parse_for_condition(ts: Seq<TokenView>, p: int, in_loop: bool) -> Parsed<
    Option<ExprView>,
>
    decreases remaining(ts, p), 58int,
{
    if next_is(ts, p, TokenType::Semicolon) {
        found(None, 1)
    } else {
        let condition = parse_expression(ts, p, in_loop);
        match condition.result {
            Err(e) => failed(e, condition.taken),
            Ok(c) => {
                let end = expect(
                    ts,
                    p + condition.taken,
                    "for loop condition missing termating \";\""@,
                    TokenType::Semicolon,
                );
                match end.result {
                    Err(e) => failed(e, condition.taken + end.taken),
                    Ok(_) => found(Some(c), condition.taken + end.taken),
                }
            },
        }
    }
}

/// The increment of a `for` and the `)` after it.
pub open spec fn parse_for_increment(ts: Seq<TokenView>, p: int, in_loop: bool) -> Parsed<
    Option<StmtView>,
>
    decreases remaining(ts, p), 58int,
{
    if next_is(ts, p, TokenType::RightParen) {
        found(None, 1)
    } else {
        let increment = parse_expression(ts, p, in_loop);
        match increment.result {
            Err(e) => failed(e, increment.taken),
            Ok(expression) => {
                let end = expect(
                    ts,
                    p + increment.taken,
                    "for loop unclosed parens"@,
                    TokenType::RightParen,
                );
                match end.result {
                    Err(e) => failed(e, increment.taken + end.taken),
                    Ok(_) => found(
                        Some(StmtView::Expression { expression }),
                        increment.taken + end.taken,
                    ),
                }
            },
        }
    }
}

/// `forStmt := "for" "(" (varDecl | exprStmt | ";") expression? ";" expression? ")"
/// statement`, after its `for`; the result is the loop written with `while`.
pub open spec fn parse_for_statement(ts: Seq<TokenView>, p: int, in_loop: bool) -> Parsed<StmtView>
    decreases remaining(ts, p), 59int,
{
    let open = expect(ts, p, "for loop requires \"(...'"@, TokenType::LeftParen);
    match open.result {
        Err(e) => failed(e, open.taken),
        Ok(_) => {
            let init = parse_for_initializer(ts, p + 1, in_loop);
            match init.result {
                Err(e) => failed(e, 1 + init.taken),
                Ok(initializer) => {
                    let n1 = 1 + init.taken;
                    let cond = parse_for_condition(ts, p + n1, in_loop);
                    match cond.result {
                        Err(e) => failed(e, n1 + cond.taken),
                        Ok(condition) => {
                            let n2 = n1 + cond.taken;
                            let inc = parse_for_increment(ts, p + n2, in_loop);
                            match inc.result {
                                Err(e) => failed(e, n2 + inc.taken),
                                Ok(increment) => {
                                    let n3 = n2 + inc.taken;
                                    let body = parse_statement(ts, p + n3, in_loop);
                                    match body.result {
                                        Err(e) => failed(e, n3 + body.taken),
                                        Ok(b) => found(
                                            desugar_for_loop(initializer, condition, increment, b),
                                            n3 + body.taken,
                                        ),
                                    }
                                },
                            }
                        },
                    }
                },
            }
        },
    }
}

/// `whileStmt := "while" "(" expression ")" statement`, after its `while`.
pub open spec fn parse_while_statement(ts: Seq<TokenView>, p: int, in_loop: bool) -> Parsed<
    StmtView,
>
    decreases remaining(ts, p), 58int,
{
    let open = expect(ts, p, "while statement requires \"(...\""@, TokenType::LeftParen);
    match open.result {
        Err(e) => failed(e, open.taken),
        Ok(_) => {
            let cond = parse_expression(ts, p + 1, in_loop);
            match cond.result {
                Err(e) => failed(e, 1 + cond.taken),
                Ok(condition) => {
                    let n1 = 1 + cond.taken;
                    let close = expect(
                        ts,
                        p + n1,
                        "while statement unclosed parens"@,
                        TokenType::RightParen,
                    );
                    match close.result {
                        Err(e) => failed(e, n1 + close.taken),
                        Ok(_) => {
                            let body = parse_statement(ts, p + n1 + 1, in_loop);
                            match body.result {
                                Err(e) => failed(e, n1 + 1 + body.taken),
                                Ok(b) => found(
                                    StmtView::While { condition, body: Box::new(b) },
                                    n1 + 1 + body.taken,
                                ),
                            }
                        },
                    }
                },
            }
        },
    }
}

/// The `else` branch of an `if`, where there is one.
pub open spec fn parse_else_branch(ts: Seq<TokenView>, p: int, in_loop: bool) -> Parsed<
    Option<Box<StmtView>>,
>
    decreases remaining(ts, p), 60int,
{
    if next_is(ts, p, TokenType::Else) {
        let branch = parse_statement(ts, p + 1, in_loop);
        match branch.result {
            Err(e) => failed(e, 1 + branch.taken),
            Ok(s) => found(Some(Box::new(s)), 1 + branch.taken),
        }
    } else {
        found(None, 0)
    }
}

/// `ifStmt := "if" "(" expression ")" statement ("else" statement)?`, after
/// its `if`.
pub open spec fn parse_if_statement(ts: Seq<TokenView>, p: int, in_loop: bool) -> Parsed<StmtView>
    decreases remaining(ts, p), 58int,
{
    let open = expect(ts, p, "if statement requires \"(...\""@, TokenType::LeftParen);
    match open.result {
        Err(e) => failed(e, open.taken),
        Ok(_) => {
            let cond = parse_expression(ts, p + 1, in_loop);
            match cond.result {
                Err(e) => failed(e, 1 + cond.taken),
                Ok(condition) => {
                    let n1 = 1 + cond.taken;
                    let close = expect(
                        ts,
                        p + n1,
                        "if statement unclosed parens"@,
                        TokenType::RightParen,
                    );
                    match close.result {
                        Err(e) => failed(e, n1 + close.taken),
                        Ok(_) => {
                            let n2 = n1 + 1;
                            let then = parse_statement(ts, p + n2, in_loop);
                            match then.result {
                                Err(e) => failed(e, n2 + then.taken),
                                Ok(t) => {
                                    let n3 = n2 + then.taken;
                                    let other = parse_else_branch(ts, p + n3, in_loop);
                                    match other.result {
                                        Err(e) => failed(e, n3 + other.taken),
                                        Ok(else_branch) => found(
                                            StmtView::If {
                                                condition,
                                                then_branch: Box::new(t),
                                                else_branch,
                                            },
                                            n3 + other.taken,
                                        ),
                                    }
                                },
                            }
                        },
                    }
                },
            }
        },
    }
}

/// `printStmt := "print" expression ";"`, after its `print`.
pub open spec fn parse_print_statement(ts: Seq<TokenView>, p: int, in_loop: bool) -> Parsed<
    StmtView,
>
    decreases remaining(ts, p), 57int,
{
    let value = parse_expression(ts, p, in_loop);
    match value.result {
        Err(e) => failed(e, value.taken),
        Ok(expression) => {
            let end = expect(
                ts,
                p + value.taken,
                "unterminated \"print\" statement"@,
                TokenType::Semicolon,
            );
            match end.result {
                Err(e) => failed(e, value.taken + end.taken),
                Ok(_) => found(StmtView::Print { expression }, value.taken + end.taken),
            }
        },
    }
}

/// `exprStmt := expression ";"`.
pub open spec fn parse_expression_statement(ts: Seq<TokenView>, p: int, in_loop: bool) -> Parsed<
    StmtView,
>
    decreases remaining(ts, p), 57int,
{
    let value = parse_expression(ts, p, in_loop);
    match value.result {
        Err(e) => failed(e, value.taken),
        Ok(expression) => {
            let end = expect(ts, p + value.taken, "unterminated statement"@, TokenType::Semicolon);
            match end.result {
                Err(e) => failed(e, value.taken + end.taken),
                Ok(_) => found(StmtView::Expression { expression }, value.taken + end.taken),
            }
        },
    }
}

/// The token types at which a declaration may start again after an error.
pub open spec fn starts_declaration(t: TokenType) -> bool {
    t == TokenType::Class || t == TokenType::Fun || t == TokenType::Var || t == TokenType::For
        || t == TokenType::If || t == TokenType::While || t == TokenType::Print || t
        == TokenType::Return
}

/// How many tokens are discarded after an error: all up to and including
/// the next `;`, or up to the next token that may start a declaration.
pub open spec fn synchronize_len(ts: Seq<TokenView>, p: int) -> nat
    decreases remaining(ts, p),
{
    if !(0 <= p < ts.len()) {
        0
    } else if ts[p].token_type == TokenType::Semicolon {
        1
    } else if starts_declaration(ts[p].token_type) {
        0
    } else {
        1 + synchronize_len(ts, p + 1)
    }
}

/// The program from position `p` on, after the statements and the errors
/// seen so far: all the statements, or all the errors where there are any.
/// A declaration that takes no token and leaves none to discard would never
/// end the program, so it is taken for an error of the parser itself.
pub open spec fn parse_program(
    ts: Seq<TokenView>,
    p: int,
    in_loop: bool,
    statements: Seq<StmtView>,
    errors: Seq<ParseErrorView>,
) -> Result<Seq<StmtView>, Seq<ParseErrorView>>
    decreases remaining(ts, p),
{
    if is_done(ts, p) {
        if errors.len() == 0 {
            Ok(statements)
        } else {
            Err(errors)
        }
    } else {
        let d = parse_declaration(ts, p, in_loop);
        match d.result {
            Ok(s) => if d.taken == 0 {
                Err(errors.push(ParseErrorView::LikelyLogicalError))
            } else {
                parse_program(ts, p + d.taken, in_loop, statements.push(s), errors)
            },
            Err(e) => {
                let skipped = d.taken + synchronize_len(ts, p + d.taken);
                if skipped == 0 {
                    Err(errors.push(e).push(ParseErrorView::LikelyLogicalError))
                } else {
                    parse_program(ts, p + skipped, in_loop, statements, errors.push(e))
                }
            },
        }
    }
}

/// The program that a list of tokens spells.
pub open spec fn parse(ts: Seq<TokenView>) -> Result<Seq<StmtView>, Seq<ParseErrorView>> {
    parse_program(ts, 0, false, Seq::empty(), Seq::empty())
}

} // verus!
