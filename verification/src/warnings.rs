//! What the parser warns of without refusing it: calls with too many
//! arguments.
use crate::ast::{Expr, Stmt};
use crate::token::{Coordinate, Token};
use vstd::prelude::*;

verus! {

/// A call with this many arguments, or more, is warned of.
pub const ARGUMENT_LIMIT: usize = 255;

/// The warning of one call, if it deserves one: the coordinate of its
/// closing parenthesis.
pub open spec fn call_warning(paren: Token, arguments: nat) -> Seq<Coordinate> {
    if arguments >= ARGUMENT_LIMIT {
        seq![paren.coordinate]
    } else {
        Seq::empty()
    }
}

/// The warnings of the first `n` expressions of a list.
pub open spec fn exprs_warnings(es: Seq<Expr>, n: int) -> Seq<Coordinate>
    decreases es, n,
{
    if 0 < n <= es.len() {
        exprs_warnings(es, n - 1) + expr_warnings(es[n - 1])
    } else {
        Seq::empty()
    }
}

/// The warnings of the first `n` statements of a list.
pub open spec fn stmts_warnings(ss: Seq<Stmt>, n: int) -> Seq<Coordinate>
    decreases ss, n,
{
    if 0 < n <= ss.len() {
        stmts_warnings(ss, n - 1) + stmt_warnings(ss[n - 1])
    } else {
        Seq::empty()
    }
}

/// The warnings of an expression, in the order in which its calls close:
/// those of the callee, those of the arguments, then that of the call itself.
pub open spec fn expr_warnings(e: Expr) -> Seq<Coordinate>
    decreases e, 0int,
{
    match e {
        Expr::Binary { left, operator, right } => expr_warnings(*left) + expr_warnings(*right),
        Expr::Literal { value } => Seq::empty(),
        Expr::Grouping { expression } => expr_warnings(*expression),
        Expr::Call { callee, paren, args } => expr_warnings(*callee) + exprs_warnings(
            args@,
            args@.len() as int,
        ) + call_warning(paren, args@.len()),
        Expr::Unary { operator, right } => expr_warnings(*right),
        Expr::Variable { name } => Seq::empty(),
        Expr::Assign { name, value } => expr_warnings(*value),
        Expr::Logical { left, operator, right } => expr_warnings(*left) + expr_warnings(*right),
        Expr::Function { params, body } => stmts_warnings(body@, body@.len() as int),
    }
}

/// The warnings of a statement.
pub open spec fn stmt_warnings(s: Stmt) -> Seq<Coordinate>
    decreases s, 0int,
{
    match s {
        Stmt::Expression { expression } => expr_warnings(expression),
        Stmt::Print { expression } => expr_warnings(expression),
        Stmt::Var { name, initializer } => match initializer {
            Some(e) => expr_warnings(e),
            None => Seq::empty(),
        },
        Stmt::Block { statements } => stmts_warnings(statements@, statements@.len() as int),
        Stmt::If { condition, then_branch, else_branch } => expr_warnings(condition)
            + stmt_warnings(*then_branch) + match else_branch {
            Some(b) => stmt_warnings(*b),
            None => Seq::empty(),
        },
        Stmt::While { condition, body } => expr_warnings(condition) + stmt_warnings(*body),
        Stmt::Break { keyword } => Seq::empty(),
        Stmt::Function { name, params, body } => stmts_warnings(body@, body@.len() as int),
        Stmt::Return { keyword, value } => match value {
            Some(e) => expr_warnings(e),
            None => Seq::empty(),
        },
    }
}

fn collect_exprs(es: &Vec<Expr>, out: &mut Vec<Coordinate>)
    ensures
        final(out)@ == old(out)@ + exprs_warnings(es@, es@.len() as int),
    decreases es@, es@.len(),
{
    let mut i: usize = 0;
    while i < es.len()
        invariant
            i <= es.len(),
            out@ == old(out)@ + exprs_warnings(es@, i as int),
        decreases es.len() - i,
    {
        collect_expr(&es[i], out);
        i = i + 1;
        proof {
            assert(out@ =~= old(out)@ + exprs_warnings(es@, i as int));
        }
    }
}

fn collect_stmts(ss: &Vec<Stmt>, out: &mut Vec<Coordinate>)
    ensures
        final(out)@ == old(out)@ + stmts_warnings(ss@, ss@.len() as int),
    decreases ss@, ss@.len(),
{
    let mut i: usize = 0;
    while i < ss.len()
        invariant
            i <= ss.len(),
            out@ == old(out)@ + stmts_warnings(ss@, i as int),
        decreases ss.len() - i,
    {
        collect_stmt(&ss[i], out);
        i = i + 1;
        proof {
            assert(out@ =~= old(out)@ + stmts_warnings(ss@, i as int));
        }
    }
}

fn collect_expr(e: &Expr, out: &mut Vec<Coordinate>)
    ensures
        final(out)@ == old(out)@ + expr_warnings(*e),
    decreases e, 0int,
{
    match e {
        Expr::Binary { left, operator, right } => {
            collect_expr(left, out);
            collect_expr(right, out);
        },
        Expr::Literal { value } => {},
        Expr::Grouping { expression } => {
            collect_expr(expression, out);
        },
        Expr::Call { callee, paren, args } => {
            collect_expr(callee, out);
            collect_exprs(args, out);
            if args.len() >= ARGUMENT_LIMIT {
                out.push(paren.coordinate);
            }
        },
        Expr::Unary { operator, right } => {
            collect_expr(right, out);
        },
        Expr::Variable { name } => {},
        Expr::Assign { name, value } => {
            collect_expr(value, out);
        },
        Expr::Logical { left, operator, right } => {
            collect_expr(left, out);
            collect_expr(right, out);
        },
        Expr::Function { params, body } => {
            collect_stmts(body, out);
        },
    }
    proof {
        assert(final(out)@ =~= old(out)@ + expr_warnings(*e));
    }
}

fn collect_stmt(s: &Stmt, out: &mut Vec<Coordinate>)
    ensures
        final(out)@ == old(out)@ + stmt_warnings(*s),
    decreases s, 0int,
{
    match s {
        Stmt::Expression { expression } => {
            collect_expr(expression, out);
        },
        Stmt::Print { expression } => {
            collect_expr(expression, out);
        },
        Stmt::Var { name, initializer } => {
            if let Some(e) = initializer {
                collect_expr(e, out);
            }
        },
        Stmt::Block { statements } => {
            collect_stmts(statements, out);
        },
        Stmt::If { condition, then_branch, else_branch } => {
            collect_expr(condition, out);
            collect_stmt(then_branch, out);
            if let Some(b) = else_branch {
                collect_stmt(b, out);
            }
        },
        Stmt::While { condition, body } => {
            collect_expr(condition, out);
            collect_stmt(body, out);
        },
        Stmt::Break { keyword } => {},
        Stmt::Function { name, params, body } => {
            collect_stmts(body, out);
        },
        Stmt::Return { keyword, value } => {
            if let Some(e) = value {
                collect_expr(e, out);
            }
        },
    }
    proof {
        assert(final(out)@ =~= old(out)@ + stmt_warnings(*s));
    }
}

/// The calls of a program that have `ARGUMENT_LIMIT` arguments or more,
/// each by the coordinate of its closing parenthesis, in the order in
/// which the calls close. Such a call is legal; it is only warned of.
pub fn oversized_calls(statements: &Vec<Stmt>) -> (r: Vec<Coordinate>)
    ensures
        r@ == stmts_warnings(statements@, statements@.len() as int),
{
    let mut out: Vec<Coordinate> = Vec::new();
    collect_stmts(statements, &mut out);
    proof {
        assert(out@ =~= stmts_warnings(statements@, statements@.len() as int));
    }
    out
}

} // verus!
