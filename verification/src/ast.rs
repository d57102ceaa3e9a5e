//! The abstract syntax: two closed families, expressions and statements.
use crate::token::{Token, TokenView};
use vstd::prelude::*;

verus! {

#[derive(Debug, PartialEq)]
#[allow(inconsistent_fields)]
pub enum Expr {
    Binary { left: Box<Expr>, operator: Token, right: Box<Expr> },
    Literal { value: Token },
    Grouping { expression: Box<Expr> },
    Call { callee: Box<Expr>, paren: Token, args: Vec<Expr> },
    Unary { operator: Token, right: Box<Expr> },
    Variable { name: Token },
    Assign { name: Token, value: Box<Expr> },
    Logical { left: Box<Expr>, operator: Token, right: Box<Expr> },
    /// An anonymous function: a function that is a value where it stands.
    Function { params: Vec<Token>, body: Vec<Stmt> },
}

#[derive(Debug, PartialEq)]
#[allow(inconsistent_fields)]
pub enum Stmt {
    Expression { expression: Expr },
    Print { expression: Expr },
    Var { name: Token, initializer: Option<Expr> },
    Block { statements: Vec<Stmt> },
    If { condition: Expr, then_branch: Box<Stmt>, else_branch: Option<Box<Stmt>> },
    While { condition: Expr, body: Box<Stmt> },
    Break { keyword: Token },
    Function { name: Token, params: Vec<Token>, body: Vec<Stmt> },
    Return { keyword: Token, value: Option<Expr> },
}

/// The mathematical value of an [`Expr`].
#[allow(inconsistent_fields)]
pub enum ExprView {
    Binary { left: Box<ExprView>, operator: TokenView, right: Box<ExprView> },
    Literal { value: TokenView },
    Grouping { expression: Box<ExprView> },
    Call { callee: Box<ExprView>, paren: TokenView, args: Seq<ExprView> },
    Unary { operator: TokenView, right: Box<ExprView> },
    Variable { name: TokenView },
    Assign { name: TokenView, value: Box<ExprView> },
    Logical { left: Box<ExprView>, operator: TokenView, right: Box<ExprView> },
    Function { params: Seq<TokenView>, body: Seq<StmtView> },
}

/// The mathematical value of a [`Stmt`].
#[allow(inconsistent_fields)]
pub enum StmtView {
    Expression { expression: ExprView },
    Print { expression: ExprView },
    Var { name: TokenView, initializer: Option<ExprView> },
    Block { statements: Seq<StmtView> },
    If { condition: ExprView, then_branch: Box<StmtView>, else_branch: Option<Box<StmtView>> },
    While { condition: ExprView, body: Box<StmtView> },
    Break { keyword: TokenView },
    Function { name: TokenView, params: Seq<TokenView>, body: Seq<StmtView> },
    Return { keyword: TokenView, value: Option<ExprView> },
}

pub open spec fn expr_view(e: Expr) -> ExprView
    decreases e,
{
    match e {
        Expr::Binary { left, operator, right } => ExprView::Binary {
            left: Box::new(expr_view(*left)),
            operator: operator@,
            right: Box::new(expr_view(*right)),
        },
        Expr::Literal { value } => ExprView::Literal { value: value@ },
        Expr::Grouping { expression } => ExprView::Grouping {
            expression: Box::new(expr_view(*expression)),
        },
        Expr::Call { callee, paren, args } => ExprView::Call {
            callee: Box::new(expr_view(*callee)),
            paren: paren@,
            args: Seq::new(
                args@.len(),
                |i: int|
                    if 0 <= i < args@.len() {
                        expr_view(args@[i])
                    } else {
                        arbitrary()
                    },
            ),
        },
        Expr::Unary { operator, right } => ExprView::Unary {
            operator: operator@,
            right: Box::new(expr_view(*right)),
        },
        Expr::Variable { name } => ExprView::Variable { name: name@ },
        Expr::Assign { name, value } => ExprView::Assign {
            name: name@,
            value: Box::new(expr_view(*value)),
        },
        Expr::Logical { left, operator, right } => ExprView::Logical {
            left: Box::new(expr_view(*left)),
            operator: operator@,
            right: Box::new(expr_view(*right)),
        },
        Expr::Function { params, body } => ExprView::Function {
            params: params.deep_view(),
            body: Seq::new(
                body@.len(),
                |i: int|
                    if 0 <= i < body@.len() {
                        stmt_view(body@[i])
                    } else {
                        arbitrary()
                    },
            ),
        },
    }
}

pub open spec fn stmt_view(s: Stmt) -> StmtView
    decreases s,
{
    match s {
        Stmt::Expression { expression } => StmtView::Expression {
            expression: expr_view(expression),
        },
        Stmt::Print { expression } => StmtView::Print { expression: expr_view(expression) },
        Stmt::Var { name, initializer } => StmtView::Var {
            name: name@,
            initializer: match initializer {
                Some(e) => Some(expr_view(e)),
                None => None,
            },
        },
        Stmt::Block { statements } => StmtView::Block {
            statements: Seq::new(
                statements@.len(),
                |i: int|
                    if 0 <= i < statements@.len() {
                        stmt_view(statements@[i])
                    } else {
                        arbitrary()
                    },
            ),
        },
        Stmt::If { condition, then_branch, else_branch } => StmtView::If {
            condition: expr_view(condition),
            then_branch: Box::new(stmt_view(*then_branch)),
            else_branch: match else_branch {
                Some(s) => Some(Box::new(stmt_view(*s))),
                None => None,
            },
        },
        Stmt::While { condition, body } => StmtView::While {
            condition: expr_view(condition),
            body: Box::new(stmt_view(*body)),
        },
        Stmt::Break { keyword } => StmtView::Break { keyword: keyword@ },
        Stmt::Function { name, params, body } => StmtView::Function {
            name: name@,
            params: params.deep_view(),
            body: Seq::new(
                body@.len(),
                |i: int|
                    if 0 <= i < body@.len() {
                        stmt_view(body@[i])
                    } else {
                        arbitrary()
                    },
            ),
        },
        Stmt::Return { keyword, value } => StmtView::Return {
            keyword: keyword@,
            value: match value {
                Some(e) => Some(expr_view(e)),
                None => None,
            },
        },
    }
}

impl DeepView for Expr {
    type V = ExprView;

    open spec fn deep_view(&self) -> ExprView {
        expr_view(*self)
    }
}

impl DeepView for Stmt {
    type V = StmtView;

    open spec fn deep_view(&self) -> StmtView {
        stmt_view(*self)
    }
}

/// The view of a list of statements is the list of their views.
pub proof fn stmts_view(v: Vec<Stmt>)
    ensures
        v.deep_view().len() == v@.len(),
        forall|i: int| 0 <= i < v@.len() ==> #[trigger] v.deep_view()[i] == stmt_view(v@[i]),
        stmt_view(Stmt::Block { statements: v }) == (StmtView::Block { statements: v.deep_view() }),
{
    assert(stmt_view(Stmt::Block { statements: v })->Block_statements =~= v.deep_view());
}

/// A call's view holds the views of the callee and of the arguments.
pub proof fn call_view(callee: Expr, paren: Token, args: Vec<Expr>)
    ensures
        expr_view(Expr::Call { callee: Box::new(callee), paren, args }) == (ExprView::Call {
            callee: Box::new(expr_view(callee)),
            paren: paren@,
            args: args.deep_view(),
        }),
{
    assert(expr_view(Expr::Call { callee: Box::new(callee), paren, args })->Call_args
        =~= args.deep_view());
}

/// A function's view holds the views of its parameters and of its body.
pub proof fn function_view(name: Token, params: Vec<Token>, body: Vec<Stmt>)
    ensures
        stmt_view(Stmt::Function { name, params, body }) == (StmtView::Function {
            name: name@,
            params: params.deep_view(),
            body: body.deep_view(),
        }),
{
    assert(stmt_view(Stmt::Function { name, params, body })->Function_body =~= body.deep_view());
}

/// An anonymous function's view holds the views of its parameters and of
/// its body.
pub proof fn function_expr_view(params: Vec<Token>, body: Vec<Stmt>)
    ensures
        expr_view(Expr::Function { params, body }) == (ExprView::Function {
            params: params.deep_view(),
            body: body.deep_view(),
        }),
{
    assert(expr_view(Expr::Function { params, body })->Function_body =~= body.deep_view());
}

} // verus!
