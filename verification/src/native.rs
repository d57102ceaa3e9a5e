//! What can be called: the functions of a program and the built-ins.
use crate::ast::Stmt;
use crate::token::Token;
use vstd::prelude::*;

verus! {

/// A function of the program: its parameters, its body, and the scope it
/// was made in, which its calls run inside of.
#[derive(Clone, Copy, Debug)]
pub struct LoxFunction<'a> {
    pub name: Option<&'a Token>,
    pub params: &'a Vec<Token>,
    pub body: &'a Vec<Stmt>,
    pub closure: usize,
}

impl<'a> LoxFunction<'a> {
    pub fn new(
        name: Option<&'a Token>,
        params: &'a Vec<Token>,
        body: &'a Vec<Stmt>,
        closure: usize,
    ) -> (r: Self)
        ensures
            r == (LoxFunction { name, params, body, closure }),
    {
        Self { name, params, body, closure }
    }

    pub fn arity(&self) -> (r: usize)
        ensures
            r == self.params@.len(),
    {
        self.params.len()
    }
}

/// The built-in `clock`: the seconds since the Unix epoch, which the host reads.
#[derive(Clone, Copy, Debug)]
pub struct Clock;

impl Clock {
    pub fn arity(&self) -> (r: usize)
        ensures
            r == 0,
    {
        0
    }
}

/// Everything that a call can reach.
#[derive(Clone, Copy, Debug)]
pub enum Callable<'a> {
    Clock(Clock),
    Function(LoxFunction<'a>),
}

impl<'a> Callable<'a> {
    /// How many arguments the callable names.
    pub open spec fn spec_arity(self) -> nat {
        match self {
            Callable::Clock(_) => 0,
            Callable::Function(f) => f.params@.len(),
        }
    }

    pub fn arity(&self) -> (r: usize)
        ensures
            r == self.spec_arity(),
    {
        match self {
            Callable::Clock(c) => c.arity(),
            Callable::Function(f) => f.arity(),
        }
    }
}

} // verus!
