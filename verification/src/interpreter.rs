//! The evaluator: the machine of [`crate::machine`], made of vectors.
use crate::ast::{Expr, Stmt};
use crate::environment::{defined, extended, Environment, ScopeView};
use crate::errors::RuntimeError;
use crate::machine::{
    bound, rests, Action, Control, Event, Frame, MachineView, Outcome, Pending,
};
use crate::native::{Callable, Clock, LoxFunction};
use crate::primitive::{LoxObject, Number, ObjectView};
use crate::text::push_str;
use crate::token::{Token, TokenType};
use vstd::prelude::*;

verus! {

/// The evaluator: the scopes and the callables of a program, and the
/// frames and the values of its run.
pub struct Interpreter<'a> {
    environments: Environment,
    functions: Vec<Callable<'a>>,
    globals: usize,
    environment: usize,
    frames: Vec<Frame<'a>>,
    values: Vec<LoxObject>,
    control: Control<'a>,
}

/// The evaluator, named by what it does: it visits the syntax.
pub type LoxVisitor<'a> = Interpreter<'a>;

impl<'a> View for Interpreter<'a> {
    type V = MachineView<'a>;

    closed spec fn view(&self) -> MachineView<'a> {
        MachineView {
            scopes: self.environments@,
            functions: self.functions@,
            globals: self.globals as nat,
            environment: self.environment as nat,
            frames: self.frames@,
            values: self.values.deep_view(),
            control: self.control,
        }
    }
}

/// The state that `i` is in, with the action `a` on the way into it.
pub open spec fn outcome<'a>(i: Interpreter<'a>, a: Action) -> Outcome<'a> {
    Outcome { state: i@, action: a@ }
}

fn is_math(t: TokenType) -> (r: bool)
    ensures
        r == crate::machine::is_math(t),
{
    t == TokenType::Plus || t == TokenType::Minus || t == TokenType::Star || t == TokenType::Slash
}

fn is_comparison(t: TokenType) -> (r: bool)
    ensures
        r == crate::machine::is_comparison(t),
{
    t == TokenType::Greater || t == TokenType::GreaterEqual || t == TokenType::Less || t
        == TokenType::LessEqual
}

fn is_equality(t: TokenType) -> (r: bool)
    ensures
        r == crate::machine::is_equality(t),
{
    t == TokenType::EqualEqual || t == TokenType::BangEqual
}

fn inconsistent() -> (r: RuntimeError)
    ensures
        r@ == crate::machine::inconsistent(),
{
    RuntimeError::Native("the evaluator has lost track of what it was doing".to_owned())
}

/// Whether two values that are not both numbers are equal.
fn same(left: &LoxObject, right: &LoxObject) -> (r: bool)
    ensures
        r == crate::machine::same(left@, right@),
{
    match (left, right) {
        (LoxObject::String(a), LoxObject::String(b)) => *a == *b,
        (LoxObject::Boolean(a), LoxObject::Boolean(b)) => *a == *b,
        (LoxObject::Nil, LoxObject::Nil) => true,
        _ => false,
    }
}

/// The error of a binary operator whose operands it cannot take.
fn binary_error(operator: &Token, left: String, right: String) -> (r: RuntimeError)
    ensures
        r@ == crate::machine::binary_error(*operator, left@, right@),
{
    if is_math(operator.token_type) {
        RuntimeError::InvalidMathOp(left, operator.clone(), right)
    } else {
        RuntimeError::InvalidComparisonOp(left, operator.clone(), right)
    }
}

fn join(left: String, right: &String) -> (r: String)
    ensures
        r@ == left@ + right@,
{
    let mut out = left;
    push_str(&mut out, right.as_str());
    out
}

impl<'a> Interpreter<'a> {
    /// The scopes are chained, each younger than its parent, and every
    /// handle that the evaluator holds names a scope.
    pub closed spec fn wf(&self) -> bool {
        &&& self.environments.wf()
        &&& self@.rooted()
    }

    /// What an evaluator in order has: the scope that it stands in is a
    /// scope of its arena.
    pub proof fn stands_in_a_scope(&self)
        requires
            self.wf(),
        ensures
            self@.rooted(),
            crate::environment::chained(self@.scopes),
    {
    }

    /// An evaluator whose global scope holds the built-in `clock`.
    pub fn new() -> (r: Interpreter<'a>)
        ensures
            r.wf(),
            r@ == MachineView::<'a>::initial(),
    {
        let mut environments = Environment::new();
        let globals = environments.new_rc(None);
        environments.define(globals, "clock".to_owned(), LoxObject::Function(0));
        let environment = environments.new_rc(Some(globals));
        let mut functions: Vec<Callable<'a>> = Vec::new();
        functions.push(Callable::Clock(Clock));
        let r = Interpreter {
            environments,
            functions,
            globals,
            environment,
            frames: Vec::new(),
            values: Vec::new(),
            control: Control::Finished,
        };
        proof {
            let m = MachineView::<'a>::initial();
            assert(r@.values =~= m.values);
            assert(r@.frames =~= m.frames);
            assert(r@.functions =~= m.functions);
            let empty = ScopeView { names: Seq::empty(), values: Seq::empty(), parent: None };
            assert(crate::environment::index_of(empty.names, "clock"@) is None);
            assert(empty.with("clock"@, ObjectView::Function(0)).names =~= seq!["clock"@]);
            assert(empty.with("clock"@, ObjectView::Function(0)).values =~= seq![
                ObjectView::Function(0),
            ]);
            assert(r@.scopes =~= m.scopes);
        }
        r
    }

    /// Gets ready to run `stmts`, one statement after the other, until the
    /// first runtime error, in the scope that the evaluator stands in. What
    /// an earlier program left unfinished is dropped; its variables stay.
    pub fn interpret(&mut self, stmts: &'a Vec<Stmt>)
        requires
            old(self).wf(),
        ensures
            final(self).wf(),
            final(self)@ == old(self)@.interpret(stmts),
    {
        self.frames.clear();
        self.values.clear();
        self.frames.push(Frame::Program { statements: stmts, next: 0 });
        self.values.push(LoxObject::Nil);
        self.control = Control::Done;
        proof {
            assert(self@.frames =~= old(self)@.interpret(stmts).frames);
            assert(self@.values =~= old(self)@.interpret(stmts).values);
        }
    }

    /// A new scope inside the one that the evaluator stands in.
    pub fn create_new_environment(&mut self) -> (r: usize)
        requires
            old(self).wf(),
        ensures
            final(self).wf(),
            r == old(self)@.scopes.len(),
            final(self)@ == (MachineView {
                scopes: extended(old(self)@.scopes, Some(old(self)@.environment)),
                ..old(self)@
            }),
    {
        self.environments.new_rc(Some(self.environment))
    }

    /// Makes `new_env` the scope that the evaluator stands in.
    pub fn set_env(&mut self, new_env: usize)
        requires
            old(self).wf(),
            new_env < old(self)@.scopes.len(),
        ensures
            final(self).wf(),
            final(self)@ == (MachineView { environment: new_env as nat, ..old(self)@ }),
    {
        self.environment = new_env;
    }

    /// Whether the program has run to its end.
    pub fn is_finished(&self) -> (r: bool)
        ensures
            r == (self@.control is Finished),
    {
        match self.control {
            Control::Finished => true,
            _ => false,
        }
    }

    /// The scope that the evaluator stands in.
    pub fn current_environment(&self) -> (r: usize)
        ensures
            r == self@.environment,
    {
        self.environment
    }

    /// The value of `name` as seen from the scope that the evaluator stands in.
    pub fn get(&self, name: &str) -> (r: Option<LoxObject>)
        requires
            self.wf(),
        ensures
            match r {
                Some(v) => crate::environment::lookup(
                    self@.scopes,
                    self@.environment as int,
                    name@,
                ) == Some(v@),
                None => crate::environment::lookup(self@.scopes, self@.environment as int, name@)
                    is None,
            },
    {
        self.environments.get(self.environment, name)
    }

    fn push(&mut self, value: LoxObject)
        requires
            old(self).wf(),
        ensures
            final(self).wf(),
            final(self)@ == old(self)@.push(value@),
    {
        self.values.push(value);
        proof {
            assert(final(self)@.values =~= old(self)@.values.push(value@));
        }
    }

    /// Takes the topmost value.
    fn pop(&mut self) -> (r: LoxObject)
        requires
            old(self).wf(),
            old(self)@.values.len() > 0,
        ensures
            final(self).wf(),
            final(self)@ == old(self)@.drop(1),
            r@ == old(self)@.values.last(),
    {
        let taken = self.values.pop();
        proof {
            assert(final(self)@.values =~= old(self)@.values.take(old(self)@.values.len() - 1));
        }
        match taken {
            Some(v) => v,
            None => LoxObject::Nil,
        }
    }

    fn enter(&mut self, frame: Frame<'a>)
        requires
            old(self).wf(),
            crate::machine::returns_to(frame) matches Some(origin) ==> origin < old(
                self,
            )@.scopes.len(),
        ensures
            final(self).wf(),
            final(self)@ == old(self)@.enter(frame),
    {
        self.frames.push(frame);
    }

    /// Takes the topmost frame.
    fn leave(&mut self) -> (r: Frame<'a>)
        requires
            old(self).wf(),
            old(self)@.frames.len() > 0,
        ensures
            final(self).wf(),
            final(self)@ == old(self)@.leave(),
            r == old(self)@.frames.last(),
    {
        let taken = self.frames.pop();
        proof {
            assert(final(self)@.frames =~= old(self)@.frames.drop_last());
        }
        match taken {
            Some(f) => f,
            None => Frame::Discard,
        }
    }

    fn go(&mut self, control: Control<'a>) -> (a: Action)
        requires
            old(self).wf(),
        ensures
            final(self).wf(),
            outcome(*final(self), a) == old(self)@.go(control),
    {
        self.control = control;
        Action::Continue
    }

    /// The scope that the evaluator will stand in once all its frames are
    /// done.
    fn resting_scope(&self) -> (r: usize)
        requires
            self.wf(),
        ensures
            r == rests(self@.frames, self@.environment),
            r < self@.scopes.len(),
    {
        let mut scope = self.environment;
        let mut i: usize = self.frames.len();
        proof {
            assert(self.frames@.take(i as int) =~= self.frames@);
        }
        while i > 0
            invariant
                self.wf(),
                i <= self.frames.len(),
                scope < self@.scopes.len(),
                rests(self@.frames, self@.environment) == rests(
                    self.frames@.take(i as int),
                    scope as nat,
                ),
            decreases i,
        {
            i = i - 1;
            proof {
                let upper = self.frames@.take(i + 1);
                assert(upper.last() == self.frames@[i as int]);
                assert(upper.drop_last() =~= self.frames@.take(i as int));
                assert(self@.frames[i as int] == self.frames@[i as int]);
            }
            if let Frame::Block { statements, next, origin } = self.frames[i] {
                scope = origin;
            }
        }
        scope
    }

    fn fail(&mut self, error: RuntimeError) -> (a: Action)
        requires
            old(self).wf(),
        ensures
            final(self).wf(),
            outcome(*final(self), a) == old(self)@.fail(error@),
    {
        self.control = Control::Failed;
        self.environment = self.resting_scope();
        Action::Failed(error)
    }

    fn lose(&mut self) -> (a: Action)
        requires
            old(self).wf(),
        ensures
            final(self).wf(),
            outcome(*final(self), a) == old(self)@.lose(),
    {
        self.control = Control::Lost;
        self.environment = self.resting_scope();
        Action::Failed(inconsistent())
    }

    fn ask(&mut self, action: Action, pending: Pending) -> (a: Action)
        requires
            old(self).wf(),
        ensures
            final(self).wf(),
            outcome(*final(self), a) == old(self)@.ask(action@, pending),
    {
        self.control = Control::Wait(pending);
        action
    }

    fn yields(&mut self, value: LoxObject) -> (a: Action)
        requires
            old(self).wf(),
        ensures
            final(self).wf(),
            outcome(*final(self), a) == old(self)@.yields(value@),
    {
        self.push(value);
        self.go(Control::Value)
    }

    fn completes(&mut self, completion: LoxObject) -> (a: Action)
        requires
            old(self).wf(),
        ensures
            final(self).wf(),
            outcome(*final(self), a) == old(self)@.completes(completion@),
    {
        self.push(completion);
        self.go(Control::Done)
    }

    /// Makes a callable of a function of the program and gives its handle.
    fn add_function(&mut self, f: LoxFunction<'a>) -> (id: usize)
        requires
            old(self).wf(),
        ensures
            final(self).wf(),
            final(self)@ == old(self)@.with_function(f),
            id == old(self)@.functions.len(),
    {
        let id = self.functions.len();
        self.functions.push(Callable::Function(f));
        id
    }

    fn define(&mut self, name: &Token, value: LoxObject)
        requires
            old(self).wf(),
        ensures
            final(self).wf(),
            final(self)@ == (MachineView {
                scopes: defined(
                    old(self)@.scopes,
                    old(self)@.environment as int,
                    name@.lexeme_or_empty(),
                    value@,
                ),
                ..old(self)@
            }),
    {
        self.environments.define(self.environment, name.lexeme_or_empty(), value);
    }

    /// Runs `statements` in the scope `new_env`; when they end, whether at
    /// the last of them, on an exit or on an error, the evaluator is back
    /// in the scope that it stands in now.
    pub fn execute_block(&mut self, new_env: usize, statements: &'a Vec<Stmt>) -> (a: Action)
        requires
            old(self).wf(),
            new_env < old(self)@.scopes.len(),
        ensures
            final(self).wf(),
            outcome(*final(self), a) == old(self)@.execute_block(new_env as nat, statements),
    {
        let origin = self.environment;
        self.environment = new_env;
        self.enter(Frame::Block { statements, next: 0, origin });
        self.completes(LoxObject::Nil)
    }

    fn eval(&mut self, e: &'a Expr) -> (a: Action)
        requires
            old(self).wf(),
        ensures
            final(self).wf(),
            outcome(*final(self), a) == old(self)@.eval(e),
    {
        match e {
            Expr::Literal { value } => match LoxObject::from_literal(&value.literal) {
                Ok(v) => self.yields(v),
                Err(text) => self.ask(Action::ParseNumber(text), Pending::Number),
            },
            Expr::Grouping { expression } => self.go(Control::Eval(&**expression)),
            Expr::Unary { operator, right } => {
                self.enter(Frame::Unary { operator });
                self.go(Control::Eval(&**right))
            },
            Expr::Binary { left, operator, right } => {
                self.enter(Frame::BinaryLeft { operator, right: &**right });
                self.go(Control::Eval(&**left))
            },
            Expr::Variable { name } => {
                let key = name.lexeme_or_empty();
                match self.environments.get(self.environment, key.as_str()) {
                    Some(v) => self.yields(v),
                    None => self.fail(RuntimeError::UndefinedVariable(name.clone())),
                }
            },
            Expr::Assign { name, value } => {
                self.enter(Frame::Assign { name });
                self.go(Control::Eval(&**value))
            },
            Expr::Logical { left, operator, right } => {
                self.enter(Frame::Logical { operator, right: &**right });
                self.go(Control::Eval(&**left))
            },
            Expr::Call { callee, paren, args } => {
                self.enter(Frame::Callee { paren, args });
                self.go(Control::Eval(&**callee))
            },
            Expr::Function { params, body } => {
                let f = LoxFunction::new(None, params, body, self.environment);
                let id = self.add_function(f);
                self.yields(LoxObject::Function(id))
            },
        }
    }

    fn exec(&mut self, s: &'a Stmt) -> (a: Action)
        requires
            old(self).wf(),
        ensures
            final(self).wf(),
            outcome(*final(self), a) == old(self)@.exec(s),
    {
        match s {
            Stmt::Expression { expression } => {
                self.enter(Frame::Discard);
                self.go(Control::Eval(expression))
            },
            Stmt::Print { expression } => {
                self.enter(Frame::Print);
                self.go(Control::Eval(expression))
            },
            Stmt::Var { name, initializer } => match initializer {
                Some(e) => {
                    self.enter(Frame::Define { name });
                    self.go(Control::Eval(e))
                },
                None => {
                    self.define(name, LoxObject::Nil);
                    self.completes(LoxObject::Nil)
                },
            },
            Stmt::Block { statements } => {
                let new = self.create_new_environment();
                self.execute_block(new, statements)
            },
            Stmt::If { condition, then_branch, else_branch } => {
                let other: Option<&'a Stmt> = match else_branch {
                    Some(b) => Some(&**b),
                    None => None,
                };
                self.enter(Frame::Condition { then_branch: &**then_branch, else_branch: other });
                self.go(Control::Eval(condition))
            },
            Stmt::While { condition, body } => {
                self.enter(Frame::LoopCondition { condition, body: &**body });
                self.go(Control::Eval(condition))
            },
            Stmt::Break { keyword } => self.completes(LoxObject::Exit(Box::new(LoxObject::Nil))),
            Stmt::Function { name, params, body } => {
                let f = LoxFunction::new(Some(name), params, body, self.environment);
                let id = self.add_function(f);
                self.define(name, LoxObject::Function(id));
                self.completes(LoxObject::Nil)
            },
            Stmt::Return { keyword, value } => match value {
                Some(e) => {
                    self.enter(Frame::ReturnValue);
                    self.go(Control::Eval(e))
                },
                None => self.completes(LoxObject::Exit(Box::new(LoxObject::Nil))),
            },
        }
    }

    fn binary_fails(&mut self, operator: &'a Token, left: LoxObject, right: LoxObject) -> (a:
        Action)
        requires
            old(self).wf(),
        ensures
            final(self).wf(),
            outcome(*final(self), a) == old(self)@.binary_fails(operator, left@, right@),
    {
        proof {
            crate::primitive::text_or_number(left@);
            crate::primitive::text_or_number(right@);
        }
        match (left.text(), right.text()) {
            (Ok(l), Ok(r)) => self.fail(binary_error(operator, l, r)),
            (Err(n), Ok(_)) => {
                self.push(right);
                self.enter(Frame::ErrorLeft { operator });
                self.ask(Action::Format(n), Pending::Text)
            },
            (Ok(_), Err(n)) => {
                self.push(left);
                self.enter(Frame::ErrorRight { operator });
                self.ask(Action::Format(n), Pending::Text)
            },
            (Err(_), Err(_)) => self.lose(),
        }
    }

    fn concatenate(&mut self, left: LoxObject, right: LoxObject) -> (a: Action)
        requires
            old(self).wf(),
        ensures
            final(self).wf(),
            outcome(*final(self), a) == old(self)@.concatenate(left@, right@),
    {
        match (left.text(), right.text()) {
            (Ok(l), Ok(r)) => self.yields(LoxObject::String(join(l, &r))),
            (Err(n), Ok(_)) => {
                self.push(right);
                self.enter(Frame::ConcatLeft);
                self.ask(Action::Format(n), Pending::Text)
            },
            (Ok(_), Err(n)) => {
                self.push(left);
                self.enter(Frame::ConcatRight);
                self.ask(Action::Format(n), Pending::Text)
            },
            (Err(_), Err(_)) => self.lose(),
        }
    }

    fn apply_binary(&mut self, operator: &'a Token, left: LoxObject, right: LoxObject) -> (a:
        Action)
        requires
            old(self).wf(),
        ensures
            final(self).wf(),
            outcome(*final(self), a) == old(self)@.apply_binary(operator, left@, right@),
    {
        let t = operator.token_type;
        let either_is_string = match (&left, &right) {
            (LoxObject::String(_), _) => true,
            (_, LoxObject::String(_)) => true,
            _ => false,
        };
        if t == TokenType::Plus && either_is_string {
            return self.concatenate(left, right);
        }
        let numbers = match (&left, &right) {
            (LoxObject::Number(a), LoxObject::Number(b)) => Some((*a, *b)),
            _ => None,
        };
        if is_math(t) {
            match numbers {
                Some((a, b)) => self.ask(
                    Action::Arithmetic { operator: t, left: a, right: b },
                    Pending::Number,
                ),
                None => self.binary_fails(operator, left, right),
            }
        } else if is_comparison(t) {
            match numbers {
                Some((a, b)) => self.ask(
                    Action::Compare { operator: t, left: a, right: b },
                    Pending::Boolean,
                ),
                None => self.binary_fails(operator, left, right),
            }
        } else if is_equality(t) {
            match numbers {
                Some((a, b)) => self.ask(
                    Action::Compare { operator: t, left: a, right: b },
                    Pending::Boolean,
                ),
                None => {
                    let equal = same(&left, &right);
                    self.yields(LoxObject::Boolean(equal == (t == TokenType::EqualEqual)))
                },
            }
        } else {
            self.fail(
                RuntimeError::Native(
                    "Unrecoverable error: invalid operator in binary expression.".to_owned(),
                ),
            )
        }
    }

    fn apply_unary(&mut self, operator: &'a Token, right: LoxObject) -> (a: Action)
        requires
            old(self).wf(),
        ensures
            final(self).wf(),
            outcome(*final(self), a) == old(self)@.apply_unary(operator, right@),
    {
        if operator.token_type == TokenType::Minus {
            match right {
                LoxObject::Number(n) => self.ask(Action::Negate(n), Pending::Number),
                _ => match right.text() {
                    Ok(text) => self.fail(RuntimeError::InvalidUnaryOp(operator.clone(), text)),
                    Err(_) => self.lose(),
                },
            }
        } else if operator.token_type == TokenType::Bang {
            let truthy = right.is_truthy();
            self.yields(LoxObject::Boolean(!truthy))
        } else {
            self.fail(
                RuntimeError::Native(
                    "Unrecoverable error: invalid operator in unary expression.".to_owned(),
                ),
            )
        }
    }

    /// Binds the parameters to the arguments in the scope `scope`.
    #[verifier::loop_isolation(false)]
    fn bind(&mut self, scope: usize, params: &'a Vec<Token>, args: &Vec<LoxObject>)
        requires
            old(self).wf(),
            scope < old(self)@.scopes.len(),
        ensures
            final(self).wf(),
            final(self)@.scopes.len() == old(self)@.scopes.len(),
            final(self)@ == (MachineView {
                scopes: bound(old(self)@.scopes, scope as int, params@, args.deep_view(), 0),
                ..old(self)@
            }),
    {
        let mut i: usize = 0;
        while i < params.len()
            invariant
                self.wf(),
                i <= params.len(),
                self@.scopes.len() == old(self)@.scopes.len(),
                self@ == (MachineView { scopes: self@.scopes, ..old(self)@ }),
                bound(old(self)@.scopes, scope as int, params@, args.deep_view(), 0) == bound(
                    self@.scopes,
                    scope as int,
                    params@,
                    args.deep_view(),
                    i as int,
                ),
            decreases params.len() - i,
        {
            let value = if i < args.len() {
                args[i].clone()
            } else {
                LoxObject::Nil
            };
            self.environments.define(scope, params[i].lexeme_or_empty(), value);
            i = i + 1;
        }
    }

    /// Calls a function of the program with these arguments.
    pub fn call(&mut self, f: LoxFunction<'a>, args: &Vec<LoxObject>) -> (a: Action)
        requires
            old(self).wf(),
        ensures
            final(self).wf(),
            outcome(*final(self), a) == old(self)@.call(f, args.deep_view()),
    {
        let fresh = self.environments.new_rc(Some(f.closure));
        self.bind(fresh, f.params, args);
        self.enter(Frame::Call);
        self.execute_block(fresh, f.body)
    }

    fn invoke(&mut self, paren: &'a Token, n: usize) -> (a: Action)
        requires
            old(self).wf(),
        ensures
            final(self).wf(),
            outcome(*final(self), a) == old(self)@.invoke(paren, n as nat),
    {
        if self.values.len() <= n {
            return self.lose();
        }
        let ghost before = self@;
        let at = self.values.len() - n;
        let args = self.values.split_off(at);
        proof {
            assert(args.deep_view() =~= before.values.subrange(
                before.values.len() - n,
                before.values.len() as int,
            ));
            assert(self@.values =~= before.values.take(before.values.len() - n));
        }
        let callee = self.pop();
        assert(self@ == before.drop((n + 1) as nat)) by {
            assert(self@.values =~= before.values.take(before.values.len() - (n + 1)));
        }
        let target = match callee {
            LoxObject::Function(id) => if id < self.functions.len() {
                Some(self.functions[id])
            } else {
                None
            },
            _ => None,
        };
        match target {
            Some(Callable::Clock(_)) => self.ask(Action::Clock, Pending::Clock),
            Some(Callable::Function(f)) => self.call(f, &args),
            None => match callee.text() {
                Ok(text) => self.fail(RuntimeError::Uncallable(text, paren.clone())),
                Err(number) => {
                    self.enter(Frame::Uncallable { paren });
                    self.ask(Action::Format(number), Pending::Text)
                },
            },
        }
    }

    fn value(&mut self) -> (a: Action)
        requires
            old(self).wf(),
        ensures
            final(self).wf(),
            outcome(*final(self), a) == old(self)@.value(),
    {
        if self.frames.len() == 0 || self.values.len() == 0 {
            return self.lose();
        }
        let ghost before = self@;
        let frame = self.leave();
        match frame {
            Frame::BinaryLeft { operator, right } => {
                self.enter(Frame::BinaryRight { operator });
                return self.go(Control::Eval(right));
            },
            Frame::BinaryRight { operator } => {
                if self.values.len() < 2 {
                    return self.lose();
                }
                let right = self.pop();
                let left = self.pop();
                assert(self@ == before.leave().drop(2)) by {
                    assert(self@.values =~= before.values.take(before.values.len() - 2));
                }
                return self.apply_binary(operator, left, right);
            },
            Frame::Unary { operator } => {
                let right = self.pop();
                return self.apply_unary(operator, right);
            },
            Frame::Assign { name } => {
                proof {
                    crate::environment::resolve_found(
                        before.scopes,
                        before.environment as int,
                        name@.lexeme_or_empty(),
                    );
                }
                let top = self.values.len() - 1;
                let v = self.values[top].clone();
                match self.environments.assign(self.environment, name.lexeme_or_empty(), v) {
                    Ok(_) => {
                        return self.go(Control::Value);
                    },
                    Err(_) => {
                        return self.fail(RuntimeError::UndefinedVariable(name.clone()));
                    },
                }
            },
            Frame::Logical { operator, right } => {
                let top = self.values.len() - 1;
                let truthy = self.values[top].is_truthy();
                if operator.token_type == TokenType::Or {
                    if truthy {
                        return self.go(Control::Value);
                    } else {
                        let _ = self.pop();
                        return self.go(Control::Eval(right));
                    }
                } else if operator.token_type == TokenType::And {
                    if truthy {
                        let _ = self.pop();
                        return self.go(Control::Eval(right));
                    } else {
                        return self.go(Control::Value);
                    }
                } else {
                    return self.fail(RuntimeError::InvalidLogicalOp(operator.clone()));
                }
            },
            Frame::Callee { paren, args } => {
                if args.len() == 0 {
                    return self.invoke(paren, 0);
                } else {
                    self.enter(Frame::Argument { paren, args, done: 0 });
                    return self.go(Control::Eval(&args[0]));
                }
            },
            Frame::Argument { paren, args, done } => {
                if done < args.len() && done + 1 < args.len() {
                    self.enter(Frame::Argument { paren, args, done: done + 1 });
                    return self.go(Control::Eval(&args[done + 1]));
                } else if done < usize::MAX {
                    return self.invoke(paren, done + 1);
                } else {
                    return self.lose();
                }
            },
            Frame::Discard => {
                let _ = self.pop();
                return self.completes(LoxObject::Nil);
            },
            Frame::Print => {
                let v = self.pop();
                match v.text() {
                    Ok(text) => {
                        return self.ask(Action::Print(text), Pending::Printed);
                    },
                    Err(number) => {
                        self.enter(Frame::Output);
                        return self.ask(Action::Format(number), Pending::Text);
                    },
                }
            },
            Frame::Define { name } => {
                let v = self.pop();
                self.define(name, v);
                return self.completes(LoxObject::Nil);
            },
            Frame::Condition { then_branch, else_branch } => {
                let v = self.pop();
                if v.is_truthy() {
                    return self.go(Control::Exec(then_branch));
                } else {
                    match else_branch {
                        Some(b) => {
                            return self.go(Control::Exec(b));
                        },
                        None => {
                            return self.completes(LoxObject::Nil);
                        },
                    }
                }
            },
            Frame::LoopCondition { condition, body } => {
                let v = self.pop();
                if v.is_truthy() {
                    self.enter(Frame::LoopBody { condition, body });
                    return self.go(Control::Exec(body));
                } else {
                    return self.completes(LoxObject::Nil);
                }
            },
            Frame::ReturnValue => {
                let v = self.pop();
                return self.completes(LoxObject::Exit(Box::new(v)));
            },
            _ => self.lose(),
        }
    }

    fn done(&mut self) -> (a: Action)
        requires
            old(self).wf(),
        ensures
            final(self).wf(),
            outcome(*final(self), a) == old(self)@.done(),
    {
        if self.frames.len() == 0 || self.values.len() == 0 {
            return self.lose();
        }
        proof {
            reveal_with_fuel(crate::primitive::object_view, 2);
        }
        let frame = self.leave();
        let top = self.values.len() - 1;
        let exits = match &self.values[top] {
            LoxObject::Exit(_) => true,
            _ => false,
        };
        match frame {
            Frame::Block { statements, next, origin } => {
                if exits {
                    self.environment = origin;
                    return self.go(Control::Done);
                } else if next < statements.len() {
                    let _ = self.pop();
                    self.enter(Frame::Block { statements, next: next + 1, origin });
                    return self.go(Control::Exec(&statements[next]));
                } else {
                    let _ = self.pop();
                    self.environment = origin;
                    return self.completes(LoxObject::Nil);
                }
            },
            Frame::LoopBody { condition, body } => {
                let breaks = match &self.values[top] {
                    LoxObject::Exit(inner) => match &**inner {
                        LoxObject::Nil => true,
                        _ => false,
                    },
                    _ => false,
                };
                if exits {
                    if breaks {
                        let _ = self.pop();
                        return self.completes(LoxObject::Nil);
                    } else {
                        return self.go(Control::Done);
                    }
                } else {
                    let _ = self.pop();
                    self.enter(Frame::LoopCondition { condition, body });
                    return self.go(Control::Eval(condition));
                }
            },
            Frame::Call => {
                if exits {
                    match self.pop() {
                        LoxObject::Exit(inner) => {
                            return self.yields(*inner);
                        },
                        other => {
                            return self.yields(other);
                        },
                    }
                } else {
                    return self.go(Control::Value);
                }
            },
            Frame::Program { statements, next } => {
                let _ = self.pop();
                if next < statements.len() {
                    self.enter(Frame::Program { statements, next: next + 1 });
                    return self.go(Control::Exec(&statements[next]));
                } else {
                    self.control = Control::Finished;
                    return Action::Finished;
                }
            },
            _ => self.lose(),
        }
    }

    fn text(&mut self, text: String) -> (a: Action)
        requires
            old(self).wf(),
        ensures
            final(self).wf(),
            outcome(*final(self), a) == old(self)@.text(text@),
    {
        if self.frames.len() == 0 {
            return self.lose();
        }
        let frame = self.leave();
        match frame {
            Frame::Output => self.ask(Action::Print(text), Pending::Printed),
            Frame::Uncallable { paren } => self.fail(RuntimeError::Uncallable(text, paren.clone())),
            Frame::ConcatLeft | Frame::ConcatRight | Frame::ErrorLeft { .. } | Frame::ErrorRight {
                ..
            } => {
                if self.values.len() == 0 {
                    return self.lose();
                }
                let top = self.values.len() - 1;
                let held = match self.values[top].text() {
                    Ok(held) => held,
                    Err(_) => {
                        return self.lose();
                    },
                };
                let _ = self.pop();
                match frame {
                    Frame::ConcatLeft => self.yields(LoxObject::String(join(text, &held))),
                    Frame::ConcatRight => self.yields(LoxObject::String(join(held, &text))),
                    Frame::ErrorLeft { operator } => self.fail(binary_error(operator, text, held)),
                    Frame::ErrorRight { operator } => self.fail(binary_error(operator, held, text)),
                    _ => self.lose(),
                }
            },
            _ => self.lose(),
        }
    }

    fn answer(&mut self, pending: Pending, event: Event) -> (a: Action)
        requires
            old(self).wf(),
        ensures
            final(self).wf(),
            outcome(*final(self), a) == old(self)@.answer(pending, event@),
    {
        match (pending, event) {
            (Pending::Number, Event::Number(n)) => self.yields(LoxObject::Number(n)),
            (Pending::Boolean, Event::Boolean(b)) => self.yields(LoxObject::Boolean(b)),
            (Pending::Printed, Event::Nothing) => self.completes(LoxObject::Nil),
            (Pending::Clock, Event::Number(n)) => self.yields(LoxObject::Number(n)),
            (Pending::Clock, Event::Failure(msg)) => self.fail(RuntimeError::Native(msg)),
            (Pending::Text, Event::Text(text)) => self.text(text),
            _ => self.fail(
                RuntimeError::Native(
                    "the host answered something else than it was asked".to_owned(),
                ),
            ),
        }
    }

    /// Makes one transition. `event` is what the host answers to the
    /// action of the transition before; it counts only where that action
    /// asked for an answer.
    pub fn step(&mut self, event: Event) -> (a: Action)
        requires
            old(self).wf(),
        ensures
            final(self).wf(),
            outcome(*final(self), a) == old(self)@.step(event@),
    {
        match self.control {
            Control::Eval(e) => self.eval(e),
            Control::Exec(s) => self.exec(s),
            Control::Value => self.value(),
            Control::Done => self.done(),
            Control::Wait(pending) => self.answer(pending, event),
            Control::Finished => Action::Finished,
            Control::Failed => Action::Stopped,
            Control::Lost => Action::Stopped,
        }
    }

    /// Makes transitions until one asks something of the host or ends the
    /// program, but `limit` of them at most; `Continue` says that the limit
    /// was reached.
    pub fn run(&mut self, event: Event, limit: usize) -> (a: Action)
        requires
            old(self).wf(),
        ensures
            final(self).wf(),
            outcome(*final(self), a) == old(self)@.run(event@, limit as nat),
    {
        if limit == 0 {
            return Action::Continue;
        }
        let mut action = self.step(event);
        let mut left: usize = limit - 1;
        while left > 0 && matches!(action, Action::Continue)
            invariant
                self.wf(),
                old(self)@.run(event@, limit as nat) == if action@ is Continue {
                    self@.run(crate::machine::EventView::Nothing, left as nat)
                } else {
                    outcome(*self, action)
                },
            decreases left,
        {
            action = self.step(Event::Nothing);
            left = left - 1;
        }
        action
    }
}

} // verus!
