//! The evaluator as a machine: its states, what it asks of its host, and
//! the one transition that each state makes.
//!
//! The machine walks the syntax with a stack of frames, one for each
//! construct that waits for a part of itself, and a stack of values. It
//! cannot compute on numbers and it owns no output, so its transitions stop
//! wherever a number has to be read, combined, compared or written out,
//! wherever a line has to be printed, and wherever the clock has to be read:
//! then the host does that work and hands the answer to the next transition.
use crate::ast::{Expr, Stmt};
use crate::environment::{assigned, defined, extended, lookup, ScopeView};
use crate::errors::{RuntimeError, RuntimeErrorView};
use crate::native::{Callable, LoxFunction};
use crate::primitive::{literal_value, Number, ObjectView};
use crate::token::{Token, TokenType};
use vstd::prelude::*;

verus! {

/// A construct that waits for a part of itself.
#[derive(Clone, Copy, Debug)]
pub enum Frame<'a> {
    /// A binary expression waits for its left operand.
    BinaryLeft { operator: &'a Token, right: &'a Expr },
    /// A binary expression waits for its right operand; the left one is
    /// the top of the values.
    BinaryRight { operator: &'a Token },
    Unary { operator: &'a Token },
    Assign { name: &'a Token },
    Logical { operator: &'a Token, right: &'a Expr },
    /// A call waits for its callee.
    Callee { paren: &'a Token, args: &'a Vec<Expr> },
    /// A call waits for an argument; the callee and the `done` arguments
    /// before it are the top of the values.
    Argument { paren: &'a Token, args: &'a Vec<Expr>, done: usize },
    /// An expression statement waits for its value, to drop it.
    Discard,
    Print,
    Define { name: &'a Token },
    Condition { then_branch: &'a Stmt, else_branch: Option<&'a Stmt> },
    LoopCondition { condition: &'a Expr, body: &'a Stmt },
    ReturnValue,
    /// A block waits for one of its statements; `origin` is the scope to
    /// go back to when the block ends.
    Block { statements: &'a Vec<Stmt>, next: usize, origin: usize },
    LoopBody { condition: &'a Expr, body: &'a Stmt },
    /// A call waits for the body of its function.
    Call,
    /// The program waits for one of its statements.
    Program { statements: &'a Vec<Stmt>, next: usize },
    /// A `print` waits for the text of its number.
    Output,
    /// A concatenation waits for the text of its left operand, a number;
    /// the right operand is the top of the values.
    ConcatLeft,
    /// A concatenation waits for the text of its right operand, a number;
    /// the left operand is the top of the values.
    ConcatRight,
    /// An error of a binary operator waits for the text of its left operand.
    ErrorLeft { operator: &'a Token },
    /// An error of a binary operator waits for the text of its right operand.
    ErrorRight { operator: &'a Token },
    /// The error of a call of a number waits for the text of the number.
    Uncallable { paren: &'a Token },
}

/// What the machine waits for from its host.
#[derive(Clone, Copy, Debug, PartialEq, Eq, Structural)]
pub enum Pending {
    Number,
    Boolean,
    Text,
    Printed,
    Clock,
}

/// What the machine does next.
#[derive(Clone, Copy, Debug)]
pub enum Control<'a> {
    /// Evaluate the expression.
    Eval(&'a Expr),
    /// Execute the statement.
    Exec(&'a Stmt),
    /// An expression has its value: the top of the values.
    Value,
    /// A statement has completed with the top of the values: `Exit(v)`
    /// where a `break` or a `return` is under way, else `Nil`.
    Done,
    /// The host owes an answer.
    Wait(Pending),
    Finished,
    /// The program has failed.
    Failed,
    /// The evaluator has failed: it found a frame or a value missing.
    Lost,
}

/// What a transition asks of the host.
#[derive(Debug)]
pub enum Action {
    /// Nothing: make the next transition.
    Continue,
    /// The program has run to its end.
    Finished,
    /// The program has failed with this error.
    Failed(RuntimeError),
    /// The program failed earlier.
    Stopped,
    /// Read the number that the decimal text denotes.
    ParseNumber(String),
    /// Add, subtract, multiply or divide, as `operator` says.
    Arithmetic { operator: TokenType, left: Number, right: Number },
    /// Compare, as `operator` says.
    Compare { operator: TokenType, left: Number, right: Number },
    Negate(Number),
    /// Write the number out.
    Format(Number),
    /// Print the line.
    Print(String),
    /// Read the seconds since the Unix epoch.
    Clock,
}

/// The mathematical value of an [`Action`].
pub enum ActionView {
    Continue,
    Finished,
    Failed(RuntimeErrorView),
    Stopped,
    ParseNumber(Seq<char>),
    Arithmetic { operator: TokenType, left: Number, right: Number },
    Compare { operator: TokenType, left: Number, right: Number },
    Negate(Number),
    Format(Number),
    Print(Seq<char>),
    Clock,
}

impl View for Action {
    type V = ActionView;

    open spec fn view(&self) -> ActionView {
        match self {
            Action::Continue => ActionView::Continue,
            Action::Finished => ActionView::Finished,
            Action::Failed(e) => ActionView::Failed(e@),
            Action::Stopped => ActionView::Stopped,
            Action::ParseNumber(text) => ActionView::ParseNumber(text@),
            Action::Arithmetic { operator, left, right } => ActionView::Arithmetic {
                operator: *operator,
                left: *left,
                right: *right,
            },
            Action::Compare { operator, left, right } => ActionView::Compare {
                operator: *operator,
                left: *left,
                right: *right,
            },
            Action::Negate(n) => ActionView::Negate(*n),
            Action::Format(n) => ActionView::Format(*n),
            Action::Print(line) => ActionView::Print(line@),
            Action::Clock => ActionView::Clock,
        }
    }
}

/// What the host hands to a transition: the answer to what the transition
/// before asked, or `Nothing` where it asked nothing, or only to print.
#[derive(Debug)]
pub enum Event {
    Nothing,
    Number(Number),
    Boolean(bool),
    Text(String),
    /// The host could not do what was asked.
    Failure(String),
}

/// The mathematical value of an [`Event`].
pub enum EventView {
    Nothing,
    Number(Number),
    Boolean(bool),
    Text(Seq<char>),
    Failure(Seq<char>),
}

impl View for Event {
    type V = EventView;

    open spec fn view(&self) -> EventView {
        match self {
            Event::Nothing => EventView::Nothing,
            Event::Number(n) => EventView::Number(*n),
            Event::Boolean(b) => EventView::Boolean(*b),
            Event::Text(s) => EventView::Text(s@),
            Event::Failure(s) => EventView::Failure(s@),
        }
    }
}

/// The state of the machine.
pub struct MachineView<'a> {
    /// The arena of scopes.
    pub scopes: Seq<ScopeView>,
    /// The callables, each named by its index.
    pub functions: Seq<Callable<'a>>,
    pub globals: nat,
    /// The scope that the machine stands in.
    pub environment: nat,
    pub frames: Seq<Frame<'a>>,
    pub values: Seq<ObjectView>,
    pub control: Control<'a>,
}

/// A state and what is asked of the host on the way into it.
pub struct Outcome<'a> {
    pub state: MachineView<'a>,
    pub action: ActionView,
}

pub open spec fn inconsistent() -> RuntimeErrorView {
    RuntimeErrorView::Native("the evaluator has lost track of what it was doing"@)
}

pub open spec fn unanswered() -> RuntimeErrorView {
    RuntimeErrorView::Native("the host answered something else than it was asked"@)
}

pub open spec fn invalid_binary() -> RuntimeErrorView {
    RuntimeErrorView::Native("Unrecoverable error: invalid operator in binary expression."@)
}

pub open spec fn invalid_unary() -> RuntimeErrorView {
    RuntimeErrorView::Native("Unrecoverable error: invalid operator in unary expression."@)
}

pub open spec fn is_math(t: TokenType) -> bool {
    t == TokenType::Plus || t == TokenType::Minus || t == TokenType::Star || t == TokenType::Slash
}

pub open spec fn is_comparison(t: TokenType) -> bool {
    t == TokenType::Greater || t == TokenType::GreaterEqual || t == TokenType::Less || t
        == TokenType::LessEqual
}

pub open spec fn is_equality(t: TokenType) -> bool {
    t == TokenType::EqualEqual || t == TokenType::BangEqual
}

/// The error of a binary operator whose operands it cannot take.
pub open spec fn binary_error(operator: Token, left: Seq<char>, right: Seq<char>) -> RuntimeErrorView {
    if is_math(operator.token_type) {
        RuntimeErrorView::InvalidMathOp(left, operator@, right)
    } else {
        RuntimeErrorView::InvalidComparisonOp(left, operator@, right)
    }
}

/// Whether two values that are not both numbers are equal: strings,
/// truth values and `nil` are equal to their like; functions are equal to
/// nothing, and values of different kinds are unequal.
pub open spec fn same(left: ObjectView, right: ObjectView) -> bool {
    match (left, right) {
        (ObjectView::String(a), ObjectView::String(b)) => a == b,
        (ObjectView::Boolean(a), ObjectView::Boolean(b)) => a == b,
        (ObjectView::Nil, ObjectView::Nil) => true,
        _ => false,
    }
}

/// The `i`-th argument, or `nil` where there are not so many.
pub open spec fn argument(args: Seq<ObjectView>, i: int) -> ObjectView {
    if 0 <= i < args.len() {
        args[i]
    } else {
        ObjectView::Nil
    }
}

/// The scopes after the parameters from the `i`-th on were bound to the
/// arguments from the `i`-th on, one to one; a parameter that no argument
/// is left for is bound to `nil`.
pub open spec fn bound(
    scopes: Seq<ScopeView>,
    scope: int,
    params: Seq<Token>,
    args: Seq<ObjectView>,
    i: int,
) -> Seq<ScopeView>
    decreases params.len() - i,
{
    if 0 <= i < params.len() {
        bound(
            defined(scopes, scope, params[i]@.lexeme_or_empty(), argument(args, i)),
            scope,
            params,
            args,
            i + 1,
        )
    } else {
        scopes
    }
}

/// The scope that a frame brings the machine back to when it is done: a
/// block goes back to where it was entered from.
pub open spec fn returns_to(f: Frame) -> Option<nat> {
    match f {
        Frame::Block { statements, next, origin } => Some(origin as nat),
        _ => None,
    }
}

/// The scope that the machine will stand in once all the frames are done.
pub open spec fn rests(frames: Seq<Frame>, environment: nat) -> nat
    decreases frames.len(),
{
    if frames.len() == 0 {
        environment
    } else {
        match returns_to(frames.last()) {
            Some(origin) => rests(frames.drop_last(), origin),
            None => rests(frames.drop_last(), environment),
        }
    }
}

impl<'a> MachineView<'a> {
    /// The machine before any program: the global scope, which holds the
    /// built-in `clock`, and inside it the scope that programs start in.
    pub open spec fn initial() -> MachineView<'a> {
        MachineView {
            scopes: seq![
                ScopeView {
                    names: seq!["clock"@],
                    values: seq![ObjectView::Function(0)],
                    parent: None,
                },
                ScopeView { names: Seq::empty(), values: Seq::empty(), parent: Some(0nat) },
            ],
            functions: seq![Callable::Clock(crate::native::Clock)],
            globals: 0,
            environment: 1,
            frames: Seq::empty(),
            values: Seq::empty(),
            control: Control::Finished,
        }
    }

    /// The machine goes on by itself.
    pub open spec fn go(self, control: Control<'a>) -> Outcome<'a> {
        Outcome { state: MachineView { control, ..self }, action: ActionView::Continue }
    }

    /// Every handle of the machine names a scope: the scope that it stands
    /// in, and the scope that each of its blocks goes back to.
    pub open spec fn rooted(self) -> bool {
        &&& self.environment < self.scopes.len()
        &&& forall|i: int|
            0 <= i < self.frames.len() ==> (returns_to(#[trigger] self.frames[i]) matches Some(
                origin,
            ) ==> origin < self.scopes.len())
    }

    /// The machine stops with an error. Every block that it is inside of
    /// ends with it, so the machine is back in the scope that the
    /// outermost of them was entered from.
    pub open spec fn fail(self, error: RuntimeErrorView) -> Outcome<'a> {
        Outcome {
            state: MachineView {
                control: Control::Failed,
                environment: rests(self.frames, self.environment),
                ..self
            },
            action: ActionView::Failed(error),
        }
    }

    /// The machine stops because it found a frame or a value missing.
    pub open spec fn lose(self) -> Outcome<'a> {
        Outcome {
            state: MachineView {
                control: Control::Lost,
                environment: rests(self.frames, self.environment),
                ..self
            },
            action: ActionView::Failed(inconsistent()),
        }
    }

    /// The machine asks its host and waits.
    pub open spec fn ask(self, action: ActionView, pending: Pending) -> Outcome<'a> {
        Outcome { state: MachineView { control: Control::Wait(pending), ..self }, action }
    }

    pub open spec fn push(self, value: ObjectView) -> MachineView<'a> {
        MachineView { values: self.values.push(value), ..self }
    }

    /// Without the topmost `n` values.
    pub open spec fn drop(self, n: nat) -> MachineView<'a> {
        MachineView { values: self.values.take(self.values.len() - n), ..self }
    }

    pub open spec fn enter(self, frame: Frame<'a>) -> MachineView<'a> {
        MachineView { frames: self.frames.push(frame), ..self }
    }

    pub open spec fn leave(self) -> MachineView<'a> {
        MachineView { frames: self.frames.drop_last(), ..self }
    }

    /// The expression has the value `value`.
    pub open spec fn yields(self, value: ObjectView) -> Outcome<'a> {
        self.push(value).go(Control::Value)
    }

    /// The statement has completed with `completion`.
    pub open spec fn completes(self, completion: ObjectView) -> Outcome<'a> {
        self.push(completion).go(Control::Done)
    }

    /// With one more callable.
    pub open spec fn with_function(self, f: LoxFunction<'a>) -> MachineView<'a> {
        MachineView { functions: self.functions.push(Callable::Function(f)), ..self }
    }

    /// The statements run in the scope `scope`, one after the other, and
    /// the machine comes back to the scope it stands in now.
    pub open spec fn execute_block(self, scope: nat, statements: &'a Vec<Stmt>) -> Outcome<'a> {
        MachineView { environment: scope, ..self }.enter(
            Frame::Block { statements, next: 0, origin: self.environment as usize },
        ).completes(ObjectView::Nil)
    }

    /// Evaluating an expression: a literal is its value, a number after
    /// the host has read it; a variable is looked up from the scope that
    /// the machine stands in; a function expression makes a callable that
    /// captures that scope; every other expression waits for its first part.
    pub open spec fn eval(self, e: &'a Expr) -> Outcome<'a> {
        match e {
            Expr::Literal { value } => match literal_value(value@.literal) {
                Ok(v) => self.yields(v),
                Err(text) => self.ask(ActionView::ParseNumber(text), Pending::Number),
            },
            Expr::Grouping { expression } => self.go(Control::Eval(&**expression)),
            Expr::Unary { operator, right } => self.enter(Frame::Unary { operator }).go(
                Control::Eval(&**right),
            ),
            Expr::Binary { left, operator, right } => self.enter(
                Frame::BinaryLeft { operator, right: &**right },
            ).go(Control::Eval(&**left)),
            Expr::Variable { name } => match lookup(
                self.scopes,
                self.environment as int,
                name@.lexeme_or_empty(),
            ) {
                Some(v) => self.yields(v),
                None => self.fail(RuntimeErrorView::UndefinedVariable(name@)),
            },
            Expr::Assign { name, value } => self.enter(Frame::Assign { name }).go(
                Control::Eval(&**value),
            ),
            Expr::Logical { left, operator, right } => self.enter(
                Frame::Logical { operator, right: &**right },
            ).go(Control::Eval(&**left)),
            Expr::Call { callee, paren, args } => self.enter(Frame::Callee { paren, args }).go(
                Control::Eval(&**callee),
            ),
            Expr::Function { params, body } => self.with_function(
                LoxFunction { name: None, params, body, closure: self.environment as usize },
            ).yields(ObjectView::Function(self.functions.len())),
        }
    }

    /// Executing a statement.
    pub open spec fn exec(self, s: &'a Stmt) -> Outcome<'a> {
        match s {
            Stmt::Expression { expression } => self.enter(Frame::Discard).go(
                Control::Eval(expression),
            ),
            Stmt::Print { expression } => self.enter(Frame::Print).go(Control::Eval(expression)),
            Stmt::Var { name, initializer } => match initializer {
                Some(e) => self.enter(Frame::Define { name }).go(Control::Eval(e)),
                None => MachineView {
                    scopes: defined(
                        self.scopes,
                        self.environment as int,
                        name@.lexeme_or_empty(),
                        ObjectView::Nil,
                    ),
                    ..self
                }.completes(ObjectView::Nil),
            },
            Stmt::Block { statements } => MachineView {
                scopes: extended(self.scopes, Some(self.environment)),
                ..self
            }.execute_block(self.scopes.len(), statements),
            Stmt::If { condition, then_branch, else_branch } => self.enter(
                Frame::Condition {
                    then_branch: &**then_branch,
                    else_branch: match else_branch {
                        Some(b) => Some(&**b),
                        None => None,
                    },
                },
            ).go(Control::Eval(condition)),
            Stmt::While { condition, body } => self.enter(
                Frame::LoopCondition { condition, body: &**body },
            ).go(Control::Eval(condition)),
            Stmt::Break { keyword } => self.completes(
                ObjectView::Exit(Box::new(ObjectView::Nil)),
            ),
            Stmt::Function { name, params, body } => MachineView {
                scopes: defined(
                    self.scopes,
                    self.environment as int,
                    name@.lexeme_or_empty(),
                    ObjectView::Function(self.functions.len()),
                ),
                ..self.with_function(
                    LoxFunction {
                        name: Some(name),
                        params,
                        body,
                        closure: self.environment as usize,
                    },
                )
            }.completes(ObjectView::Nil),
            Stmt::Return { keyword, value } => match value {
                Some(e) => self.enter(Frame::ReturnValue).go(Control::Eval(e)),
                None => self.completes(ObjectView::Exit(Box::new(ObjectView::Nil))),
            },
        }
    }

    /// The error of a binary operator: it names both operands by their
    /// texts, of which the host writes the one that is a number.
    pub open spec fn binary_fails(self, operator: &'a Token, left: ObjectView, right: ObjectView) -> Outcome<
        'a,
    > {
        match (left.text(), right.text()) {
            (Some(l), Some(r)) => self.fail(binary_error(*operator, l, r)),
            (None, Some(r)) => self.push(right).enter(Frame::ErrorLeft { operator }).ask(
                ActionView::Format(left.number_shown()->0),
                Pending::Text,
            ),
            (Some(l), None) => self.push(left).enter(Frame::ErrorRight { operator }).ask(
                ActionView::Format(right.number_shown()->0),
                Pending::Text,
            ),
            (None, None) => self.lose(),
        }
    }

    /// `left + right` where one of the two is a string: the texts of both,
    /// one after the other.
    pub open spec fn concatenate(self, left: ObjectView, right: ObjectView) -> Outcome<'a> {
        match (left.text(), right.text()) {
            (Some(l), Some(r)) => self.yields(ObjectView::String(l + r)),
            (None, Some(r)) => self.push(right).enter(Frame::ConcatLeft).ask(
                ActionView::Format(left.number_shown()->0),
                Pending::Text,
            ),
            (Some(l), None) => self.push(left).enter(Frame::ConcatRight).ask(
                ActionView::Format(right.number_shown()->0),
                Pending::Text,
            ),
            (None, None) => self.lose(),
        }
    }

    /// Applying a binary operator to the values of its operands. `+`
    /// concatenates where one operand is a string; the arithmetic and the
    /// comparison of two numbers are the host's; equality of two values
    /// that are not both numbers is decided here.
    pub open spec fn apply_binary(self, operator: &'a Token, left: ObjectView, right: ObjectView) -> Outcome<
        'a,
    > {
        let t = operator.token_type;
        if t == TokenType::Plus && (left is String || right is String) {
            self.concatenate(left, right)
        } else if is_math(t) {
            match (left, right) {
                (ObjectView::Number(a), ObjectView::Number(b)) => self.ask(
                    ActionView::Arithmetic { operator: t, left: a, right: b },
                    Pending::Number,
                ),
                _ => self.binary_fails(operator, left, right),
            }
        } else if is_comparison(t) {
            match (left, right) {
                (ObjectView::Number(a), ObjectView::Number(b)) => self.ask(
                    ActionView::Compare { operator: t, left: a, right: b },
                    Pending::Boolean,
                ),
                _ => self.binary_fails(operator, left, right),
            }
        } else if is_equality(t) {
            match (left, right) {
                (ObjectView::Number(a), ObjectView::Number(b)) => self.ask(
                    ActionView::Compare { operator: t, left: a, right: b },
                    Pending::Boolean,
                ),
                _ => self.yields(
                    ObjectView::Boolean(same(left, right) == (t == TokenType::EqualEqual)),
                ),
            }
        } else {
            self.fail(invalid_binary())
        }
    }

    /// Applying a unary operator to the value of its operand.
    pub open spec fn apply_unary(self, operator: &'a Token, right: ObjectView) -> Outcome<'a> {
        if operator.token_type == TokenType::Minus {
            match right {
                ObjectView::Number(n) => self.ask(ActionView::Negate(n), Pending::Number),
                _ => match right.text() {
                    Some(text) => self.fail(RuntimeErrorView::InvalidUnaryOp(operator@, text)),
                    None => self.lose(),
                },
            }
        } else if operator.token_type == TokenType::Bang {
            self.yields(ObjectView::Boolean(!right.is_truthy()))
        } else {
            self.fail(invalid_unary())
        }
    }

    /// Calling a function of the program: its body runs in a new scope
    /// inside the scope that the function captured, with the parameters
    /// bound to the arguments; arguments beyond the parameters are dropped,
    /// parameters beyond the arguments are `nil`. When the body ends,
    /// the call has the value that a `return` carried, or `nil`.
    pub open spec fn call(self, f: LoxFunction<'a>, args: Seq<ObjectView>) -> Outcome<'a> {
        let fresh = self.scopes.len();
        MachineView {
            scopes: bound(
                extended(self.scopes, Some(f.closure as nat)),
                fresh as int,
                f.params@,
                args,
                0,
            ),
            ..self
        }.enter(Frame::Call).execute_block(fresh, f.body)
    }

    /// Calling the value under the topmost `n` values with these as its
    /// arguments. The clock is read by the host; what is no function
    /// cannot be called.
    pub open spec fn invoke(self, paren: &'a Token, n: nat) -> Outcome<'a> {
        if self.values.len() < n + 1 {
            self.lose()
        } else {
            let args = self.values.subrange(self.values.len() - n, self.values.len() as int);
            let callee = self.values[self.values.len() - n - 1];
            let rest = self.drop(n + 1);
            match callee {
                ObjectView::Function(id) if id < self.functions.len() => {
                    match self.functions[id as int] {
                        Callable::Clock(_) => rest.ask(ActionView::Clock, Pending::Clock),
                        Callable::Function(f) => rest.call(f, args),
                    }
                },
                _ => match callee.text() {
                    Some(text) => rest.fail(RuntimeErrorView::Uncallable(text, paren@)),
                    None => rest.enter(Frame::Uncallable { paren }).ask(
                        ActionView::Format(callee.number_shown()->0),
                        Pending::Text,
                    ),
                },
            }
        }
    }

    /// An expression has its value: the frame on top takes it.
    pub open spec fn value(self) -> Outcome<'a> {
        if self.frames.len() == 0 || self.values.len() == 0 {
            self.lose()
        } else {
            let v = self.values.last();
            let m = self.leave();
            match self.frames.last() {
                Frame::BinaryLeft { operator, right } => m.enter(Frame::BinaryRight { operator }).go(
                    Control::Eval(right),
                ),
                Frame::BinaryRight { operator } => if self.values.len() < 2 {
                    m.lose()
                } else {
                    m.drop(2).apply_binary(operator, self.values[self.values.len() - 2], v)
                },
                Frame::Unary { operator } => m.drop(1).apply_unary(operator, v),
                Frame::Assign { name } => if lookup(
                    self.scopes,
                    self.environment as int,
                    name@.lexeme_or_empty(),
                ) is Some {
                    MachineView {
                        scopes: assigned(
                            self.scopes,
                            self.environment as int,
                            name@.lexeme_or_empty(),
                            v,
                        ),
                        ..m
                    }.go(Control::Value)
                } else {
                    m.fail(RuntimeErrorView::UndefinedVariable(name@))
                },
                Frame::Logical { operator, right } => if operator.token_type == TokenType::Or {
                    if v.is_truthy() {
                        m.go(Control::Value)
                    } else {
                        m.drop(1).go(Control::Eval(right))
                    }
                } else if operator.token_type == TokenType::And {
                    if v.is_truthy() {
                        m.drop(1).go(Control::Eval(right))
                    } else {
                        m.go(Control::Value)
                    }
                } else {
                    m.fail(RuntimeErrorView::InvalidLogicalOp(operator@))
                },
                Frame::Callee { paren, args } => if args@.len() == 0 {
                    m.invoke(paren, 0)
                } else {
                    m.enter(Frame::Argument { paren, args, done: 0 }).go(Control::Eval(&args@[0]))
                },
                Frame::Argument { paren, args, done } => if done + 1 < args@.len() {
                    m.enter(Frame::Argument { paren, args, done: (done + 1) as usize }).go(
                        Control::Eval(&args@[done + 1]),
                    )
                } else {
                    m.invoke(paren, (done + 1) as nat)
                },
                Frame::Discard => m.drop(1).completes(ObjectView::Nil),
                Frame::Print => match v.text() {
                    Some(text) => m.drop(1).ask(ActionView::Print(text), Pending::Printed),
                    None => m.drop(1).enter(Frame::Output).ask(
                        ActionView::Format(v.number_shown()->0),
                        Pending::Text,
                    ),
                },
                Frame::Define { name } => MachineView {
                    scopes: defined(
                        self.scopes,
                        self.environment as int,
                        name@.lexeme_or_empty(),
                        v,
                    ),
                    ..m.drop(1)
                }.completes(ObjectView::Nil),
                Frame::Condition { then_branch, else_branch } => if v.is_truthy() {
                    m.drop(1).go(Control::Exec(then_branch))
                } else {
                    match else_branch {
                        Some(b) => m.drop(1).go(Control::Exec(b)),
                        None => m.drop(1).completes(ObjectView::Nil),
                    }
                },
                Frame::LoopCondition { condition, body } => if v.is_truthy() {
                    m.drop(1).enter(Frame::LoopBody { condition, body }).go(Control::Exec(body))
                } else {
                    m.drop(1).completes(ObjectView::Nil)
                },
                Frame::ReturnValue => m.drop(1).completes(ObjectView::Exit(Box::new(v))),
                _ => m.lose(),
            }
        }
    }

    /// A statement has completed: the frame on top takes the completion.
    /// A block goes on with its next statement, or ends where there is
    /// none or where an exit is under way, and then the machine is back in
    /// the scope that the block was entered from. A loop ends on an exit:
    /// that of a `break`, which carries `nil`, ends with the loop, any
    /// other goes on outwards. A call ends with the value that the exit
    /// carries, or with `nil`.
    pub open spec fn done(self) -> Outcome<'a> {
        if self.frames.len() == 0 || self.values.len() == 0 {
            self.lose()
        } else {
            let c = self.values.last();
            let m = self.leave();
            match self.frames.last() {
                Frame::Block { statements, next, origin } => if c is Exit {
                    MachineView { environment: origin as nat, ..m }.go(Control::Done)
                } else if next < statements@.len() {
                    m.drop(1).enter(
                        Frame::Block { statements, next: (next + 1) as usize, origin },
                    ).go(Control::Exec(&statements@[next as int]))
                } else {
                    MachineView { environment: origin as nat, ..m.drop(1) }.completes(
                        ObjectView::Nil,
                    )
                },
                Frame::LoopBody { condition, body } => match c {
                    ObjectView::Exit(inner) => if *inner is Nil {
                        m.drop(1).completes(ObjectView::Nil)
                    } else {
                        m.go(Control::Done)
                    },
                    _ => m.drop(1).enter(Frame::LoopCondition { condition, body }).go(
                        Control::Eval(condition),
                    ),
                },
                Frame::Call => match c {
                    ObjectView::Exit(inner) => m.drop(1).yields(*inner),
                    _ => m.go(Control::Value),
                },
                Frame::Program { statements, next } => if next < statements@.len() {
                    m.drop(1).enter(Frame::Program { statements, next: (next + 1) as usize }).go(
                        Control::Exec(&statements@[next as int]),
                    )
                } else {
                    Outcome {
                        state: MachineView { control: Control::Finished, ..m.drop(1) },
                        action: ActionView::Finished,
                    }
                },
                _ => m.lose(),
            }
        }
    }

    /// The host has written out a number: the frame on top takes the text.
    pub open spec fn text(self, text: Seq<char>) -> Outcome<'a> {
        if self.frames.len() == 0 {
            self.lose()
        } else {
            let m = self.leave();
            match self.frames.last() {
                Frame::Output => m.ask(ActionView::Print(text), Pending::Printed),
                Frame::Uncallable { paren } => m.fail(RuntimeErrorView::Uncallable(text, paren@)),
                other => if self.values.len() == 0 || self.values.last().text() is None {
                    m.lose()
                } else {
                    let held = self.values.last().text()->0;
                    match other {
                        Frame::ConcatLeft => m.drop(1).yields(ObjectView::String(text + held)),
                        Frame::ConcatRight => m.drop(1).yields(ObjectView::String(held + text)),
                        Frame::ErrorLeft { operator } => m.drop(1).fail(
                            binary_error(*operator, text, held),
                        ),
                        Frame::ErrorRight { operator } => m.drop(1).fail(
                            binary_error(*operator, held, text),
                        ),
                        _ => m.lose(),
                    }
                },
            }
        }
    }

    /// The host has answered.
    pub open spec fn answer(self, pending: Pending, event: EventView) -> Outcome<'a> {
        match (pending, event) {
            (Pending::Number, EventView::Number(n)) => self.yields(ObjectView::Number(n)),
            (Pending::Boolean, EventView::Boolean(b)) => self.yields(ObjectView::Boolean(b)),
            (Pending::Printed, EventView::Nothing) => self.completes(ObjectView::Nil),
            (Pending::Clock, EventView::Number(n)) => self.yields(ObjectView::Number(n)),
            (Pending::Clock, EventView::Failure(msg)) => self.fail(RuntimeErrorView::Native(msg)),
            (Pending::Text, EventView::Text(text)) => self.text(text),
            _ => self.fail(unanswered()),
        }
    }

    /// One transition. What the host hands over counts only where the
    /// machine waits for it.
    pub open spec fn step(self, event: EventView) -> Outcome<'a> {
        match self.control {
            Control::Eval(e) => self.eval(e),
            Control::Exec(s) => self.exec(s),
            Control::Value => self.value(),
            Control::Done => self.done(),
            Control::Wait(pending) => self.answer(pending, event),
            Control::Finished => Outcome { state: self, action: ActionView::Finished },
            Control::Failed => Outcome { state: self, action: ActionView::Stopped },
            Control::Lost => Outcome { state: self, action: ActionView::Stopped },
        }
    }

    /// The state after at most `limit` transitions, of which each but the
    /// first gets `Nothing` from the host: the machine runs until it asks
    /// for something, ends, or has made `limit` transitions.
    pub open spec fn run(self, event: EventView, limit: nat) -> Outcome<'a>
        decreases limit,
    {
        if limit == 0 {
            Outcome { state: self, action: ActionView::Continue }
        } else {
            let next = self.step(event);
            if next.action is Continue {
                next.state.run(EventView::Nothing, (limit - 1) as nat)
            } else {
                next
            }
        }
    }

    /// The machine that is about to run `statements` in the scope that it
    /// stands in, with the variables and the functions that it has. What
    /// an earlier program left unfinished is dropped.
    pub open spec fn interpret(self, statements: &'a Vec<Stmt>) -> MachineView<'a> {
        MachineView {
            control: Control::Done,
            frames: seq![Frame::Program { statements, next: 0 }],
            values: seq![ObjectView::Nil],
            ..self
        }
    }
}

} // verus!
