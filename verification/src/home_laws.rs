//! The evaluator comes back: when a program ends, whether at its last
//! statement or on an error, the evaluator stands in the scope that the
//! program started in.
use crate::ast::{Expr, Stmt};
use crate::machine::{rests, Control, EventView, Frame, MachineView, Pending};
use crate::native::Callable;
use crate::primitive::ObjectView;
use crate::token::Token;
use crate::track_laws::{leave_fits, on_track};
use vstd::prelude::*;

verus! {

/// The evaluator is on its way to the scope `home`: it will stand there
/// once its frames are done, and it stands there already where the
/// program has ended.
pub open spec fn homeward<'a>(m: MachineView<'a>, home: nat) -> bool {
    match m.control {
        Control::Finished => m.environment == home,
        Control::Failed => m.environment == home,
        Control::Lost => m.environment == home,
        _ => rests(m.frames, m.environment) == home,
    }
}

proof fn rests_enter(frames: Seq<Frame>, f: Frame, environment: nat)
    ensures
        rests(frames.push(f), environment) == match f {
            Frame::Block { statements, next, origin } => rests(frames, origin as nat),
            _ => rests(frames, environment),
        },
{
    assert(frames.push(f).drop_last() =~= frames);
}

proof fn block_homeward<'a>(home: nat, m: MachineView<'a>, scope: nat, statements: &'a Vec<Stmt>)
    requires
        rests(m.frames, m.environment) == home,
        m.environment <= usize::MAX,
    ensures
        homeward(m.execute_block(scope, statements).state, home),
{
    rests_enter(
        m.frames,
        Frame::Block { statements, next: 0, origin: m.environment as usize },
        scope,
    );
}

proof fn binary_homeward<'a>(home: nat, m: MachineView<'a>, operator: &'a Token, left: ObjectView, right: ObjectView)
    requires
        rests(m.frames, m.environment) == home,
    ensures
        homeward(m.apply_binary(operator, left, right).state, home),
{
    rests_enter(m.frames, Frame::ConcatLeft, m.environment);
    rests_enter(m.frames, Frame::ConcatRight, m.environment);
    rests_enter(m.frames, Frame::ErrorLeft { operator }, m.environment);
    rests_enter(m.frames, Frame::ErrorRight { operator }, m.environment);
}

proof fn invoke_homeward<'a>(home: nat, m: MachineView<'a>, paren: &'a Token, n: nat)
    requires
        rests(m.frames, m.environment) == home,
        m.environment <= usize::MAX,
    ensures
        homeward(m.invoke(paren, n).state, home),
{
    if m.values.len() >= n + 1 {
        let args = m.values.subrange(m.values.len() - n, m.values.len() as int);
        let callee = m.values[m.values.len() - n - 1];
        let rest = m.drop(n + 1);
        rests_enter(m.frames, Frame::Uncallable { paren }, m.environment);
        match callee {
            ObjectView::Function(id) if id < m.functions.len() => {
                match m.functions[id as int] {
                    Callable::Clock(_) => {},
                    Callable::Function(f) => {
                        let scopes = crate::machine::bound(
                            crate::environment::extended(m.scopes, Some(f.closure as nat)),
                            m.scopes.len() as int,
                            f.params@,
                            args,
                            0,
                        );
                        rests_enter(m.frames, Frame::Call, m.environment);
                        block_homeward(
            home,
                            MachineView { scopes, ..rest }.enter(Frame::Call),
                            m.scopes.len(),
                            f.body,
                        );
                    },
                }
            },
            _ => {},
        }
    }
}

proof fn eval_homeward<'a>(home: nat, m: MachineView<'a>, e: &'a Expr)
    requires
        rests(m.frames, m.environment) == home,
    ensures
        homeward(m.eval(e).state, home),
{
    match e {
        Expr::Unary { operator, right } => {
            rests_enter(m.frames, Frame::Unary { operator }, m.environment);
        },
        Expr::Binary { left, operator, right } => {
            rests_enter(m.frames, Frame::BinaryLeft { operator, right: &**right }, m.environment);
        },
        Expr::Assign { name, value } => {
            rests_enter(m.frames, Frame::Assign { name }, m.environment);
        },
        Expr::Logical { left, operator, right } => {
            rests_enter(m.frames, Frame::Logical { operator, right: &**right }, m.environment);
        },
        Expr::Call { callee, paren, args } => {
            rests_enter(m.frames, Frame::Callee { paren, args }, m.environment);
        },
        _ => {},
    }
}

proof fn exec_homeward<'a>(home: nat, m: MachineView<'a>, s: &'a Stmt)
    requires
        rests(m.frames, m.environment) == home,
        m.environment <= usize::MAX,
    ensures
        homeward(m.exec(s).state, home),
{
    match s {
        Stmt::Expression { expression } => {
            rests_enter(m.frames, Frame::Discard, m.environment);
        },
        Stmt::Print { expression } => {
            rests_enter(m.frames, Frame::Print, m.environment);
        },
        Stmt::Var { name, initializer } => {
            rests_enter(m.frames, Frame::Define { name }, m.environment);
        },
        Stmt::Block { statements } => {
            block_homeward(
            home,
                MachineView {
                    scopes: crate::environment::extended(m.scopes, Some(m.environment)),
                    ..m
                },
                m.scopes.len(),
                statements,
            );
        },
        Stmt::If { condition, then_branch, else_branch } => {
            rests_enter(
                m.frames,
                Frame::Condition {
                    then_branch: &**then_branch,
                    else_branch: match else_branch {
                        Some(b) => Some(&**b),
                        None => None,
                    },
                },
                m.environment,
            );
        },
        Stmt::While { condition, body } => {
            rests_enter(
                m.frames,
                Frame::LoopCondition { condition, body: &**body },
                m.environment,
            );
        },
        Stmt::Return { keyword, value } => {
            rests_enter(m.frames, Frame::ReturnValue, m.environment);
        },
        _ => {},
    }
}

proof fn value_homeward<'a>(home: nat, m: MachineView<'a>)
    requires
        m.control is Value,
        on_track(m),
        rests(m.frames, m.environment) == home,
        m.environment <= usize::MAX,
    ensures
        homeward(m.value().state, home),
{
    if m.frames.len() > 0 && m.values.len() > 0 {
        let v = m.values.last();
        let left = m.leave();
        let below = m.frames.drop_last();
        match m.frames.last() {
            Frame::BinaryLeft { operator, right } => {
                rests_enter(below, Frame::BinaryRight { operator }, m.environment);
            },
            Frame::BinaryRight { operator } => {
                if m.values.len() >= 2 {
                    binary_homeward(home, left.drop(2), operator, m.values[m.values.len() - 2], v);
                }
            },
            Frame::Callee { paren, args } => {
                invoke_homeward(home, left, paren, 0);
                rests_enter(below, Frame::Argument { paren, args, done: 0 }, m.environment);
            },
            Frame::Argument { paren, args, done } => {
                invoke_homeward(home, left, paren, (done + 1) as nat);
                rests_enter(
                    below,
                    Frame::Argument { paren, args, done: (done + 1) as usize },
                    m.environment,
                );
            },
            Frame::Print => {
                rests_enter(below, Frame::Output, m.environment);
            },
            Frame::LoopCondition { condition, body } => {
                rests_enter(below, Frame::LoopBody { condition, body }, m.environment);
            },
            _ => {},
        }
    }
}

proof fn done_homeward<'a>(home: nat, m: MachineView<'a>)
    requires
        m.control is Done,
        rests(m.frames, m.environment) == home,
        on_track(m),
    ensures
        homeward(m.done().state, home),
{
    if m.frames.len() > 0 && m.values.len() > 0 {
        let below = m.frames.drop_last();
        leave_fits(m.frames, m.values.take(m.values.len() - 1));
        match m.frames.last() {
            Frame::Block { statements, next, origin } => {
                rests_enter(
                    below,
                    Frame::Block { statements, next: (next + 1) as usize, origin },
                    m.environment,
                );
            },
            Frame::LoopBody { condition, body } => {
                rests_enter(below, Frame::LoopCondition { condition, body }, m.environment);
            },
            Frame::Program { statements, next } => {
                rests_enter(
                    below,
                    Frame::Program { statements, next: (next + 1) as usize },
                    m.environment,
                );
                assert(below.len() == 0);
            },
            _ => {},
        }
    }
}

proof fn answer_homeward<'a>(home: nat, m: MachineView<'a>, pending: Pending, event: EventView)
    requires
        m.control == Control::Wait(pending),
        on_track(m),
        rests(m.frames, m.environment) == home,
    ensures
        homeward(m.answer(pending, event).state, home),
{
}

/// A fresh evaluator that is about to run a program is on its way home.
pub proof fn start_is_homeward<'a>(statements: &'a Vec<Stmt>)
    ensures
        homeward(MachineView::initial().interpret(statements), 1),
{
    reveal_with_fuel(rests, 2);
    let m = MachineView::<'a>::initial().interpret(statements);
    assert(m.frames.drop_last() =~= Seq::<Frame>::empty());
}

/// Every transition of an evaluator that keeps track keeps it on its way
/// home: a program that has run to its end has left the evaluator in the
/// scope that it started in.
pub proof fn step_keeps_homeward<'a>(home: nat, m: MachineView<'a>, event: EventView)
    requires
        homeward(m, home),
        on_track(m),
        m.environment <= usize::MAX,
    ensures
        homeward(m.step(event).state, home),
{
    match m.control {
        Control::Eval(e) => eval_homeward(home, m, e),
        Control::Exec(s) => exec_homeward(home, m, s),
        Control::Value => value_homeward(home, m),
        Control::Done => done_homeward(home, m),
        Control::Wait(pending) => answer_homeward(home, m, pending, event),
        Control::Finished => {},
        Control::Failed => {},
        Control::Lost => {},
    }
}

/// A failure ends every block that the evaluator is inside of: after it
/// the evaluator stands in the scope that the outermost of them was
/// entered from, which is where it would have come to rest.
pub proof fn failure_comes_home<'a>(home: nat, m: MachineView<'a>, event: EventView)
    requires
        homeward(m, home),
        on_track(m),
        m.environment <= usize::MAX,
    ensures
        m.step(event).action is Failed ==> m.step(event).state.environment == home,
{
    step_keeps_homeward(home, m, event);
    match m.control {
        Control::Eval(e) => {},
        Control::Exec(s) => {},
        Control::Value => {},
        Control::Done => {},
        Control::Wait(p) => {},
        Control::Finished => {},
        Control::Failed => {},
        Control::Lost => {},
    }
}

/// An error of the program ends every block on every path: wherever the
/// evaluator was entered from, the transition that fails leaves it in the
/// scope that its frames led back to.
pub proof fn failure_ends_the_blocks<'a>(m: MachineView<'a>, event: EventView)
    requires
        !(m.control is Failed),
    ensures
        m.step(event).state.control is Failed ==> m.step(event).state.environment == rests(
            m.frames,
            m.environment,
        ),
{
    match m.control {
        Control::Eval(e) => {},
        Control::Exec(s) => {},
        Control::Value => {},
        Control::Done => {},
        Control::Wait(p) => {},
        Control::Finished => {},
        Control::Failed => {},
        Control::Lost => {},
    }
}

} // verus!
