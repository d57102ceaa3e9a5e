//! The evaluator keeps track: from the start of a program on, the frame on
//! top is always one that waits for what comes next, and the values that
//! the frames count on are there.
use crate::ast::{Expr, Stmt};
use crate::exit_laws::{all_plain, plain, sound, start_is_sound, step_keeps_sound};
use crate::machine_laws::arrive;
use crate::machine::{
    ActionView, Control, EventView, Frame, MachineView, Outcome, Pending,
};
use crate::native::Callable;
use crate::primitive::{text_or_number, ObjectView};
use crate::token::Token;
use vstd::prelude::*;

verus! {

/// What is handed to a frame, and what a frame hands on when it is done.
pub enum Hands {
    /// The value of an expression.
    Value,
    /// The completion of a statement.
    Done,
    /// The text of a number.
    Text,
    /// The end of the program.
    End,
}

/// What a frame waits for.
pub open spec fn waits(f: Frame) -> Hands {
    match f {
        Frame::Block { .. } => Hands::Done,
        Frame::LoopBody { .. } => Hands::Done,
        Frame::Call => Hands::Done,
        Frame::Program { .. } => Hands::Done,
        Frame::Output => Hands::Text,
        Frame::ConcatLeft => Hands::Text,
        Frame::ConcatRight => Hands::Text,
        Frame::ErrorLeft { .. } => Hands::Text,
        Frame::ErrorRight { .. } => Hands::Text,
        Frame::Uncallable { .. } => Hands::Text,
        _ => Hands::Value,
    }
}

/// What a frame hands on to the frame below it; `None` for a frame that
/// ends the run with an error.
pub open spec fn gives(f: Frame) -> Option<Hands> {
    match f {
        Frame::BinaryLeft { .. } => Some(Hands::Value),
        Frame::BinaryRight { .. } => Some(Hands::Value),
        Frame::Unary { .. } => Some(Hands::Value),
        Frame::Assign { .. } => Some(Hands::Value),
        Frame::Logical { .. } => Some(Hands::Value),
        Frame::Callee { .. } => Some(Hands::Value),
        Frame::Argument { .. } => Some(Hands::Value),
        Frame::Call => Some(Hands::Value),
        Frame::ConcatLeft => Some(Hands::Value),
        Frame::ConcatRight => Some(Hands::Value),
        Frame::ErrorLeft { .. } => None,
        Frame::ErrorRight { .. } => None,
        Frame::Uncallable { .. } => None,
        Frame::Program { .. } => Some(Hands::End),
        _ => Some(Hands::Done),
    }
}

/// How many values a frame counts on.
pub open spec fn held(f: Frame) -> nat {
    match f {
        Frame::BinaryRight { .. } => 1,
        Frame::Argument { done, .. } => (done + 1) as nat,
        Frame::ConcatLeft => 1,
        Frame::ConcatRight => 1,
        Frame::ErrorLeft { .. } => 1,
        Frame::ErrorRight { .. } => 1,
        _ => 0,
    }
}

/// A frame that waits for the text of one operand holds the other
/// operand, which has a text of its own.
pub open spec fn keeps(f: Frame, top: ObjectView) -> bool {
    match f {
        Frame::ConcatLeft => top.text() is Some,
        Frame::ConcatRight => top.text() is Some,
        Frame::ErrorLeft { .. } => top.text() is Some,
        Frame::ErrorRight { .. } => top.text() is Some,
        _ => true,
    }
}

/// The frames and the values fit: the program is the frame at the bottom
/// and nowhere else, every other frame hands on what the frame below it
/// waits for, and the values are those that the frames count on, frame by
/// frame.
pub open spec fn fits(frames: Seq<Frame>, values: Seq<ObjectView>) -> bool
    decreases frames.len(),
{
    if frames.len() == 0 {
        false
    } else {
        let f = frames.last();
        let below = frames.drop_last();
        &&& values.len() >= held(f)
        &&& held(f) > 0 ==> keeps(f, values.last())
        &&& if below.len() == 0 {
            f is Program && values.len() == 0
        } else {
            &&& !(f is Program)
            &&& gives(f) matches Some(g) ==> waits(below.last()) == g
            &&& fits(below, values.take(values.len() - held(f)))
        }
    }
}

/// What the machine is about to hand to its topmost frame.
pub open spec fn hands(control: Control) -> Option<Hands> {
    match control {
        Control::Eval(_) => Some(Hands::Value),
        Control::Exec(_) => Some(Hands::Done),
        Control::Value => Some(Hands::Value),
        Control::Done => Some(Hands::Done),
        Control::Wait(Pending::Text) => Some(Hands::Text),
        Control::Wait(Pending::Printed) => Some(Hands::Done),
        Control::Wait(_) => Some(Hands::Value),
        Control::Finished => None,
        Control::Failed => None,
        Control::Lost => None,
    }
}

/// How many values on top are under way to the topmost frame.
pub open spec fn under_way(control: Control) -> nat {
    match control {
        Control::Value => 1,
        Control::Done => 1,
        _ => 0,
    }
}

/// The machine keeps track: it has not lost track, and while it runs,
/// the topmost frame waits for what the machine is about to hand over, and
/// below what is under way the values fit the frames.
pub open spec fn on_track<'a>(m: MachineView<'a>) -> bool {
    match hands(m.control) {
        None => !(m.control is Lost),
        Some(h) => {
            &&& m.values.len() >= under_way(m.control)
            &&& fits(m.frames, m.values.take(m.values.len() - under_way(m.control)))
            &&& waits(m.frames.last()) == h
        },
    }
}

/// Whether a transition ends in the state of a machine that has lost track.
pub open spec fn lost<'a>(o: Outcome<'a>) -> bool {
    o.state.control is Lost
}

proof fn enter_fits(frames: Seq<Frame>, values: Seq<ObjectView>, f: Frame)
    requires
        frames.len() > 0,
        !(f is Program),
        gives(f) matches Some(g) ==> waits(frames.last()) == g,
        values.len() >= held(f),
        held(f) > 0 ==> keeps(f, values.last()),
        fits(frames, values.take(values.len() - held(f))),
    ensures
        fits(frames.push(f), values),
{
    assert(frames.push(f).drop_last() =~= frames);
}

pub proof fn leave_fits(frames: Seq<Frame>, values: Seq<ObjectView>)
    requires
        fits(frames, values),
    ensures
        frames.len() > 0,
        values.len() >= held(frames.last()),
        held(frames.last()) > 0 ==> keeps(frames.last(), values.last()),
        frames.len() > 1 ==> {
            &&& !(frames.last() is Program)
            &&& gives(frames.last()) matches Some(g) ==> waits(frames.drop_last().last()) == g
            &&& fits(frames.drop_last(), values.take(values.len() - held(frames.last())))
        },
        frames.len() == 1 ==> frames.last() is Program && values.len() == 0,
{
}

proof fn yields_on_track<'a>(m: MachineView<'a>, v: ObjectView)
    requires
        fits(m.frames, m.values),
        waits(m.frames.last()) == Hands::Value,
    ensures
        on_track(m.yields(v).state),
        !lost(m.yields(v)),
{
    assert(m.push(v).values.take(m.values.len() as int) =~= m.values);
}

proof fn completes_on_track<'a>(m: MachineView<'a>, c: ObjectView)
    requires
        fits(m.frames, m.values),
        waits(m.frames.last()) == Hands::Done,
    ensures
        on_track(m.completes(c).state),
        !lost(m.completes(c)),
{
    assert(m.push(c).values.take(m.values.len() as int) =~= m.values);
}

proof fn block_on_track<'a>(m: MachineView<'a>, scope: nat, statements: &'a Vec<Stmt>)
    requires
        fits(m.frames, m.values),
        waits(m.frames.last()) == Hands::Done,
    ensures
        on_track(m.execute_block(scope, statements).state),
        !lost(m.execute_block(scope, statements)),
{
    let f = Frame::Block { statements, next: 0, origin: m.environment as usize };
    assert(m.values.take(m.values.len() as int) =~= m.values);
    enter_fits(m.frames, m.values, f);
    completes_on_track(MachineView { environment: scope, ..m }.enter(f), ObjectView::Nil);
}

proof fn waiting_on_track<'a>(m: MachineView<'a>, action: ActionView, pending: Pending, f: Frame<'a>, v: ObjectView)
    requires
        fits(m.frames, m.values),
        waits(f) == Hands::Text,
        held(f) == 1,
        keeps(f, v),
        gives(f) matches Some(g) ==> waits(m.frames.last()) == g,
        action is Format,
    ensures
        on_track(m.push(v).enter(f).ask(action, Pending::Text).state),
        !lost(m.push(v).enter(f).ask(action, Pending::Text)),
{
    let pushed = m.push(v);
    assert(pushed.values.take(pushed.values.len() - 1) =~= m.values);
    enter_fits(m.frames, pushed.values, f);
    let after = pushed.enter(f).ask(action, Pending::Text).state;
    assert(after.values.take(after.values.len() as int) =~= after.values);
}

proof fn binary_on_track<'a>(m: MachineView<'a>, operator: &'a Token, left: ObjectView, right: ObjectView)
    requires
        fits(m.frames, m.values),
        waits(m.frames.last()) == Hands::Value,
        plain(left),
        plain(right),
    ensures
        on_track(m.apply_binary(operator, left, right).state),
        !lost(m.apply_binary(operator, left, right)),
{
    text_or_number(left);
    text_or_number(right);
    assert(m.values.take(m.values.len() as int) =~= m.values);
    match (left.text(), right.text()) {
        (Some(l), Some(r)) => {
            yields_on_track(m, ObjectView::String(l + r));
            yields_on_track(m, ObjectView::Boolean(true));
            yields_on_track(m, ObjectView::Boolean(false));
        },
        (None, Some(r)) => {
            waiting_on_track(
                m,
                ActionView::Format(left.number_shown()->0),
                Pending::Text,
                Frame::ConcatLeft,
                right,
            );
            waiting_on_track(
                m,
                ActionView::Format(left.number_shown()->0),
                Pending::Text,
                Frame::ErrorLeft { operator },
                right,
            );
            yields_on_track(m, ObjectView::Boolean(true));
            yields_on_track(m, ObjectView::Boolean(false));
        },
        (Some(l), None) => {
            waiting_on_track(
                m,
                ActionView::Format(right.number_shown()->0),
                Pending::Text,
                Frame::ConcatRight,
                left,
            );
            waiting_on_track(
                m,
                ActionView::Format(right.number_shown()->0),
                Pending::Text,
                Frame::ErrorRight { operator },
                left,
            );
            yields_on_track(m, ObjectView::Boolean(true));
            yields_on_track(m, ObjectView::Boolean(false));
        },
        (None, None) => {
            assert(left is Number);
            assert(right is Number);
        },
    }
}

proof fn unary_on_track<'a>(m: MachineView<'a>, operator: &'a Token, right: ObjectView)
    requires
        fits(m.frames, m.values),
        waits(m.frames.last()) == Hands::Value,
        plain(right),
    ensures
        on_track(m.apply_unary(operator, right).state),
        !lost(m.apply_unary(operator, right)),
{
    text_or_number(right);
    assert(m.values.take(m.values.len() as int) =~= m.values);
    yields_on_track(m, ObjectView::Boolean(!right.is_truthy()));
}

proof fn invoke_on_track<'a>(m: MachineView<'a>, paren: &'a Token, n: nat)
    requires
        m.values.len() >= n + 1,
        fits(m.frames, m.values.take(m.values.len() - (n + 1))),
        waits(m.frames.last()) == Hands::Value,
        all_plain(m.values),
    ensures
        on_track(m.invoke(paren, n).state),
        !lost(m.invoke(paren, n)),
{
    let args = m.values.subrange(m.values.len() - n, m.values.len() as int);
    let callee = m.values[m.values.len() - n - 1];
    let rest = m.drop(n + 1);
    assert(rest.values.take(rest.values.len() as int) =~= rest.values);
    text_or_number(callee);
    match callee {
        ObjectView::Function(id) if id < m.functions.len() => {
            match m.functions[id as int] {
                Callable::Clock(_) => {},
                Callable::Function(f) => {
                    let scopes = crate::machine::bound(
                        crate::environment::extended(m.scopes, Some(f.closure as nat)),
                        m.scopes.len() as int,
                        f.params@,
                        args,
                        0,
                    );
                    let bound = MachineView { scopes, ..rest };
                    enter_fits(bound.frames, bound.values, Frame::Call);
                    block_on_track(bound.enter(Frame::Call), m.scopes.len(), f.body);
                },
            }
        },
        _ => {
            if callee.text() is None {
                let f = Frame::Uncallable { paren };
                enter_fits(rest.frames, rest.values, f);
            }
        },
    }
}

proof fn eval_on_track<'a>(m: MachineView<'a>, e: &'a Expr)
    requires
        fits(m.frames, m.values),
        waits(m.frames.last()) == Hands::Value,
    ensures
        on_track(m.eval(e).state),
        !lost(m.eval(e)),
{
    assert(m.values.take(m.values.len() as int) =~= m.values);
    match e {
        Expr::Literal { value } => {
            if let Ok(v) = crate::primitive::literal_value(value@.literal) {
                yields_on_track(m, v);
            }
        },
        Expr::Grouping { expression } => {},
        Expr::Unary { operator, right } => {
            enter_fits(m.frames, m.values, Frame::Unary { operator });
        },
        Expr::Binary { left, operator, right } => {
            enter_fits(m.frames, m.values, Frame::BinaryLeft { operator, right: &**right });
        },
        Expr::Variable { name } => {
            if let Some(v) = crate::environment::lookup(
                m.scopes,
                m.environment as int,
                name@.lexeme_or_empty(),
            ) {
                yields_on_track(m, v);
            }
        },
        Expr::Assign { name, value } => {
            enter_fits(m.frames, m.values, Frame::Assign { name });
        },
        Expr::Logical { left, operator, right } => {
            enter_fits(m.frames, m.values, Frame::Logical { operator, right: &**right });
        },
        Expr::Call { callee, paren, args } => {
            enter_fits(m.frames, m.values, Frame::Callee { paren, args });
        },
        Expr::Function { params, body } => {
            yields_on_track(
                m.with_function(
                    crate::native::LoxFunction {
                        name: None,
                        params,
                        body,
                        closure: m.environment as usize,
                    },
                ),
                ObjectView::Function(m.functions.len()),
            );
        },
    }
}

proof fn exec_on_track<'a>(m: MachineView<'a>, s: &'a Stmt)
    requires
        fits(m.frames, m.values),
        waits(m.frames.last()) == Hands::Done,
    ensures
        on_track(m.exec(s).state),
        !lost(m.exec(s)),
{
    assert(m.values.take(m.values.len() as int) =~= m.values);
    match s {
        Stmt::Expression { expression } => {
            enter_fits(m.frames, m.values, Frame::Discard);
        },
        Stmt::Print { expression } => {
            enter_fits(m.frames, m.values, Frame::Print);
        },
        Stmt::Var { name, initializer } => {
            enter_fits(m.frames, m.values, Frame::Define { name });
            completes_on_track(
                MachineView {
                    scopes: crate::environment::defined(
                        m.scopes,
                        m.environment as int,
                        name@.lexeme_or_empty(),
                        ObjectView::Nil,
                    ),
                    ..m
                },
                ObjectView::Nil,
            );
        },
        Stmt::Block { statements } => {
            block_on_track(
                MachineView {
                    scopes: crate::environment::extended(m.scopes, Some(m.environment)),
                    ..m
                },
                m.scopes.len(),
                statements,
            );
        },
        Stmt::If { condition, then_branch, else_branch } => {
            enter_fits(
                m.frames,
                m.values,
                Frame::Condition {
                    then_branch: &**then_branch,
                    else_branch: match else_branch {
                        Some(b) => Some(&**b),
                        None => None,
                    },
                },
            );
        },
        Stmt::While { condition, body } => {
            enter_fits(m.frames, m.values, Frame::LoopCondition { condition, body: &**body });
        },
        Stmt::Break { keyword } => {
            completes_on_track(m, ObjectView::Exit(Box::new(ObjectView::Nil)));
        },
        Stmt::Function { name, params, body } => {
            completes_on_track(
                MachineView {
                    scopes: crate::environment::defined(
                        m.scopes,
                        m.environment as int,
                        name@.lexeme_or_empty(),
                        ObjectView::Function(m.functions.len()),
                    ),
                    ..m.with_function(
                        crate::native::LoxFunction {
                            name: Some(name),
                            params,
                            body,
                            closure: m.environment as usize,
                        },
                    )
                },
                ObjectView::Nil,
            );
        },
        Stmt::Return { keyword, value } => {
            enter_fits(m.frames, m.values, Frame::ReturnValue);
            completes_on_track(m, ObjectView::Exit(Box::new(ObjectView::Nil)));
        },
    }
}

proof fn value_on_track<'a>(m: MachineView<'a>)
    requires
        m.control is Value,
        on_track(m),
        all_plain(m.values),
    ensures
        on_track(m.value().state),
        !lost(m.value()),
{
    let base = m.values.take(m.values.len() - 1);
    leave_fits(m.frames, base);
    let v = m.values.last();
    let left = m.leave();
    let f = m.frames.last();
    let below = m.frames.drop_last();
    let rest = base.take(base.len() - held(f));
    assert(left.drop(1).values =~= base);
    assert(left.values.take(left.values.len() as int) =~= left.values);
    assert(base.take(base.len() as int) =~= base);
    assert(m.values.take(m.values.len() - 1) =~= base);
    if m.frames.len() == 1 {
        // The frame at the bottom is the program, which waits for no value.
    } else {
        match f {
            Frame::BinaryLeft { operator, right } => {
                enter_fits(below, m.values, Frame::BinaryRight { operator });
            },
            Frame::BinaryRight { operator } => {
                assert(left.drop(2).values =~= rest);
                binary_on_track(left.drop(2), operator, m.values[m.values.len() - 2], v);
            },
            Frame::Unary { operator } => {
                unary_on_track(left.drop(1), operator, v);
            },
            Frame::Assign { name } => {
                let assigned = MachineView {
                    scopes: crate::environment::assigned(
                        m.scopes,
                        m.environment as int,
                        name@.lexeme_or_empty(),
                        v,
                    ),
                    ..left
                };
                assert(assigned.values.take(assigned.values.len() - 1) =~= base);
            },
            Frame::Logical { operator, right } => {
                assert(left.values.take(left.values.len() - 1) =~= base);
            },
            Frame::Callee { paren, args } => {
                if args@.len() == 0 {
                    assert(left.values.take(left.values.len() - 1) =~= base);
                    invoke_on_track(left, paren, 0);
                } else {
                    enter_fits(below, m.values, Frame::Argument { paren, args, done: 0 });
                }
            },
            Frame::Argument { paren, args, done } => {
                assert(args.len() == args@.len());
                if done + 1 < args@.len() {
                    assert(m.values.take(m.values.len() - (done + 2)) =~= rest);
                    enter_fits(
                        below,
                        m.values,
                        Frame::Argument { paren, args, done: (done + 1) as usize },
                    );
                } else {
                    assert(left.values.take(left.values.len() - (done + 2)) =~= rest);
                    invoke_on_track(left, paren, (done + 1) as nat);
                }
            },
            Frame::Discard => {
                completes_on_track(left.drop(1), ObjectView::Nil);
            },
            Frame::Print => {
                text_or_number(v);
                if v.text() is None {
                    enter_fits(below, base, Frame::Output);
                    let after = left.drop(1).enter(Frame::Output);
                    assert(after.values.take(after.values.len() as int) =~= after.values);
                } else {
                    assert(base.take(base.len() as int) =~= base);
                }
            },
            Frame::Define { name } => {
                completes_on_track(
                    MachineView {
                        scopes: crate::environment::defined(
                            m.scopes,
                            m.environment as int,
                            name@.lexeme_or_empty(),
                            v,
                        ),
                        ..left.drop(1)
                    },
                    ObjectView::Nil,
                );
            },
            Frame::Condition { then_branch, else_branch } => {
                assert(base.take(base.len() as int) =~= base);
                completes_on_track(left.drop(1), ObjectView::Nil);
            },
            Frame::LoopCondition { condition, body } => {
                assert(base.take(base.len() as int) =~= base);
                enter_fits(below, base, Frame::LoopBody { condition, body });
                completes_on_track(left.drop(1), ObjectView::Nil);
            },
            Frame::ReturnValue => {
                completes_on_track(left.drop(1), ObjectView::Exit(Box::new(v)));
            },
            _ => {},
        }
    }
}

proof fn done_on_track<'a>(m: MachineView<'a>)
    requires
        m.control is Done,
        on_track(m),
    ensures
        on_track(m.done().state),
        !lost(m.done()),
{
    let base = m.values.take(m.values.len() - 1);
    leave_fits(m.frames, base);
    let c = m.values.last();
    let left = m.leave();
    let f = m.frames.last();
    let below = m.frames.drop_last();
    assert(left.drop(1).values =~= base);
    assert(base.take(base.len() as int) =~= base);
    assert(left.values.take(left.values.len() - 1) =~= base);
    match f {
        Frame::Block { statements, next, origin } => {
            enter_fits(
                below,
                base,
                Frame::Block { statements, next: (next + 1) as usize, origin },
            );
            completes_on_track(
                MachineView { environment: origin as nat, ..left.drop(1) },
                ObjectView::Nil,
            );
        },
        Frame::LoopBody { condition, body } => {
            enter_fits(below, base, Frame::LoopCondition { condition, body });
            completes_on_track(left.drop(1), ObjectView::Nil);
        },
        Frame::Call => {
            if let ObjectView::Exit(inner) = c {
                yields_on_track(left.drop(1), *inner);
            }
        },
        Frame::Program { statements, next } => {
            if next < statements@.len() {
                let g = Frame::Program { statements, next: (next + 1) as usize };
                assert(below.push(g).drop_last() =~= below);
            }
        },
        _ => {},
    }
}

proof fn text_on_track<'a>(m: MachineView<'a>, text: Seq<char>)
    requires
        m.control == Control::Wait(Pending::Text),
        on_track(m),
    ensures
        on_track(m.text(text).state),
        !lost(m.text(text)),
{
    assert(m.values.take(m.values.len() as int) =~= m.values);
    leave_fits(m.frames, m.values);
    let left = m.leave();
    let f = m.frames.last();
    assert(left.values.take(left.values.len() as int) =~= left.values);
    if f is ConcatLeft || f is ConcatRight {
        let held_text = m.values.last().text()->0;
        assert(left.drop(1).values =~= m.values.take(m.values.len() - 1));
        yields_on_track(left.drop(1), ObjectView::String(text + held_text));
        yields_on_track(left.drop(1), ObjectView::String(held_text + text));
    }
}

proof fn answer_on_track<'a>(m: MachineView<'a>, pending: Pending, event: EventView)
    requires
        m.control == Control::Wait(pending),
        on_track(m),
    ensures
        on_track(m.answer(pending, event).state),
        !lost(m.answer(pending, event)),
{
    assert(m.values.take(m.values.len() as int) =~= m.values);
    match (pending, event) {
        (Pending::Number, EventView::Number(n)) => {
            yields_on_track(m, ObjectView::Number(n));
        },
        (Pending::Boolean, EventView::Boolean(b)) => {
            yields_on_track(m, ObjectView::Boolean(b));
        },
        (Pending::Printed, EventView::Nothing) => {
            completes_on_track(m, ObjectView::Nil);
        },
        (Pending::Clock, EventView::Number(n)) => {
            yields_on_track(m, ObjectView::Number(n));
        },
        (Pending::Text, EventView::Text(text)) => {
            text_on_track(m, text);
        },
        _ => {},
    }
}

/// A fresh evaluator that is about to run a program keeps track.
pub proof fn start_is_on_track<'a>(statements: &'a Vec<Stmt>)
    ensures
        on_track(MachineView::initial().interpret(statements)),
{
    let m = MachineView::<'a>::initial().interpret(statements);
    assert(m.values.take(m.values.len() - 1) =~= Seq::<ObjectView>::empty());
    assert(m.frames.drop_last() =~= Seq::<Frame>::empty());
}

/// The evaluator never loses track: from a state that is sound and
/// on track, as every state of a run from the start of a program is, no
/// transition ends with the error of an evaluator that found a frame or a
/// value missing, and the next state is on track again.
pub proof fn step_keeps_track<'a>(m: MachineView<'a>, event: EventView)
    requires
        sound(m),
        on_track(m),
    ensures
        on_track(m.step(event).state),
        !lost(m.step(event)),
{
    assert(m.values.take(m.values.len() as int) =~= m.values);
    match m.control {
        Control::Eval(e) => eval_on_track(m, e),
        Control::Exec(s) => exec_on_track(m, s),
        Control::Value => value_on_track(m),
        Control::Done => done_on_track(m),
        Control::Wait(pending) => answer_on_track(m, pending, event),
        Control::Finished => {},
        Control::Failed => {},
        Control::Lost => {},
    }
}

/// A run from a sound state that is on track ends in such a state.
pub proof fn run_keeps_track<'a>(m: MachineView<'a>, events: Seq<EventView>)
    requires
        sound(m),
        on_track(m),
    ensures
        sound(arrive(m, events)),
        on_track(arrive(m, events)),
    decreases events.len(),
{
    if events.len() > 0 {
        step_keeps_sound(m, events[0]);
        step_keeps_track(m, events[0]);
        run_keeps_track(m.step(events[0]).state, events.drop_first());
    }
}

/// Whatever the program and whatever its host answers, a fresh evaluator
/// never loses track and never lets an exit mark out of the statements.
pub proof fn evaluator_keeps_track<'a>(statements: &'a Vec<Stmt>, events: Seq<EventView>)
    ensures
        sound(arrive(MachineView::initial().interpret(statements), events)),
        on_track(arrive(MachineView::initial().interpret(statements), events)),
        !(arrive(MachineView::initial().interpret(statements), events).control is Lost),
{
    start_is_sound(statements);
    start_is_on_track(statements);
    run_keeps_track(MachineView::initial().interpret(statements), events);
}

} // verus!
