//! What holds of every run of the evaluator.
use crate::ast::{Expr, Stmt};
use crate::machine::{ActionView, Control, EventView, Frame, MachineView};
use crate::token::{Token, TokenType};
use vstd::prelude::*;

verus! {

/// The actions of a run: the machine makes one transition for each
/// event, and asks what each transition asks.
pub open spec fn replay<'a>(m: MachineView<'a>, events: Seq<EventView>) -> Seq<ActionView>
    decreases events.len(),
{
    if events.len() == 0 {
        Seq::empty()
    } else {
        seq![m.step(events[0]).action] + replay(m.step(events[0]).state, events.drop_first())
    }
}

/// The state at the end of a run.
pub open spec fn arrive<'a>(m: MachineView<'a>, events: Seq<EventView>) -> MachineView<'a>
    decreases events.len(),
{
    if events.len() == 0 {
        m
    } else {
        arrive(m.step(events[0]).state, events.drop_first())
    }
}

/// Short circuit: where the left operand of `and` is falsy, or that of
/// `or` is truthy, the value of the left operand is the value of the whole
/// and the right operand is dropped: the machine never evaluates it.
pub proof fn short_circuit<'a>(
    m: MachineView<'a>,
    operator: &'a Token,
    right: &'a Expr,
    event: EventView,
)
    requires
        m.control is Value,
        m.frames.len() > 0,
        m.values.len() > 0,
        m.frames.last() == (Frame::Logical { operator, right }),
        (operator.token_type == TokenType::And && !m.values.last().is_truthy()) || (
        operator.token_type == TokenType::Or && m.values.last().is_truthy()),
    ensures
        m.step(event).action == ActionView::Continue,
        m.step(event).state == (MachineView { frames: m.frames.drop_last(), ..m }),
{
}

/// The other side of the short circuit: where the left operand does not
/// decide, its value is dropped and the right operand is evaluated next.
pub proof fn long_circuit<'a>(
    m: MachineView<'a>,
    operator: &'a Token,
    right: &'a Expr,
    event: EventView,
)
    requires
        m.control is Value,
        m.frames.len() > 0,
        m.values.len() > 0,
        m.frames.last() == (Frame::Logical { operator, right }),
        (operator.token_type == TokenType::And && m.values.last().is_truthy()) || (
        operator.token_type == TokenType::Or && !m.values.last().is_truthy()),
    ensures
        m.step(event).action == ActionView::Continue,
        m.step(event).state == (MachineView {
            frames: m.frames.drop_last(),
            values: m.values.drop_last(),
            control: Control::Eval(right),
            ..m
        }),
{
    assert(m.values.take(m.values.len() - 1) =~= m.values.drop_last());
}

/// Determinism: two evaluators that start fresh on the same program and
/// get the same answers from their hosts ask the same actions, one for
/// one, and end in the same state.
pub proof fn deterministic<'a>(statements: &'a Vec<Stmt>, first: Seq<EventView>, second: Seq<EventView>)
    requires
        first == second,
    ensures
        replay(MachineView::initial().interpret(statements), first) == replay(
            MachineView::initial().interpret(statements),
            second,
        ),
        arrive(MachineView::initial().interpret(statements), first) == arrive(
            MachineView::initial().interpret(statements),
            second,
        ),
{
}

/// A machine that has ended stays as it is, whatever the host hands it.
pub proof fn halted_stays<'a>(m: MachineView<'a>, event: EventView)
    requires
        m.control is Finished || m.control is Failed || m.control is Lost,
    ensures
        m.step(event).state == m,
        m.control is Finished ==> m.step(event).action == ActionView::Finished,
        !(m.control is Finished) ==> m.step(event).action == ActionView::Stopped,
{
}

/// An error ends the run: the machine that fails is in the state `Failed`.
pub proof fn failure_halts<'a>(m: MachineView<'a>, event: EventView)
    ensures
        m.step(event).action is Failed ==> m.step(event).state.control is Failed || m.step(
            event,
        ).state.control is Lost,
        m.step(event).action is Finished ==> m.step(event).state.control is Finished,
{
    match m.control {
        Control::Eval(e) => {},
        Control::Exec(s) => {},
        Control::Value => {},
        Control::Done => {},
        Control::Wait(p) => {},
        Control::Finished => {},
        Control::Failed => {},
        Control::Lost => {},
    }
}

} // verus!
