//! The exit mark stays inside the statements: no variable holds it, no
//! expression has it for its value, and no call gets it for an argument.
use crate::ast::{Expr, Stmt};
use crate::environment::{
    assigned, defined, extended, index_of_found, lookup, resolve, resolve_found, ScopeView,
};
use crate::machine::{bound, Control, EventView, Frame, MachineView, Pending};
use crate::native::{Callable, LoxFunction};
use crate::primitive::ObjectView;
use crate::token::Token;
use vstd::prelude::*;

verus! {

/// A value that is no exit mark.
pub open spec fn plain(v: ObjectView) -> bool {
    !(v is Exit)
}

/// What a statement completes with: a plain value, or an exit mark on one.
pub open spec fn completion(v: ObjectView) -> bool {
    match v {
        ObjectView::Exit(inner) => plain(*inner),
        _ => true,
    }
}

pub open spec fn all_plain(values: Seq<ObjectView>) -> bool {
    forall|i: int| 0 <= i < values.len() ==> plain(#[trigger] values[i])
}

/// No variable of any scope holds an exit mark.
pub open spec fn scopes_plain(scopes: Seq<ScopeView>) -> bool {
    forall|i: int|
        0 <= i < scopes.len() ==> (#[trigger] scopes[i]).wf() && all_plain(scopes[i].values)
}

/// The exit mark is where it belongs: nowhere among the variables, and
/// among the values only on top, and only while a statement completes.
pub open spec fn sound<'a>(m: MachineView<'a>) -> bool {
    &&& scopes_plain(m.scopes)
    &&& match m.control {
        Control::Done => m.values.len() > 0 ==> all_plain(m.values.drop_last()) && completion(
            m.values.last(),
        ),
        Control::Finished => true,
        Control::Failed => true,
        Control::Lost => true,
        _ => all_plain(m.values),
    }
}

proof fn with_plain(scope: ScopeView, name: Seq<char>, value: ObjectView)
    requires
        scope.wf(),
        all_plain(scope.values),
        plain(value),
    ensures
        scope.with(name, value).wf(),
        all_plain(scope.with(name, value).values),
{
    index_of_found(scope.names, name);
}

proof fn defined_plain(scopes: Seq<ScopeView>, scope: int, name: Seq<char>, value: ObjectView)
    requires
        scopes_plain(scopes),
        plain(value),
    ensures
        scopes_plain(defined(scopes, scope, name, value)),
        defined(scopes, scope, name, value).len() == scopes.len(),
{
    if 0 <= scope < scopes.len() {
        with_plain(scopes[scope], name, value);
    }
}

proof fn assigned_plain(scopes: Seq<ScopeView>, scope: int, name: Seq<char>, value: ObjectView)
    requires
        scopes_plain(scopes),
        plain(value),
    ensures
        scopes_plain(assigned(scopes, scope, name, value)),
{
    resolve_found(scopes, scope, name);
    if let Some(s) = resolve(scopes, scope, name) {
        with_plain(scopes[s], name, value);
    }
}

proof fn extended_plain(scopes: Seq<ScopeView>, parent: Option<nat>)
    requires
        scopes_plain(scopes),
    ensures
        scopes_plain(extended(scopes, parent)),
        extended(scopes, parent).len() == scopes.len() + 1,
{
}

proof fn bound_plain(
    scopes: Seq<ScopeView>,
    scope: int,
    params: Seq<Token>,
    args: Seq<ObjectView>,
    i: int,
)
    requires
        scopes_plain(scopes),
        all_plain(args),
    ensures
        scopes_plain(bound(scopes, scope, params, args, i)),
    decreases params.len() - i,
{
    if 0 <= i < params.len() {
        let value = crate::machine::argument(args, i);
        defined_plain(scopes, scope, params[i]@.lexeme_or_empty(), value);
        bound_plain(
            defined(scopes, scope, params[i]@.lexeme_or_empty(), value),
            scope,
            params,
            args,
            i + 1,
        );
    }
}

/// What a variable is read as is no exit mark.
pub proof fn lookup_plain(scopes: Seq<ScopeView>, scope: int, name: Seq<char>)
    requires
        scopes_plain(scopes),
    ensures
        lookup(scopes, scope, name) matches Some(v) ==> plain(v),
{
    resolve_found(scopes, scope, name);
    if let Some(s) = resolve(scopes, scope, name) {
        index_of_found(scopes[s].names, name);
    }
}

proof fn binary_sound<'a>(m: MachineView<'a>, operator: &'a Token, left: ObjectView, right: ObjectView)
    requires
        scopes_plain(m.scopes),
        all_plain(m.values),
        plain(left),
        plain(right),
    ensures
        sound(m.apply_binary(operator, left, right).state),
{
    let after = m.apply_binary(operator, left, right).state;
    if !(after.control is Failed || after.control is Lost) {
        assert(all_plain(after.values)) by {
            assert forall|i: int| 0 <= i < after.values.len() implies plain(
                #[trigger] after.values[i],
            ) by {
                if i < m.values.len() {
                    assert(after.values[i] == m.values[i]);
                }
            }
        }
    }
}

proof fn unary_sound<'a>(m: MachineView<'a>, operator: &'a Token, right: ObjectView)
    requires
        scopes_plain(m.scopes),
        all_plain(m.values),
        plain(right),
    ensures
        sound(m.apply_unary(operator, right).state),
{
    let after = m.apply_unary(operator, right).state;
    if !(after.control is Failed || after.control is Lost) {
        assert forall|i: int| 0 <= i < after.values.len() implies plain(
            #[trigger] after.values[i],
        ) by {
            if i < m.values.len() {
                assert(after.values[i] == m.values[i]);
            }
        }
    }
}

proof fn block_sound<'a>(m: MachineView<'a>, scope: nat, statements: &'a Vec<Stmt>)
    requires
        scopes_plain(m.scopes),
        all_plain(m.values),
    ensures
        sound(m.execute_block(scope, statements).state),
{
    let after = m.execute_block(scope, statements).state;
    assert(after.values.drop_last() =~= m.values);
}

proof fn invoke_sound<'a>(m: MachineView<'a>, paren: &'a Token, n: nat)
    requires
        scopes_plain(m.scopes),
        all_plain(m.values),
    ensures
        sound(m.invoke(paren, n).state),
{
    if m.values.len() >= n + 1 {
        let args = m.values.subrange(m.values.len() - n, m.values.len() as int);
        let callee = m.values[m.values.len() - n - 1];
        let rest = m.drop(n + 1);
        assert(all_plain(rest.values));
        assert(all_plain(args));
        match callee {
            ObjectView::Function(id) if id < m.functions.len() => {
                match m.functions[id as int] {
                    Callable::Clock(_) => {},
                    Callable::Function(f) => {
                        extended_plain(m.scopes, Some(f.closure as nat));
                        bound_plain(
                            extended(m.scopes, Some(f.closure as nat)),
                            m.scopes.len() as int,
                            f.params@,
                            args,
                            0,
                        );
                        let entered = MachineView {
                            scopes: bound(
                                extended(m.scopes, Some(f.closure as nat)),
                                m.scopes.len() as int,
                                f.params@,
                                args,
                                0,
                            ),
                            ..rest
                        }.enter(Frame::Call);
                        block_sound(entered, m.scopes.len(), f.body);
                    },
                }
            },
            _ => {},
        }
    }
}

proof fn eval_sound<'a>(m: MachineView<'a>, e: &'a Expr)
    requires
        scopes_plain(m.scopes),
        all_plain(m.values),
    ensures
        sound(m.eval(e).state),
{
    let after = m.eval(e).state;
    match e {
        Expr::Variable { name } => {
            lookup_plain(m.scopes, m.environment as int, name@.lexeme_or_empty());
        },
        _ => {},
    }
    if !(after.control is Failed || after.control is Lost) {
        assert forall|i: int| 0 <= i < after.values.len() implies plain(
            #[trigger] after.values[i],
        ) by {
            if i < m.values.len() {
                assert(after.values[i] == m.values[i]);
            }
        }
    }
}

proof fn completes_sound<'a>(m: MachineView<'a>, c: ObjectView)
    requires
        scopes_plain(m.scopes),
        all_plain(m.values),
        completion(c),
    ensures
        sound(m.completes(c).state),
{
    assert(m.completes(c).state.values.drop_last() =~= m.values);
}

proof fn exec_sound<'a>(m: MachineView<'a>, s: &'a Stmt)
    requires
        scopes_plain(m.scopes),
        all_plain(m.values),
    ensures
        sound(m.exec(s).state),
{
    match s {
        Stmt::Var { name, initializer } => {
            if initializer is None {
                defined_plain(
                    m.scopes,
                    m.environment as int,
                    name@.lexeme_or_empty(),
                    ObjectView::Nil,
                );
                completes_sound(
                    MachineView {
                        scopes: defined(
                            m.scopes,
                            m.environment as int,
                            name@.lexeme_or_empty(),
                            ObjectView::Nil,
                        ),
                        ..m
                    },
                    ObjectView::Nil,
                );
            }
        },
        Stmt::Block { statements } => {
            extended_plain(m.scopes, Some(m.environment));
            block_sound(
                MachineView { scopes: extended(m.scopes, Some(m.environment)), ..m },
                m.scopes.len(),
                statements,
            );
        },
        Stmt::Break { keyword } => {
            completes_sound(m, ObjectView::Exit(Box::new(ObjectView::Nil)));
        },
        Stmt::Function { name, params, body } => {
            defined_plain(
                m.scopes,
                m.environment as int,
                name@.lexeme_or_empty(),
                ObjectView::Function(m.functions.len()),
            );
            let f = LoxFunction {
                name: Some(name),
                params,
                body,
                closure: m.environment as usize,
            };
            completes_sound(
                MachineView {
                    scopes: defined(
                        m.scopes,
                        m.environment as int,
                        name@.lexeme_or_empty(),
                        ObjectView::Function(m.functions.len()),
                    ),
                    ..m.with_function(f)
                },
                ObjectView::Nil,
            );
        },
        Stmt::Return { keyword, value } => {
            if value is None {
                completes_sound(m, ObjectView::Exit(Box::new(ObjectView::Nil)));
            }
        },
        _ => {},
    }
}

proof fn value_sound<'a>(m: MachineView<'a>)
    requires
        scopes_plain(m.scopes),
        all_plain(m.values),
    ensures
        sound(m.value().state),
{
    if m.frames.len() > 0 && m.values.len() > 0 {
        let v = m.values.last();
        let left = m.leave();
        assert(all_plain(left.drop(1).values));
        match m.frames.last() {
            Frame::BinaryRight { operator } => {
                if m.values.len() >= 2 {
                    assert(all_plain(left.drop(2).values));
                    binary_sound(left.drop(2), operator, m.values[m.values.len() - 2], v);
                }
            },
            Frame::Unary { operator } => {
                unary_sound(left.drop(1), operator, v);
            },
            Frame::Assign { name } => {
                assigned_plain(m.scopes, m.environment as int, name@.lexeme_or_empty(), v);
            },
            Frame::Callee { paren, args } => {
                invoke_sound(left, paren, 0);
            },
            Frame::Argument { paren, args, done } => {
                invoke_sound(left, paren, (done + 1) as nat);
            },
            Frame::Discard => {
                completes_sound(left.drop(1), ObjectView::Nil);
            },
            Frame::Define { name } => {
                defined_plain(m.scopes, m.environment as int, name@.lexeme_or_empty(), v);
                completes_sound(
                    MachineView {
                        scopes: defined(
                            m.scopes,
                            m.environment as int,
                            name@.lexeme_or_empty(),
                            v,
                        ),
                        ..left.drop(1)
                    },
                    ObjectView::Nil,
                );
            },
            Frame::Condition { then_branch, else_branch } => {
                completes_sound(left.drop(1), ObjectView::Nil);
            },
            Frame::LoopCondition { condition, body } => {
                completes_sound(left.drop(1), ObjectView::Nil);
            },
            Frame::ReturnValue => {
                completes_sound(left.drop(1), ObjectView::Exit(Box::new(v)));
            },
            _ => {},
        }
    }
}

proof fn done_sound<'a>(m: MachineView<'a>)
    requires
        scopes_plain(m.scopes),
        m.values.len() > 0 ==> all_plain(m.values.drop_last()) && completion(m.values.last()),
    ensures
        sound(m.done().state),
{
    if m.frames.len() > 0 && m.values.len() > 0 {
        let c = m.values.last();
        let left = m.leave();
        assert(left.drop(1).values =~= m.values.drop_last());
        match m.frames.last() {
            Frame::Block { statements, next, origin } => {
                if !(c is Exit) && !(next < statements@.len()) {
                    completes_sound(
                        MachineView { environment: origin as nat, ..left.drop(1) },
                        ObjectView::Nil,
                    );
                }
            },
            Frame::LoopBody { condition, body } => {
                completes_sound(left.drop(1), ObjectView::Nil);
            },
            Frame::Call => {
                match c {
                    ObjectView::Exit(inner) => {
                        assert(left.drop(1).yields(*inner).state.values =~= m.values.drop_last().push(
                            *inner,
                        ));
                    },
                    _ => {
                        assert forall|i: int| 0 <= i < m.values.len() implies plain(
                            #[trigger] m.values[i],
                        ) by {
                            if i < m.values.len() - 1 {
                                assert(m.values.drop_last()[i] == m.values[i]);
                            }
                        }
                    },
                }
            },
            _ => {},
        }
    }
}

proof fn text_sound<'a>(m: MachineView<'a>, text: Seq<char>)
    requires
        scopes_plain(m.scopes),
        all_plain(m.values),
    ensures
        sound(m.text(text).state),
{
    if m.frames.len() > 0 {
        let after = m.text(text).state;
        if !(after.control is Failed || after.control is Lost) {
            assert forall|i: int| 0 <= i < after.values.len() implies plain(
                #[trigger] after.values[i],
            ) by {
                if i < m.values.len() - 1 {
                    assert(after.values[i] == m.values[i]);
                } else if i < m.values.len() && after.values.len() == m.values.len() {
                    assert(after.values[i] == m.values[i] || after.values[i] is String);
                }
            }
        }
    }
}

proof fn answer_sound<'a>(m: MachineView<'a>, pending: Pending, event: EventView)
    requires
        scopes_plain(m.scopes),
        all_plain(m.values),
    ensures
        sound(m.answer(pending, event).state),
{
    match (pending, event) {
        (Pending::Printed, EventView::Nothing) => {
            completes_sound(m, ObjectView::Nil);
        },
        (Pending::Text, EventView::Text(text)) => {
            text_sound(m, text);
        },
        _ => {
            let after = m.answer(pending, event).state;
            if !(after.control is Failed || after.control is Lost) {
                assert forall|i: int| 0 <= i < after.values.len() implies plain(
                    #[trigger] after.values[i],
                ) by {
                    if i < m.values.len() {
                        assert(after.values[i] == m.values[i]);
                    }
                }
            }
        },
    }
}

/// A fresh evaluator that is about to run a program is sound.
pub proof fn start_is_sound<'a>(statements: &'a Vec<Stmt>)
    ensures
        sound(MachineView::initial().interpret(statements)),
{
    let m = MachineView::<'a>::initial().interpret(statements);
    assert(m.values.drop_last() =~= Seq::<ObjectView>::empty());
    assert(m.values.last() == ObjectView::Nil);
}

/// Every transition keeps the evaluator sound: whatever the program and
/// whatever the host answers, no variable ever holds an exit mark, and no
/// value below the top of the values is one.
pub proof fn step_keeps_sound<'a>(m: MachineView<'a>, event: EventView)
    requires
        sound(m),
    ensures
        sound(m.step(event).state),
{
    match m.control {
        Control::Eval(e) => eval_sound(m, e),
        Control::Exec(s) => exec_sound(m, s),
        Control::Value => value_sound(m),
        Control::Done => done_sound(m),
        Control::Wait(pending) => answer_sound(m, pending, event),
        Control::Finished => {},
        Control::Failed => {},
        Control::Lost => {},
    }
}

/// The value of an expression is no exit mark: where a sound evaluator
/// has a value ready, or reads a variable, what it has is plain.
pub proof fn expression_value_is_plain<'a>(m: MachineView<'a>, name: Seq<char>)
    requires
        sound(m),
    ensures
        m.control is Value && m.values.len() > 0 ==> plain(m.values.last()),
        lookup(m.scopes, m.environment as int, name) matches Some(v) ==> plain(v),
{
    lookup_plain(m.scopes, m.environment as int, name);
}

} // verus!
