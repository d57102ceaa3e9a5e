//! The values that a program computes with.
use crate::token::{Literal, LiteralView};
use vstd::prelude::*;

verus! {

/// A double-precision number, held as the bit pattern of its IEEE-754
/// encoding. The library never computes on a number: it asks its host
/// for sums, comparisons and texts, and takes the answers as they come.
#[derive(Clone, Copy, Debug, PartialEq, Eq, Structural)]
pub struct Number {
    pub bits: u64,
}

/// A value at run time. `Function` names a callable of the evaluator by
/// its handle. `Exit` is the mark that `break` and `return` travel under
/// through the statements; no expression has such a value.
#[derive(Debug)]
pub enum LoxObject {
    Number(Number),
    String(String),
    Boolean(bool),
    Nil,
    Function(usize),
    Exit(Box<LoxObject>),
}

/// The mathematical value of a [`LoxObject`].
pub enum ObjectView {
    Number(Number),
    String(Seq<char>),
    Boolean(bool),
    Nil,
    Function(nat),
    Exit(Box<ObjectView>),
}

pub open spec fn object_view(v: LoxObject) -> ObjectView
    decreases v,
{
    match v {
        LoxObject::Number(n) => ObjectView::Number(n),
        LoxObject::String(s) => ObjectView::String(s@),
        LoxObject::Boolean(b) => ObjectView::Boolean(b),
        LoxObject::Nil => ObjectView::Nil,
        LoxObject::Function(f) => ObjectView::Function(f as nat),
        LoxObject::Exit(inner) => ObjectView::Exit(Box::new(object_view(*inner))),
    }
}

impl View for LoxObject {
    type V = ObjectView;

    open spec fn view(&self) -> ObjectView {
        object_view(*self)
    }
}

impl DeepView for LoxObject {
    type V = ObjectView;

    open spec fn deep_view(&self) -> ObjectView {
        object_view(*self)
    }
}

impl ObjectView {
    /// `false` and `nil` are falsy; everything else is truthy, zero and
    /// the empty string too.
    pub open spec fn is_truthy(self) -> bool {
        match self {
            ObjectView::Boolean(b) => b,
            ObjectView::Nil => false,
            _ => true,
        }
    }

    /// The text of a value that is no number: a string is its own text,
    /// a function shows as `[__object__]`, and what travels under an exit
    /// mark shows as itself. A number has no text here.
    pub open spec fn text(self) -> Option<Seq<char>>
        decreases self,
    {
        match self {
            ObjectView::Number(_) => None,
            ObjectView::String(s) => Some(s),
            ObjectView::Boolean(b) => Some(
                if b {
                    "true"@
                } else {
                    "false"@
                },
            ),
            ObjectView::Nil => Some("nil"@),
            ObjectView::Function(_) => Some("[__object__]"@),
            ObjectView::Exit(inner) => inner.text(),
        }
    }

    /// The number that has to be written out to show the value.
    pub open spec fn number_shown(self) -> Option<Number>
        decreases self,
    {
        match self {
            ObjectView::Number(n) => Some(n),
            ObjectView::Exit(inner) => inner.number_shown(),
            _ => None,
        }
    }
}

/// A value has a text of its own, or it shows a number; never both.
pub proof fn text_or_number(v: ObjectView)
    ensures
        v.text() is Some <==> v.number_shown() is None,
    decreases v,
{
    if let ObjectView::Exit(inner) = v {
        text_or_number(*inner);
    }
}

impl Clone for LoxObject {
    fn clone(&self) -> (r: Self)
        ensures
            r@ == self@,
        decreases self,
    {
        match self {
            LoxObject::Number(n) => LoxObject::Number(*n),
            LoxObject::String(s) => LoxObject::String(s.clone()),
            LoxObject::Boolean(b) => LoxObject::Boolean(*b),
            LoxObject::Nil => LoxObject::Nil,
            LoxObject::Function(f) => LoxObject::Function(*f),
            LoxObject::Exit(inner) => {
                let copy = (**inner).clone();
                LoxObject::Exit(Box::new(copy))
            },
        }
    }
}

impl LoxObject {
    pub fn is_truthy(&self) -> (r: bool)
        ensures
            r == self@.is_truthy(),
    {
        match self {
            LoxObject::Boolean(b) => *b,
            LoxObject::Nil => false,
            _ => true,
        }
    }

    /// The value of a literal, or the decimal text of a number literal.
    pub fn from_literal(l: &Literal) -> (r: Result<LoxObject, String>)
        ensures
            match r {
                Ok(v) => literal_value(l@) == Ok::<ObjectView, Seq<char>>(v@),
                Err(text) => literal_value(l@) == Err::<ObjectView, Seq<char>>(text@),
            },
    {
        match l {
            Literal::Number(text) => Err(text.clone()),
            Literal::String(s) => Ok(LoxObject::String(s.clone())),
            Literal::Boolean(b) => Ok(LoxObject::Boolean(*b)),
            Literal::Nil => Ok(LoxObject::Nil),
        }
    }

    /// The text of the value, or the number that the host has to write out.
    pub fn text(&self) -> (r: Result<String, Number>)
        ensures
            match r {
                Ok(s) => self@.text() == Some(s@),
                Err(n) => self@.text() is None && self@.number_shown() == Some(n),
            },
        decreases self,
    {
        match self {
            LoxObject::Number(n) => Err(*n),
            LoxObject::String(s) => Ok(s.clone()),
            LoxObject::Boolean(b) => if *b {
                Ok("true".to_owned())
            } else {
                Ok("false".to_owned())
            },
            LoxObject::Nil => Ok("nil".to_owned()),
            LoxObject::Function(_) => Ok("[__object__]".to_owned()),
            LoxObject::Exit(inner) => inner.text(),
        }
    }
}

/// The value of a literal, or the decimal text of a number literal, whose
/// value is for the host to read.
pub open spec fn literal_value(l: LiteralView) -> Result<ObjectView, Seq<char>> {
    match l {
        LiteralView::Number(text) => Err(text),
        LiteralView::String(s) => Ok(ObjectView::String(s)),
        LiteralView::Boolean(b) => Ok(ObjectView::Boolean(b)),
        LiteralView::Nil => Ok(ObjectView::Nil),
    }
}

/// Truthiness: zero, whatever its sign, and the empty string are truthy;
/// `false` and `nil` are falsy.
pub proof fn truthiness(n: Number)
    ensures
        ObjectView::Number(Number { bits: 0 }).is_truthy(),
        ObjectView::Number(n).is_truthy(),
        ObjectView::String(Seq::empty()).is_truthy(),
        !ObjectView::Boolean(false).is_truthy(),
        !ObjectView::Nil.is_truthy(),
        ObjectView::Boolean(true).is_truthy(),
{
}

} // verus!
