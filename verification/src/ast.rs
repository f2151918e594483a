//! The expression tree.

use vstd::prelude::*;
use crate::value::{SpecVal, Val};

verus! {

#[derive(Clone, Copy, Debug, PartialEq, Eq, Structural)]
pub enum BinaryOp {
    Add,
    Sub,
    Mult,
    Div,
    Mod,
    Lt,
    Gt,
    Lte,
    Gte,
    Eq,
    Neq,
    And,
    Or,
}

#[derive(Clone, Copy, Debug, PartialEq, Eq, Structural)]
pub enum UnaryOp {
    Negate,
    Inverse,
}

/// An expression. Each node owns its children.
#[derive(Debug, PartialEq, Eq)]
pub enum Exp {
    Literal(Val),
    Binary(Box<Exp>, BinaryOp, Box<Exp>),
    Unary(UnaryOp, Box<Exp>),
    /// Condition, the branch taken when it holds, the branch taken when it does not.
    If(Box<Exp>, Box<Exp>, Box<Exp>),
    /// The name of a program and its arguments.
    Command(String, Vec<Exp>),
    /// What a blank line parses to.
    Empty,
}

/// The mathematical model of an `Exp`.
pub enum SpecExp {
    Literal(SpecVal),
    Binary(Box<SpecExp>, BinaryOp, Box<SpecExp>),
    Unary(UnaryOp, Box<SpecExp>),
    If(Box<SpecExp>, Box<SpecExp>, Box<SpecExp>),
    Command(Seq<char>, Seq<SpecExp>),
    Empty,
}

/// The model of an expression: the same tree over mathematical values.
pub open spec fn exp_view(e: Exp) -> SpecExp
    decreases e,
{
    match e {
        Exp::Literal(v) => SpecExp::Literal(v@),
        Exp::Binary(l, op, r) => SpecExp::Binary(Box::new(exp_view(*l)), op, Box::new(exp_view(*r))),
        Exp::Unary(op, x) => SpecExp::Unary(op, Box::new(exp_view(*x))),
        Exp::If(c, t, f) => SpecExp::If(
            Box::new(exp_view(*c)),
            Box::new(exp_view(*t)),
            Box::new(exp_view(*f)),
        ),
        Exp::Command(name, args) => SpecExp::Command(name@, exps_view(args@)),
        Exp::Empty => SpecExp::Empty,
    }
}

/// The models of a sequence of expressions, in order.
pub open spec fn exps_view(es: Seq<Exp>) -> Seq<SpecExp>
    decreases es,
{
    Seq::new(es.len(), |i: int| if 0 <= i < es.len() { exp_view(es[i]) } else { SpecExp::Empty })
}

impl View for Exp {
    type V = SpecExp;

    open spec fn view(&self) -> SpecExp {
        exp_view(*self)
    }
}

} // verus!
