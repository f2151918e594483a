//! Runtime values and the environment that binds names to them.

use vstd::prelude::*;

verus! {

/// The kind of a runtime value.
#[derive(Clone, Copy, Debug, PartialEq, Eq, Structural)]
pub enum Kind {
    Num,
    Bool,
    Sym,
    Nil,
}

/// A runtime value.
#[derive(Debug, PartialEq, Eq)]
pub enum Val {
    /// A signed 64-bit integer.
    Num(i64),
    /// Uninterpreted text: the argument of a command, or what a command printed.
    Sym(String),
    Bool(bool),
    /// The absence of a value.
    Nil,
}

/// The mathematical model of a `Val`.
pub enum SpecVal {
    Num(int),
    Sym(Seq<char>),
    Bool(bool),
    Nil,
}

impl View for Val {
    type V = SpecVal;

    open spec fn view(&self) -> SpecVal {
        match self {
            Val::Num(n) => SpecVal::Num(*n as int),
            Val::Sym(s) => SpecVal::Sym(s@),
            Val::Bool(b) => SpecVal::Bool(*b),
            Val::Nil => SpecVal::Nil,
        }
    }
}

impl SpecVal {
    pub open spec fn kind(self) -> Kind {
        match self {
            SpecVal::Num(_) => Kind::Num,
            SpecVal::Sym(_) => Kind::Sym,
            SpecVal::Bool(_) => Kind::Bool,
            SpecVal::Nil => Kind::Nil,
        }
    }
}

impl Val {
    /// The kind of this value.
    pub fn kind(&self) -> (k: Kind)
        ensures
            k == self@.kind(),
    {
        match self {
            Val::Num(_) => Kind::Num,
            Val::Sym(_) => Kind::Sym,
            Val::Bool(_) => Kind::Bool,
            Val::Nil => Kind::Nil,
        }
    }
}

impl Clone for Val {
    fn clone(&self) -> (r: Val)
        ensures
            r == *self,
    {
        match self {
            Val::Num(value) => Val::Num(*value),
            Val::Sym(value) => Val::Sym(value.clone()),
            Val::Bool(value) => Val::Bool(*value),
            Val::Nil => Val::Nil,
        }
    }
}

} // verus!
