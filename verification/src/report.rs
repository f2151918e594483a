//! What is shown of a value and of an error: one line each.

use vstd::prelude::*;
use vstd::string::*;
use crate::eval::EvalError;
use crate::grammar::SpecSyntaxError;
use crate::parser::SyntaxError;
use crate::text::{decimal, num_to_string};
use crate::value::{Kind, SpecVal, Val};

verus! {

/// The name of a kind, as shown behind a value.
pub open spec fn kind_name(k: Kind) -> Seq<char> {
    match k {
        Kind::Num => "Num"@,
        Kind::Bool => "Bool"@,
        Kind::Sym => "Sym"@,
        Kind::Nil => "Nil"@,
    }
}

/// The name of a kind, as written in a message.
pub open spec fn kind_word(k: Kind) -> Seq<char> {
    match k {
        Kind::Num => "num"@,
        Kind::Bool => "bool"@,
        Kind::Sym => "sym"@,
        Kind::Nil => "nil"@,
    }
}

/// A value as it is written.
pub open spec fn value_text(v: SpecVal) -> Seq<char> {
    match v {
        SpecVal::Num(n) => decimal(n),
        SpecVal::Bool(b) => if b {
            "true"@
        } else {
            "false"@
        },
        SpecVal::Sym(s) => s,
        SpecVal::Nil => "nil"@,
    }
}

/// The line that shows a value: the value, ` : `, and its kind.
pub open spec fn spec_render(v: SpecVal) -> Seq<char> {
    value_text(v) + " : "@ + kind_name(v.kind())
}

pub open spec fn syntax_message(e: SpecSyntaxError) -> Seq<char> {
    match e {
        SpecSyntaxError::Pattern => "the tokenizer could not be set up"@,
        SpecSyntaxError::UnexpectedEnd => "expected unary operator or primary token"@,
        SpecSyntaxError::ExpectedPrimary(t) => "expected primary token, got "@ + t,
        SpecSyntaxError::MissingClosingParen => "missing closing parenthesis"@,
        SpecSyntaxError::MissingClosingBracket => "expected closing bracket"@,
        SpecSyntaxError::MissingThen => "expected token 'then'"@,
        SpecSyntaxError::MissingElse => "expected token 'else'"@,
        SpecSyntaxError::UnknownToken(t) => "unknown token "@ + t,
    }
}

pub open spec fn eval_message(e: EvalError) -> Seq<char> {
    match e {
        EvalError::ExpectedKind { expected, actual } => "expected "@ + kind_word(expected)
            + ", got "@ + kind_word(actual),
        EvalError::DivideByZero => "divide by zero"@,
        EvalError::Overflow => "arithmetic overflow"@,
        EvalError::LaunchFailed => "the command could not be launched"@,
    }
}

impl Kind {
    /// The name of the kind, as shown behind a value.
    pub fn name(&self) -> (r: &'static str)
        ensures
            r@ == kind_name(*self),
    {
        match self {
            Kind::Num => "Num",
            Kind::Bool => "Bool",
            Kind::Sym => "Sym",
            Kind::Nil => "Nil",
        }
    }

    /// The name of the kind, as written in a message.
    pub fn word(&self) -> (r: &'static str)
        ensures
            r@ == kind_word(*self),
    {
        match self {
            Kind::Num => "num",
            Kind::Bool => "bool",
            Kind::Sym => "sym",
            Kind::Nil => "nil",
        }
    }
}

/// The line that shows a value, such as `7 : Num`.
pub fn render_value(v: &Val) -> (r: String)
    ensures
        r@ == spec_render(v@),
{
    let mut out = match v {
        Val::Num(value) => num_to_string(*value),
        Val::Bool(value) => if *value {
            String::from_str("true")
        } else {
            String::from_str("false")
        },
        Val::Sym(value) => value.clone(),
        Val::Nil => String::from_str("nil"),
    };
    out.append(" : ");
    out.append(v.kind().name());
    out
}

impl SyntaxError {
    /// What went wrong, in words.
    pub fn message(&self) -> (r: String)
        ensures
            r@ == syntax_message(self@),
    {
        match self {
            SyntaxError::Pattern => String::from_str("the tokenizer could not be set up"),
            SyntaxError::UnexpectedEnd => String::from_str(
                "expected unary operator or primary token",
            ),
            SyntaxError::ExpectedPrimary(token) => {
                let mut out = String::from_str("expected primary token, got ");
                out.append(token.as_str());
                out
            },
            SyntaxError::MissingClosingParen => String::from_str("missing closing parenthesis"),
            SyntaxError::MissingClosingBracket => String::from_str("expected closing bracket"),
            SyntaxError::MissingThen => String::from_str("expected token 'then'"),
            SyntaxError::MissingElse => String::from_str("expected token 'else'"),
            SyntaxError::UnknownToken(token) => {
                let mut out = String::from_str("unknown token ");
                out.append(token.as_str());
                out
            },
        }
    }

    /// The line that reports the error.
    pub fn report(&self) -> (r: String)
        ensures
            r@ == "syntax error: "@ + syntax_message(self@),
    {
        let mut out = String::from_str("syntax error: ");
        out.append(self.message().as_str());
        out
    }
}

impl EvalError {
    /// What went wrong, in words.
    pub fn message(&self) -> (r: String)
        ensures
            r@ == eval_message(*self),
    {
        match self {
            EvalError::ExpectedKind { expected, actual } => {
                let mut out = String::from_str("expected ");
                out.append(expected.word());
                out.append(", got ");
                out.append(actual.word());
                out
            },
            EvalError::DivideByZero => String::from_str("divide by zero"),
            EvalError::Overflow => String::from_str("arithmetic overflow"),
            EvalError::LaunchFailed => String::from_str("the command could not be launched"),
        }
    }

    /// The line that reports the error.
    pub fn report(&self) -> (r: String)
        ensures
            r@ == "error evaluating expression: "@ + eval_message(*self),
    {
        let mut out = String::from_str("error evaluating expression: ");
        out.append(self.message().as_str());
        out
    }
}

} // verus!
