//! Evaluation in rounds and evaluation in one go.
//!
//! Whoever runs the programs evaluates in rounds: evaluate, run the program
//! that evaluation stopped at, put what it printed in the command's place,
//! evaluate again. `spec_direct` says what an expression evaluates to in one
//! go, where each command is worth what its program printed, the programs
//! being run in the order of evaluation. This module proves that the rounds
//! give just that.

use vstd::prelude::*;
use crate::ast::SpecExp;
use crate::eval::{
    apply_binary, apply_unary, finish, lemma_args_stay_stopped, spec_argument_text, spec_eval,
    spec_eval_args, spec_expect_bool, spec_supply, spec_supply_args, SpecProgress,
};
use crate::value::SpecVal;

verus! {

/// How far evaluation in one go comes, and the outputs that are left over.
///
/// `outs` holds what the programs print, in the order in which they are run.
/// A command whose arguments have values takes the first output that is left
/// as its value, a `Sym`; where none is left, evaluation stops at it.
pub open spec fn spec_direct(e: SpecExp, outs: Seq<Seq<char>>) -> (SpecProgress, Seq<Seq<char>>)
    decreases e, 0nat,
{
    match e {
        SpecExp::Literal(v) => (SpecProgress::Done(v), outs),
        SpecExp::Binary(l, op, r) => {
            let (left, outs1) = spec_direct(*l, outs);
            match left {
                SpecProgress::Done(lv) => {
                    let (right, outs2) = spec_direct(*r, outs1);
                    match right {
                        SpecProgress::Done(rv) => (finish(apply_binary(op, lv, rv)), outs2),
                        stopped => (stopped, outs2),
                    }
                },
                stopped => (stopped, outs1),
            }
        },
        SpecExp::Unary(op, x) => {
            let (operand, outs1) = spec_direct(*x, outs);
            match operand {
                SpecProgress::Done(v) => (finish(apply_unary(op, v)), outs1),
                stopped => (stopped, outs1),
            }
        },
        SpecExp::If(c, t, f) => {
            let (cond, outs1) = spec_direct(*c, outs);
            match cond {
                SpecProgress::Done(v) => match spec_expect_bool(v) {
                    Ok(b) => if b {
                        spec_direct(*t, outs1)
                    } else {
                        spec_direct(*f, outs1)
                    },
                    Err(err) => (SpecProgress::Failed(err), outs1),
                },
                stopped => (stopped, outs1),
            }
        },
        SpecExp::Command(name, args) => {
            let (texts, outs1) = spec_direct_args(args, args.len(), outs);
            match texts {
                Err(stopped) => (stopped, outs1),
                Ok(texts) => if outs1.len() == 0 {
                    (SpecProgress::Launch(name, texts), outs1)
                } else {
                    (SpecProgress::Done(SpecVal::Sym(outs1[0])), outs1.skip(1))
                },
            }
        },
        SpecExp::Empty => (SpecProgress::Done(SpecVal::Nil), outs),
    }
}

/// The texts of the first `n` arguments of a command, evaluated in one go
/// from the left, or where the first of them that has no value stopped; and
/// the outputs that are left over.
pub open spec fn spec_direct_args(args: Seq<SpecExp>, n: nat, outs: Seq<Seq<char>>) -> (
    Result<Seq<Seq<char>>, SpecProgress>,
    Seq<Seq<char>>,
)
    decreases args, n,
{
    if n == 0 || n > args.len() {
        (Ok(Seq::empty()), outs)
    } else {
        let (before, outs1) = spec_direct_args(args, (n - 1) as nat, outs);
        match before {
            Err(stopped) => (Err(stopped), outs1),
            Ok(texts) => {
                let (arg, outs2) = spec_direct(args[n - 1], outs1);
                match arg {
                    SpecProgress::Done(v) => (Ok(texts.push(spec_argument_text(v))), outs2),
                    stopped => (Err(stopped), outs2),
                }
            },
        }
    }
}

/// How far evaluation in rounds comes: each round that stops at a command
/// puts the next output in its place, until an output is missing or the
/// evaluation ends.
pub open spec fn spec_rounds(e: SpecExp, outs: Seq<Seq<char>>) -> SpecProgress
    decreases outs.len(),
{
    match spec_eval(e) {
        SpecProgress::Launch(name, args) => if outs.len() == 0 {
            SpecProgress::Launch(name, args)
        } else {
            spec_rounds(spec_supply(e, outs[0]), outs.skip(1))
        },
        ended => ended,
    }
}

/// Whether the first `n` arguments have values, or one of them failed: no
/// program has to be run for them.
pub open spec fn args_are_quiet(args: Seq<SpecExp>, n: nat) -> bool {
    match spec_eval_args(args, n) {
        Ok(_) => true,
        Err(stopped) => !(stopped is Launch),
    }
}

/// Where no program has to be run, or no output is there, evaluation in one
/// go comes as far as a round, and takes no output.
proof fn lemma_direct_without_output(e: SpecExp, outs: Seq<Seq<char>>)
    requires
        !(spec_eval(e) is Launch) || outs.len() == 0,
    ensures
        spec_direct(e, outs) == (spec_eval(e), outs),
    decreases e, 0nat,
{
    match e {
        SpecExp::Literal(_) => {},
        SpecExp::Binary(l, op, r) => {
            lemma_direct_without_output(*l, outs);
            if spec_eval(*l) is Done {
                lemma_direct_without_output(*r, outs);
            }
        },
        SpecExp::Unary(op, x) => {
            lemma_direct_without_output(*x, outs);
        },
        SpecExp::If(c, t, f) => {
            lemma_direct_without_output(*c, outs);
            match spec_eval(*c) {
                SpecProgress::Done(SpecVal::Bool(true)) => lemma_direct_without_output(*t, outs),
                SpecProgress::Done(SpecVal::Bool(false)) => lemma_direct_without_output(
                    *f,
                    outs,
                ),
                _ => {},
            }
        },
        SpecExp::Command(name, args) => {
            lemma_direct_args_without_output(args, args.len(), outs);
        },
        SpecExp::Empty => {},
    }
}

proof fn lemma_direct_args_without_output(args: Seq<SpecExp>, n: nat, outs: Seq<Seq<char>>)
    requires
        n <= args.len(),
        args_are_quiet(args, n) || outs.len() == 0,
    ensures
        spec_direct_args(args, n, outs) == (spec_eval_args(args, n), outs),
    decreases args, n,
{
    if n > 0 {
        lemma_direct_args_without_output(args, (n - 1) as nat, outs);
        if spec_eval_args(args, (n - 1) as nat) is Ok {
            lemma_direct_without_output(args[n - 1], outs);
        }
    }
}

/// What the first `n` arguments evaluate to depends on them alone.
proof fn lemma_args_agree(a: Seq<SpecExp>, b: Seq<SpecExp>, n: nat, outs: Seq<Seq<char>>)
    requires
        n <= a.len(),
        a.len() == b.len(),
        forall|k: int| 0 <= k < n ==> a[k] == b[k],
    ensures
        spec_eval_args(a, n) == spec_eval_args(b, n),
        spec_direct_args(a, n, outs) == spec_direct_args(b, n, outs),
    decreases n,
{
    if n > 0 {
        lemma_args_agree(a, b, (n - 1) as nat, outs);
    }
}

/// Where the first `n` arguments of two commands evaluate alike and the
/// others are the same, the first `m` evaluate alike.
proof fn lemma_args_go_on_alike(
    a: Seq<SpecExp>,
    outs_a: Seq<Seq<char>>,
    b: Seq<SpecExp>,
    outs_b: Seq<Seq<char>>,
    n: nat,
    m: nat,
)
    requires
        n <= m <= a.len(),
        a.len() == b.len(),
        forall|k: int| n <= k < a.len() ==> a[k] == b[k],
        spec_direct_args(a, n, outs_a) == spec_direct_args(b, n, outs_b),
    ensures
        spec_direct_args(a, m, outs_a) == spec_direct_args(b, m, outs_b),
    decreases m,
{
    if m > n {
        lemma_args_go_on_alike(a, outs_a, b, outs_b, n, (m - 1) as nat);
    }
}

/// A round that stops at a command, with an output for it, changes nothing
/// of what evaluation in one go gives: the output in the command's place is
/// worth what the command is worth with the output at hand.
proof fn lemma_direct_after_supply(e: SpecExp, outs: Seq<Seq<char>>)
    requires
        spec_eval(e) is Launch,
        outs.len() > 0,
    ensures
        spec_direct(e, outs) == spec_direct(spec_supply(e, outs[0]), outs.skip(1)),
    decreases e, 0nat,
{
    let output = outs[0];
    let rest = outs.skip(1);
    match e {
        SpecExp::Literal(_) => {},
        SpecExp::Binary(l, op, r) => {
            if spec_eval(*l) is Launch {
                lemma_direct_after_supply(*l, outs);
            } else {
                lemma_direct_without_output(*l, outs);
                lemma_direct_without_output(*l, rest);
                lemma_direct_after_supply(*r, outs);
            }
        },
        SpecExp::Unary(op, x) => {
            lemma_direct_after_supply(*x, outs);
        },
        SpecExp::If(c, t, f) => {
            match spec_eval(*c) {
                SpecProgress::Launch(_, _) => lemma_direct_after_supply(*c, outs),
                SpecProgress::Done(SpecVal::Bool(true)) => {
                    lemma_direct_without_output(*c, outs);
                    lemma_direct_without_output(*c, rest);
                    lemma_direct_after_supply(*t, outs);
                },
                SpecProgress::Done(SpecVal::Bool(false)) => {
                    lemma_direct_without_output(*c, outs);
                    lemma_direct_without_output(*c, rest);
                    lemma_direct_after_supply(*f, outs);
                },
                _ => {},
            }
        },
        SpecExp::Command(name, args) => {
            if spec_eval_args(args, args.len()) is Ok {
                lemma_direct_args_without_output(args, args.len(), outs);
            } else {
                lemma_direct_args_after_supply(args, args.len(), outs);
            }
        },
        SpecExp::Empty => {},
    }
}

proof fn lemma_direct_args_after_supply(args: Seq<SpecExp>, n: nat, outs: Seq<Seq<char>>)
    requires
        n <= args.len(),
        spec_eval_args(args, n) is Err,
        spec_eval_args(args, n)->Err_0 is Launch,
        outs.len() > 0,
    ensures
        spec_supply_args(args, n, outs[0]).len() == args.len(),
        spec_direct_args(args, args.len(), outs) == spec_direct_args(
            spec_supply_args(args, n, outs[0]),
            args.len(),
            outs.skip(1),
        ),
    decreases args, n,
{
    let output = outs[0];
    let rest = outs.skip(1);
    if n > 0 {
        let before = (n - 1) as nat;
        if spec_eval_args(args, before) is Err {
            lemma_direct_args_after_supply(args, before, outs);
        } else {
            let filled = args.update(n - 1, spec_supply(args[n - 1], output));
            lemma_direct_args_without_output(args, before, outs);
            lemma_args_agree(args, filled, before, rest);
            lemma_direct_args_without_output(filled, before, rest);
            lemma_direct_after_supply(args[n - 1], outs);
            assert(spec_direct_args(args, n, outs) == spec_direct_args(filled, n, rest));
            lemma_args_go_on_alike(args, outs, filled, rest, n, args.len());
        }
    }
}

/// Evaluation in rounds gives what evaluation in one go gives, whatever the
/// programs print.
pub proof fn lemma_rounds_are_direct(e: SpecExp, outs: Seq<Seq<char>>)
    ensures
        spec_rounds(e, outs) == spec_direct(e, outs).0,
    decreases outs.len(),
{
    if spec_eval(e) is Launch && outs.len() > 0 {
        lemma_direct_after_supply(e, outs);
        lemma_rounds_are_direct(spec_supply(e, outs[0]), outs.skip(1));
    } else {
        lemma_direct_without_output(e, outs);
    }
}

} // verus!
