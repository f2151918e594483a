//! The evaluator.
//!
//! Evaluation walks the tree from the leaves up. It cannot run a program
//! itself: where it comes to a command whose arguments are evaluated, it stops
//! and hands out the name and the arguments (`Progress::Launch`). Whoever runs
//! the program puts what it printed in the command's place with `resume` and
//! evaluates again.

use vstd::prelude::*;
use vstd::string::*;
use crate::ast::{exps_view, BinaryOp, Exp, SpecExp, UnaryOp};
use crate::env::Env;
use crate::pattern::texts_view;
use crate::text::{decimal, num_to_string};
use crate::value::{Kind, SpecVal, Val};

verus! {

/// Why an expression has no value.
#[derive(Clone, Copy, Debug, PartialEq, Eq, Structural)]
pub enum EvalError {
    /// An operand is of another kind than its operator takes.
    ExpectedKind { expected: Kind, actual: Kind },
    DivideByZero,
    /// The result does not fit a signed 64-bit integer.
    Overflow,
    /// The program of a command could not be started.
    LaunchFailed,
}

/// How far evaluation came.
#[derive(Debug, PartialEq, Eq)]
pub enum Progress {
    /// The value of the expression.
    Done(Val),
    Failed(EvalError),
    /// The program to run next, and its arguments.
    Launch(String, Vec<String>),
}

/// The mathematical model of a `Progress`.
pub enum SpecProgress {
    Done(SpecVal),
    Failed(EvalError),
    Launch(Seq<char>, Seq<Seq<char>>),
}

impl View for Progress {
    type V = SpecProgress;

    open spec fn view(&self) -> SpecProgress {
        match self {
            Progress::Done(v) => SpecProgress::Done(v@),
            Progress::Failed(err) => SpecProgress::Failed(*err),
            Progress::Launch(name, args) => SpecProgress::Launch(name@, texts_view(args@)),
        }
    }
}

/// The absolute value.
pub open spec fn abs(n: int) -> int {
    if n < 0 {
        -n
    } else {
        n
    }
}

/// The quotient of integer division that rounds towards zero.
pub open spec fn trunc_div(a: int, b: int) -> int
    recommends
        b != 0,
{
    if (a >= 0) == (b > 0) {
        abs(a) / abs(b)
    } else {
        -(abs(a) / abs(b))
    }
}

/// The remainder of integer division that rounds towards zero: it has the
/// sign of the dividend.
pub open spec fn trunc_rem(a: int, b: int) -> int
    recommends
        b != 0,
{
    if a >= 0 {
        a % abs(b)
    } else {
        -((-a) % abs(b))
    }
}

/// Division that rounds towards zero: the quotient times the divisor, and the
/// remainder, make up the dividend; the remainder is smaller than the divisor
/// and is not of the other sign than the dividend.
pub proof fn lemma_truncating_division(a: int, b: int)
    requires
        b != 0,
    ensures
        a == b * trunc_div(a, b) + trunc_rem(a, b),
        abs(trunc_rem(a, b)) < abs(b),
        a >= 0 ==> trunc_rem(a, b) >= 0,
        a <= 0 ==> trunc_rem(a, b) <= 0,
{
    let m = abs(b);
    let x = abs(a);
    vstd::arithmetic::div_mod::lemma_fundamental_div_mod(x, m);
    vstd::arithmetic::div_mod::lemma_mod_bound(x, m);
    let q = x / m;
    let r = x % m;
    assert(x == m * q + r);
    assert(b * trunc_div(a, b) + trunc_rem(a, b) == a) by (nonlinear_arith)
        requires
            x == m * q + r,
            m == (if b < 0 {
                -b
            } else {
                b
            }),
            x == (if a < 0 {
                -a
            } else {
                a
            }),
            trunc_div(a, b) == (if (a >= 0) == (b > 0) {
                q
            } else {
                -q
            }),
            trunc_rem(a, b) == (if a >= 0 {
                r
            } else {
                -r
            }),
    ;
}

/// A number as a value, where it fits 64 bits.
pub open spec fn in_range(n: int) -> Result<SpecVal, EvalError> {
    if i64::MIN <= n <= i64::MAX {
        Ok(SpecVal::Num(n))
    } else {
        Err(EvalError::Overflow)
    }
}

/// The number that a value is, or the error that names its kind.
pub open spec fn spec_expect_num(v: SpecVal) -> Result<int, EvalError> {
    match v {
        SpecVal::Num(n) => Ok(n),
        _ => Err(EvalError::ExpectedKind { expected: Kind::Num, actual: v.kind() }),
    }
}

/// The truth value that a value is, or the error that names its kind.
pub open spec fn spec_expect_bool(v: SpecVal) -> Result<bool, EvalError> {
    match v {
        SpecVal::Bool(b) => Ok(b),
        _ => Err(EvalError::ExpectedKind { expected: Kind::Bool, actual: v.kind() }),
    }
}

/// The two operands as numbers; the left one is looked at first.
pub open spec fn spec_numbers(l: SpecVal, r: SpecVal) -> Result<(int, int), EvalError> {
    match spec_expect_num(l) {
        Err(e) => Err(e),
        Ok(a) => match spec_expect_num(r) {
            Err(e) => Err(e),
            Ok(b) => Ok((a, b)),
        },
    }
}

/// The two operands as truth values; the left one is looked at first.
pub open spec fn spec_truths(l: SpecVal, r: SpecVal) -> Result<(bool, bool), EvalError> {
    match spec_expect_bool(l) {
        Err(e) => Err(e),
        Ok(a) => match spec_expect_bool(r) {
            Err(e) => Err(e),
            Ok(b) => Ok((a, b)),
        },
    }
}

/// A binary operator applied to the values of its operands. Nothing is
/// converted: an operand of another kind than the operator takes is an error.
pub open spec fn apply_binary(op: BinaryOp, l: SpecVal, r: SpecVal) -> Result<SpecVal, EvalError> {
    match op {
        BinaryOp::Add => match spec_numbers(l, r) {
            Ok((a, b)) => in_range(a + b),
            Err(e) => Err(e),
        },
        BinaryOp::Sub => match spec_numbers(l, r) {
            Ok((a, b)) => in_range(a - b),
            Err(e) => Err(e),
        },
        BinaryOp::Mult => match spec_numbers(l, r) {
            Ok((a, b)) => in_range(a * b),
            Err(e) => Err(e),
        },
        BinaryOp::Div => match spec_numbers(l, r) {
            Ok((a, b)) => if b == 0 {
                Err(EvalError::DivideByZero)
            } else {
                in_range(trunc_div(a, b))
            },
            Err(e) => Err(e),
        },
        BinaryOp::Mod => match spec_numbers(l, r) {
            Ok((a, b)) => if b == 0 {
                Err(EvalError::DivideByZero)
            } else {
                Ok(SpecVal::Num(trunc_rem(a, b)))
            },
            Err(e) => Err(e),
        },
        BinaryOp::Lt => match spec_numbers(l, r) {
            Ok((a, b)) => Ok(SpecVal::Bool(a < b)),
            Err(e) => Err(e),
        },
        BinaryOp::Lte => match spec_numbers(l, r) {
            Ok((a, b)) => Ok(SpecVal::Bool(a <= b)),
            Err(e) => Err(e),
        },
        BinaryOp::Gt => match spec_numbers(l, r) {
            Ok((a, b)) => Ok(SpecVal::Bool(a > b)),
            Err(e) => Err(e),
        },
        BinaryOp::Gte => match spec_numbers(l, r) {
            Ok((a, b)) => Ok(SpecVal::Bool(a >= b)),
            Err(e) => Err(e),
        },
        BinaryOp::Eq => match spec_numbers(l, r) {
            Ok((a, b)) => Ok(SpecVal::Bool(a == b)),
            Err(e) => Err(e),
        },
        BinaryOp::Neq => match spec_numbers(l, r) {
            Ok((a, b)) => Ok(SpecVal::Bool(a != b)),
            Err(e) => Err(e),
        },
        BinaryOp::And => match spec_truths(l, r) {
            Ok((a, b)) => Ok(SpecVal::Bool(a && b)),
            Err(e) => Err(e),
        },
        BinaryOp::Or => match spec_truths(l, r) {
            Ok((a, b)) => Ok(SpecVal::Bool(a || b)),
            Err(e) => Err(e),
        },
    }
}

/// A unary operator applied to the value of its operand: both operators take
/// a number and negate it.
pub open spec fn apply_unary(op: UnaryOp, v: SpecVal) -> Result<SpecVal, EvalError> {
    match spec_expect_num(v) {
        Err(e) => Err(e),
        Ok(n) => in_range(-n),
    }
}

/// The text that a value makes as the argument of a command.
pub open spec fn spec_argument_text(v: SpecVal) -> Seq<char> {
    match v {
        SpecVal::Num(n) => decimal(n),
        SpecVal::Bool(b) => if b {
            "true"@
        } else {
            "false"@
        },
        SpecVal::Sym(s) => s,
        SpecVal::Nil => Seq::empty(),
    }
}

/// A value or an error as the end of evaluation.
pub open spec fn finish(r: Result<SpecVal, EvalError>) -> SpecProgress {
    match r {
        Ok(v) => SpecProgress::Done(v),
        Err(e) => SpecProgress::Failed(e),
    }
}

/// How far evaluation of an expression comes without running a program.
///
/// The operands of a binary operator are both evaluated, the left one first,
/// before the operator looks at either. Of the branches of an `if` only the
/// one that the condition selects is evaluated.
pub open spec fn spec_eval(e: SpecExp) -> SpecProgress
    decreases e, 0nat,
{
    match e {
        SpecExp::Literal(v) => SpecProgress::Done(v),
        SpecExp::Binary(l, op, r) => match spec_eval(*l) {
            SpecProgress::Done(lv) => match spec_eval(*r) {
                SpecProgress::Done(rv) => finish(apply_binary(op, lv, rv)),
                stopped => stopped,
            },
            stopped => stopped,
        },
        SpecExp::Unary(op, x) => match spec_eval(*x) {
            SpecProgress::Done(v) => finish(apply_unary(op, v)),
            stopped => stopped,
        },
        SpecExp::If(c, t, f) => match spec_eval(*c) {
            SpecProgress::Done(v) => match spec_expect_bool(v) {
                Ok(b) => if b {
                    spec_eval(*t)
                } else {
                    spec_eval(*f)
                },
                Err(err) => SpecProgress::Failed(err),
            },
            stopped => stopped,
        },
        SpecExp::Command(name, args) => match spec_eval_args(args, args.len()) {
            Ok(texts) => SpecProgress::Launch(name, texts),
            Err(stopped) => stopped,
        },
        SpecExp::Empty => SpecProgress::Done(SpecVal::Nil),
    }
}

/// The texts of the first `n` arguments of a command, evaluated from the
/// left, or where the first of them that has no value stopped.
pub open spec fn spec_eval_args(args: Seq<SpecExp>, n: nat) -> Result<Seq<Seq<char>>, SpecProgress>
    decreases args, n,
{
    if n == 0 || n > args.len() {
        Ok(Seq::empty())
    } else {
        match spec_eval_args(args, (n - 1) as nat) {
            Err(stopped) => Err(stopped),
            Ok(texts) => match spec_eval(args[n - 1]) {
                SpecProgress::Done(v) => Ok(texts.push(spec_argument_text(v))),
                stopped => Err(stopped),
            },
        }
    }
}

/// The expression with what a program printed in the place of the command
/// that evaluation stopped at. An expression whose evaluation stops at no
/// command is left as it is (`lemma_supply_without_launch`).
pub open spec fn spec_supply(e: SpecExp, output: Seq<char>) -> SpecExp
    decreases e, 0nat,
{
    match e {
        SpecExp::Literal(_) => e,
        SpecExp::Binary(l, op, r) => match spec_eval(*l) {
            SpecProgress::Launch(_, _) => SpecExp::Binary(Box::new(spec_supply(*l, output)), op, r),
            SpecProgress::Done(_) => SpecExp::Binary(l, op, Box::new(spec_supply(*r, output))),
            SpecProgress::Failed(_) => e,
        },
        SpecExp::Unary(op, x) => SpecExp::Unary(op, Box::new(spec_supply(*x, output))),
        SpecExp::If(c, t, f) => match spec_eval(*c) {
            SpecProgress::Launch(_, _) => SpecExp::If(Box::new(spec_supply(*c, output)), t, f),
            SpecProgress::Done(SpecVal::Bool(true)) => SpecExp::If(
                c,
                Box::new(spec_supply(*t, output)),
                f,
            ),
            SpecProgress::Done(SpecVal::Bool(false)) => SpecExp::If(
                c,
                t,
                Box::new(spec_supply(*f, output)),
            ),
            _ => e,
        },
        SpecExp::Command(name, args) => match spec_eval_args(args, args.len()) {
            Ok(_) => SpecExp::Literal(SpecVal::Sym(output)),
            Err(_) => SpecExp::Command(name, spec_supply_args(args, args.len(), output)),
        },
        SpecExp::Empty => e,
    }
}

/// The arguments of a command with what a program printed put into the
/// first of the first `n` that has no value.
pub open spec fn spec_supply_args(args: Seq<SpecExp>, n: nat, output: Seq<char>) -> Seq<SpecExp>
    decreases args, n,
{
    if n == 0 || n > args.len() {
        args
    } else {
        match spec_eval_args(args, (n - 1) as nat) {
            Err(_) => spec_supply_args(args, (n - 1) as nat, output),
            Ok(_) => args.update(n - 1, spec_supply(args[n - 1], output)),
        }
    }
}

/// Once an argument has stopped evaluation, looking at more arguments
/// changes nothing.
pub proof fn lemma_args_stay_stopped(args: Seq<SpecExp>, k: nat, n: nat)
    requires
        k <= n <= args.len(),
        spec_eval_args(args, k) is Err,
    ensures
        spec_eval_args(args, n) == spec_eval_args(args, k),
    decreases n,
{
    if n > k {
        lemma_args_stay_stopped(args, k, (n - 1) as nat);
    }
}

/// An expression whose evaluation stops at no command has no place for what
/// a program printed: it is left as it is.
pub proof fn lemma_supply_without_launch(e: SpecExp, output: Seq<char>)
    requires
        !(spec_eval(e) is Launch),
    ensures
        spec_supply(e, output) == e,
    decreases e, 0nat,
{
    match e {
        SpecExp::Literal(_) => {},
        SpecExp::Binary(l, op, r) => {
            if spec_eval(*l) is Done {
                lemma_supply_without_launch(*r, output);
            }
        },
        SpecExp::Unary(op, x) => {
            lemma_supply_without_launch(*x, output);
        },
        SpecExp::If(c, t, f) => {
            match spec_eval(*c) {
                SpecProgress::Done(SpecVal::Bool(true)) => lemma_supply_without_launch(*t, output),
                SpecProgress::Done(SpecVal::Bool(false)) => lemma_supply_without_launch(
                    *f,
                    output,
                ),
                _ => {},
            }
        },
        SpecExp::Command(name, args) => {
            lemma_supply_args_without_launch(args, args.len(), output);
        },
        SpecExp::Empty => {},
    }
}

proof fn lemma_supply_args_without_launch(args: Seq<SpecExp>, n: nat, output: Seq<char>)
    requires
        n <= args.len(),
        (match spec_eval_args(args, n) {
            Ok(_) => true,
            Err(stopped) => !(stopped is Launch),
        }),
    ensures
        spec_supply_args(args, n, output) == args,
    decreases args, n,
{
    if n > 0 {
        match spec_eval_args(args, (n - 1) as nat) {
            Err(_) => lemma_supply_args_without_launch(args, (n - 1) as nat, output),
            Ok(_) => {
                lemma_supply_without_launch(args[n - 1], output);
                assert(args.update(n - 1, args[n - 1]) =~= args);
            },
        }
    }
}

/// Where the first `i` arguments have values and the next one has none, what
/// a program printed goes into that one.
proof fn lemma_supply_args_at(args: Seq<SpecExp>, i: nat, n: nat, output: Seq<char>)
    requires
        i < n <= args.len(),
        spec_eval_args(args, i) is Ok,
        spec_eval_args(args, i + 1) is Err,
    ensures
        spec_supply_args(args, n, output) == args.update(i as int, spec_supply(args[i as int], output)),
    decreases n,
{
    if n > i + 1 {
        lemma_args_stay_stopped(args, i + 1, (n - 1) as nat);
        lemma_supply_args_at(args, i, (n - 1) as nat, output);
    }
}

/// The number that a value is, or the error that names its kind.
pub fn expect_num(v: Val) -> (r: Result<i64, EvalError>)
    ensures
        (match r {
            Ok(n) => spec_expect_num(v@) == Ok::<int, EvalError>(n as int),
            Err(e) => spec_expect_num(v@) == Err::<int, EvalError>(e),
        }),
{
    match v {
        Val::Num(value) => Ok(value),
        Val::Bool(_) => Err(EvalError::ExpectedKind { expected: Kind::Num, actual: Kind::Bool }),
        Val::Sym(_) => Err(EvalError::ExpectedKind { expected: Kind::Num, actual: Kind::Sym }),
        Val::Nil => Err(EvalError::ExpectedKind { expected: Kind::Num, actual: Kind::Nil }),
    }
}

/// The truth value that a value is, or the error that names its kind.
pub fn expect_bool(v: Val) -> (r: Result<bool, EvalError>)
    ensures
        r == spec_expect_bool(v@),
{
    match v {
        Val::Num(_) => Err(EvalError::ExpectedKind { expected: Kind::Bool, actual: Kind::Num }),
        Val::Bool(value) => Ok(value),
        Val::Sym(_) => Err(EvalError::ExpectedKind { expected: Kind::Bool, actual: Kind::Sym }),
        Val::Nil => Err(EvalError::ExpectedKind { expected: Kind::Bool, actual: Kind::Nil }),
    }
}

/// The two operands as numbers; the left one is looked at first.
fn expect_nums(l: Val, r: Val) -> (out: Result<(i64, i64), EvalError>)
    ensures
        (match out {
            Ok((a, b)) => spec_numbers(l@, r@) == Ok::<(int, int), EvalError>((a as int, b as int)),
            Err(e) => spec_numbers(l@, r@) == Err::<(int, int), EvalError>(e),
        }),
{
    let a = expect_num(l)?;
    let b = expect_num(r)?;
    Ok((a, b))
}

/// The two operands as truth values; the left one is looked at first.
fn expect_bools(l: Val, r: Val) -> (out: Result<(bool, bool), EvalError>)
    ensures
        out == spec_truths(l@, r@),
{
    let a = expect_bool(l)?;
    let b = expect_bool(r)?;
    Ok((a, b))
}

/// A number as a value, where the operation did not overflow.
fn checked(n: Option<i64>) -> (r: Result<Val, EvalError>)
    ensures
        (match n {
            Some(value) => r is Ok && r->Ok_0@ == SpecVal::Num(value as int),
            None => r == Err::<Val, EvalError>(EvalError::Overflow),
        }),
{
    match n {
        Some(value) => Ok(Val::Num(value)),
        None => Err(EvalError::Overflow),
    }
}

/// The quotient, rounded towards zero, where it fits 64 bits.
fn divide(a: i64, b: i64) -> (r: Result<Val, EvalError>)
    requires
        b != 0,
    ensures
        value_view(r) == in_range(trunc_div(a as int, b as int)),
{
    proof {
        if a == 0 {
            assert(0int / abs(b as int) == 0) by (nonlinear_arith)
                requires
                    abs(b as int) > 0,
            ;
        }
    }
    checked(a.checked_div(b))
}

/// The remainder of division that rounds towards zero.
fn remainder(a: i64, b: i64) -> (r: i64)
    requires
        b != 0,
    ensures
        r == trunc_rem(a as int, b as int),
{
    if b == -1 {
        assert(trunc_rem(a as int, b as int) == 0);
        return 0;
    }
    proof {
        let m = abs(b as int);
        if a == 0 {
            assert(0int % m == 0) by (nonlinear_arith)
                requires
                    m > 0,
            ;
        }
        assert(0 <= abs(a as int) % m < m) by (nonlinear_arith)
            requires
                m > 0,
        ;
    }
    match a.checked_rem(b) {
        Some(r) => r,
        // Not taken: `b` is neither 0 nor -1.
        None => 0,
    }
}

/// The model of a value or an error.
pub open spec fn value_view(r: Result<Val, EvalError>) -> Result<SpecVal, EvalError> {
    match r {
        Ok(v) => Ok(v@),
        Err(e) => Err(e),
    }
}

/// Applies a binary operator to the values of its operands.
pub fn apply_binop(op: BinaryOp, lval: Val, rval: Val) -> (out: Result<Val, EvalError>)
    ensures
        value_view(out) == apply_binary(op, lval@, rval@),
{
    match op {
        BinaryOp::Add => {
            let (a, b) = expect_nums(lval, rval)?;
            checked(a.checked_add(b))
        },
        BinaryOp::Sub => {
            let (a, b) = expect_nums(lval, rval)?;
            checked(a.checked_sub(b))
        },
        BinaryOp::Mult => {
            let (a, b) = expect_nums(lval, rval)?;
            checked(a.checked_mul(b))
        },
        BinaryOp::Div => {
            let (a, b) = expect_nums(lval, rval)?;
            if b == 0 {
                Err(EvalError::DivideByZero)
            } else {
                divide(a, b)
            }
        },
        BinaryOp::Mod => {
            let (a, b) = expect_nums(lval, rval)?;
            if b == 0 {
                Err(EvalError::DivideByZero)
            } else {
                Ok(Val::Num(remainder(a, b)))
            }
        },
        BinaryOp::Lt => {
            let (a, b) = expect_nums(lval, rval)?;
            Ok(Val::Bool(a < b))
        },
        BinaryOp::Lte => {
            let (a, b) = expect_nums(lval, rval)?;
            Ok(Val::Bool(a <= b))
        },
        BinaryOp::Gt => {
            let (a, b) = expect_nums(lval, rval)?;
            Ok(Val::Bool(a > b))
        },
        BinaryOp::Gte => {
            let (a, b) = expect_nums(lval, rval)?;
            Ok(Val::Bool(a >= b))
        },
        BinaryOp::Eq => {
            let (a, b) = expect_nums(lval, rval)?;
            Ok(Val::Bool(a == b))
        },
        BinaryOp::Neq => {
            let (a, b) = expect_nums(lval, rval)?;
            Ok(Val::Bool(a != b))
        },
        BinaryOp::And => {
            let (a, b) = expect_bools(lval, rval)?;
            Ok(Val::Bool(a && b))
        },
        BinaryOp::Or => {
            let (a, b) = expect_bools(lval, rval)?;
            Ok(Val::Bool(a || b))
        },
    }
}

/// The text that a value makes as the argument of a command.
pub fn argument_text(v: Val) -> (r: String)
    ensures
        r@ == spec_argument_text(v@),
{
    match v {
        Val::Num(n) => num_to_string(n),
        Val::Bool(b) => if b {
            String::from_str("true")
        } else {
            String::from_str("false")
        },
        Val::Sym(s) => s,
        Val::Nil => String::new(),
    }
}

/// A value or an error as the end of evaluation.
fn finished(r: Result<Val, EvalError>) -> (p: Progress)
    ensures
        p@ == finish(value_view(r)),
{
    match r {
        Ok(v) => Progress::Done(v),
        Err(e) => Progress::Failed(e),
    }
}

/// Evaluates both operands, the left one first, and applies the operator.
pub fn eval_binop(l: &Exp, op: BinaryOp, r: &Exp, env: &Env) -> (p: Progress)
    ensures
        p@ == spec_eval(SpecExp::Binary(Box::new(l@), op, Box::new(r@))),
    decreases SpecExp::Binary(Box::new(l@), op, Box::new(r@)), 0nat,
{
    let lval = match eval(l, env) {
        Progress::Done(v) => v,
        stopped => {
            return stopped;
        },
    };
    let rval = match eval(r, env) {
        Progress::Done(v) => v,
        stopped => {
            return stopped;
        },
    };
    finished(apply_binop(op, lval, rval))
}

/// Evaluates the operand and negates it: both operators do.
pub fn eval_unop(operator: UnaryOp, operand: &Exp, env: &Env) -> (p: Progress)
    ensures
        p@ == spec_eval(SpecExp::Unary(operator, Box::new(operand@))),
    decreases SpecExp::Unary(operator, Box::new(operand@)), 0nat,
{
    let val = match eval(operand, env) {
        Progress::Done(v) => v,
        stopped => {
            return stopped;
        },
    };
    match operator {
        UnaryOp::Negate => match expect_num(val) {
            Ok(n) => finished(checked(n.checked_mul(-1))),
            Err(e) => Progress::Failed(e),
        },
        UnaryOp::Inverse => match expect_num(val) {
            Ok(n) => finished(checked(n.checked_mul(-1))),
            Err(e) => Progress::Failed(e),
        },
    }
}

/// Evaluates the condition, and then the one branch that it selects.
pub fn eval_if(cond: &Exp, branch1: &Exp, branch2: &Exp, env: &Env) -> (p: Progress)
    ensures
        p@ == spec_eval(SpecExp::If(Box::new(cond@), Box::new(branch1@), Box::new(branch2@))),
    decreases SpecExp::If(Box::new(cond@), Box::new(branch1@), Box::new(branch2@)), 0nat,
{
    let val = match eval(cond, env) {
        Progress::Done(v) => v,
        stopped => {
            return stopped;
        },
    };
    match expect_bool(val) {
        Ok(true) => eval(branch1, env),
        Ok(false) => eval(branch2, env),
        Err(e) => Progress::Failed(e),
    }
}

/// Evaluates the arguments from the left and makes texts of their values:
/// the command is then ready to be launched.
pub fn eval_command(cmd: &String, args: &Vec<Exp>, env: &Env) -> (p: Progress)
    ensures
        p@ == spec_eval(SpecExp::Command(cmd@, exps_view(args@))),
    decreases SpecExp::Command(cmd@, exps_view(args@)), 0nat,
{
    let ghost models = exps_view(args@);
    let mut arg_vals: Vec<String> = Vec::new();
    let mut i: usize = 0;
    assert(texts_view(arg_vals@) =~= Seq::<Seq<char>>::empty());
    while i < args.len()
        invariant
            models == exps_view(args@),
            0 <= i <= args.len(),
            spec_eval_args(models, i as nat) == Ok::<Seq<Seq<char>>, SpecProgress>(
                texts_view(arg_vals@),
            ),
        decreases args.len() - i,
    {
        let ghost before = texts_view(arg_vals@);
        assert(models[i as int] == args@[i as int]@);
        match eval(&args[i], env) {
            Progress::Done(v) => {
                let text = argument_text(v);
                arg_vals.push(text);
                assert(texts_view(arg_vals@) =~= before.push(text@));
            },
            stopped => {
                proof {
                    lemma_args_stay_stopped(models, (i + 1) as nat, models.len());
                }
                return stopped;
            },
        }
        i = i + 1;
    }
    Progress::Launch(cmd.clone(), arg_vals)
}

/// Evaluates an expression as far as that goes without running a program:
/// to its value, to an error, or to the command that has to be run next.
///
/// The environment is not looked at: no expression names a variable.
pub fn eval(e: &Exp, env: &Env) -> (p: Progress)
    ensures
        p@ == spec_eval(e@),
    decreases e@, 1nat,
{
    match e {
        Exp::Literal(value) => Progress::Done(value.clone()),
        Exp::Binary(left, op, right) => eval_binop(left, *op, right, env),
        Exp::Unary(operator, operand) => eval_unop(*operator, operand, env),
        Exp::If(cond, branch1, branch2) => eval_if(cond, branch1, branch2, env),
        Exp::Command(cmd, args) => eval_command(cmd, args, env),
        Exp::Empty => Progress::Done(Val::Nil),
    }
}

/// Puts what a program printed in the place of the command that evaluation
/// stopped at.
pub fn supply(e: Exp, printed: String, env: &Env) -> (r: Exp)
    ensures
        r@ == spec_supply(e@, printed@),
    decreases e@,
{
    match e {
        Exp::Literal(value) => Exp::Literal(value),
        Exp::Binary(left, op, right) => match eval(&left, env) {
            Progress::Launch(_, _) => Exp::Binary(Box::new(supply(*left, printed, env)), op, right),
            Progress::Done(_) => Exp::Binary(left, op, Box::new(supply(*right, printed, env))),
            Progress::Failed(_) => Exp::Binary(left, op, right),
        },
        Exp::Unary(operator, operand) => Exp::Unary(
            operator,
            Box::new(supply(*operand, printed, env)),
        ),
        Exp::If(cond, branch1, branch2) => match eval(&cond, env) {
            Progress::Launch(_, _) => Exp::If(
                Box::new(supply(*cond, printed, env)),
                branch1,
                branch2,
            ),
            Progress::Done(Val::Bool(true)) => Exp::If(
                cond,
                Box::new(supply(*branch1, printed, env)),
                branch2,
            ),
            Progress::Done(Val::Bool(false)) => Exp::If(
                cond,
                branch1,
                Box::new(supply(*branch2, printed, env)),
            ),
            _ => Exp::If(cond, branch1, branch2),
        },
        Exp::Command(cmd, args) => {
            let mut args = args;
            let ghost models = exps_view(args@);
            let mut i: usize = 0;
            while i < args.len()
                invariant
                    models == exps_view(args@),
                    e@ == SpecExp::Command(cmd@, models),
                    0 <= i <= args.len(),
                    spec_eval_args(models, i as nat) is Ok,
                decreases args.len() - i,
            {
                assert(models[i as int] == args@[i as int]@);
                match eval(&args[i], env) {
                    Progress::Done(_) => {},
                    Progress::Launch(_, _) => {
                        let mut taken = Exp::Empty;
                        core::mem::swap(&mut taken, &mut args[i]);
                        let filled = supply(taken, printed, env);
                        args[i] = filled;
                        proof {
                            lemma_args_stay_stopped(models, (i + 1) as nat, models.len());
                            lemma_supply_args_at(models, i as nat, models.len(), printed@);
                            assert(exps_view(args@) =~= models.update(
                                i as int,
                                spec_supply(models[i as int], printed@),
                            ));
                        }
                        return Exp::Command(cmd, args);
                    },
                    Progress::Failed(_) => {
                        proof {
                            lemma_args_stay_stopped(models, (i + 1) as nat, models.len());
                            lemma_supply_args_without_launch(models, models.len(), printed@);
                        }
                        return Exp::Command(cmd, args);
                    },
                }
                i = i + 1;
            }
            Exp::Literal(Val::Sym(printed))
        },
        Exp::Empty => Exp::Empty,
    }
}

/// Takes up evaluation behind a command. `printed` is what the program
/// printed, or `None` where it could not be started: that fails the
/// evaluation of this expression.
pub fn resume(e: Exp, printed: Option<String>, env: &Env) -> (r: Result<Exp, EvalError>)
    ensures
        (match printed {
            Some(text) => r is Ok && r->Ok_0@ == spec_supply(e@, text@),
            None => r is Err && r->Err_0 == EvalError::LaunchFailed,
        }),
{
    match printed {
        Some(text) => Ok(supply(e, text, env)),
        None => Err(EvalError::LaunchFailed),
    }
}

/// The number of commands in an expression.
pub open spec fn commands(e: SpecExp) -> nat
    decreases e, 0nat,
{
    match e {
        SpecExp::Literal(_) => 0,
        SpecExp::Binary(l, _, r) => commands(*l) + commands(*r),
        SpecExp::Unary(_, x) => commands(*x),
        SpecExp::If(c, t, f) => commands(*c) + commands(*t) + commands(*f),
        SpecExp::Command(_, args) => 1 + commands_among(args, args.len()),
        SpecExp::Empty => 0,
    }
}

/// The number of commands in the first `n` of some expressions.
pub open spec fn commands_among(args: Seq<SpecExp>, n: nat) -> nat
    decreases args, n,
{
    if n == 0 || n > args.len() {
        0
    } else {
        commands_among(args, (n - 1) as nat) + commands(args[n - 1])
    }
}

/// Every round of evaluating, running the program and resuming takes a
/// command out of the expression, so the rounds come to an end.
pub proof fn lemma_supply_takes_a_command(e: SpecExp, output: Seq<char>)
    requires
        spec_eval(e) is Launch,
    ensures
        commands(spec_supply(e, output)) < commands(e),
    decreases e, 0nat,
{
    match e {
        SpecExp::Literal(_) => {},
        SpecExp::Binary(l, op, r) => {
            if spec_eval(*l) is Launch {
                lemma_supply_takes_a_command(*l, output);
            } else {
                lemma_supply_takes_a_command(*r, output);
            }
        },
        SpecExp::Unary(op, x) => {
            lemma_supply_takes_a_command(*x, output);
        },
        SpecExp::If(c, t, f) => {
            match spec_eval(*c) {
                SpecProgress::Launch(_, _) => lemma_supply_takes_a_command(*c, output),
                SpecProgress::Done(SpecVal::Bool(true)) => lemma_supply_takes_a_command(
                    *t,
                    output,
                ),
                SpecProgress::Done(SpecVal::Bool(false)) => lemma_supply_takes_a_command(
                    *f,
                    output,
                ),
                _ => {},
            }
        },
        SpecExp::Command(name, args) => {
            if spec_eval_args(args, args.len()) is Err {
                lemma_supply_args_take_a_command(args, args.len(), output);
            }
        },
        SpecExp::Empty => {},
    }
}

proof fn lemma_supply_args_take_a_command(args: Seq<SpecExp>, n: nat, output: Seq<char>)
    requires
        n <= args.len(),
        spec_eval_args(args, n) is Err,
        spec_eval_args(args, n)->Err_0 is Launch,
    ensures
        spec_supply_args(args, n, output).len() == args.len(),
        commands_among(spec_supply_args(args, n, output), args.len()) < commands_among(
            args,
            args.len(),
        ),
    decreases args, n,
{
    if n > 0 {
        match spec_eval_args(args, (n - 1) as nat) {
            Err(_) => lemma_supply_args_take_a_command(args, (n - 1) as nat, output),
            Ok(_) => {
                let filled = spec_supply(args[n - 1], output);
                lemma_supply_takes_a_command(args[n - 1], output);
                lemma_commands_among_update(args, n - 1, filled, args.len());
            },
        }
    }
}

proof fn lemma_commands_among_update(args: Seq<SpecExp>, i: int, x: SpecExp, n: nat)
    requires
        0 <= i < args.len(),
        n <= args.len(),
    ensures
        commands_among(args.update(i, x), n) == (if i < n {
            commands_among(args, n) - commands(args[i]) + commands(x)
        } else {
            commands_among(args, n) as int
        }),
    decreases n,
{
    if n > 0 {
        lemma_commands_among_update(args, i, x, (n - 1) as nat);
    }
}

} // verus!
