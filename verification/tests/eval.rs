use rush::ast::{BinaryOp, Exp, UnaryOp};
use rush::env::Env;
use rush::eval::{
    apply_binop, argument_text, eval, eval_binop, eval_command, eval_if, eval_unop, expect_bool,
    expect_num, resume, supply, EvalError, Progress,
};
use rush::lexer::tokenize;
use rush::parser::{expr, parse, Tokens};
use rush::value::{Kind, Val};

fn num(n: i64) -> Exp {
    Exp::Literal(Val::Num(n))
}

fn truth(b: bool) -> Exp {
    Exp::Literal(Val::Bool(b))
}

fn sym(s: &str) -> Exp {
    Exp::Literal(Val::Sym(s.to_string()))
}

fn bin(l: Exp, op: BinaryOp, r: Exp) -> Exp {
    Exp::Binary(Box::new(l), op, Box::new(r))
}

fn command(name: &str, args: Vec<Exp>) -> Exp {
    Exp::Command(name.to_string(), args)
}

fn launch(name: &str, args: &[&str]) -> Progress {
    Progress::Launch(name.to_string(), args.iter().map(|a| a.to_string()).collect())
}

fn mismatch(expected: Kind, actual: Kind) -> Progress {
    Progress::Failed(EvalError::ExpectedKind { expected, actual })
}

/// Parses the text as an expression and evaluates it.
fn value_of(text: &str) -> Progress {
    let mut ts = Tokens::new(tokenize(text).unwrap());
    let e = expr(&mut ts).unwrap();
    assert_eq!(ts.peek(), None);
    eval(&e, &Env::new())
}

fn apply(op: BinaryOp, l: i64, r: i64) -> Result<Val, EvalError> {
    apply_binop(op, Val::Num(l), Val::Num(r))
}

#[test]
fn literals_and_empty() {
    let env = Env::new();
    assert_eq!(eval(&num(7), &env), Progress::Done(Val::Num(7)));
    assert_eq!(eval(&sym("x"), &env), Progress::Done(Val::Sym("x".to_string())));
    assert_eq!(eval(&Exp::Literal(Val::Nil), &env), Progress::Done(Val::Nil));
    assert_eq!(eval(&Exp::Empty, &env), Progress::Done(Val::Nil));
}

#[test]
fn precedence() {
    assert_eq!(value_of("1 + 2 * 3"), Progress::Done(Val::Num(7)));
    assert_eq!(value_of("(1 + 2) * 3"), Progress::Done(Val::Num(9)));
    assert_eq!(value_of("2 * 3 + 4 * 5"), Progress::Done(Val::Num(26)));
    assert_eq!(value_of("-2 + -3 * -4"), Progress::Done(Val::Num(10)));
}

#[test]
fn associativity() {
    assert_eq!(value_of("10 - 4 - 3"), Progress::Done(Val::Num(3)));
    assert_eq!(value_of("10 - (4 - 3)"), Progress::Done(Val::Num(9)));
    assert_eq!(value_of("100 / 10 / 5"), Progress::Done(Val::Num(2)));
}

#[test]
fn if_evaluates_only_the_branch_taken() {
    assert_eq!(value_of("if true then 1 else (1/0)"), Progress::Done(Val::Num(1)));
    assert_eq!(value_of("if false then (1/0) else 2"), Progress::Done(Val::Num(2)));
    assert_eq!(
        value_of("if true then (1/0) else 2"),
        Progress::Failed(EvalError::DivideByZero)
    );
}

#[test]
fn if_through_parse() {
    let r = parse("if true then 1 else (1/0)");
    assert_eq!(r.len(), 1);
    let e = r.into_iter().next().unwrap().unwrap();
    assert_eq!(eval(&e, &Env::new()), Progress::Done(Val::Num(1)));
}

#[test]
fn if_needs_a_truth_value() {
    assert_eq!(value_of("if 1 then 2 else 3"), mismatch(Kind::Bool, Kind::Num));
    assert_eq!(value_of("if nil then 2 else 3"), mismatch(Kind::Bool, Kind::Nil));
    assert_eq!(value_of("if 1 / 0 then 2 else 3"), Progress::Failed(EvalError::DivideByZero));
}

#[test]
fn type_mismatch_is_detected() {
    assert_eq!(value_of("true + 1"), mismatch(Kind::Num, Kind::Bool));
    assert_eq!(value_of("1 + true"), mismatch(Kind::Num, Kind::Bool));
    assert_eq!(value_of("nil * 2"), mismatch(Kind::Num, Kind::Nil));
    assert_eq!(value_of("1 && true"), mismatch(Kind::Bool, Kind::Num));
    assert_eq!(value_of("true || 0"), mismatch(Kind::Bool, Kind::Num));
    assert_eq!(value_of("true == true"), mismatch(Kind::Num, Kind::Bool));
    assert_eq!(value_of("true < 1"), mismatch(Kind::Num, Kind::Bool));
    assert_eq!(
        apply_binop(BinaryOp::Add, Val::Sym("1".to_string()), Val::Num(1)),
        Err(EvalError::ExpectedKind { expected: Kind::Num, actual: Kind::Sym })
    );
}

#[test]
fn the_left_operand_is_looked_at_first() {
    assert_eq!(
        apply_binop(BinaryOp::Add, Val::Bool(true), Val::Nil),
        Err(EvalError::ExpectedKind { expected: Kind::Num, actual: Kind::Bool })
    );
    assert_eq!(
        apply_binop(BinaryOp::And, Val::Nil, Val::Num(1)),
        Err(EvalError::ExpectedKind { expected: Kind::Bool, actual: Kind::Nil })
    );
}

#[test]
fn both_operands_are_evaluated_before_the_operator_looks() {
    // The right operand fails although the left one is of the wrong kind.
    assert_eq!(value_of("true + 1 / 0"), Progress::Failed(EvalError::DivideByZero));
    // `and` and `or` do not skip their right operand.
    assert_eq!(value_of("false && (1 / 0 == 1)"), Progress::Failed(EvalError::DivideByZero));
    assert_eq!(value_of("true || (1 / 0 == 1)"), Progress::Failed(EvalError::DivideByZero));
}

#[test]
fn unary_nesting() {
    assert_eq!(value_of("--5"), Progress::Done(Val::Num(5)));
    assert_eq!(value_of("-5"), Progress::Done(Val::Num(-5)));
    assert_eq!(value_of("!5"), Progress::Done(Val::Num(-5)));
    assert_eq!(value_of("!!5"), Progress::Done(Val::Num(5)));
    assert_eq!(value_of("!-5"), Progress::Done(Val::Num(5)));
    assert_eq!(value_of("!!true"), mismatch(Kind::Num, Kind::Bool));
    assert_eq!(value_of("!true"), mismatch(Kind::Num, Kind::Bool));
    assert_eq!(value_of("-false"), mismatch(Kind::Num, Kind::Bool));
    assert_eq!(value_of("-nil"), mismatch(Kind::Num, Kind::Nil));
}

#[test]
fn unary_through_parse() {
    let r = parse("!!true; --5");
    assert_eq!(r.len(), 2);
    let env = Env::new();
    assert_eq!(eval(r[0].as_ref().unwrap(), &env), mismatch(Kind::Num, Kind::Bool));
    assert_eq!(eval(r[1].as_ref().unwrap(), &env), Progress::Done(Val::Num(5)));
}

#[test]
fn segment_isolation_through_eval() {
    let r = parse("-1 + ; -2 + 7");
    assert_eq!(r.len(), 2);
    assert!(r[0].is_err());
    assert_eq!(eval(r[1].as_ref().unwrap(), &Env::new()), Progress::Done(Val::Num(5)));
}

#[test]
fn arithmetic() {
    assert_eq!(apply(BinaryOp::Add, 2, 3), Ok(Val::Num(5)));
    assert_eq!(apply(BinaryOp::Sub, 2, 3), Ok(Val::Num(-1)));
    assert_eq!(apply(BinaryOp::Mult, -4, 3), Ok(Val::Num(-12)));
    assert_eq!(apply(BinaryOp::Div, 7, 2), Ok(Val::Num(3)));
    assert_eq!(apply(BinaryOp::Mod, 7, 2), Ok(Val::Num(1)));
}

#[test]
fn division_and_remainder_round_towards_zero() {
    assert_eq!(apply(BinaryOp::Div, -7, 2), Ok(Val::Num(-3)));
    assert_eq!(apply(BinaryOp::Div, 7, -2), Ok(Val::Num(-3)));
    assert_eq!(apply(BinaryOp::Div, -7, -2), Ok(Val::Num(3)));
    assert_eq!(apply(BinaryOp::Div, 0, -2), Ok(Val::Num(0)));
    assert_eq!(apply(BinaryOp::Mod, -7, 2), Ok(Val::Num(-1)));
    assert_eq!(apply(BinaryOp::Mod, 7, -2), Ok(Val::Num(1)));
    assert_eq!(apply(BinaryOp::Mod, -7, -2), Ok(Val::Num(-1)));
    assert_eq!(apply(BinaryOp::Mod, 0, 5), Ok(Val::Num(0)));
    assert_eq!(apply(BinaryOp::Mod, 7, -1), Ok(Val::Num(0)));
    assert_eq!(apply(BinaryOp::Mod, i64::MIN, -1), Ok(Val::Num(0)));
    assert_eq!(apply(BinaryOp::Mod, i64::MIN, i64::MAX), Ok(Val::Num(-1)));
}

#[test]
fn divide_by_zero() {
    assert_eq!(apply(BinaryOp::Div, 1, 0), Err(EvalError::DivideByZero));
    assert_eq!(apply(BinaryOp::Mod, 1, 0), Err(EvalError::DivideByZero));
    assert_eq!(apply(BinaryOp::Div, 0, 0), Err(EvalError::DivideByZero));
    assert_eq!(value_of("1 / 0"), Progress::Failed(EvalError::DivideByZero));
    assert_eq!(value_of("1 % (2 - 2)"), Progress::Failed(EvalError::DivideByZero));
}

#[test]
fn overflow() {
    assert_eq!(apply(BinaryOp::Add, i64::MAX, 1), Err(EvalError::Overflow));
    assert_eq!(apply(BinaryOp::Add, i64::MAX, 0), Ok(Val::Num(i64::MAX)));
    assert_eq!(apply(BinaryOp::Sub, i64::MIN, 1), Err(EvalError::Overflow));
    assert_eq!(apply(BinaryOp::Mult, i64::MAX, 2), Err(EvalError::Overflow));
    assert_eq!(apply(BinaryOp::Mult, i64::MIN, -1), Err(EvalError::Overflow));
    assert_eq!(apply(BinaryOp::Div, i64::MIN, -1), Err(EvalError::Overflow));
    assert_eq!(apply(BinaryOp::Div, i64::MIN, 1), Ok(Val::Num(i64::MIN)));
    let env = Env::new();
    assert_eq!(
        eval_unop(UnaryOp::Negate, &num(i64::MIN), &env),
        Progress::Failed(EvalError::Overflow)
    );
    assert_eq!(
        eval_unop(UnaryOp::Inverse, &num(i64::MIN), &env),
        Progress::Failed(EvalError::Overflow)
    );
    assert_eq!(
        eval_unop(UnaryOp::Negate, &num(i64::MAX), &env),
        Progress::Done(Val::Num(-i64::MAX))
    );
    assert_eq!(value_of("9223372036854775807 + 1"), Progress::Failed(EvalError::Overflow));
}

#[test]
fn comparisons() {
    assert_eq!(apply(BinaryOp::Lt, 1, 2), Ok(Val::Bool(true)));
    assert_eq!(apply(BinaryOp::Lt, 2, 2), Ok(Val::Bool(false)));
    assert_eq!(apply(BinaryOp::Lte, 2, 2), Ok(Val::Bool(true)));
    assert_eq!(apply(BinaryOp::Gt, 3, 2), Ok(Val::Bool(true)));
    assert_eq!(apply(BinaryOp::Gt, 2, 2), Ok(Val::Bool(false)));
    assert_eq!(apply(BinaryOp::Gte, 2, 2), Ok(Val::Bool(true)));
    assert_eq!(apply(BinaryOp::Eq, 2, 2), Ok(Val::Bool(true)));
    assert_eq!(apply(BinaryOp::Eq, 2, 3), Ok(Val::Bool(false)));
    assert_eq!(apply(BinaryOp::Neq, 2, 3), Ok(Val::Bool(true)));
    assert_eq!(apply(BinaryOp::Neq, 2, 2), Ok(Val::Bool(false)));
}

#[test]
fn logic() {
    let and = |a, b| apply_binop(BinaryOp::And, Val::Bool(a), Val::Bool(b));
    let or = |a, b| apply_binop(BinaryOp::Or, Val::Bool(a), Val::Bool(b));
    assert_eq!(and(true, true), Ok(Val::Bool(true)));
    assert_eq!(and(true, false), Ok(Val::Bool(false)));
    assert_eq!(and(false, true), Ok(Val::Bool(false)));
    assert_eq!(or(false, false), Ok(Val::Bool(false)));
    assert_eq!(or(false, true), Ok(Val::Bool(true)));
    assert_eq!(or(true, false), Ok(Val::Bool(true)));
    // `&&` binds tighter than `<`: this is `1 < (2 && 2) < 3`.
    assert_eq!(value_of("1 < 2 && 2 < 3"), mismatch(Kind::Bool, Kind::Num));
    assert_eq!(value_of("(1 < 2) && (2 < 3)"), Progress::Done(Val::Bool(true)));
}

#[test]
fn expect_num_and_bool() {
    assert_eq!(expect_num(Val::Num(3)), Ok(3));
    assert_eq!(
        expect_num(Val::Bool(true)),
        Err(EvalError::ExpectedKind { expected: Kind::Num, actual: Kind::Bool })
    );
    assert_eq!(
        expect_num(Val::Sym("3".to_string())),
        Err(EvalError::ExpectedKind { expected: Kind::Num, actual: Kind::Sym })
    );
    assert_eq!(
        expect_num(Val::Nil),
        Err(EvalError::ExpectedKind { expected: Kind::Num, actual: Kind::Nil })
    );
    assert_eq!(expect_bool(Val::Bool(false)), Ok(false));
    assert_eq!(
        expect_bool(Val::Num(0)),
        Err(EvalError::ExpectedKind { expected: Kind::Bool, actual: Kind::Num })
    );
    assert_eq!(
        expect_bool(Val::Sym("true".to_string())),
        Err(EvalError::ExpectedKind { expected: Kind::Bool, actual: Kind::Sym })
    );
    assert_eq!(
        expect_bool(Val::Nil),
        Err(EvalError::ExpectedKind { expected: Kind::Bool, actual: Kind::Nil })
    );
}

#[test]
fn the_parts_of_eval_agree_with_it() {
    let env = Env::new();
    assert_eq!(eval_binop(&num(2), BinaryOp::Mult, &num(21), &env), Progress::Done(Val::Num(42)));
    assert_eq!(eval_if(&truth(false), &num(1), &num(2), &env), Progress::Done(Val::Num(2)));
    assert_eq!(
        eval_command(&"echo".to_string(), &vec![num(1)], &env),
        launch("echo", &["1"])
    );
}

#[test]
fn argument_texts() {
    assert_eq!(argument_text(Val::Num(-12)), "-12");
    assert_eq!(argument_text(Val::Num(0)), "0");
    assert_eq!(argument_text(Val::Bool(true)), "true");
    assert_eq!(argument_text(Val::Bool(false)), "false");
    assert_eq!(argument_text(Val::Sym("a b".to_string())), "a b");
    assert_eq!(argument_text(Val::Nil), "");
}

#[test]
fn a_command_is_handed_out_with_its_arguments_as_text() {
    let env = Env::new();
    let e = command(
        "echo",
        vec![sym("hello"), bin(num(1), BinaryOp::Add, num(2)), truth(true), Exp::Empty],
    );
    assert_eq!(eval(&e, &env), launch("echo", &["hello", "3", "true", ""]));
    assert_eq!(eval(&command("ls", vec![]), &env), launch("ls", &[]));
}

#[test]
fn a_command_from_a_line() {
    let r = parse("echo hello [ 2 * 21 ]");
    let e = r.into_iter().next().unwrap().unwrap();
    let env = Env::new();
    assert_eq!(eval(&e, &env), launch("echo", &["hello", "42"]));
    let e = resume(e, Some("hello 42\n".to_string()), &env).unwrap();
    assert_eq!(e, sym("hello 42\n"));
    assert_eq!(eval(&e, &env), Progress::Done(Val::Sym("hello 42\n".to_string())));
}

#[test]
fn a_failing_argument_fails_the_command() {
    let env = Env::new();
    let e = command("echo", vec![sym("a"), bin(num(1), BinaryOp::Div, num(0)), command("x", vec![])]);
    assert_eq!(eval(&e, &env), Progress::Failed(EvalError::DivideByZero));
    assert_eq!(supply(command("echo", vec![sym("a"), bin(num(1), BinaryOp::Div, num(0))]), "out".to_string(), &env),
        command("echo", vec![sym("a"), bin(num(1), BinaryOp::Div, num(0))]));
}

#[test]
fn a_launch_that_failed_fails_the_evaluation() {
    let env = Env::new();
    let e = command("no-such-program", vec![]);
    assert_eq!(resume(e, None, &env), Err(EvalError::LaunchFailed));
}

#[test]
fn commands_inside_an_expression_run_in_order() {
    let env = Env::new();
    // first [ second ] + third
    let e = bin(
        command("first", vec![command("second", vec![sym("x")])]),
        BinaryOp::Add,
        command("third", vec![]),
    );
    assert_eq!(eval(&e, &env), launch("second", &["x"]));
    let e = supply(e, "2".to_string(), &env);
    assert_eq!(
        e,
        bin(command("first", vec![sym("2")]), BinaryOp::Add, command("third", vec![]))
    );
    assert_eq!(eval(&e, &env), launch("first", &["2"]));
    let e = supply(e, "1".to_string(), &env);
    assert_eq!(e, bin(sym("1"), BinaryOp::Add, command("third", vec![])));
    assert_eq!(eval(&e, &env), launch("third", &[]));
    let e = supply(e, "3".to_string(), &env);
    assert_eq!(e, bin(sym("1"), BinaryOp::Add, sym("3")));
    // What a command printed is text, and no number.
    assert_eq!(eval(&e, &env), mismatch(Kind::Num, Kind::Sym));
}

#[test]
fn a_command_in_the_branch_not_taken_is_never_run() {
    let env = Env::new();
    let e = Exp::If(
        Box::new(truth(false)),
        Box::new(command("never", vec![])),
        Box::new(command("taken", vec![])),
    );
    assert_eq!(eval(&e, &env), launch("taken", &[]));
    let e = supply(e, "done".to_string(), &env);
    assert_eq!(
        e,
        Exp::If(Box::new(truth(false)), Box::new(command("never", vec![])), Box::new(sym("done")))
    );
    assert_eq!(eval(&e, &env), Progress::Done(Val::Sym("done".to_string())));
}

#[test]
fn a_command_in_the_condition_runs_first() {
    let env = Env::new();
    let e = Exp::If(Box::new(command("test", vec![])), Box::new(num(1)), Box::new(num(2)));
    assert_eq!(eval(&e, &env), launch("test", &[]));
    let e = supply(e, "true".to_string(), &env);
    assert_eq!(eval(&e, &env), mismatch(Kind::Bool, Kind::Sym));
}

#[test]
fn a_command_under_a_unary_operator() {
    let env = Env::new();
    let e = Exp::Unary(UnaryOp::Negate, Box::new(command("five", vec![])));
    assert_eq!(eval(&e, &env), launch("five", &[]));
    let e = supply(e, "5".to_string(), &env);
    assert_eq!(e, Exp::Unary(UnaryOp::Negate, Box::new(sym("5"))));
}

#[test]
fn supply_leaves_an_expression_without_a_pending_command() {
    let env = Env::new();
    let e = bin(num(1), BinaryOp::Add, bin(num(2), BinaryOp::Mult, num(3)));
    assert_eq!(
        supply(e, "out".to_string(), &env),
        bin(num(1), BinaryOp::Add, bin(num(2), BinaryOp::Mult, num(3)))
    );
    // The left operand fails, so the command on the right is never reached.
    let e = bin(bin(num(1), BinaryOp::Div, num(0)), BinaryOp::Add, command("x", vec![]));
    assert_eq!(eval(&e, &env), Progress::Failed(EvalError::DivideByZero));
    assert_eq!(
        supply(e, "out".to_string(), &env),
        bin(bin(num(1), BinaryOp::Div, num(0)), BinaryOp::Add, command("x", vec![]))
    );
}

#[test]
fn the_environment_has_no_part_in_the_value() {
    let mut env = Env::new();
    env.bind("x".to_string(), Val::Num(1));
    let e = bin(num(1), BinaryOp::Add, num(1));
    assert_eq!(eval(&e, &env), eval(&e, &Env::new()));
}
