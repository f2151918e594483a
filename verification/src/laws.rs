//! What holds of parsing and evaluation, for all inputs.

use vstd::prelude::*;
use crate::ast::{BinaryOp, SpecExp, UnaryOp};
use crate::eval::{
    apply_binary, apply_unary, commands, commands_among, finish, in_range,
    lemma_supply_takes_a_command, spec_eval, EvalError, SpecProgress,
};
use crate::grammar::{
    advanced, kind_at, lemma_advances, operator_at, spec_args, spec_binary, spec_binary_tail,
    spec_expr, spec_parse_line, spec_primary, spec_unary, starts_expression, Parsed,
    SpecSyntaxError, EQUALITY, FACTOR, TERM,
};
use crate::text::decimal;
use crate::token::{
    lemma_numeral_is_a_number, lemma_spellings_are_classified, token_of, SpecToken, TokenKind,
};
use crate::value::{Kind, SpecVal, Val};

verus! {

/// The tree of a number.
pub open spec fn number(n: i64) -> SpecExp {
    SpecExp::Literal(SpecVal::Num(n as int))
}

/// The tree of a binary operator with its operands.
pub open spec fn binary(l: SpecExp, op: BinaryOp, r: SpecExp) -> SpecExp {
    SpecExp::Binary(Box::new(l), op, Box::new(r))
}

/// The tree of a unary operator with its operand.
pub open spec fn unary_of(op: UnaryOp, x: SpecExp) -> SpecExp {
    SpecExp::Unary(op, Box::new(x))
}

/// The error of an operand of another kind than its operator takes.
pub open spec fn mismatch(expected: Kind, actual: Kind) -> EvalError {
    EvalError::ExpectedKind { expected, actual }
}

/// The kind of operand that a binary operator takes.
pub open spec fn operand_kind(op: BinaryOp) -> Kind {
    if op == BinaryOp::And || op == BinaryOp::Or {
        Kind::Bool
    } else {
        Kind::Num
    }
}

/// A token that is a number is read as that number.
proof fn lemma_number_at(t: Seq<SpecToken>, p: int, n: i64)
    requires
        kind_at(t, p) == Some(TokenKind::Number(n)),
    ensures
        spec_unary(t, p) == Ok::<(SpecExp, int), SpecSyntaxError>((number(n), p + 1)),
{
    reveal_with_fuel(spec_unary, 2);
    reveal_with_fuel(spec_primary, 2);
}

/// What a binding level reads with no operator of its own behind it is what
/// the next looser level reads.
proof fn lemma_climb(t: Seq<SpecToken>, p: int, e: SpecExp, q: int, from: u8, to: u8)
    requires
        p < q <= t.len(),
        from <= to,
        (if from == 0 {
            spec_unary(t, p) == Ok::<(SpecExp, int), SpecSyntaxError>((e, q))
        } else {
            spec_binary(t, p, from) == Ok::<(SpecExp, int), SpecSyntaxError>((e, q))
        }),
        forall|level: u8| from < level <= to ==> #[trigger] operator_at(t, q, level) is None,
    ensures
        to > 0 ==> spec_binary(t, p, to) == Ok::<(SpecExp, int), SpecSyntaxError>((e, q)),
    decreases to - from,
{
    if from < to {
        lemma_climb(t, p, e, q, from, (to - 1) as u8);
        assert(operator_at(t, q, to) is None);
        if to - 1 == 0 {
            assert(spec_binary(t, p, to) == spec_binary_tail(t, q, to, e));
        } else {
            assert(spec_binary(t, p, (to - 1) as u8) == Ok::<(SpecExp, int), SpecSyntaxError>(
                (e, q),
            ));
            assert(spec_binary(t, p, to) == spec_binary_tail(t, q, to, e));
        }
    }
}

/// One operator of a binding level between two operands of the next tighter
/// level, and no operator of that level behind them.
proof fn lemma_one_operator(
    t: Seq<SpecToken>,
    p: int,
    l: SpecExp,
    q: int,
    op: BinaryOp,
    r: SpecExp,
    end: int,
    level: u8,
)
    requires
        level >= 1,
        p < q,
        q + 1 < end <= t.len(),
        (if level == 1 {
            spec_unary(t, p) == Ok::<(SpecExp, int), SpecSyntaxError>((l, q))
        } else {
            spec_binary(t, p, (level - 1) as u8) == Ok::<(SpecExp, int), SpecSyntaxError>((l, q))
        }),
        operator_at(t, q, level) == Some(op),
        (if level == 1 {
            spec_unary(t, q + 1) == Ok::<(SpecExp, int), SpecSyntaxError>((r, end))
        } else {
            spec_binary(t, q + 1, (level - 1) as u8) == Ok::<(SpecExp, int), SpecSyntaxError>(
                (r, end),
            )
        }),
        operator_at(t, end, level) is None,
    ensures
        spec_binary(t, p, level) == Ok::<(SpecExp, int), SpecSyntaxError>(
            (binary(l, op, r), end),
        ),
{
    assert(spec_binary(t, p, level) == spec_binary_tail(t, q, level, l));
    assert(spec_binary_tail(t, q, level, l) == spec_binary_tail(t, end, level, binary(l, op, r)));
}

/// Precedence: in `a + b * c` the product is the right operand of the sum.
pub proof fn lemma_product_binds_tighter(t: Seq<SpecToken>, a: i64, b: i64, c: i64)
    requires
        t.len() == 5,
        t[0].kind == TokenKind::Number(a),
        t[1].kind == TokenKind::Plus,
        t[2].kind == TokenKind::Number(b),
        t[3].kind == TokenKind::Star,
        t[4].kind == TokenKind::Number(c),
    ensures
        spec_expr(t, 0) == Ok::<(SpecExp, int), SpecSyntaxError>(
            (binary(number(a), BinaryOp::Add, binary(number(b), BinaryOp::Mult, number(c))), 5),
        ),
{
    let product = binary(number(b), BinaryOp::Mult, number(c));
    lemma_number_at(t, 0, a);
    lemma_number_at(t, 2, b);
    lemma_number_at(t, 4, c);
    lemma_climb(t, 0, number(a), 1, 0, FACTOR);
    lemma_one_operator(t, 2, number(b), 3, BinaryOp::Mult, number(c), 5, FACTOR);
    lemma_one_operator(t, 0, number(a), 1, BinaryOp::Add, product, 5, TERM);
    lemma_climb(t, 0, binary(number(a), BinaryOp::Add, product), 5, TERM, EQUALITY);
}

/// Precedence: `a + b * c` has the value of `a + (b * c)`, where the product
/// and the sum fit 64 bits, and overflows where one of them does not.
pub proof fn lemma_product_is_evaluated_first(a: i64, b: i64, c: i64)
    ensures
        spec_eval(
            binary(number(a), BinaryOp::Add, binary(number(b), BinaryOp::Mult, number(c))),
        ) == (if i64::MIN <= b * c <= i64::MAX && i64::MIN <= a + b * c <= i64::MAX {
            SpecProgress::Done(SpecVal::Num(a + b * c))
        } else {
            SpecProgress::Failed(EvalError::Overflow)
        }),
{
    let product = binary(number(b), BinaryOp::Mult, number(c));
    reveal_with_fuel(spec_eval, 3);
    assert(spec_eval(product) == finish(in_range(b * c)));
}

/// Parentheses: in `(a + b) * c` the sum is the left operand of the product.
pub proof fn lemma_parentheses_bind_tightest(t: Seq<SpecToken>, a: i64, b: i64, c: i64)
    requires
        t.len() == 7,
        t[0].kind == TokenKind::LParen,
        t[1].kind == TokenKind::Number(a),
        t[2].kind == TokenKind::Plus,
        t[3].kind == TokenKind::Number(b),
        t[4].kind == TokenKind::RParen,
        t[5].kind == TokenKind::Star,
        t[6].kind == TokenKind::Number(c),
    ensures
        spec_expr(t, 0) == Ok::<(SpecExp, int), SpecSyntaxError>(
            (binary(binary(number(a), BinaryOp::Add, number(b)), BinaryOp::Mult, number(c)), 7),
        ),
{
    let sum = binary(number(a), BinaryOp::Add, number(b));
    lemma_number_at(t, 1, a);
    lemma_number_at(t, 3, b);
    lemma_number_at(t, 6, c);
    lemma_climb(t, 1, number(a), 2, 0, FACTOR);
    lemma_climb(t, 3, number(b), 4, 0, FACTOR);
    lemma_one_operator(t, 1, number(a), 2, BinaryOp::Add, number(b), 4, TERM);
    lemma_climb(t, 1, sum, 4, TERM, EQUALITY);
    assert(spec_expr(t, 1) == Ok::<(SpecExp, int), SpecSyntaxError>((sum, 4)));
    assert(spec_primary(t, 0) == Ok::<(SpecExp, int), SpecSyntaxError>((sum, 5)));
    assert(spec_unary(t, 0) == Ok::<(SpecExp, int), SpecSyntaxError>((sum, 5)));
    lemma_one_operator(t, 0, sum, 5, BinaryOp::Mult, number(c), 7, FACTOR);
    lemma_climb(t, 0, binary(sum, BinaryOp::Mult, number(c)), 7, FACTOR, EQUALITY);
}

/// Parentheses: `(a + b) * c` has the value of the sum times `c`, where the
/// sum and the product fit 64 bits, and overflows where one of them does not.
pub proof fn lemma_sum_in_parentheses_is_evaluated_first(a: i64, b: i64, c: i64)
    ensures
        spec_eval(
            binary(binary(number(a), BinaryOp::Add, number(b)), BinaryOp::Mult, number(c)),
        ) == (if i64::MIN <= a + b <= i64::MAX && i64::MIN <= (a + b) * c <= i64::MAX {
            SpecProgress::Done(SpecVal::Num((a + b) * c))
        } else {
            SpecProgress::Failed(EvalError::Overflow)
        }),
{
    let sum = binary(number(a), BinaryOp::Add, number(b));
    reveal_with_fuel(spec_eval, 3);
    assert(spec_eval(sum) == finish(in_range(a + b)));
}

/// Associativity: in `a - b - c` the first difference is the left operand of
/// the second.
pub proof fn lemma_subtraction_associates_left(t: Seq<SpecToken>, a: i64, b: i64, c: i64)
    requires
        t.len() == 5,
        t[0].kind == TokenKind::Number(a),
        t[1].kind == TokenKind::Minus,
        t[2].kind == TokenKind::Number(b),
        t[3].kind == TokenKind::Minus,
        t[4].kind == TokenKind::Number(c),
    ensures
        spec_expr(t, 0) == Ok::<(SpecExp, int), SpecSyntaxError>(
            (binary(binary(number(a), BinaryOp::Sub, number(b)), BinaryOp::Sub, number(c)), 5),
        ),
{
    let first = binary(number(a), BinaryOp::Sub, number(b));
    let both = binary(first, BinaryOp::Sub, number(c));
    lemma_number_at(t, 0, a);
    lemma_number_at(t, 2, b);
    lemma_number_at(t, 4, c);
    lemma_climb(t, 0, number(a), 1, 0, FACTOR);
    lemma_climb(t, 2, number(b), 3, 0, FACTOR);
    lemma_climb(t, 4, number(c), 5, 0, FACTOR);
    assert(spec_binary(t, 0, TERM) == spec_binary_tail(t, 1, TERM, number(a)));
    assert(spec_binary_tail(t, 1, TERM, number(a)) == spec_binary_tail(t, 3, TERM, first));
    assert(spec_binary_tail(t, 3, TERM, first) == spec_binary_tail(t, 5, TERM, both));
    lemma_climb(t, 0, both, 5, TERM, EQUALITY);
}

/// Associativity: `a - b - c` has the value of `(a - b) - c`, where both
/// differences fit 64 bits, and overflows where one of them does not.
pub proof fn lemma_left_difference_is_evaluated_first(a: i64, b: i64, c: i64)
    ensures
        spec_eval(
            binary(binary(number(a), BinaryOp::Sub, number(b)), BinaryOp::Sub, number(c)),
        ) == (if i64::MIN <= a - b <= i64::MAX && i64::MIN <= (a - b) - c <= i64::MAX {
            SpecProgress::Done(SpecVal::Num((a - b) - c))
        } else {
            SpecProgress::Failed(EvalError::Overflow)
        }),
{
    let first = binary(number(a), BinaryOp::Sub, number(b));
    reveal_with_fuel(spec_eval, 3);
    assert(spec_eval(first) == finish(in_range(a - b)));
}

/// Of the branches of an `if` only the one that the condition selects is
/// evaluated: the other has no part in the result, whatever it is.
pub proof fn lemma_if_evaluates_one_branch(cond: SpecExp, branch1: SpecExp, branch2: SpecExp)
    ensures
        spec_eval(cond) == SpecProgress::Done(SpecVal::Bool(true)) ==> spec_eval(
            SpecExp::If(Box::new(cond), Box::new(branch1), Box::new(branch2)),
        ) == spec_eval(branch1),
        spec_eval(cond) == SpecProgress::Done(SpecVal::Bool(false)) ==> spec_eval(
            SpecExp::If(Box::new(cond), Box::new(branch1), Box::new(branch2)),
        ) == spec_eval(branch2),
{
}

/// No operand is converted: a binary operator has a result only where both
/// operands are of the kind that it takes, and else fails by naming that kind
/// and the kind of the first operand that is of another.
pub proof fn lemma_operands_are_never_converted(op: BinaryOp, l: SpecVal, r: SpecVal)
    ensures
        apply_binary(op, l, r) is Ok ==> l.kind() == operand_kind(op) && r.kind() == operand_kind(
            op,
        ),
        l.kind() != operand_kind(op) ==> apply_binary(op, l, r) == Err::<SpecVal, EvalError>(
            mismatch(operand_kind(op), l.kind()),
        ),
        l.kind() == operand_kind(op) && r.kind() != operand_kind(op) ==> apply_binary(op, l, r)
            == Err::<SpecVal, EvalError>(mismatch(operand_kind(op), r.kind())),
{
}

/// Both unary operators negate a number, and fail on a value of any other
/// kind. The one number whose negation does not fit 64 bits overflows.
pub proof fn lemma_unary_negates(op: UnaryOp, v: Val)
    ensures
        apply_unary(op, v@) == (match v {
            Val::Num(n) => if n == i64::MIN {
                Err(EvalError::Overflow)
            } else {
                Ok(SpecVal::Num(-n))
            },
            _ => Err(mismatch(Kind::Num, v@.kind())),
        }),
{
}

/// Negating twice: `- - n` is read as the negation of the negation of `n`.
pub proof fn lemma_unary_nests(t: Seq<SpecToken>, n: i64)
    requires
        t.len() == 3,
        t[0].kind == TokenKind::Minus,
        t[1].kind == TokenKind::Minus,
        t[2].kind == TokenKind::Number(n),
    ensures
        spec_expr(t, 0) == Ok::<(SpecExp, int), SpecSyntaxError>(
            (unary_of(UnaryOp::Negate, unary_of(UnaryOp::Negate, number(n))), 3),
        ),
        n != i64::MIN ==> spec_eval(
            unary_of(UnaryOp::Negate, unary_of(UnaryOp::Negate, number(n))),
        ) == SpecProgress::Done(SpecVal::Num(n as int)),
{
    let inner = unary_of(UnaryOp::Negate, number(n));
    let outer = unary_of(UnaryOp::Negate, inner);
    lemma_number_at(t, 2, n);
    assert(spec_unary(t, 1) == Ok::<(SpecExp, int), SpecSyntaxError>((inner, 3)));
    assert(spec_unary(t, 0) == Ok::<(SpecExp, int), SpecSyntaxError>((outer, 3)));
    lemma_climb(t, 0, outer, 3, 0, EQUALITY);
    if n != i64::MIN {
        reveal_with_fuel(spec_eval, 3);
        assert(spec_eval(inner) == SpecProgress::Done(SpecVal::Num(-n)));
    }
}

/// Parentheses change nothing but the grouping: an expression in
/// parentheses, with no binary operator behind them, is read as the
/// expression itself.
pub proof fn lemma_parentheses_keep_the_tree(t: Seq<SpecToken>, p: int, e: SpecExp, q: int)
    requires
        kind_at(t, p) == Some(TokenKind::LParen),
        spec_expr(t, p + 1) == Ok::<(SpecExp, int), SpecSyntaxError>((e, q)),
        kind_at(t, q) == Some(TokenKind::RParen),
        forall|level: u8| #[trigger] operator_at(t, q + 1, level) is None,
    ensures
        spec_expr(t, p) == Ok::<(SpecExp, int), SpecSyntaxError>((e, q + 1)),
{
    reveal_with_fuel(spec_unary, 2);
    reveal_with_fuel(spec_primary, 2);
    lemma_advances(t, p + 1);
    assert(spec_unary(t, p) == Ok::<(SpecExp, int), SpecSyntaxError>((e, q + 1)));
    lemma_climb(t, p, e, q + 1, 0, EQUALITY);
}

/// The words behind the name of a command, read as its arguments.
pub open spec fn words_from(t: Seq<SpecToken>, p: int) -> Seq<SpecExp> {
    Seq::new((t.len() - p) as nat, |i: int| SpecExp::Literal(SpecVal::Sym(t[p + i].text)))
}

/// A line that does not start an expression is a command: its first token is
/// the name, and every token behind it, unless a `[` is among them, is an
/// argument with the text of the token as it is written.
pub proof fn lemma_words_are_arguments(t: Seq<SpecToken>)
    requires
        t.len() > 0,
        !starts_expression(t[0].kind),
        forall|i: int| 1 <= i < t.len() ==> (#[trigger] t[i]).kind != TokenKind::LBracket,
    ensures
        spec_parse_line(t, 0) == Ok::<SpecExp, SpecSyntaxError>(
            SpecExp::Command(t[0].text, words_from(t, 1)),
        ),
{
    lemma_words_from(t, 1);
}

proof fn lemma_words_from(t: Seq<SpecToken>, p: int)
    requires
        1 <= p <= t.len(),
        forall|i: int| 1 <= i < t.len() ==> (#[trigger] t[i]).kind != TokenKind::LBracket,
    ensures
        spec_args(t, p) == Ok::<Seq<SpecExp>, SpecSyntaxError>(words_from(t, p)),
    decreases t.len() - p,
{
    if p < t.len() {
        lemma_words_from(t, p + 1);
        assert(t[p].kind != TokenKind::LBracket);
        assert(seq![SpecExp::Literal(SpecVal::Sym(t[p].text))] + words_from(t, p + 1)
            =~= words_from(t, p));
    } else {
        assert(words_from(t, p) =~= Seq::<SpecExp>::empty());
    }
}

/// The tokens that some spellings make, in order.
pub open spec fn spelled(words: Seq<Seq<char>>) -> Seq<SpecToken> {
    Seq::new(words.len(), |i: int| token_of(words[i]))
}

/// Precedence, as written: the tokens `a`, `+`, `b`, `*`, `c`, with the
/// numbers as decimal numerals, are read as `a + (b * c)`.
pub proof fn lemma_product_binds_tighter_as_written(a: i64, b: i64, c: i64)
    ensures
        spec_expr(
            spelled(seq![decimal(a as int), "+"@, decimal(b as int), "*"@, decimal(c as int)]),
            0,
        ) == Ok::<(SpecExp, int), SpecSyntaxError>(
            (binary(number(a), BinaryOp::Add, binary(number(b), BinaryOp::Mult, number(c))), 5),
        ),
{
    let t = spelled(seq![decimal(a as int), "+"@, decimal(b as int), "*"@, decimal(c as int)]);
    lemma_spellings_are_classified();
    lemma_numeral_is_a_number(a);
    lemma_numeral_is_a_number(b);
    lemma_numeral_is_a_number(c);
    lemma_product_binds_tighter(t, a, b, c);
}

/// Parentheses, as written: the tokens `(`, `a`, `+`, `b`, `)`, `*`, `c` are
/// read as `(a + b) * c`.
pub proof fn lemma_parentheses_bind_tightest_as_written(a: i64, b: i64, c: i64)
    ensures
        spec_expr(
            spelled(
                seq![
                    "("@,
                    decimal(a as int),
                    "+"@,
                    decimal(b as int),
                    ")"@,
                    "*"@,
                    decimal(c as int),
                ],
            ),
            0,
        ) == Ok::<(SpecExp, int), SpecSyntaxError>(
            (binary(binary(number(a), BinaryOp::Add, number(b)), BinaryOp::Mult, number(c)), 7),
        ),
{
    let t = spelled(
        seq!["("@, decimal(a as int), "+"@, decimal(b as int), ")"@, "*"@, decimal(c as int)],
    );
    lemma_spellings_are_classified();
    lemma_numeral_is_a_number(a);
    lemma_numeral_is_a_number(b);
    lemma_numeral_is_a_number(c);
    lemma_parentheses_bind_tightest(t, a, b, c);
}

/// Associativity, as written: the tokens `a`, `-`, `b`, `-`, `c` are read as
/// `(a - b) - c`.
pub proof fn lemma_subtraction_associates_left_as_written(a: i64, b: i64, c: i64)
    ensures
        spec_expr(
            spelled(seq![decimal(a as int), "-"@, decimal(b as int), "-"@, decimal(c as int)]),
            0,
        ) == Ok::<(SpecExp, int), SpecSyntaxError>(
            (binary(binary(number(a), BinaryOp::Sub, number(b)), BinaryOp::Sub, number(c)), 5),
        ),
{
    let t = spelled(seq![decimal(a as int), "-"@, decimal(b as int), "-"@, decimal(c as int)]);
    lemma_spellings_are_classified();
    lemma_numeral_is_a_number(a);
    lemma_numeral_is_a_number(b);
    lemma_numeral_is_a_number(c);
    lemma_subtraction_associates_left(t, a, b, c);
}

/// Evaluation of an expression that holds no command never asks for a
/// program to be run.
pub proof fn lemma_no_command_no_launch(e: SpecExp)
    requires
        commands(e) == 0,
    ensures
        !(spec_eval(e) is Launch),
{
    if spec_eval(e) is Launch {
        lemma_supply_takes_a_command(e, Seq::empty());
    }
}

/// Whether a result, if it is a tree, holds no command.
pub open spec fn commandless(r: Parsed) -> bool {
    match r {
        Ok((e, _)) => commands(e) == 0,
        Err(_) => true,
    }
}

/// The grammar of expressions reads no command: a command is a whole line,
/// or nothing.
pub proof fn lemma_expressions_hold_no_command(t: Seq<SpecToken>, p: int)
    ensures
        commandless(spec_expr(t, p)),
    decreases t.len() - p, 8int,
{
    if kind_at(t, p) == Some(TokenKind::If) {
        lemma_expressions_hold_no_command(t, p + 1);
        match advanced(p, t.len(), spec_expr(t, p + 1)) {
            Ok((_, q1)) => {
                if kind_at(t, q1) == Some(TokenKind::Then) {
                    lemma_expressions_hold_no_command(t, q1 + 1);
                    match advanced(q1, t.len(), spec_expr(t, q1 + 1)) {
                        Ok((_, q2)) => {
                            if kind_at(t, q2) == Some(TokenKind::Else) {
                                lemma_expressions_hold_no_command(t, q2 + 1);
                            }
                        },
                        Err(_) => {},
                    }
                }
            },
            Err(_) => {},
        }
    } else {
        lemma_binary_holds_no_command(t, p, EQUALITY);
    }
}

proof fn lemma_primary_holds_no_command(t: Seq<SpecToken>, p: int)
    ensures
        commandless(spec_primary(t, p)),
    decreases t.len() - p, 0int,
{
    if kind_at(t, p) == Some(TokenKind::LParen) {
        lemma_expressions_hold_no_command(t, p + 1);
    }
}

proof fn lemma_unary_holds_no_command(t: Seq<SpecToken>, p: int)
    ensures
        commandless(spec_unary(t, p)),
    decreases t.len() - p, 1int,
{
    match kind_at(t, p) {
        None => {},
        Some(TokenKind::Bang) => lemma_unary_holds_no_command(t, p + 1),
        Some(TokenKind::Minus) => lemma_unary_holds_no_command(t, p + 1),
        Some(_) => lemma_primary_holds_no_command(t, p),
    }
}

proof fn lemma_binary_holds_no_command(t: Seq<SpecToken>, p: int, level: u8)
    ensures
        commandless(spec_binary(t, p, level)),
    decreases t.len() - p, level + 2,
{
    let first = if level <= FACTOR {
        spec_unary(t, p)
    } else {
        spec_binary(t, p, (level - 1) as u8)
    };
    if level <= FACTOR {
        lemma_unary_holds_no_command(t, p);
    } else {
        lemma_binary_holds_no_command(t, p, (level - 1) as u8);
    }
    match advanced(p, t.len(), first) {
        Ok((left, q)) => lemma_tail_holds_no_command(t, q, level, left),
        Err(_) => {},
    }
}

proof fn lemma_tail_holds_no_command(t: Seq<SpecToken>, p: int, level: u8, left: SpecExp)
    requires
        commands(left) == 0,
    ensures
        commandless(spec_binary_tail(t, p, level, left)),
    decreases t.len() - p, 0int,
{
    match operator_at(t, p, level) {
        None => {},
        Some(op) => {
            let operand = if level <= FACTOR {
                spec_unary(t, p + 1)
            } else {
                spec_binary(t, p + 1, (level - 1) as u8)
            };
            if level <= FACTOR {
                lemma_unary_holds_no_command(t, p + 1);
            } else {
                lemma_binary_holds_no_command(t, p + 1, (level - 1) as u8);
            }
            match advanced(p, t.len(), operand) {
                Ok((right, q)) => lemma_tail_holds_no_command(t, q, level, binary(left, op, right)),
                Err(_) => {},
            }
        },
    }
}

/// The number of commands in some expressions with one more in front.
proof fn lemma_commands_among_prepended(e: SpecExp, rest: Seq<SpecExp>, n: nat)
    requires
        n <= rest.len(),
    ensures
        commands_among(seq![e] + rest, n + 1) == commands(e) + commands_among(rest, n),
    decreases n,
{
    let all = seq![e] + rest;
    if n == 0 {
        assert(all[0] == e);
        assert(commands_among(all, 0) == 0);
    } else {
        lemma_commands_among_prepended(e, rest, (n - 1) as nat);
        assert(all[n as int] == rest[n - 1]);
    }
}

proof fn lemma_arguments_hold_no_command(t: Seq<SpecToken>, p: int)
    ensures
        (match spec_args(t, p) {
            Ok(args) => commands_among(args, args.len()) == 0,
            Err(_) => true,
        }),
    decreases t.len() - p,
{
    if !(0 <= p < t.len()) {
    } else if t[p].kind == TokenKind::LBracket {
        lemma_expressions_hold_no_command(t, p + 1);
        match advanced(p, t.len(), spec_expr(t, p + 1)) {
            Ok((e, q)) => {
                if kind_at(t, q) == Some(TokenKind::RBracket) {
                    lemma_arguments_hold_no_command(t, q + 1);
                    match spec_args(t, q + 1) {
                        Ok(rest) => lemma_commands_among_prepended(e, rest, rest.len()),
                        Err(_) => {},
                    }
                }
            },
            Err(_) => {},
        }
    } else {
        lemma_arguments_hold_no_command(t, p + 1);
        match spec_args(t, p + 1) {
            Ok(rest) => lemma_commands_among_prepended(
                SpecExp::Literal(SpecVal::Sym(t[p].text)),
                rest,
                rest.len(),
            ),
            Err(_) => {},
        }
    }
}

/// A line holds at most one command, so evaluating what a line parses to
/// asks at most once for a program to be run.
pub proof fn lemma_a_line_holds_one_command_at_most(t: Seq<SpecToken>)
    ensures
        (match spec_parse_line(t, 0) {
            Ok(e) => commands(e) <= 1,
            Err(_) => true,
        }),
{
    if t.len() > 0 {
        if starts_expression(t[0].kind) {
            lemma_expressions_hold_no_command(t, 0);
        } else {
            lemma_arguments_hold_no_command(t, 1);
        }
    }
}

} // verus!
