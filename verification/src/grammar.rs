//! The grammar, as functions on a sequence of tokens and a position in it.
//!
//! From the loosest binding to the tightest:
//!
//! ```text
//! line       = ( "if" | ":" | "!" | "-" ) ... => expr
//!            | name argument*                 => command
//! argument   = "[" expr "]" | token
//! expr       = "if" expr "then" expr "else" expr | equality
//! equality   = comparison ( ( "==" | "!=" ) comparison )*
//! comparison = boolop ( ( ">" | "<" | ">=" | "<=" ) boolop )*
//! boolop     = term ( ( "&&" | "and" | "||" | "or" ) term )*
//! term       = factor ( ( "-" | "+" ) factor )*
//! factor     = unary ( ( "/" | "*" | "%" ) unary )*
//! unary      = ( "!" | "-" ) unary | primary
//! primary    = "true" | "false" | "nil" | number | "(" expr ")"
//! ```
//!
//! Each function gives the tree that is read from the position on and the
//! position behind it, or the error that reading runs into.

use vstd::prelude::*;
use crate::ast::{BinaryOp, SpecExp, UnaryOp};
use crate::token::{SpecToken, TokenKind};
use crate::value::SpecVal;

verus! {

/// The mathematical model of a `SyntaxError`.
pub enum SpecSyntaxError {
    Pattern,
    UnexpectedEnd,
    ExpectedPrimary(Seq<char>),
    MissingClosingParen,
    MissingClosingBracket,
    MissingThen,
    MissingElse,
    UnknownToken(Seq<char>),
}

/// A tree and the position behind it, or an error.
pub type Parsed = Result<(SpecExp, int), SpecSyntaxError>;

/// The binding levels of the binary operators, from the tightest.
pub const FACTOR: u8 = 1;

pub const TERM: u8 = 2;

pub const BOOLOP: u8 = 3;

pub const COMPARISON: u8 = 4;

pub const EQUALITY: u8 = 5;

/// The kind of the token at a position, if there is one.
pub open spec fn kind_at(t: Seq<SpecToken>, p: int) -> Option<TokenKind> {
    if 0 <= p < t.len() {
        Some(t[p].kind)
    } else {
        None
    }
}

/// The binary operator that a token stands for at a binding level.
pub open spec fn binary_op(level: u8, k: TokenKind) -> Option<BinaryOp> {
    if level == FACTOR {
        match k {
            TokenKind::Slash => Some(BinaryOp::Div),
            TokenKind::Star => Some(BinaryOp::Mult),
            TokenKind::Percent => Some(BinaryOp::Mod),
            _ => None,
        }
    } else if level == TERM {
        match k {
            TokenKind::Minus => Some(BinaryOp::Sub),
            TokenKind::Plus => Some(BinaryOp::Add),
            _ => None,
        }
    } else if level == BOOLOP {
        match k {
            TokenKind::And => Some(BinaryOp::And),
            TokenKind::Or => Some(BinaryOp::Or),
            _ => None,
        }
    } else if level == COMPARISON {
        match k {
            TokenKind::Gt => Some(BinaryOp::Gt),
            TokenKind::Lt => Some(BinaryOp::Lt),
            TokenKind::Gte => Some(BinaryOp::Gte),
            TokenKind::Lte => Some(BinaryOp::Lte),
            _ => None,
        }
    } else if level == EQUALITY {
        match k {
            TokenKind::EqEq => Some(BinaryOp::Eq),
            TokenKind::NotEq => Some(BinaryOp::Neq),
            _ => None,
        }
    } else {
        None
    }
}

/// The operator of a binding level at a position, if one stands there.
pub open spec fn operator_at(t: Seq<SpecToken>, p: int, level: u8) -> Option<BinaryOp> {
    match kind_at(t, p) {
        Some(k) => binary_op(level, k),
        None => None,
    }
}

/// A result that stopped behind position `p` and within the tokens; any other
/// is no result. Every result of this grammar is of that form
/// (`lemma_advances`), which is what lets reading go on from where it stopped.
pub open spec fn advanced(p: int, len: nat, r: Parsed) -> Parsed {
    match r {
        Ok((e, q)) => if p < q <= len {
            r
        } else {
            Err(SpecSyntaxError::UnexpectedEnd)
        },
        Err(_) => r,
    }
}

pub open spec fn spec_primary(t: Seq<SpecToken>, p: int) -> Parsed
    decreases t.len() - p, 0int,
{
    match kind_at(t, p) {
        None => Err(SpecSyntaxError::UnexpectedEnd),
        Some(TokenKind::False) => Ok((SpecExp::Literal(SpecVal::Bool(false)), p + 1)),
        Some(TokenKind::True) => Ok((SpecExp::Literal(SpecVal::Bool(true)), p + 1)),
        Some(TokenKind::Nil) => Ok((SpecExp::Literal(SpecVal::Nil), p + 1)),
        Some(TokenKind::Number(n)) => Ok((SpecExp::Literal(SpecVal::Num(n as int)), p + 1)),
        Some(TokenKind::LParen) => match spec_expr(t, p + 1) {
            Err(e) => Err(e),
            Ok((e, q)) => if kind_at(t, q) == Some(TokenKind::RParen) {
                Ok((e, q + 1))
            } else {
                Err(SpecSyntaxError::MissingClosingParen)
            },
        },
        Some(_) => Err(SpecSyntaxError::ExpectedPrimary(t[p].text)),
    }
}

pub open spec fn spec_unary(t: Seq<SpecToken>, p: int) -> Parsed
    decreases t.len() - p, 1int,
{
    match kind_at(t, p) {
        None => Err(SpecSyntaxError::UnexpectedEnd),
        Some(TokenKind::Bang) => match spec_unary(t, p + 1) {
            Err(e) => Err(e),
            Ok((e, q)) => Ok((SpecExp::Unary(UnaryOp::Inverse, Box::new(e)), q)),
        },
        Some(TokenKind::Minus) => match spec_unary(t, p + 1) {
            Err(e) => Err(e),
            Ok((e, q)) => Ok((SpecExp::Unary(UnaryOp::Negate, Box::new(e)), q)),
        },
        Some(_) => spec_primary(t, p),
    }
}

/// Reads the operands of a binding level: one of the next tighter level, then
/// as many operators of this level, each with its right operand, as follow.
/// The operators associate to the left.
pub open spec fn spec_binary(t: Seq<SpecToken>, p: int, level: u8) -> Parsed
    decreases t.len() - p, level + 2,
{
    let first = if level <= FACTOR {
        spec_unary(t, p)
    } else {
        spec_binary(t, p, (level - 1) as u8)
    };
    match advanced(p, t.len(), first) {
        Err(e) => Err(e),
        Ok((left, q)) => spec_binary_tail(t, q, level, left),
    }
}

/// Goes on reading a binding level behind the operand `left`.
pub open spec fn spec_binary_tail(t: Seq<SpecToken>, p: int, level: u8, left: SpecExp) -> Parsed
    decreases t.len() - p, 0int,
{
    match operator_at(t, p, level) {
        None => Ok((left, p)),
        Some(op) => {
            let operand = if level <= FACTOR {
                spec_unary(t, p + 1)
            } else {
                spec_binary(t, p + 1, (level - 1) as u8)
            };
            match advanced(p, t.len(), operand) {
                Err(e) => Err(e),
                Ok((right, q)) => spec_binary_tail(
                    t,
                    q,
                    level,
                    SpecExp::Binary(Box::new(left), op, Box::new(right)),
                ),
            }
        },
    }
}

pub open spec fn spec_expr(t: Seq<SpecToken>, p: int) -> Parsed
    decreases t.len() - p, 8int,
{
    if kind_at(t, p) == Some(TokenKind::If) {
        match advanced(p, t.len(), spec_expr(t, p + 1)) {
            Err(e) => Err(e),
            Ok((cond, q1)) => if kind_at(t, q1) != Some(TokenKind::Then) {
                Err(SpecSyntaxError::MissingThen)
            } else {
                match advanced(q1, t.len(), spec_expr(t, q1 + 1)) {
                    Err(e) => Err(e),
                    Ok((branch1, q2)) => if kind_at(t, q2) != Some(TokenKind::Else) {
                        Err(SpecSyntaxError::MissingElse)
                    } else {
                        match spec_expr(t, q2 + 1) {
                            Err(e) => Err(e),
                            Ok((branch2, q3)) => Ok(
                                (
                                    SpecExp::If(
                                        Box::new(cond),
                                        Box::new(branch1),
                                        Box::new(branch2),
                                    ),
                                    q3,
                                ),
                            ),
                        }
                    },
                }
            },
        }
    } else {
        spec_binary(t, p, EQUALITY)
    }
}

/// Whether a first token of this kind makes the line an expression.
pub open spec fn starts_expression(k: TokenKind) -> bool {
    k == TokenKind::If || k == TokenKind::Colon || k == TokenKind::Bang || k == TokenKind::Minus
}

/// Reads the arguments of a command from a position to the end of the tokens:
/// an expression in square brackets, or any other token as text.
pub open spec fn spec_args(t: Seq<SpecToken>, p: int) -> Result<Seq<SpecExp>, SpecSyntaxError>
    decreases t.len() - p,
{
    if !(0 <= p < t.len()) {
        Ok(Seq::empty())
    } else if t[p].kind == TokenKind::LBracket {
        match advanced(p, t.len(), spec_expr(t, p + 1)) {
            Err(e) => Err(e),
            Ok((e, q)) => if kind_at(t, q) != Some(TokenKind::RBracket) {
                Err(SpecSyntaxError::MissingClosingBracket)
            } else {
                match spec_args(t, q + 1) {
                    Err(e) => Err(e),
                    Ok(rest) => Ok(seq![e] + rest),
                }
            },
        }
    } else {
        match spec_args(t, p + 1) {
            Err(e) => Err(e),
            Ok(rest) => Ok(seq![SpecExp::Literal(SpecVal::Sym(t[p].text))] + rest),
        }
    }
}

/// Puts the arguments read so far in front of what reading the rest gives.
pub open spec fn prepend(
    front: Seq<SpecExp>,
    r: Result<Seq<SpecExp>, SpecSyntaxError>,
) -> Result<Seq<SpecExp>, SpecSyntaxError> {
    match r {
        Ok(rest) => Ok(front + rest),
        Err(e) => Err(e),
    }
}

/// Reads a line from position `p` on: nothing where no token is left, an
/// expression where the first token starts one, else a command, named by the
/// first token, with the rest of the line as its arguments.
pub open spec fn spec_toplevel(t: Seq<SpecToken>, p: int) -> Parsed {
    if !(0 <= p < t.len()) {
        Ok((SpecExp::Empty, p))
    } else if starts_expression(t[p].kind) {
        spec_expr(t, p)
    } else {
        match spec_args(t, p + 1) {
            Err(e) => Err(e),
            Ok(args) => Ok((SpecExp::Command(t[p].text, args), t.len() as int)),
        }
    }
}

/// Reads a whole line from position `p` on: what `spec_toplevel` reads, with
/// no token left over.
pub open spec fn spec_parse_line(t: Seq<SpecToken>, p: int) -> Result<SpecExp, SpecSyntaxError> {
    match spec_toplevel(t, p) {
        Err(e) => Err(e),
        Ok((e, q)) => if 0 <= q < t.len() {
            Err(SpecSyntaxError::UnknownToken(t[q].text))
        } else {
            Ok(e)
        },
    }
}

/// Whether a result, if it is a tree, stops behind `p` and within the tokens.
pub open spec fn stops_behind(p: int, len: nat, r: Parsed) -> bool {
    match r {
        Ok((_, q)) => p < q <= len,
        Err(_) => true,
    }
}

/// Every tree that the grammar reads takes at least one token and ends within
/// the tokens, so `advanced` changes no result of the grammar.
pub proof fn lemma_advances(t: Seq<SpecToken>, p: int)
    ensures
        stops_behind(p, t.len(), spec_primary(t, p)),
        stops_behind(p, t.len(), spec_unary(t, p)),
        stops_behind(p, t.len(), spec_expr(t, p)),
        forall|level: u8| stops_behind(p, t.len(), #[trigger] spec_binary(t, p, level)),
    decreases t.len() - p, 9int,
{
    lemma_expr_advances(t, p);
    lemma_unary_advances(t, p);
    assert forall|level: u8| stops_behind(p, t.len(), #[trigger] spec_binary(t, p, level)) by {
        lemma_binary_advances(t, p, level);
    }
}

proof fn lemma_primary_advances(t: Seq<SpecToken>, p: int)
    ensures
        stops_behind(p, t.len(), spec_primary(t, p)),
    decreases t.len() - p, 0int,
{
    if kind_at(t, p) == Some(TokenKind::LParen) {
        lemma_expr_advances(t, p + 1);
    }
}

proof fn lemma_unary_advances(t: Seq<SpecToken>, p: int)
    ensures
        stops_behind(p, t.len(), spec_unary(t, p)),
    decreases t.len() - p, 1int,
{
    match kind_at(t, p) {
        None => {},
        Some(TokenKind::Bang) => lemma_unary_advances(t, p + 1),
        Some(TokenKind::Minus) => lemma_unary_advances(t, p + 1),
        Some(_) => lemma_primary_advances(t, p),
    }
}

proof fn lemma_binary_advances(t: Seq<SpecToken>, p: int, level: u8)
    ensures
        stops_behind(p, t.len(), spec_binary(t, p, level)),
    decreases t.len() - p, level + 2,
{
    let first = if level <= FACTOR {
        spec_unary(t, p)
    } else {
        spec_binary(t, p, (level - 1) as u8)
    };
    if level <= FACTOR {
        lemma_unary_advances(t, p);
    } else {
        lemma_binary_advances(t, p, (level - 1) as u8);
    }
    match first {
        Ok((left, q)) => lemma_tail_advances(t, q, level, left),
        Err(_) => {},
    }
}

proof fn lemma_tail_advances(t: Seq<SpecToken>, p: int, level: u8, left: SpecExp)
    requires
        p <= t.len(),
    ensures
        (match spec_binary_tail(t, p, level, left) {
            Ok((_, q)) => p <= q <= t.len(),
            Err(_) => true,
        }),
    decreases t.len() - p, 0int,
{
    match operator_at(t, p, level) {
        None => {},
        Some(op) => {
            let operand = if level <= FACTOR {
                spec_unary(t, p + 1)
            } else {
                spec_binary(t, p + 1, (level - 1) as u8)
            };
            if level <= FACTOR {
                lemma_unary_advances(t, p + 1);
            } else {
                lemma_binary_advances(t, p + 1, (level - 1) as u8);
            }
            match operand {
                Ok((right, q)) => lemma_tail_advances(
                    t,
                    q,
                    level,
                    SpecExp::Binary(Box::new(left), op, Box::new(right)),
                ),
                Err(_) => {},
            }
        },
    }
}

proof fn lemma_expr_advances(t: Seq<SpecToken>, p: int)
    ensures
        stops_behind(p, t.len(), spec_expr(t, p)),
    decreases t.len() - p, 8int,
{
    if kind_at(t, p) == Some(TokenKind::If) {
        lemma_expr_advances(t, p + 1);
        match spec_expr(t, p + 1) {
            Ok((_, q1)) => {
                if kind_at(t, q1) == Some(TokenKind::Then) {
                    lemma_expr_advances(t, q1 + 1);
                    match spec_expr(t, q1 + 1) {
                        Ok((_, q2)) => {
                            if kind_at(t, q2) == Some(TokenKind::Else) {
                                lemma_expr_advances(t, q2 + 1);
                            }
                        },
                        Err(_) => {},
                    }
                }
            },
            Err(_) => {},
        }
    } else {
        lemma_binary_advances(t, p, EQUALITY);
    }
}

} // verus!
