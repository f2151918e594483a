//! The recursive-descent parser: a cursor over tokens, and one function for
//! each rule of the grammar.

use vstd::prelude::*;
use vstd::string::*;
use crate::ast::{exps_view, BinaryOp, Exp, SpecExp, UnaryOp};
use crate::grammar::{
    binary_op, kind_at, operator_at, prepend, spec_args, spec_binary, spec_binary_tail,
    spec_expr, spec_parse_line, spec_primary, spec_toplevel, spec_unary, starts_expression,
    Parsed, SpecSyntaxError, BOOLOP, COMPARISON, EQUALITY, FACTOR, TERM,
};
use crate::lexer::{lex, segments, split_segments, tokenize};
use crate::pattern::texts_view;
use crate::token::{tokens_view, SpecToken, Token, TokenKind};
use crate::value::Val;

verus! {

/// Why a line is no expression and no command.
#[derive(Debug, PartialEq, Eq)]
pub enum SyntaxError {
    /// The tokenizer could not be set up.
    Pattern,
    /// The line ended where an operand had to follow.
    UnexpectedEnd,
    /// The token, as written, stands where an operand had to be.
    ExpectedPrimary(String),
    MissingClosingParen,
    MissingClosingBracket,
    /// The condition of an `if` is not followed by `then`.
    MissingThen,
    /// The first branch of an `if` is not followed by `else`.
    MissingElse,
    /// The token, as written, follows a complete expression.
    UnknownToken(String),
}

impl View for SyntaxError {
    type V = SpecSyntaxError;

    open spec fn view(&self) -> SpecSyntaxError {
        match self {
            SyntaxError::Pattern => SpecSyntaxError::Pattern,
            SyntaxError::UnexpectedEnd => SpecSyntaxError::UnexpectedEnd,
            SyntaxError::ExpectedPrimary(s) => SpecSyntaxError::ExpectedPrimary(s@),
            SyntaxError::MissingClosingParen => SpecSyntaxError::MissingClosingParen,
            SyntaxError::MissingClosingBracket => SpecSyntaxError::MissingClosingBracket,
            SyntaxError::MissingThen => SpecSyntaxError::MissingThen,
            SyntaxError::MissingElse => SpecSyntaxError::MissingElse,
            SyntaxError::UnknownToken(s) => SpecSyntaxError::UnknownToken(s@),
        }
    }
}

/// A cursor over the tokens of one line, with one token of lookahead.
pub struct Tokens {
    items: Vec<Token>,
    pos: usize,
}

impl Tokens {
    /// The cursor stands at a token or right behind the last one.
    pub closed spec fn wf(&self) -> bool {
        self.pos <= self.items.len()
    }

    /// All the tokens of the line.
    pub closed spec fn tokens(&self) -> Seq<SpecToken> {
        tokens_view(self.items@)
    }

    /// The index of the token that is read next.
    pub closed spec fn position(&self) -> int {
        self.pos as int
    }

    /// How many tokens are still to be read.
    pub open spec fn remaining(&self) -> int {
        self.tokens().len() - self.position()
    }

    /// A cursor at the first of the given tokens.
    pub fn new(items: Vec<Token>) -> (r: Tokens)
        ensures
            r.wf(),
            r.tokens() == tokens_view(items@),
            r.position() == 0,
    {
        Tokens { items, pos: 0 }
    }

    /// The kind of the next token, or `None` at the end of the line.
    pub fn peek(&self) -> (r: Option<TokenKind>)
        requires
            self.wf(),
        ensures
            r == kind_at(self.tokens(), self.position()),
    {
        if self.pos < self.items.len() {
            Some(self.items[self.pos].kind)
        } else {
            None
        }
    }

    /// The text of the next token.
    pub fn text(&self) -> (r: String)
        requires
            self.wf(),
            self.remaining() > 0,
        ensures
            r@ == self.tokens()[self.position()].text,
    {
        self.items[self.pos].text.clone()
    }

    /// Steps over the next token.
    pub fn advance(&mut self)
        requires
            old(self).wf(),
            old(self).remaining() > 0,
        ensures
            final(self).wf(),
            final(self).tokens() == old(self).tokens(),
            final(self).position() == old(self).position() + 1,
    {
        self.pos = self.pos + 1;
    }

    /// The place of the cursor, to come back to with `rewind`.
    pub fn mark(&self) -> (r: usize)
        requires
            self.wf(),
        ensures
            r == self.position(),
    {
        self.pos
    }

    /// Puts the cursor back to a place that it has been at.
    pub fn rewind(&mut self, mark: usize)
        requires
            old(self).wf(),
            mark <= old(self).position(),
        ensures
            final(self).wf(),
            final(self).tokens() == old(self).tokens(),
            final(self).position() == mark,
    {
        self.pos = mark;
    }
}

/// What a parsing function has done: the tokens are the same; on success the
/// tree is the one that the grammar reads from where the cursor was, and the
/// cursor stands behind it, at least one token on; on failure the error is
/// the grammar's and the cursor is where it was.
pub open spec fn parsed_as(
    before: Tokens,
    after: Tokens,
    r: Result<Exp, SyntaxError>,
    expected: Parsed,
) -> bool {
    &&& after.wf()
    &&& after.tokens() == before.tokens()
    &&& match r {
        Ok(e) => expected == Ok::<(SpecExp, int), SpecSyntaxError>((e@, after.position()))
            && after.position() > before.position(),
        Err(err) => expected == Err::<(SpecExp, int), SpecSyntaxError>(err@) && after.position()
            == before.position(),
    }
}

/// The binary operator that a token stands for at a binding level.
fn binary_operator(level: u8, kind: Option<TokenKind>) -> (r: Option<BinaryOp>)
    ensures
        r == (match kind {
            Some(k) => binary_op(level, k),
            None => None,
        }),
{
    match kind {
        None => None,
        Some(k) => {
            if level == FACTOR {
                match k {
                    TokenKind::Slash => Some(BinaryOp::Div),
                    TokenKind::Star => Some(BinaryOp::Mult),
                    TokenKind::Percent => Some(BinaryOp::Mod),
                    _ => None,
                }
            } else if level == TERM {
                match k {
                    TokenKind::Minus => Some(BinaryOp::Sub),
                    TokenKind::Plus => Some(BinaryOp::Add),
                    _ => None,
                }
            } else if level == BOOLOP {
                match k {
                    TokenKind::And => Some(BinaryOp::And),
                    TokenKind::Or => Some(BinaryOp::Or),
                    _ => None,
                }
            } else if level == COMPARISON {
                match k {
                    TokenKind::Gt => Some(BinaryOp::Gt),
                    TokenKind::Lt => Some(BinaryOp::Lt),
                    TokenKind::Gte => Some(BinaryOp::Gte),
                    TokenKind::Lte => Some(BinaryOp::Lte),
                    _ => None,
                }
            } else if level == EQUALITY {
                match k {
                    TokenKind::EqEq => Some(BinaryOp::Eq),
                    TokenKind::NotEq => Some(BinaryOp::Neq),
                    _ => None,
                }
            } else {
                None
            }
        },
    }
}

/// `primary = "true" | "false" | "nil" | number | "(" expr ")"`
pub fn primary(ts: &mut Tokens) -> (r: Result<Exp, SyntaxError>)
    requires
        old(ts).wf(),
    ensures
        parsed_as(*old(ts), *final(ts), r, spec_primary(old(ts).tokens(), old(ts).position())),
    decreases old(ts).remaining(), 0int,
{
    let start = ts.mark();
    match ts.peek() {
        None => Err(SyntaxError::UnexpectedEnd),
        Some(TokenKind::False) => {
            ts.advance();
            Ok(Exp::Literal(Val::Bool(false)))
        },
        Some(TokenKind::True) => {
            ts.advance();
            Ok(Exp::Literal(Val::Bool(true)))
        },
        Some(TokenKind::Nil) => {
            ts.advance();
            Ok(Exp::Literal(Val::Nil))
        },
        Some(TokenKind::Number(n)) => {
            ts.advance();
            Ok(Exp::Literal(Val::Num(n)))
        },
        Some(TokenKind::LParen) => {
            ts.advance();
            match expr(ts) {
                Err(err) => {
                    ts.rewind(start);
                    Err(err)
                },
                Ok(e) => match ts.peek() {
                    Some(TokenKind::RParen) => {
                        ts.advance();
                        Ok(e)
                    },
                    _ => {
                        ts.rewind(start);
                        Err(SyntaxError::MissingClosingParen)
                    },
                },
            }
        },
        Some(_) => Err(SyntaxError::ExpectedPrimary(ts.text())),
    }
}

/// `unary = ( "!" | "-" ) unary | primary`
pub fn unary(ts: &mut Tokens) -> (r: Result<Exp, SyntaxError>)
    requires
        old(ts).wf(),
    ensures
        parsed_as(*old(ts), *final(ts), r, spec_unary(old(ts).tokens(), old(ts).position())),
    decreases old(ts).remaining(), 1int,
{
    let start = ts.mark();
    match ts.peek() {
        None => Err(SyntaxError::UnexpectedEnd),
        Some(TokenKind::Bang) => {
            ts.advance();
            match unary(ts) {
                Ok(e) => Ok(Exp::Unary(UnaryOp::Inverse, Box::new(e))),
                Err(err) => {
                    ts.rewind(start);
                    Err(err)
                },
            }
        },
        Some(TokenKind::Minus) => {
            ts.advance();
            match unary(ts) {
                Ok(e) => Ok(Exp::Unary(UnaryOp::Negate, Box::new(e))),
                Err(err) => {
                    ts.rewind(start);
                    Err(err)
                },
            }
        },
        Some(_) => primary(ts),
    }
}

/// `factor = unary ( ( "/" | "*" | "%" ) unary )*`
pub fn factor(ts: &mut Tokens) -> (r: Result<Exp, SyntaxError>)
    requires
        old(ts).wf(),
    ensures
        parsed_as(
            *old(ts),
            *final(ts),
            r,
            spec_binary(old(ts).tokens(), old(ts).position(), FACTOR),
        ),
    decreases old(ts).remaining(), 3int,
{
    let start = ts.mark();
    let mut e = match unary(ts) {
        Ok(e) => e,
        Err(err) => {
            return Err(err);
        },
    };
    let mut next = binary_operator(FACTOR, ts.peek());
    while next.is_some()
        invariant
            ts.wf(),
            ts.tokens() == old(ts).tokens(),
            start == old(ts).position(),
            ts.position() > start,
            next == operator_at(ts.tokens(), ts.position(), FACTOR),
            spec_binary(ts.tokens(), start as int, FACTOR) == spec_binary_tail(
                ts.tokens(),
                ts.position(),
                FACTOR,
                e@,
            ),
        decreases ts.remaining(),
    {
        let op = next.unwrap();
        ts.advance();
        match unary(ts) {
            Ok(right) => {
                e = Exp::Binary(Box::new(e), op, Box::new(right));
            },
            Err(err) => {
                ts.rewind(start);
                return Err(err);
            },
        }
        next = binary_operator(FACTOR, ts.peek());
    }
    Ok(e)
}

/// `term = factor ( ( "-" | "+" ) factor )*`
pub fn term(ts: &mut Tokens) -> (r: Result<Exp, SyntaxError>)
    requires
        old(ts).wf(),
    ensures
        parsed_as(
            *old(ts),
            *final(ts),
            r,
            spec_binary(old(ts).tokens(), old(ts).position(), TERM),
        ),
    decreases old(ts).remaining(), 4int,
{
    let start = ts.mark();
    let mut e = match factor(ts) {
        Ok(e) => e,
        Err(err) => {
            return Err(err);
        },
    };
    let mut next = binary_operator(TERM, ts.peek());
    while next.is_some()
        invariant
            ts.wf(),
            ts.tokens() == old(ts).tokens(),
            start == old(ts).position(),
            ts.position() > start,
            next == operator_at(ts.tokens(), ts.position(), TERM),
            spec_binary(ts.tokens(), start as int, TERM) == spec_binary_tail(
                ts.tokens(),
                ts.position(),
                TERM,
                e@,
            ),
        decreases ts.remaining(),
    {
        let op = next.unwrap();
        ts.advance();
        match factor(ts) {
            Ok(right) => {
                e = Exp::Binary(Box::new(e), op, Box::new(right));
            },
            Err(err) => {
                ts.rewind(start);
                return Err(err);
            },
        }
        next = binary_operator(TERM, ts.peek());
    }
    Ok(e)
}

/// `boolop = term ( ( "&&" | "and" | "||" | "or" ) term )*`
pub fn boolop(ts: &mut Tokens) -> (r: Result<Exp, SyntaxError>)
    requires
        old(ts).wf(),
    ensures
        parsed_as(
            *old(ts),
            *final(ts),
            r,
            spec_binary(old(ts).tokens(), old(ts).position(), BOOLOP),
        ),
    decreases old(ts).remaining(), 5int,
{
    let start = ts.mark();
    let mut e = match term(ts) {
        Ok(e) => e,
        Err(err) => {
            return Err(err);
        },
    };
    let mut next = binary_operator(BOOLOP, ts.peek());
    while next.is_some()
        invariant
            ts.wf(),
            ts.tokens() == old(ts).tokens(),
            start == old(ts).position(),
            ts.position() > start,
            next == operator_at(ts.tokens(), ts.position(), BOOLOP),
            spec_binary(ts.tokens(), start as int, BOOLOP) == spec_binary_tail(
                ts.tokens(),
                ts.position(),
                BOOLOP,
                e@,
            ),
        decreases ts.remaining(),
    {
        let op = next.unwrap();
        ts.advance();
        match term(ts) {
            Ok(right) => {
                e = Exp::Binary(Box::new(e), op, Box::new(right));
            },
            Err(err) => {
                ts.rewind(start);
                return Err(err);
            },
        }
        next = binary_operator(BOOLOP, ts.peek());
    }
    Ok(e)
}

/// `comparison = boolop ( ( ">" | "<" | ">=" | "<=" ) boolop )*`
pub fn comparison(ts: &mut Tokens) -> (r: Result<Exp, SyntaxError>)
    requires
        old(ts).wf(),
    ensures
        parsed_as(
            *old(ts),
            *final(ts),
            r,
            spec_binary(old(ts).tokens(), old(ts).position(), COMPARISON),
        ),
    decreases old(ts).remaining(), 6int,
{
    let start = ts.mark();
    let mut e = match boolop(ts) {
        Ok(e) => e,
        Err(err) => {
            return Err(err);
        },
    };
    let mut next = binary_operator(COMPARISON, ts.peek());
    while next.is_some()
        invariant
            ts.wf(),
            ts.tokens() == old(ts).tokens(),
            start == old(ts).position(),
            ts.position() > start,
            next == operator_at(ts.tokens(), ts.position(), COMPARISON),
            spec_binary(ts.tokens(), start as int, COMPARISON) == spec_binary_tail(
                ts.tokens(),
                ts.position(),
                COMPARISON,
                e@,
            ),
        decreases ts.remaining(),
    {
        let op = next.unwrap();
        ts.advance();
        match boolop(ts) {
            Ok(right) => {
                e = Exp::Binary(Box::new(e), op, Box::new(right));
            },
            Err(err) => {
                ts.rewind(start);
                return Err(err);
            },
        }
        next = binary_operator(COMPARISON, ts.peek());
    }
    Ok(e)
}

/// `equality = comparison ( ( "==" | "!=" ) comparison )*`
pub fn equality(ts: &mut Tokens) -> (r: Result<Exp, SyntaxError>)
    requires
        old(ts).wf(),
    ensures
        parsed_as(
            *old(ts),
            *final(ts),
            r,
            spec_binary(old(ts).tokens(), old(ts).position(), EQUALITY),
        ),
    decreases old(ts).remaining(), 7int,
{
    let start = ts.mark();
    let mut e = match comparison(ts) {
        Ok(e) => e,
        Err(err) => {
            return Err(err);
        },
    };
    let mut next = binary_operator(EQUALITY, ts.peek());
    while next.is_some()
        invariant
            ts.wf(),
            ts.tokens() == old(ts).tokens(),
            start == old(ts).position(),
            ts.position() > start,
            next == operator_at(ts.tokens(), ts.position(), EQUALITY),
            spec_binary(ts.tokens(), start as int, EQUALITY) == spec_binary_tail(
                ts.tokens(),
                ts.position(),
                EQUALITY,
                e@,
            ),
        decreases ts.remaining(),
    {
        let op = next.unwrap();
        ts.advance();
        match comparison(ts) {
            Ok(right) => {
                e = Exp::Binary(Box::new(e), op, Box::new(right));
            },
            Err(err) => {
                ts.rewind(start);
                return Err(err);
            },
        }
        next = binary_operator(EQUALITY, ts.peek());
    }
    Ok(e)
}

/// `expr = "if" expr "then" expr "else" expr | equality`
pub fn expr(ts: &mut Tokens) -> (r: Result<Exp, SyntaxError>)
    requires
        old(ts).wf(),
    ensures
        parsed_as(*old(ts), *final(ts), r, spec_expr(old(ts).tokens(), old(ts).position())),
    decreases old(ts).remaining(), 8int,
{
    let start = ts.mark();
    match ts.peek() {
        Some(TokenKind::If) => {
            ts.advance();
            let cond = match expr(ts) {
                Ok(e) => e,
                Err(err) => {
                    ts.rewind(start);
                    return Err(err);
                },
            };
            match ts.peek() {
                Some(TokenKind::Then) => {
                    ts.advance();
                },
                _ => {
                    ts.rewind(start);
                    return Err(SyntaxError::MissingThen);
                },
            }
            let branch1 = match expr(ts) {
                Ok(e) => e,
                Err(err) => {
                    ts.rewind(start);
                    return Err(err);
                },
            };
            match ts.peek() {
                Some(TokenKind::Else) => {
                    ts.advance();
                },
                _ => {
                    ts.rewind(start);
                    return Err(SyntaxError::MissingElse);
                },
            }
            let branch2 = match expr(ts) {
                Ok(e) => e,
                Err(err) => {
                    ts.rewind(start);
                    return Err(err);
                },
            };
            Ok(Exp::If(Box::new(cond), Box::new(branch1), Box::new(branch2)))
        },
        _ => equality(ts),
    }
}

/// The model of what parsing a line gives.
pub open spec fn result_view(r: Result<Exp, SyntaxError>) -> Result<SpecExp, SpecSyntaxError> {
    match r {
        Ok(e) => Ok(e@),
        Err(err) => Err(err@),
    }
}

/// Whether a first token of this kind makes the line an expression.
fn is_expression_start(kind: TokenKind) -> (r: bool)
    ensures
        r == starts_expression(kind),
{
    match kind {
        TokenKind::If => true,
        TokenKind::Colon => true,
        TokenKind::Bang => true,
        TokenKind::Minus => true,
        _ => false,
    }
}

/// Reads a line: nothing where no token is left, an expression where the
/// first token starts one, else a command with the rest of the line as its
/// arguments. On failure the cursor is where it was.
pub fn toplevel(ts: &mut Tokens) -> (r: Result<Exp, SyntaxError>)
    requires
        old(ts).wf(),
    ensures
        final(ts).wf(),
        final(ts).tokens() == old(ts).tokens(),
        (match r {
            Ok(e) => spec_toplevel(old(ts).tokens(), old(ts).position()) == Ok::<
                (SpecExp, int),
                SpecSyntaxError,
            >((e@, final(ts).position())),
            Err(err) => spec_toplevel(old(ts).tokens(), old(ts).position()) == Err::<
                (SpecExp, int),
                SpecSyntaxError,
            >(err@) && final(ts).position() == old(ts).position(),
        }),
        final(ts).position() >= old(ts).position(),
{
    let start = ts.mark();
    let first = match ts.peek() {
        Some(kind) => kind,
        None => {
            return Ok(Exp::Empty);
        },
    };
    if is_expression_start(first) {
        return expr(ts);
    }
    let name = ts.text();
    ts.advance();
    let mut args: Vec<Exp> = Vec::new();
    assert(exps_view(args@) + spec_args(ts.tokens(), ts.position())->Ok_0 =~= spec_args(
        ts.tokens(),
        ts.position(),
    )->Ok_0);
    while ts.peek().is_some()
        invariant
            ts.wf(),
            ts.tokens() == old(ts).tokens(),
            start == old(ts).position(),
            ts.position() > start,
            !starts_expression(ts.tokens()[start as int].kind),
            name@ == ts.tokens()[start as int].text,
            spec_args(ts.tokens(), start + 1) == prepend(
                exps_view(args@),
                spec_args(ts.tokens(), ts.position()),
            ),
        decreases ts.remaining(),
    {
        let ghost front = exps_view(args@);
        let ghost here = ts.position();
        match ts.peek() {
            Some(TokenKind::LBracket) => {
                ts.advance();
                match expr(ts) {
                    Err(err) => {
                        ts.rewind(start);
                        return Err(err);
                    },
                    Ok(e) => match ts.peek() {
                        Some(TokenKind::RBracket) => {
                            ts.advance();
                            args.push(e);
                        },
                        _ => {
                            ts.rewind(start);
                            return Err(SyntaxError::MissingClosingBracket);
                        },
                    },
                }
            },
            _ => {
                let text = ts.text();
                ts.advance();
                args.push(Exp::Literal(Val::Sym(text)));
            },
        }
        proof {
            let added = exps_view(args@)[args@.len() - 1];
            assert(exps_view(args@) =~= front.push(added));
            match spec_args(ts.tokens(), ts.position()) {
                Ok(rest) => {
                    assert(front + (seq![added] + rest) =~= front.push(added) + rest);
                },
                Err(_) => {},
            }
        }
    }
    proof {
        assert(exps_view(args@) + Seq::<SpecExp>::empty() =~= exps_view(args@));
    }
    Ok(Exp::Command(name, args))
}

/// Reads a whole line: what `toplevel` reads, with no token left over. On
/// failure the cursor is where it was.
pub fn parse_line(ts: &mut Tokens) -> (r: Result<Exp, SyntaxError>)
    requires
        old(ts).wf(),
    ensures
        final(ts).wf(),
        final(ts).tokens() == old(ts).tokens(),
        result_view(r) == spec_parse_line(old(ts).tokens(), old(ts).position()),
        r is Ok ==> final(ts).remaining() == 0,
        r is Err ==> final(ts).position() == old(ts).position(),
{
    let start = ts.mark();
    let e = toplevel(ts)?;
    if ts.peek().is_some() {
        let text = ts.text();
        ts.rewind(start);
        return Err(SyntaxError::UnknownToken(text));
    }
    Ok(e)
}

/// Parses the tokens of one line.
pub fn parse_tokens(tokens: Vec<Token>) -> (r: Result<Exp, SyntaxError>)
    ensures
        result_view(r) == spec_parse_line(tokens_view(tokens@), 0),
{
    let mut ts = Tokens::new(tokens);
    parse_line(&mut ts)
}

/// What one segment of a line parses to.
pub open spec fn spec_parse_segment(s: Seq<char>) -> Result<SpecExp, SpecSyntaxError> {
    spec_parse_line(lex(s), 0)
}

/// Whether `r` is what parsing the segment `s` gives: what the grammar reads
/// from the tokens of `s`, or, where the tokenizer could not be set up, that
/// error.
pub open spec fn parses_segment(r: Result<Exp, SyntaxError>, s: Seq<char>) -> bool {
    result_view(r) == spec_parse_segment(s) || result_view(r) == Err::<
        SpecExp,
        SpecSyntaxError,
    >(SpecSyntaxError::Pattern)
}

/// Tokenizes and parses one segment of a line.
pub fn parse_segment(segment: &str) -> (r: Result<Exp, SyntaxError>)
    ensures
        parses_segment(r, segment@),
{
    match tokenize(segment) {
        Ok(tokens) => parse_tokens(tokens),
        Err(err) => Err(err),
    }
}

/// Parses a line: one result for each of its segments, in their order. What
/// a segment parses to depends on that segment alone, so an error in one
/// leaves the others as they are.
pub fn parse(raw_code: &str) -> (r: Vec<Result<Exp, SyntaxError>>)
    ensures
        r@.len() == segments(raw_code@).len(),
        forall|i: int|
            0 <= i < r@.len() ==> parses_segment(#[trigger] r@[i], segments(raw_code@)[i]),
{
    let lines = split_segments(raw_code);
    let mut exps: Vec<Result<Exp, SyntaxError>> = Vec::new();
    let mut i: usize = 0;
    while i < lines.len()
        invariant
            texts_view(lines@) == segments(raw_code@),
            0 <= i <= lines.len(),
            exps@.len() == i,
            forall|j: int|
                0 <= j < i ==> parses_segment(#[trigger] exps@[j], segments(raw_code@)[j]),
        decreases lines.len() - i,
    {
        assert(texts_view(lines@)[i as int] == lines@[i as int]@);
        let parsed = parse_segment(lines[i].as_str());
        exps.push(parsed);
        i = i + 1;
    }
    assert(texts_view(lines@).len() == lines@.len());
    exps
}

} // verus!
