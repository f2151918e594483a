//! Tokens: a piece of source text and what its spelling stands for.

use vstd::prelude::*;
use vstd::string::*;
use crate::text::{
    decimal, is_digit, lemma_digits_denote, lemma_numeral_reads_back, literal_of, parse_literal,
    str_eq,
};

verus! {

/// What the spelling of a token stands for.
#[derive(Clone, Copy, Debug, PartialEq, Eq, Structural)]
pub enum TokenKind {
    Plus,
    Minus,
    Star,
    Slash,
    Percent,
    Lt,
    Gt,
    Lte,
    Gte,
    EqEq,
    NotEq,
    And,
    Or,
    Bang,
    LParen,
    RParen,
    LBracket,
    RBracket,
    Colon,
    If,
    Then,
    Else,
    True,
    False,
    Nil,
    /// An optional `-` and decimal digits, denoting a number that fits 64 bits.
    Number(i64),
    /// Any other text.
    Word,
}

/// What a spelling stands for.
pub open spec fn classify(s: Seq<char>) -> TokenKind {
    if s == "+"@ {
        TokenKind::Plus
    } else if s == "-"@ {
        TokenKind::Minus
    } else if s == "*"@ {
        TokenKind::Star
    } else if s == "/"@ {
        TokenKind::Slash
    } else if s == "%"@ {
        TokenKind::Percent
    } else if s == "<"@ {
        TokenKind::Lt
    } else if s == ">"@ {
        TokenKind::Gt
    } else if s == "<="@ {
        TokenKind::Lte
    } else if s == ">="@ {
        TokenKind::Gte
    } else if s == "=="@ {
        TokenKind::EqEq
    } else if s == "!="@ {
        TokenKind::NotEq
    } else if s == "&&"@ || s == "and"@ {
        TokenKind::And
    } else if s == "||"@ || s == "or"@ {
        TokenKind::Or
    } else if s == "!"@ {
        TokenKind::Bang
    } else if s == "("@ {
        TokenKind::LParen
    } else if s == ")"@ {
        TokenKind::RParen
    } else if s == "["@ {
        TokenKind::LBracket
    } else if s == "]"@ {
        TokenKind::RBracket
    } else if s == ":"@ {
        TokenKind::Colon
    } else if s == "if"@ {
        TokenKind::If
    } else if s == "then"@ {
        TokenKind::Then
    } else if s == "else"@ {
        TokenKind::Else
    } else if s == "true"@ {
        TokenKind::True
    } else if s == "false"@ {
        TokenKind::False
    } else if s == "nil"@ {
        TokenKind::Nil
    } else {
        match literal_of(s) {
            Some(n) => TokenKind::Number(n),
            None => TokenKind::Word,
        }
    }
}

/// A token: its text as written, and what that text stands for.
#[derive(Debug, PartialEq, Eq)]
pub struct Token {
    pub text: String,
    pub kind: TokenKind,
}

/// The mathematical model of a `Token`.
pub struct SpecToken {
    pub text: Seq<char>,
    pub kind: TokenKind,
}

impl View for Token {
    type V = SpecToken;

    open spec fn view(&self) -> SpecToken {
        SpecToken { text: self.text@, kind: self.kind }
    }
}

/// The token that a spelling makes.
pub open spec fn token_of(s: Seq<char>) -> SpecToken {
    SpecToken { text: s, kind: classify(s) }
}

/// The models of a sequence of tokens, in order.
pub open spec fn tokens_view(ts: Seq<Token>) -> Seq<SpecToken> {
    Seq::new(ts.len(), |i: int| ts[i]@)
}

impl Token {
    /// The token with the given text, classified by its spelling.
    pub fn new(text: &str) -> (r: Token)
        ensures
            r@ == token_of(text@),
    {
        let kind = if str_eq(text, "+") {
            TokenKind::Plus
        } else if str_eq(text, "-") {
            TokenKind::Minus
        } else if str_eq(text, "*") {
            TokenKind::Star
        } else if str_eq(text, "/") {
            TokenKind::Slash
        } else if str_eq(text, "%") {
            TokenKind::Percent
        } else if str_eq(text, "<") {
            TokenKind::Lt
        } else if str_eq(text, ">") {
            TokenKind::Gt
        } else if str_eq(text, "<=") {
            TokenKind::Lte
        } else if str_eq(text, ">=") {
            TokenKind::Gte
        } else if str_eq(text, "==") {
            TokenKind::EqEq
        } else if str_eq(text, "!=") {
            TokenKind::NotEq
        } else if str_eq(text, "&&") || str_eq(text, "and") {
            TokenKind::And
        } else if str_eq(text, "||") || str_eq(text, "or") {
            TokenKind::Or
        } else if str_eq(text, "!") {
            TokenKind::Bang
        } else if str_eq(text, "(") {
            TokenKind::LParen
        } else if str_eq(text, ")") {
            TokenKind::RParen
        } else if str_eq(text, "[") {
            TokenKind::LBracket
        } else if str_eq(text, "]") {
            TokenKind::RBracket
        } else if str_eq(text, ":") {
            TokenKind::Colon
        } else if str_eq(text, "if") {
            TokenKind::If
        } else if str_eq(text, "then") {
            TokenKind::Then
        } else if str_eq(text, "else") {
            TokenKind::Else
        } else if str_eq(text, "true") {
            TokenKind::True
        } else if str_eq(text, "false") {
            TokenKind::False
        } else if str_eq(text, "nil") {
            TokenKind::Nil
        } else {
            match parse_literal(text) {
                Some(n) => TokenKind::Number(n),
                None => TokenKind::Word,
            }
        };
        Token { text: String::from_str(text), kind }
    }
}

/// Brings in what each spelling that `classify` knows consists of.
proof fn reveal_spellings()
    ensures
        "+"@ == seq!['+'],
        "-"@ == seq!['-'],
        "*"@ == seq!['*'],
        "/"@ == seq!['/'],
        "%"@ == seq!['%'],
        "<"@ == seq!['<'],
        ">"@ == seq!['>'],
        "<="@ == seq!['<', '='],
        ">="@ == seq!['>', '='],
        "=="@ == seq!['=', '='],
        "!="@ == seq!['!', '='],
        "&&"@ == seq!['&', '&'],
        "and"@ == seq!['a', 'n', 'd'],
        "||"@ == seq!['|', '|'],
        "or"@ == seq!['o', 'r'],
        "!"@ == seq!['!'],
        "("@ == seq!['('],
        ")"@ == seq![')'],
        "["@ == seq!['['],
        "]"@ == seq![']'],
        ":"@ == seq![':'],
        "if"@ == seq!['i', 'f'],
        "then"@ == seq!['t', 'h', 'e', 'n'],
        "else"@ == seq!['e', 'l', 's', 'e'],
        "true"@ == seq!['t', 'r', 'u', 'e'],
        "false"@ == seq!['f', 'a', 'l', 's', 'e'],
        "nil"@ == seq!['n', 'i', 'l'],
{
    reveal_strlit("+");
    reveal_strlit("-");
    reveal_strlit("*");
    reveal_strlit("/");
    reveal_strlit("%");
    reveal_strlit("<");
    reveal_strlit(">");
    reveal_strlit("<=");
    reveal_strlit(">=");
    reveal_strlit("==");
    reveal_strlit("!=");
    reveal_strlit("&&");
    reveal_strlit("and");
    reveal_strlit("||");
    reveal_strlit("or");
    reveal_strlit("!");
    reveal_strlit("(");
    reveal_strlit(")");
    reveal_strlit("[");
    reveal_strlit("]");
    reveal_strlit(":");
    reveal_strlit("if");
    reveal_strlit("then");
    reveal_strlit("else");
    reveal_strlit("true");
    reveal_strlit("false");
    reveal_strlit("nil");
    assert("+"@ =~= seq!['+']);
    assert("-"@ =~= seq!['-']);
    assert("*"@ =~= seq!['*']);
    assert("/"@ =~= seq!['/']);
    assert("%"@ =~= seq!['%']);
    assert("<"@ =~= seq!['<']);
    assert(">"@ =~= seq!['>']);
    assert("<="@ =~= seq!['<', '=']);
    assert(">="@ =~= seq!['>', '=']);
    assert("=="@ =~= seq!['=', '=']);
    assert("!="@ =~= seq!['!', '=']);
    assert("&&"@ =~= seq!['&', '&']);
    assert("and"@ =~= seq!['a', 'n', 'd']);
    assert("||"@ =~= seq!['|', '|']);
    assert("or"@ =~= seq!['o', 'r']);
    assert("!"@ =~= seq!['!']);
    assert("("@ =~= seq!['(']);
    assert(")"@ =~= seq![')']);
    assert("["@ =~= seq!['[']);
    assert("]"@ =~= seq![']']);
    assert(":"@ =~= seq![':']);
    assert("if"@ =~= seq!['i', 'f']);
    assert("then"@ =~= seq!['t', 'h', 'e', 'n']);
    assert("else"@ =~= seq!['e', 'l', 's', 'e']);
    assert("true"@ =~= seq!['t', 'r', 'u', 'e']);
    assert("false"@ =~= seq!['f', 'a', 'l', 's', 'e']);
    assert("nil"@ =~= seq!['n', 'i', 'l']);
}

/// The numeral of a number is classified as that number.
pub proof fn lemma_numeral_is_a_number(n: i64)
    ensures
        classify(decimal(n as int)) == TokenKind::Number(n),
{
    reveal_spellings();
    lemma_numeral_reads_back(n);
    let s = decimal(n as int);
    if n < 0 {
        lemma_digits_denote((-n) as nat);
        assert(s[0] == '-');
        assert(s.len() >= 2);
    } else {
        lemma_digits_denote(n as nat);
        assert(is_digit(s[0]));
    }
}

/// The spellings of the operators and keywords are classified as such, each
/// as another kind than a number or a word.
pub proof fn lemma_spellings_are_classified()
    ensures
        classify("+"@) == TokenKind::Plus,
        classify("-"@) == TokenKind::Minus,
        classify("*"@) == TokenKind::Star,
        classify("/"@) == TokenKind::Slash,
        classify("%"@) == TokenKind::Percent,
        classify("<"@) == TokenKind::Lt,
        classify(">"@) == TokenKind::Gt,
        classify("<="@) == TokenKind::Lte,
        classify(">="@) == TokenKind::Gte,
        classify("=="@) == TokenKind::EqEq,
        classify("!="@) == TokenKind::NotEq,
        classify("&&"@) == TokenKind::And,
        classify("and"@) == TokenKind::And,
        classify("||"@) == TokenKind::Or,
        classify("or"@) == TokenKind::Or,
        classify("!"@) == TokenKind::Bang,
        classify("("@) == TokenKind::LParen,
        classify(")"@) == TokenKind::RParen,
        classify("["@) == TokenKind::LBracket,
        classify("]"@) == TokenKind::RBracket,
        classify(":"@) == TokenKind::Colon,
        classify("if"@) == TokenKind::If,
        classify("then"@) == TokenKind::Then,
        classify("else"@) == TokenKind::Else,
        classify("true"@) == TokenKind::True,
        classify("false"@) == TokenKind::False,
        classify("nil"@) == TokenKind::Nil,
{
    reveal_spellings();
}

} // verus!
