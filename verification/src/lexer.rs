//! From a line of text to tokens.
//!
//! A line holds one expression, or several with `;` between them. Each
//! segment is tokenized by itself: every operator, parenthesis and keyword in
//! it gets a space on both sides, and what stands between runs of spaces and
//! newlines is a token. This splits at a keyword's letters wherever they
//! occur, inside a longer word too.

use vstd::prelude::*;
use vstd::string::*;
use crate::parser::SyntaxError;
use crate::pattern::{fragments, replace_all, replaced, split, texts_view};
use crate::token::{token_of, tokens_view, SpecToken, Token};

verus! {

/// The spellings that are tokens wherever they occur. Of two that start at
/// the same place the one written first is taken.
pub const OPERATORS: &'static str =
    "<=|>=|==|!=|&&|\\|\\||\\+|-|\\*|/|%|<|>|\\(|\\)|!|and|or|if|then|else";

/// What separates tokens: a run of spaces, or a run of newlines.
pub const BLANKS: &'static str = " +|\n+";

/// A match, with a space on both sides.
pub const PADDED: &'static str = " $0 ";

/// The segments of `s` from `start` on, where the characters before `i`, from
/// `start`, hold no `;`.
pub open spec fn segments_from(s: Seq<char>, start: int, i: int) -> Seq<Seq<char>>
    decreases s.len() - i,
{
    if i >= s.len() {
        seq![s.subrange(start, s.len() as int)]
    } else if s[i] == ';' {
        seq![s.subrange(start, i)] + segments_from(s, i + 1, i + 1)
    } else {
        segments_from(s, start, i + 1)
    }
}

/// The texts between the `;` of a line: one more than it has `;`.
pub open spec fn segments(s: Seq<char>) -> Seq<Seq<char>> {
    segments_from(s, 0, 0)
}

/// The tokens that the pieces of a segment make: the empty pieces are
/// dropped, every other is classified by its spelling.
pub open spec fn spec_tokens(pieces: Seq<Seq<char>>) -> Seq<SpecToken>
    decreases pieces.len(),
{
    if pieces.len() == 0 {
        Seq::empty()
    } else if pieces.last().len() == 0 {
        spec_tokens(pieces.drop_last())
    } else {
        spec_tokens(pieces.drop_last()).push(token_of(pieces.last()))
    }
}

/// The tokens of a segment.
pub open spec fn lex(s: Seq<char>) -> Seq<SpecToken> {
    spec_tokens(fragments(BLANKS@, replaced(OPERATORS@, s, PADDED@)))
}

/// Splits a line at every `;`.
pub fn split_segments(line: &str) -> (r: Vec<String>)
    ensures
        texts_view(r@) == segments(line@),
{
    let n = line.unicode_len();
    let mut out: Vec<String> = Vec::new();
    let mut start: usize = 0;
    let mut i: usize = 0;
    assert(texts_view(out@) + segments_from(line@, 0, 0) =~= segments(line@));
    while i < n
        invariant
            n == line@.len(),
            0 <= start <= i <= n,
            segments(line@) == texts_view(out@) + segments_from(line@, start as int, i as int),
        decreases n - i,
    {
        if line.get_char(i) == ';' {
            let ghost before = texts_view(out@);
            let piece = String::from_str(line.substring_char(start, i));
            out.push(piece);
            proof {
                assert(texts_view(out@) =~= before.push(line@.subrange(start as int, i as int)));
                assert(before + (seq![line@.subrange(start as int, i as int)] + segments_from(
                    line@,
                    i + 1,
                    i + 1,
                )) =~= texts_view(out@) + segments_from(line@, i + 1, i + 1));
            }
            start = i + 1;
        }
        i = i + 1;
    }
    let ghost before = texts_view(out@);
    let piece = String::from_str(line.substring_char(start, n));
    out.push(piece);
    proof {
        assert(texts_view(out@) =~= before.push(line@.subrange(start as int, n as int)));
        assert(before + seq![line@.subrange(start as int, n as int)] =~= texts_view(out@));
    }
    out
}

/// Makes tokens of the pieces of a segment: drops the empty ones and
/// classifies every other by its spelling.
pub fn tokens_from_pieces(pieces: &Vec<String>) -> (r: Vec<Token>)
    ensures
        tokens_view(r@) == spec_tokens(texts_view(pieces@)),
{
    let ghost all = texts_view(pieces@);
    let mut out: Vec<Token> = Vec::new();
    let mut i: usize = 0;
    assert(all.take(0) =~= Seq::<Seq<char>>::empty());
    assert(tokens_view(out@) =~= spec_tokens(all.take(0)));
    while i < pieces.len()
        invariant
            all == texts_view(pieces@),
            0 <= i <= pieces.len(),
            tokens_view(out@) == spec_tokens(all.take(i as int)),
        decreases pieces.len() - i,
    {
        let ghost before = tokens_view(out@);
        let piece = pieces[i].as_str();
        proof {
            assert(all.take(i + 1).drop_last() =~= all.take(i as int));
            assert(all.take(i + 1).last() == piece@);
        }
        if piece.unicode_len() > 0 {
            out.push(Token::new(piece));
            assert(tokens_view(out@) =~= before.push(token_of(piece@)));
        }
        i = i + 1;
    }
    assert(all.take(i as int) =~= all);
    out
}

/// The tokens of one segment of a line.
///
/// Fails only with `SyntaxError::Pattern`: where `regex` refuses one of the
/// two patterns of the tokenizer.
pub fn tokenize(segment: &str) -> (r: Result<Vec<Token>, SyntaxError>)
    ensures
        (match r {
            Ok(tokens) => tokens_view(tokens@) == lex(segment@),
            Err(err) => err@ == SyntaxError::Pattern@,
        }),
{
    let padded = match replace_all(OPERATORS, segment, PADDED) {
        Ok(s) => s,
        Err(_) => {
            return Err(SyntaxError::Pattern);
        },
    };
    let pieces = match split(BLANKS, padded.as_str()) {
        Ok(v) => v,
        Err(_) => {
            return Err(SyntaxError::Pattern);
        },
    };
    Ok(tokens_from_pieces(&pieces))
}

/// Texts put together with a `;` between each two.
pub open spec fn joined(parts: Seq<Seq<char>>) -> Seq<char>
    decreases parts.len(),
{
    if parts.len() == 0 {
        Seq::empty()
    } else if parts.len() == 1 {
        parts[0]
    } else {
        parts[0] + seq![';'] + joined(parts.skip(1))
    }
}

/// Whether a text holds no `;`.
pub open spec fn holds_no_semicolon(s: Seq<char>) -> bool {
    forall|i: int| 0 <= i < s.len() ==> #[trigger] s[i] != ';'
}

/// The segments of a line are what stands between its `;`: none of them
/// holds a `;`, and put together with `;` between them they are the line.
/// There is always at least one.
pub proof fn lemma_segments_split_at_semicolons(s: Seq<char>)
    ensures
        segments(s).len() >= 1,
        forall|k: int| 0 <= k < segments(s).len() ==> holds_no_semicolon(#[trigger] segments(s)[k]),
        joined(segments(s)) == s,
{
    lemma_segments_from(s, 0, 0);
    assert(s.subrange(0, s.len() as int) =~= s);
}

proof fn lemma_segments_from(s: Seq<char>, start: int, i: int)
    requires
        0 <= start <= i <= s.len(),
        forall|j: int| start <= j < i ==> s[j] != ';',
    ensures
        segments_from(s, start, i).len() >= 1,
        forall|k: int|
            0 <= k < segments_from(s, start, i).len() ==> holds_no_semicolon(
                #[trigger] segments_from(s, start, i)[k],
            ),
        joined(segments_from(s, start, i)) == s.subrange(start, s.len() as int),
    decreases s.len() - i,
{
    if i >= s.len() {
    } else if s[i] == ';' {
        lemma_segments_from(s, i + 1, i + 1);
        let first = s.subrange(start, i);
        let rest = segments_from(s, i + 1, i + 1);
        let all = seq![first] + rest;
        assert(all.skip(1) =~= rest);
        assert(all[0] == first);
        assert(first + seq![';'] + s.subrange(i + 1, s.len() as int) =~= s.subrange(
            start,
            s.len() as int,
        ));
        assert forall|k: int| 0 <= k < all.len() implies holds_no_semicolon(#[trigger] all[k]) by {
            if k > 0 {
                assert(all[k] == rest[k - 1]);
            }
        }
    } else {
        lemma_segments_from(s, start, i + 1);
    }
}

/// No token is empty, and each is of the kind that its spelling stands for.
pub proof fn lemma_tokens_are_classified(pieces: Seq<Seq<char>>)
    ensures
        spec_tokens(pieces).len() <= pieces.len(),
        forall|i: int|
            0 <= i < spec_tokens(pieces).len() ==> (#[trigger] spec_tokens(pieces)[i]).text.len()
                > 0 && spec_tokens(pieces)[i] == token_of(spec_tokens(pieces)[i].text),
    decreases pieces.len(),
{
    if pieces.len() > 0 {
        lemma_tokens_are_classified(pieces.drop_last());
    }
}

} // verus!
