//! Regular expressions, as the `regex` crate matches them.
//!
//! Nothing here is proved: the two functions call into `regex`, and their
//! contracts only give names to what it returns. Whether `regex` accepts a
//! pattern is left open: it may depend on the machine.

use vstd::prelude::*;

verus! {

/// `regex::Error`: why a pattern was refused.
#[verifier::external_type_specification]
#[verifier::external_body]
pub struct ExRegexError(regex::Error);

/// What `regex` makes of `text` when every match of `pattern` in it is
/// replaced as `replacement` says. It means nothing where `regex` refuses the
/// pattern.
pub uninterp spec fn replaced(
    pattern: Seq<char>,
    text: Seq<char>,
    replacement: Seq<char>,
) -> Seq<char>;

/// The pieces of `text` between the matches of `pattern`, as `regex` splits
/// it. It means nothing where `regex` refuses the pattern.
pub uninterp spec fn fragments(pattern: Seq<char>, text: Seq<char>) -> Seq<Seq<char>>;

/// The texts that a sequence of strings holds, in order.
pub open spec fn texts_view(v: Seq<String>) -> Seq<Seq<char>> {
    Seq::new(v.len(), |i: int| v[i]@)
}

/// Compiles `pattern` with `regex::Regex::new` and calls
/// `regex::Regex::replace_all` on `text`, with `replacement` as the
/// replacement string (in which `$0` stands for the match).
///
/// Trusted: where the pattern is accepted, the result is what `regex`
/// computes from the three texts, which the contract only names, as
/// `replaced`. Nothing is said of which patterns are accepted.
#[verifier::external_body]
pub(crate) fn replace_all(pattern: &str, text: &str, replacement: &str) -> (r: Result<
    String,
    regex::Error,
>)
    ensures
        r is Ok ==> r->Ok_0@ == replaced(pattern@, text@, replacement@),
{
    let re = regex::Regex::new(pattern)?;
    Ok(re.replace_all(text, replacement).into_owned())
}

/// Compiles `pattern` with `regex::Regex::new` and calls `regex::Regex::split`
/// on `text`, collecting the pieces.
///
/// Trusted: where the pattern is accepted, the result is what `regex`
/// computes from the two texts, which the contract only names, as
/// `fragments`. Nothing is said of which patterns are accepted.
#[verifier::external_body]
pub(crate) fn split(pattern: &str, text: &str) -> (r: Result<Vec<String>, regex::Error>)
    ensures
        r is Ok ==> texts_view(r->Ok_0@) == fragments(pattern@, text@),
{
    let re = regex::Regex::new(pattern)?;
    Ok(re.split(text).map(|piece| piece.to_string()).collect())
}

} // verus!
