//! The token that a helper program prints.

use vstd::prelude::*;

verus! {

/// A text without the white space at its two ends.
pub uninterp spec fn trimmed(s: Seq<char>) -> Seq<char>;

/// `str::trim`: the slice that is left without leading and trailing white
/// space. The result is held to be a function of the text alone.
#[verifier::external_body]
fn trim(s: &str) -> (r: &str)
    ensures
        r@ == trimmed(s@),
{
    s.trim()
}

/// A text as a token: the empty text is none.
pub open spec fn token_of(text: Seq<char>) -> Option<Seq<char>> {
    if text.len() > 0 {
        Some(text)
    } else {
        None
    }
}

/// The text as a token, unless it is empty.
pub fn non_empty_token(text: &str) -> (r: Option<String>)
    ensures
        r.deep_view() == token_of(text@),
{
    let token = text.to_owned();
    if token.as_str().is_empty() {
        None
    } else {
        Some(token)
    }
}

/// The token in what a helper program printed: its output without the white
/// space around it, unless nothing is left.
pub fn token_from_helper_output(output: &str) -> (r: Option<String>)
    ensures
        r.deep_view() == token_of(trimmed(output@)),
{
    non_empty_token(trim(output))
}

} // verus!
