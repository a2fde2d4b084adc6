//! Percent escapes in the segments of a path.

use vstd::prelude::*;

verus! {

/// A path segment with its percent escapes resolved, where the result is
/// UTF-8.
pub uninterp spec fn spec_url_decode(text: Seq<char>) -> Option<Seq<char>>;

/// Calls `urlencoding::decode`. Assumed: the outcome depends on the text
/// alone.
#[verifier::external_body]
pub(crate) fn url_decode(text: &str) -> (decoded: Option<String>)
    ensures
        match decoded {
            Some(d) => spec_url_decode(text@) == Some(d@),
            None => spec_url_decode(text@) is None,
        },
{
    match urlencoding::decode(text) {
        Ok(decoded) => Some(decoded.into_owned()),
        Err(_) => None,
    }
}

/// A text with every byte but letters, digits, `-`, `_`, `.` and `~` written
/// as a percent escape.
pub uninterp spec fn spec_url_encode(text: Seq<char>) -> Seq<char>;

/// Calls `urlencoding::encode`. Assumed: the result depends on the text
/// alone.
#[verifier::external_body]
pub(crate) fn url_encode(text: &str) -> (encoded: String)
    ensures
        encoded@ == spec_url_encode(text@),
{
    urlencoding::encode(text).into_owned()
}

} // verus!
