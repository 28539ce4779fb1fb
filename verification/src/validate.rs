//! Strict URL validation: a submitted target must parse as a well-formed
//! absolute URL before anything is stored. The parser also normalizes the
//! text, so the store holds the normalized serialization, not the raw input.

use vstd::prelude::*;

verus! {

/// Whether `url::Url::parse` accepts the string as an absolute URL.
pub uninterp spec fn url_parses(s: Seq<char>) -> bool;

/// The normalized serialization that the url crate produces for a string it
/// accepts. It depends on the input characters alone.
pub uninterp spec fn url_normalized(s: Seq<char>) -> Seq<char>;

/// Relies on url::Url::parse: it returns `Ok` exactly when the input is a
/// well-formed absolute URL, and the accepted URL's serialization is a
/// deterministic normalization of the input. A serialization always starts
/// with the URL's scheme, so it is never empty, and the empty string has no
/// scheme, so it never parses.
#[verifier::external_body]
pub(crate) fn normalize_url(s: &str) -> (r: Option<String>)
    ensures
        r is Some <==> url_parses(s@),
        r is Some ==> (r->0@ == url_normalized(s@) && r->0@.len() > 0),
        s@.len() == 0 ==> r is None,
{
    url::Url::parse(s).ok().map(String::from)
}

/// Validate a submitted target strictly. On success the result is the
/// normalized serialization — what a store binds a code to — and it is never
/// empty; on failure the target is not a well-formed absolute URL, and in
/// particular an empty submission always fails.
pub fn validate_url(target_url: &str) -> (r: Option<String>)
    ensures
        r is Some <==> url_parses(target_url@),
        r is Some ==> (r->0@ == url_normalized(target_url@) && r->0@.len() > 0),
        target_url@.len() == 0 ==> r is None,
{
    normalize_url(target_url)
}

} // verus!
