//! URLs, built with the url crate (through reqwest).
use vstd::prelude::*;

verus! {

/// The serialization of the URL that `Url::parse` reads from `s`; `None`
/// where it refuses `s`.
pub uninterp spec fn url_text(s: Seq<char>) -> Option<Seq<char>>;

/// The serialization of the URL that `Url::parse` reads from `s`, after
/// `query_pairs_mut().append_pair(key, value)`; `None` where `Url::parse`
/// refuses `s`.
pub uninterp spec fn url_with_pair(s: Seq<char>, key: Seq<char>, value: Seq<char>) -> Option<
    Seq<char>,
>;

/// Reads `s` with reqwest's `Url::parse` and writes it back with
/// `to_string`.
/// Trusted: the result is `url_text(s)`; what the url crate accepts and how
/// it normalizes a URL is not restated here.
#[verifier::external_body]
pub(crate) fn parse_url(s: &str) -> (r: Option<String>)
    requires
        s@.len() < 1_000_000_000,
    ensures
        match url_text(s@) {
            Some(t) => r matches Some(x) && x@ == t,
            None => r is None,
        },
{
    match reqwest::Url::parse(s) {
        Ok(u) => Some(u.to_string()),
        Err(_) => None,
    }
}

/// Reads `s` with reqwest's `Url::parse`, appends the query pair `key=value`
/// with `query_pairs_mut().append_pair` and writes the URL back with
/// `to_string`.
/// Trusted: the result is `url_with_pair(s, key, value)`; the encoding of
/// the pair and what the url crate accepts are not restated here. The
/// bound keeps the serialization (at most twelve bytes a character, once
/// percent-encoded) within the `u32` offsets that the url crate unwraps.
#[verifier::external_body]
pub(crate) fn append_query_pair(s: &str, key: &str, value: &str) -> (r: Option<String>)
    requires
        s@.len() + key@.len() + value@.len() < 350_000_000,
    ensures
        match url_with_pair(s@, key@, value@) {
            Some(t) => r matches Some(x) && x@ == t,
            None => r is None,
        },
{
    match reqwest::Url::parse(s) {
        Ok(mut u) => {
            u.query_pairs_mut().append_pair(key, value);
            Some(u.to_string())
        },
        Err(_) => None,
    }
}

} // verus!
