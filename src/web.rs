//! What the library takes from the `url` crate and from scraper's selector parser.
use vstd::prelude::*;

use crate::record::opt_str_view;

verus! {

/// The domain of `s` read as an absolute URL; none when `s` is no URL or its
/// host is an IP address.
pub uninterp spec fn url_domain(s: Seq<char>) -> Option<Seq<char>>;

/// `s` read as an absolute URL and written back in its normal form.
pub uninterp spec fn url_serialization(s: Seq<char>) -> Option<Seq<char>>;

/// The URL `base` with the query pair `key=value` appended, written in its normal form.
pub uninterp spec fn url_with_query(base: Seq<char>, key: Seq<char>, value: Seq<char>) -> Option<
    Seq<char>,
>;

/// Whether scraper accepts `s` as a CSS selector.
pub uninterp spec fn css_accepts(s: Seq<char>) -> bool;

/// Relies on `url::Url::parse` and `Url::domain`.
#[verifier::external_body]
pub(crate) fn domain_of(s: &str) -> (r: Option<String>)
    ensures
        opt_str_view(r) == url_domain(s@),
{
    url::Url::parse(s).ok().and_then(|u| u.domain().map(String::from))
}

/// Relies on `url::Url::parse` and on `String: From<Url>`, which gives the serialization.
#[verifier::external_body]
pub(crate) fn serialize_url(s: &str) -> (r: Option<String>)
    ensures
        opt_str_view(r) == url_serialization(s@),
{
    url::Url::parse(s).ok().map(String::from)
}

/// Relies on `url::Url::parse_with_params` with one pair, and on `String: From<Url>`.
/// The call fails only when `base` does not parse, and the store's search
/// endpoint is an absolute URL that parses.
#[verifier::external_body]
pub(crate) fn query_url(base: &str, key: &str, value: &str) -> (r: Option<String>)
    ensures
        opt_str_view(r) == url_with_query(base@, key@, value@),
        base@ == "https://www.flipkart.com/search?marketplace=FLIPKART"@ ==> r is Some,
{
    url::Url::parse_with_params(base, &[(key, value)]).ok().map(String::from)
}

/// Relies on `scraper::Selector::parse`: whether it returns `Ok`.
#[verifier::external_body]
pub(crate) fn selector_parses(s: &str) -> (r: bool)
    ensures
        r == css_accepts(s@),
{
    scraper::Selector::parse(s).is_ok()
}

} // verus!
