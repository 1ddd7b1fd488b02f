//! The fixed request headers that a page fetch sends.
use vstd::prelude::*;

use crate::dom::{chars_of, string_of};

verus! {

/// The headers of every fetch, as name and value: a desktop browser's user
/// agent, English as the preferred language, and HTML, XML and images as
/// accepted types.
pub open spec fn header_pairs() -> Seq<(Seq<char>, Seq<char>)> {
    seq![
        ("user-agent"@, "Mozilla/5.0 (X11; Linux x86_64; rv:109.0) Gecko/20100101 Firefox/118.0"@),
        ("accept-language"@, "en-US,en;q=0.5"@),
        ("accept"@, "text/html,application/xhtml+xml,application/xml;q=0.9,image/avif,image/webp,*/*;q=0.8"@),
    ]
}

fn pair(name: &str, value: &str) -> (r: (String, String))
    ensures
        r.0@ == name@,
        r.1@ == value@,
{
    (string_of(&chars_of(name)), string_of(&chars_of(value)))
}

/// The headers of every fetch.
pub fn build_headers() -> (r: Vec<(String, String)>)
    ensures
        r@.len() == 3,
        forall|i: int|
            0 <= i < 3 ==> (#[trigger] r@[i]).0@ == header_pairs()[i].0 && r@[i].1@
                == header_pairs()[i].1,
{
    let mut r: Vec<(String, String)> = Vec::new();
    r.push(pair("user-agent", "Mozilla/5.0 (X11; Linux x86_64; rv:109.0) Gecko/20100101 Firefox/118.0"));
    r.push(pair("accept-language", "en-US,en;q=0.5"));
    r.push(
        pair(
            "accept",
            "text/html,application/xhtml+xml,application/xml;q=0.9,image/avif,image/webp,*/*;q=0.8",
        ),
    );
    r
}

} // verus!
